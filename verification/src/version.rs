//! Version texts.

use vstd::prelude::*;

use crate::text;
use crate::text::{chars_of, rfind_char, text_of};

verus! {

/// The version text of the scheme-based core.
pub fn odop_version(core: &str) -> (text: String)
    ensures
        text@ == "opendalfs-core "@ + core@ + " (opendal 0.57)"@,
{
    let mut text: String = "opendalfs-core ".to_owned();
    text.append(core);
    text.append(" (opendal 0.57)");
    text
}

/// The commit that a locked package's source names: what follows the last `#` of
/// a source under version control, if anything does.
pub open spec fn commit_of(source: Seq<char>) -> Option<Seq<char>> {
    match text::last_index(source, '#') {
        Some(i) if source.len() >= 4 && source.take(4) == seq!['g', 'i', 't', '+'] && i + 1
            < source.len() => Some(source.skip(i + 1)),
        _ => None,
    }
}

/// The first seven characters of a commit, or all of it.
pub open spec fn short(commit: Seq<char>) -> Seq<char> {
    if commit.len() > 7 {
        commit.take(7)
    } else {
        commit
    }
}

/// The version text of a locked package.
pub open spec fn locked_text(version: Seq<char>, source: Option<Seq<char>>) -> Seq<char> {
    match source {
        Some(source) => match commit_of(source) {
            Some(commit) => version + " (git "@ + short(commit) + ")"@,
            None => version,
        },
        None => version,
    }
}

fn short_commit(source: &str) -> (commit: Option<String>)
    ensures
        match commit_of(source@) {
            Some(commit_text) => commit matches Some(c) && c@ == short(commit_text),
            None => commit is None,
        },
{
    let chars: Vec<char> = chars_of(source);
    let len: usize = chars.len();
    if len < 4 || chars[0] != 'g' || chars[1] != 'i' || chars[2] != 't' || chars[3] != '+' {
        assert(source@.len() >= 4 ==> source@.take(4)[0] == source@[0]);
        assert(source@.len() >= 4 ==> source@.take(4)[1] == source@[1]);
        assert(source@.len() >= 4 ==> source@.take(4)[2] == source@[2]);
        assert(source@.len() >= 4 ==> source@.take(4)[3] == source@[3]);
        return None;
    }
    assert(source@.take(4) =~= seq!['g', 'i', 't', '+']);
    assert(chars@.take(len as int) =~= chars@);
    match rfind_char(&chars, len, '#') {
        Some(i) => if i + 1 < len {
            let end: usize = if len - (i + 1) > 7 {
                i + 8
            } else {
                len
            };
            let commit: String = text_of(&chars, i + 1, end);
            assert(commit@ =~= short(source@.skip(i + 1)));
            Some(commit)
        } else {
            None
        },
        None => None,
    }
}

/// The version text of a locked package: its version, with the short commit where
/// its source is under version control.
pub fn locked_version(version: &str, source: Option<&str>) -> (text: String)
    ensures
        text@ == locked_text(
            version@,
            match source {
                Some(source) => Some(source@),
                None => None,
            },
        ),
{
    let mut text: String = version.to_owned();
    match source {
        Some(source) => match short_commit(source) {
            Some(commit) => {
                text.append(" (git ");
                text.append(commit.as_str());
                text.append(")");
            },
            None => {},
        },
        None => {},
    }
    text
}

} // verus!
