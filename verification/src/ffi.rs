//! Text handed over by a C caller.
//!
//! A C string may be absent or may hold bytes that are not UTF-8.  Everything
//! past the boundary works on decoded text, so the three cases are told apart
//! here once.

use vstd::prelude::*;

use crate::text;
use crate::text::{decimal_text, has_char};

verus! {

/// A C string as received: null, undecodable, or text.
pub enum CText {
    /// The pointer was null.
    Null,
    /// The bytes were not valid UTF-8.
    NotUtf8,
    /// The decoded text.
    Text(String),
}

impl CText {
    /// The text, where there is any.
    pub open spec fn text(self) -> Option<Seq<char>> {
        match self {
            CText::Text(text) => Some(text@),
            _ => None,
        }
    }
}

/// Decode a C string: its text, or `None` when null or not UTF-8.
pub fn cstr<'a>(p: &'a CText) -> (text: Option<&'a String>)
    ensures
        text is Some <==> p.text() is Some,
        text matches Some(s) ==> p.text() == Some(s@),
{
    match p {
        CText::Text(text) => Some(text),
        _ => None,
    }
}

/// A C string that may be left out: null means absent, while bytes that are
/// not UTF-8 are an error that names the argument.
pub fn optional_cstr(p: &CText, name: &str) -> (text: Result<Option<String>, String>)
    ensures
        match p {
            CText::Null => text == Ok::<Option<String>, String>(None),
            CText::NotUtf8 => text matches Err(message) && message@ == name@ + " is not UTF-8"@,
            CText::Text(given) => text matches Ok(Some(s)) && s@ == given@,
        },
{
    match p {
        CText::Null => Ok(None),
        CText::NotUtf8 => {
            let mut message: String = name.to_owned();
            message.append(" is not UTF-8");
            Err(message)
        },
        CText::Text(text) => Ok(Some(text.clone())),
    }
}

/// Text as a C string, which is empty where the text holds a NUL.
pub open spec fn c_text(s: Seq<char>) -> Seq<char> {
    if s.contains('\0') {
        Seq::empty()
    } else {
        s
    }
}

/// Text as a C string.
pub fn as_c_text(s: String) -> (text: String)
    ensures
        text@ == c_text(s@),
{
    if has_char(s.as_str(), '\0') {
        String::new()
    } else {
        s
    }
}

/// The pairs that `keys` and `values` spell, where every one of them decodes.
pub open spec fn pairs_of(keys: Seq<CText>, values: Seq<CText>) -> Seq<(Seq<char>, Seq<char>)> {
    Seq::new(
        keys.len(),
        |i: int| (keys[i].text().unwrap_or(Seq::empty()), values[i].text().unwrap_or(Seq::empty())),
    )
}

/// Whether the pair at `i` decodes.
pub open spec fn pair_decodes(keys: Seq<CText>, values: Seq<CText>, i: int) -> bool {
    keys[i].text() is Some && values[i].text() is Some
}

/// Whether the pair at `i` is the first that does not decode.
pub open spec fn first_undecodable(keys: Seq<CText>, values: Seq<CText>, i: int) -> bool {
    &&& 0 <= i < keys.len()
    &&& !pair_decodes(keys, values, i)
    &&& forall|j: int| 0 <= j < i ==> #[trigger] pair_decodes(keys, values, j)
}

/// What is said of a pair that does not decode.
pub open spec fn pair_error(keys: Seq<CText>, values: Seq<CText>, i: int) -> Seq<char> {
    match keys[i].text() {
        None => "key #"@ + text::decimal(i as nat) + " invalid"@,
        Some(key) => "value for '"@ + key + "' invalid"@,
    }
}

/// The views of a list of pairs.
pub open spec fn pair_views(pairs: Seq<(String, String)>) -> Seq<(Seq<char>, Seq<char>)> {
    Seq::new(pairs.len(), |i: int| (pairs[i].0@, pairs[i].1@))
}

/// Collect parallel arrays of C strings into pairs.  The arrays are given as
/// `None` when their pointer was null.  The first pair that does not decode is
/// reported.
pub fn collect_pairs(
    keys: Option<&Vec<CText>>,
    values: Option<&Vec<CText>>,
    len: usize,
) -> (pairs: Result<Vec<(String, String)>, String>)
    requires
        keys matches Some(k) ==> k@.len() == len,
        values matches Some(v) ==> v@.len() == len,
    ensures
        len == 0 ==> (pairs matches Ok(p) && p@.len() == 0),
        len > 0 && (keys is None || values is None) ==> (pairs matches Err(e) && e@
            == "keys/values null with len > 0"@),
        len > 0 && keys is Some && values is Some ==> {
            let k = keys->0@;
            let v = values->0@;
            match pairs {
                Ok(p) => {
                    &&& forall|i: int| 0 <= i < len ==> #[trigger] pair_decodes(k, v, i)
                    &&& pair_views(p@) == pairs_of(k, v)
                },
                Err(e) => exists|i: int|
                    #[trigger] first_undecodable(k, v, i) && e@ == pair_error(k, v, i),
            }
        },
{
    let mut out: Vec<(String, String)> = Vec::new();
    if len == 0 {
        return Ok(out);
    }
    let (names, texts) = match (keys, values) {
        (Some(names), Some(texts)) => (names, texts),
        _ => {
            return Err("keys/values null with len > 0".to_owned());
        },
    };
    let mut i: usize = 0;
    while i < len
        invariant
            i <= len,
            keys == Some(names),
            values == Some(texts),
            names@.len() == len,
            texts@.len() == len,
            out@.len() == i,
            forall|j: int| 0 <= j < i ==> #[trigger] pair_decodes(names@, texts@, j),
            forall|j: int|
                0 <= j < i ==> #[trigger] pair_views(out@)[j] == pairs_of(names@, texts@)[j],
        decreases len - i,
    {
        let key: &String = match cstr(&names[i]) {
            Some(key) => key,
            None => {
                let mut message: String = "key #".to_owned();
                message.append(decimal_text(i as u64).as_str());
                message.append(" invalid");
                assert(first_undecodable(keys->0@, values->0@, i as int));
                assert(message@ == pair_error(keys->0@, values->0@, i as int));
                return Err(message);
            },
        };
        let value: &String = match cstr(&texts[i]) {
            Some(value) => value,
            None => {
                let mut message: String = "value for '".to_owned();
                message.append(key.as_str());
                message.append("' invalid");
                assert(first_undecodable(keys->0@, values->0@, i as int));
                assert(message@ == pair_error(keys->0@, values->0@, i as int));
                return Err(message);
            },
        };
        let ghost before = out@;
        out.push((key.clone(), value.clone()));
        assert forall|j: int| 0 <= j < i + 1 implies #[trigger] pair_views(out@)[j] == pairs_of(
            names@,
            texts@,
        )[j] by {
            if j < i {
                assert(pair_views(before)[j] == pair_views(out@)[j]);
            }
        }
        i += 1;
    }
    assert(pair_views(out@) =~= pairs_of(names@, texts@));
    Ok(out)
}

} // verus!
