//! URLs of stored objects: `scheme://authority/path`.

use vstd::prelude::*;
use vstd::utf8::*;

use crate::error::{Failure, OdErrorCode};
use crate::ffi::{cstr, CText};
use crate::percent;
use crate::percent::encode_path;
use crate::schemes;
use crate::schemes::{contains_scheme, current_schemes};
use crate::text;
use crate::text::{chars_of, find_text, has_char, lower_chars, text_of};

verus! {

/// The parts of a resolved URL, or why it was refused.
pub enum Resolved {
    /// Scheme, authority and operation path.
    Parts(Seq<char>, Seq<char>, Seq<char>),
    /// Category and message.
    Refused(OdErrorCode, Seq<char>),
}

/// The part of `s` before the first `separator`, or all of it.
pub open spec fn before_first(s: Seq<char>, separator: Seq<char>) -> Seq<char> {
    match text::first_index_of(s, separator) {
        Some(i) => s.take(i),
        None => s,
    }
}

/// The part of `s` after the first `separator`, or nothing.
pub open spec fn after_first(s: Seq<char>, separator: Seq<char>) -> Seq<char> {
    match text::first_index_of(s, separator) {
        Some(i) => s.skip(i + separator.len()),
        None => Seq::empty(),
    }
}

/// What ends the scheme of a URL.
pub open spec fn scheme_mark() -> Seq<char> {
    seq![':', '/', '/']
}

/// The scheme of a URL.
pub open spec fn scheme_part(url: Seq<char>) -> Seq<char> {
    text::lower(before_first(url, scheme_mark()))
}

/// The authority of a URL.
pub open spec fn authority_part(url: Seq<char>) -> Seq<char> {
    before_first(after_first(url, scheme_mark()), seq!['/'])
}

/// The operation path of a URL, as it is written.
pub open spec fn path_part(url: Seq<char>) -> Seq<char> {
    after_first(after_first(url, scheme_mark()), seq!['/'])
}

/// What a URL resolves to while services are registered under `registered`.
pub open spec fn resolved(url: Option<Seq<char>>, registered: Seq<Seq<char>>) -> Resolved {
    match url {
        None => Resolved::Refused(OdErrorCode::InvalidInput, "url is null or not UTF-8"@),
        Some(url) => {
            let scheme = scheme_part(url);
            let authority = authority_part(url);
            let encoded = path_part(url);
            if url.contains('?') || url.contains('#') {
                Resolved::Refused(
                    OdErrorCode::InvalidInput,
                    "query strings and fragments are not supported in OpenDAL file URLs"@,
                )
            } else if text::first_index_of(url, scheme_mark()) is None {
                Resolved::Refused(
                    OdErrorCode::InvalidInput,
                    "url must use scheme://authority/path syntax"@,
                )
            } else if !registered.contains(scheme) {
                Resolved::Refused(
                    OdErrorCode::Unsupported,
                    "scheme '"@ + scheme + "' is not registered"@,
                )
            } else if authority.contains('@') {
                Resolved::Refused(
                    OdErrorCode::InvalidInput,
                    "userinfo is not supported in OpenDAL file URLs"@,
                )
            } else if text::first_index_of(text::lower(encoded), seq!['%', '2', 'f']) is Some {
                Resolved::Refused(
                    OdErrorCode::InvalidInput,
                    "percent-encoded path separators are not supported"@,
                )
            } else {
                match percent::decoded(encoded) {
                    None => Resolved::Refused(
                        OdErrorCode::InvalidInput,
                        "operation path is not valid UTF-8"@,
                    ),
                    Some(path) => if path.contains('\0') {
                        Resolved::Refused(
                            OdErrorCode::InvalidInput,
                            "operation path contains a NUL byte"@,
                        )
                    } else {
                        Resolved::Parts(scheme, authority, path)
                    },
                }
            }
        },
    }
}

/// Whether an outcome is what a URL resolves to.
pub open spec fn is_resolved(
    outcome: Result<(String, String, String), Failure>,
    expected: Resolved,
) -> bool {
    match (outcome, expected) {
        (Ok(parts), Resolved::Parts(scheme, authority, path)) => {
            &&& parts.0@ == scheme
            &&& parts.1@ == authority
            &&& parts.2@ == path
        },
        (Err(failure), Resolved::Refused(code, message)) => failure.is(code, message),
        _ => false,
    }
}

/// Resolve a URL into scheme, authority and operation path while services are
/// registered under `registered`.
pub fn resolve_with(url: &CText, registered: &Vec<String>) -> (parts: Result<
    (String, String, String),
    Failure,
>)
    ensures
        is_resolved(parts, resolved(url.text(), schemes::texts(registered@))),
{
    let url: &String = match cstr(url) {
        Some(url) => url,
        None => {
            return Err(Failure::new(OdErrorCode::InvalidInput, "url is null or not UTF-8"));
        },
    };
    if has_char(url.as_str(), '?') || has_char(url.as_str(), '#') {
        return Err(
            Failure::new(
                OdErrorCode::InvalidInput,
                "query strings and fragments are not supported in OpenDAL file URLs",
            ),
        );
    }
    let chars: Vec<char> = chars_of(url.as_str());
    let separator: Vec<char> = vec![':', '/', '/'];
    assert(separator@ =~= scheme_mark());
    let at: usize = match find_text(&chars, &separator) {
        Some(at) => at,
        None => {
            return Err(
                Failure::new(
                    OdErrorCode::InvalidInput,
                    "url must use scheme://authority/path syntax",
                ),
            );
        },
    };
    let written: Vec<char> = chars_of(text_of(&chars, 0, at).as_str());
    assert(written@ =~= chars@.take(at as int));
    let small: Vec<char> = lower_chars(&written);
    let scheme: String = text_of(&small, 0, small.len());
    assert(scheme@ =~= scheme_part(url@));
    if !contains_scheme(registered, scheme.as_str()) {
        let mut message: String = "scheme '".to_owned();
        message.append(scheme.as_str());
        message.append("' is not registered");
        return Err(Failure { code: OdErrorCode::Unsupported, message });
    }
    let len: usize = chars.len();
    let remainder: Vec<char> = chars_of(text_of(&chars, at + 3, len).as_str());
    assert(remainder@ =~= chars@.skip(at + 3));
    let slash: Vec<char> = vec!['/'];
    assert(slash@ =~= seq!['/']);
    let (authority, encoded): (String, String) = match find_text(&remainder, &slash) {
        Some(k) => (text_of(&remainder, 0, k), text_of(&remainder, k + 1, remainder.len())),
        None => (text_of(&remainder, 0, remainder.len()), String::new()),
    };
    assert(authority@ =~= authority_part(url@));
    assert(encoded@ =~= path_part(url@));
    if has_char(authority.as_str(), '@') {
        return Err(
            Failure::new(
                OdErrorCode::InvalidInput,
                "userinfo is not supported in OpenDAL file URLs",
            ),
        );
    }
    let escape: Vec<char> = vec!['%', '2', 'f'];
    assert(escape@ =~= seq!['%', '2', 'f']);
    if find_text(&lower_chars(&chars_of(encoded.as_str())), &escape).is_some() {
        return Err(
            Failure::new(
                OdErrorCode::InvalidInput,
                "percent-encoded path separators are not supported",
            ),
        );
    }
    match percent::decode(encoded.as_str()) {
        None => Err(Failure::new(OdErrorCode::InvalidInput, "operation path is not valid UTF-8")),
        Some(path) => if has_char(path.as_str(), '\0') {
            Err(Failure::new(OdErrorCode::InvalidInput, "operation path contains a NUL byte"))
        } else {
            Ok((scheme, authority, path))
        },
    }
}

/// Resolve a URL into registered scheme, authority and operation path.
pub fn resolve(url: &CText) -> (parts: Result<(String, String, String), Failure>)
    ensures
        exists|registered: Seq<Seq<char>>|
            schemes::strictly_ascending(registered) && schemes::can_be_registered(registered)
                && is_resolved(parts, #[trigger] resolved(url.text(), registered)),
{
    let registered: Vec<String> = current_schemes();
    resolve_with(url, &registered)
}

/// Resolve a URL for a caller.  `has_outputs` says whether there is a place for
/// each of the parts.
pub fn od_url_resolve(url: &CText, has_outputs: bool) -> (parts: Result<
    (String, String, String),
    Failure,
>)
    ensures
        if has_outputs {
            exists|registered: Seq<Seq<char>>|
                schemes::strictly_ascending(registered) && schemes::can_be_registered(registered)
                    && is_resolved(parts, #[trigger] resolved(url.text(), registered))
        } else {
            parts matches Err(e) && e.is(OdErrorCode::InvalidInput, "null resolved-url output"@)
        },
{
    if !has_outputs {
        return Err(Failure::new(OdErrorCode::InvalidInput, "null resolved-url output"));
    }
    resolve(url)
}

/// What a URL under a built-in scheme resolves to does not depend on what else is
/// registered, and its scheme is never refused.
pub proof fn law_built_in_schemes_resolve(
    url: Seq<char>,
    registered: Seq<Seq<char>>,
    others: Seq<Seq<char>>,
)
    requires
        schemes::is_built_in(scheme_part(url)),
        schemes::can_be_registered(registered),
        schemes::can_be_registered(others),
    ensures
        resolved(Some(url), registered) == resolved(Some(url), others),
        !(resolved(Some(url), registered) matches Resolved::Refused(code, _) && code
            == OdErrorCode::Unsupported),
{
    assert(registered.contains(scheme_part(url)));
    assert(others.contains(scheme_part(url)));
}

/// The URL of a path: scheme, authority and the path's written form.
pub open spec fn built(scheme: Seq<char>, authority: Seq<char>, path: Seq<char>) -> Seq<char> {
    scheme + scheme_mark() + authority + seq!['/'] + percent::escaped(encode_utf8(path))
}

/// Build a URL.  There is none where a part is missing or where the URL could
/// not be handed over as a C string.
pub fn od_url_build(scheme: &CText, authority: &CText, path: &CText) -> (url: Option<String>)
    ensures
        match (scheme.text(), authority.text(), path.text()) {
            (Some(s), Some(a), Some(p)) => {
                &&& url is None <==> s.contains('\0') || a.contains('\0')
                &&& url matches Some(u) ==> u@ == built(s, a, p)
            },
            _ => url is None,
        },
{
    let scheme: &String = match cstr(scheme) {
        Some(scheme) => scheme,
        None => {
            return None;
        },
    };
    let authority: &String = match cstr(authority) {
        Some(authority) => authority,
        None => {
            return None;
        },
    };
    let path: &String = match cstr(path) {
        Some(path) => path,
        None => {
            return None;
        },
    };
    let mut url: String = scheme.clone();
    url.append("://");
    url.append(authority.as_str());
    url.append("/");
    url.append(encode_path(path.as_str()).as_str());
    proof {
        reveal_strlit("://");
        reveal_strlit("/");
        assert("://"@ =~= scheme_mark());
        assert("/"@ =~= seq!['/']);
        lemma_built_nul(scheme@, authority@, path@);
    }
    if has_char(url.as_str(), '\0') {
        None
    } else {
        Some(url)
    }
}

/// A built URL holds a NUL exactly where its scheme or authority does.
proof fn lemma_built_nul(scheme: Seq<char>, authority: Seq<char>, path: Seq<char>)
    ensures
        built(scheme, authority, path).contains('\0') <==> scheme.contains('\0')
            || authority.contains('\0'),
{
    let url = built(scheme, authority, path);
    let tail = percent::escaped(encode_utf8(path));
    percent::law_escaped_characters(encode_utf8(path));
    let n = scheme.len() as int;
    let m = authority.len() as int;
    if url.contains('\0') {
        let i = choose|i: int| 0 <= i < url.len() && url[i] == '\0';
        if i >= n + m + 4 {
            assert(url[i] == tail[i - (n + m + 4)]);
        } else if i < n {
            assert(scheme[i] == '\0');
        } else if n + 3 <= i < n + 3 + m {
            assert(authority[i - (n + 3)] == '\0');
        }
    }
    if scheme.contains('\0') {
        let i = choose|i: int| 0 <= i < scheme.len() && scheme[i] == '\0';
        assert(url[i] == '\0');
    }
    if authority.contains('\0') {
        let i = choose|i: int| 0 <= i < authority.len() && authority[i] == '\0';
        assert(url[i + n + 3] == '\0');
    }
}

/// Resolving a built URL gives back the parts it was built from.
///
/// This holds of a registered scheme in small letters without `://`, a scheme and
/// an authority that keep clear of the characters with a meaning in URLs, and any
/// path that a C string can hold.
pub proof fn law_built_urls_resolve(
    scheme: Seq<char>,
    authority: Seq<char>,
    path: Seq<char>,
    registered: Seq<Seq<char>>,
)
    requires
        registered.contains(scheme),
        text::lower(scheme) == scheme,
        text::first_index_of(scheme, scheme_mark()) is None,
        !scheme.contains('?'),
        !scheme.contains('#'),
        !authority.contains('/'),
        !authority.contains('?'),
        !authority.contains('#'),
        !authority.contains('@'),
        !path.contains('\0'),
    ensures
        resolved(Some(built(scheme, authority, path)), registered) == Resolved::Parts(
            scheme,
            authority,
            path,
        ),
{
    let url = built(scheme, authority, path);
    let mark = scheme_mark();
    let slash = seq!['/'];
    let tail = percent::escaped(encode_utf8(path));
    let n = scheme.len() as int;
    let m = authority.len() as int;
    percent::law_escaped_characters(encode_utf8(path));
    percent::law_encoded_paths_decode(path);
    assert forall|i: int| 0 <= i < url.len() implies url[i] != '?' && url[i] != '#' by {
        if i < n {
            assert(scheme.contains(url[i]));
        } else if n + 3 <= i < n + 3 + m {
            assert(authority.contains(authority[i - n - 3]));
            assert(url[i] == authority[i - n - 3]);
        } else if i >= n + m + 4 {
            assert(url[i] == tail[i - (n + m + 4)]);
        }
    }
    assert(url.subrange(n, n + 3) =~= mark);
    text::lemma_first_index_of(scheme, mark);
    assert forall|j: int| 0 <= j < n implies !(#[trigger] text::occurs_at(url, mark, j)) by {
        if text::occurs_at(url, mark, j) {
            if j + 3 <= n {
                assert(scheme.subrange(j, j + 3) =~= url.subrange(j, j + 3));
                assert(text::occurs_at(scheme, mark, j));
            } else {
                assert(url.subrange(j, j + 3)[n - j] == url[n]);
            }
        }
    }
    text::lemma_first_index_is(url, mark, n);
    assert(url.take(n) =~= scheme);
    let rest = url.skip(n + 3);
    assert(rest =~= authority + slash + tail);
    assert(rest.subrange(m, m + 1) =~= slash);
    assert forall|j: int| 0 <= j < m implies !(#[trigger] text::occurs_at(rest, slash, j)) by {
        if text::occurs_at(rest, slash, j) {
            assert(rest.subrange(j, j + 1)[0] == rest[j]);
            assert(authority[j] == '/');
        }
    }
    text::lemma_first_index_is(rest, slash, m);
    assert(rest.take(m) =~= authority);
    assert(rest.skip(m + 1) =~= tail);
    let small = text::lower(tail);
    let escape = seq!['%', '2', 'f'];
    assert forall|j: int| !(#[trigger] text::occurs_at(small, escape, j)) by {
        if text::occurs_at(small, escape, j) {
            assert(small.subrange(j, j + 3)[0] == small[j]);
            assert(small.subrange(j, j + 3)[1] == small[j + 1]);
            assert(small.subrange(j, j + 3)[2] == small[j + 2]);
            assert(tail[j] == '%');
            assert(tail[j + 1] == '2');
            assert(tail[j + 2] == 'F' || tail[j + 2] == 'f');
        }
    }
    text::lemma_first_index_none(small, escape);
}

} // verus!
