//! URLs and the written form of paths.

use vstd::prelude::*;
use vstd::utf8::*;

use crate::error::Failure;
use crate::ffi::CText;
use crate::percent;
use crate::schemes;
use crate::text;
use crate::uri;
use crate::utf8;

verus! {

/// The written form of two paths in a row is their written forms in a row.
pub proof fn law_paths_are_written_piece_by_piece(
    a: &str,
    b: &str,
    both: &str,
    of_a: String,
    of_b: String,
    of_both: String,
)
    requires
        both@ == a@ + b@,
        call_ensures(percent::encode_path, (a,), of_a),
        call_ensures(percent::encode_path, (b,), of_b),
        call_ensures(percent::encode_path, (both,), of_both),
    ensures
        of_both@ == of_a@ + of_b@,
{
    utf8::lemma_encode_concat(a@, b@);
    lemma_escaped_concat(encode_utf8(a@), encode_utf8(b@));
}

proof fn lemma_escaped_concat(a: Seq<u8>, b: Seq<u8>)
    ensures
        percent::escaped(a + b) == percent::escaped(a) + percent::escaped(b),
    decreases a.len(),
{
    if a.len() == 0 {
        assert(a + b =~= b);
        assert(percent::escaped(a) + percent::escaped(b) =~= percent::escaped(b));
    } else {
        lemma_escaped_concat(a.skip(1), b);
        assert((a + b).skip(1) =~= a.skip(1) + b);
        let head = if percent::keeps(a[0]) {
            seq![a[0] as char]
        } else {
            percent::escape(a[0])
        };
        assert(head + (percent::escaped(a.skip(1)) + percent::escaped(b)) =~= (head
            + percent::escaped(a.skip(1))) + percent::escaped(b));
    }
}

/// A character of the ASCII range is written as it is, unless it is a control
/// character, white space or one of `"`, `#`, `%` and `?`.  Those are written as a `%`
/// and two digits of base sixteen.
pub proof fn law_characters_are_written(path: &str, written: String, c: char)
    requires
        call_ensures(percent::encode_path, (path,), written),
        path@ == seq![c],
        c as u32 <= 0x7f,
    ensures
        ({
            let kept = 32 < c as u32 && (c as u32) < 127 && c != '"' && c != '#' && c != '%' && c
                != '?';
            &&& kept ==> written@ == seq![c]
            &&& !kept ==> {
                &&& written@.len() == 3
                &&& written@[0] == '%'
                &&& 16 * hex(written@[1]) + hex(written@[2]) == c as u32
                &&& hex(written@[1]) < 16 && hex(written@[2]) < 16
            }
        }),
{
    utf8::lemma_encode_ascii_char(c);
    let bytes = encode_utf8(path@);
    assert(path@.drop_first() =~= Seq::<char>::empty());
    assert(encode_utf8(Seq::<char>::empty()) =~= Seq::<u8>::empty());
    assert(bytes =~= seq![c as u8]);
    assert(bytes.skip(1) =~= Seq::<u8>::empty());
    assert(percent::escaped(Seq::<u8>::empty()) =~= Seq::<char>::empty());
    let b = c as u8;
    let high = b as int / 16;
    let low = b as int % 16;
    assert(0 <= high < 16 && 0 <= low < 16);
    if percent::keeps(b) {
        assert(b as char == c);
        assert(written@ =~= seq![c]);
    } else {
        assert(written@ =~= percent::escape(b));
        lemma_hex(high);
        lemma_hex(low);
    }
}

/// The value of a digit of base sixteen, in capital letters.
pub open spec fn hex(c: char) -> int {
    if '0' <= c && c <= '9' {
        c as int - 48
    } else if 'A' <= c && c <= 'F' {
        c as int - 55
    } else {
        16
    }
}

proof fn lemma_hex(n: int)
    requires
        0 <= n < 16,
    ensures
        hex(percent::hex_digit(n)) == n,
{
    if n < 10 {
        assert((0x30 + n) as char as int == 0x30 + n);
    } else {
        assert((0x41 + n - 10) as char as int == 0x41 + n - 10);
    }
}

/// A URL that is built from a scheme, an authority and a path is taken apart into the
/// same three, where the scheme is registered.
pub proof fn law_built_urls_are_taken_apart(
    scheme: CText,
    authority: CText,
    path: CText,
    url: String,
    given: CText,
    registered: Vec<String>,
    outcome: Result<(String, String, String), Failure>,
)
    requires
        call_ensures(uri::od_url_build, (&scheme, &authority, &path), Some(url)),
        call_ensures(uri::resolve_with, (&given, &registered), outcome),
        given.text() == Some(url@),
        schemes::texts(registered@).contains(scheme.text()->0),
        text::lower(scheme.text()->0) == scheme.text()->0,
        !scheme.text()->0.contains(':'),
        !scheme.text()->0.contains('?'),
        !scheme.text()->0.contains('#'),
        !authority.text()->0.contains('/'),
        !authority.text()->0.contains('?'),
        !authority.text()->0.contains('#'),
        !authority.text()->0.contains('@'),
        !path.text()->0.contains('\0'),
    ensures
        outcome matches Ok(parts) && Some(parts.0@) == scheme.text() && Some(parts.1@)
            == authority.text() && Some(parts.2@) == path.text(),
{
    let s = scheme.text()->0;
    lemma_no_mark(s);
    uri::law_built_urls_resolve(
        s,
        authority.text()->0,
        path.text()->0,
        schemes::texts(registered@),
    );
}

/// Text without a `:` holds no mark behind a scheme.
pub proof fn lemma_no_mark(s: Seq<char>)
    requires
        !s.contains(':'),
    ensures
        text::first_index_of(s, uri::scheme_mark()) is None,
{
    let mark = uri::scheme_mark();
    assert forall|j: int| !(#[trigger] text::occurs_at(s, mark, j)) by {
        if text::occurs_at(s, mark, j) {
            assert(s.subrange(j, j + mark.len())[0] == mark[0]);
            assert(s[j] == ':');
            assert(s.contains(s[j]));
        }
    }
    text::lemma_first_index_none(s, mark);
}

/// A URL begins with its scheme, `://`, its authority and a `/`.  There is none where a
/// part is missing or holds what cannot be handed over.
pub proof fn law_urls_are_built(
    scheme: CText,
    authority: CText,
    path: CText,
    url: Option<String>,
)
    requires
        call_ensures(uri::od_url_build, (&scheme, &authority, &path), url),
    ensures
        url is Some <==> scheme.text() is Some && authority.text() is Some && path.text() is Some
            && !scheme.text()->0.contains('\0') && !authority.text()->0.contains('\0'),
        url matches Some(u) ==> ({
            let head = scheme.text()->0 + seq![':', '/', '/'] + authority.text()->0 + seq!['/'];
            u@.len() >= head.len() && u@.take(head.len() as int) == head
        }),
{
    if url is Some {
        let head = scheme.text()->0 + seq![':', '/', '/'] + authority.text()->0 + seq!['/'];
        let u = url->0@;
        assert(u.take(head.len() as int) =~= head);
    }
}

/// URLs that are refused: no text, a query or a fragment, no scheme, a scheme that is
/// not registered, a user before the authority, or an escaped `/`.
pub proof fn law_refused_urls(
    url: CText,
    registered: Vec<String>,
    outcome: Result<(String, String, String), Failure>,
)
    requires
        call_ensures(uri::resolve_with, (&url, &registered), outcome),
    ensures
        url.text() is None ==> outcome is Err,
        url.text() matches Some(u) ==> {
            &&& u.contains('?') || u.contains('#') ==> outcome is Err
            &&& !u.contains(':') ==> outcome is Err
        },
        outcome matches Ok(parts) ==> {
            &&& schemes::texts(registered@).contains(parts.0@)
            &&& !parts.1@.contains('@')
            &&& !parts.2@.contains('\0')
            &&& text::lower(parts.0@) == parts.0@
        },
        outcome matches Err(f) ==> f.code is InvalidInput || f.code is Unsupported,
{
    if url.text() is Some {
        let u = url.text()->0;
        if !u.contains(':') {
            lemma_no_mark(u);
        }
        let scheme = uri::before_first(u, uri::scheme_mark());
        assert(text::lower(text::lower(scheme)) =~= text::lower(scheme)) by {
            assert forall|i: int| 0 <= i < scheme.len() implies text::lower_char(
                text::lower_char(scheme[i]),
            ) == text::lower_char(scheme[i]) by {
                let c = scheme[i];
                if 'A' <= c && c <= 'Z' {
                    assert((c as u32 + 32) as char as u32 == c as u32 + 32);
                }
            }
        }
    }
}

/// A scheme that is not registered is not supported, however it is written.
pub proof fn law_unregistered_schemes_are_unsupported(
    url: CText,
    registered: Vec<String>,
    outcome: Result<(String, String, String), Failure>,
    scheme: Seq<char>,
    rest: Seq<char>,
)
    requires
        call_ensures(uri::resolve_with, (&url, &registered), outcome),
        url.text() == Some(scheme + seq![':', '/', '/'] + rest),
        !scheme.contains(':'),
        !url.text()->0.contains('?'),
        !url.text()->0.contains('#'),
    ensures
        !schemes::texts(registered@).contains(text::lower(scheme)) <==> (outcome matches Err(f)
            && f.code is Unsupported),
        outcome matches Ok(parts) ==> parts.0@ == text::lower(scheme),
{
    lemma_scheme(scheme, rest);
}

proof fn lemma_scheme(scheme: Seq<char>, rest: Seq<char>)
    requires
        !scheme.contains(':'),
    ensures
        ({
            let u = scheme + seq![':', '/', '/'] + rest;
            &&& text::first_index_of(u, uri::scheme_mark()) == Some(scheme.len() as int)
            &&& uri::before_first(u, uri::scheme_mark()) == scheme
            &&& uri::after_first(u, uri::scheme_mark()) == rest
        }),
{
    let mark = uri::scheme_mark();
    let u = scheme + mark + rest;
    let n = scheme.len() as int;
    assert(u.subrange(n, n + 3) =~= mark);
    assert(text::occurs_at(u, mark, n));
    assert forall|j: int| 0 <= j < n implies !(#[trigger] text::occurs_at(u, mark, j)) by {
        if text::occurs_at(u, mark, j) {
            assert(u.subrange(j, j + mark.len())[0] == mark[0]);
            assert(scheme[j] == ':');
            assert(scheme.contains(scheme[j]));
        }
    }
    text::lemma_first_index_is(u, mark, n);
    assert(u.take(n) =~= scheme);
    assert(u.skip(n + 3) =~= rest);
}

/// What stands between the scheme and the first `/` behind it is the authority, and
/// what follows that `/` is the written path; without a `/` the path is empty.
pub proof fn law_authorities_end_at_the_first_slash(
    url: CText,
    registered: Vec<String>,
    parts: (String, String, String),
    scheme: Seq<char>,
    authority: Seq<char>,
    tail: Seq<char>,
)
    requires
        call_ensures(
            uri::resolve_with,
            (&url, &registered),
            Ok::<(String, String, String), Failure>(parts),
        ),
        !scheme.contains(':'),
        !authority.contains('/'),
        url.text() == Some(scheme + seq![':', '/', '/'] + (authority + seq!['/'] + tail))
            || (tail.len() == 0 && url.text() == Some(scheme + seq![':', '/', '/'] + authority)),
    ensures
        parts.0@ == text::lower(scheme),
        parts.1@ == authority,
        percent::decoded(tail) == Some(parts.2@),
{
    let slash = seq!['/'];
    if url.text() == Some(scheme + seq![':', '/', '/'] + (authority + slash + tail)) {
        let rest = authority + slash + tail;
        lemma_scheme(scheme, rest);
        let n = authority.len() as int;
        assert(rest.subrange(n, n + 1) =~= slash);
        assert(text::occurs_at(rest, slash, n));
        assert forall|j: int| 0 <= j < n implies !(#[trigger] text::occurs_at(rest, slash, j)) by {
            if text::occurs_at(rest, slash, j) {
                assert(rest.subrange(j, j + 1)[0] == '/');
                assert(authority[j] == '/');
                assert(authority.contains(authority[j]));
            }
        }
        text::lemma_first_index_is(rest, slash, n);
        assert(rest.take(n) =~= authority);
        assert(rest.skip(n + 1) =~= tail);
    } else {
        lemma_scheme(scheme, authority);
        assert forall|j: int| !(#[trigger] text::occurs_at(authority, slash, j)) by {
            if text::occurs_at(authority, slash, j) {
                assert(authority.subrange(j, j + 1)[0] == '/');
                assert(authority.contains(authority[j]));
            }
        }
        text::lemma_first_index_none(authority, slash);
        assert(tail =~= Seq::<char>::empty());
    }
}

/// A URL of a built-in scheme is taken apart the same way, whatever else is registered.
pub proof fn law_built_in_urls_are_taken_apart(
    url: CText,
    registered: Vec<String>,
    outcome: Result<(String, String, String), Failure>,
    other: Result<(String, String, String), Failure>,
)
    requires
        call_ensures(uri::resolve, (&url,), outcome),
        call_ensures(uri::resolve_with, (&url, &registered), other),
        schemes::can_be_registered(schemes::texts(registered@)),
        url.text() is Some,
        schemes::is_built_in(uri::scheme_part(url.text()->0)),
    ensures
        outcome is Ok <==> other is Ok,
        outcome matches Ok(parts) ==> parts.0@ == (other->Ok_0).0@ && parts.1@
            == (other->Ok_0).1@ && parts.2@ == (other->Ok_0).2@,
        outcome matches Err(f) ==> f.code == other->Err_0.code && f.message@
            == other->Err_0.message@,
{
    let texts = choose|texts: Seq<Seq<char>>|
        schemes::strictly_ascending(texts) && schemes::can_be_registered(texts)
            && uri::is_resolved(outcome, #[trigger] uri::resolved(url.text(), texts));
    uri::law_built_in_schemes_resolve(url.text()->0, texts, schemes::texts(registered@));
}

/// Without a place for the parts a URL is refused.
pub proof fn law_resolving_needs_outputs(
    url: CText,
    outcome: Result<(String, String, String), Failure>,
)
    requires
        call_ensures(uri::od_url_resolve, (&url, false), outcome),
    ensures
        outcome matches Err(f) && f.code is InvalidInput,
{
}

/// A URL is taken apart exactly where nothing speaks against it: its scheme is
/// registered, there is no user, no query and no fragment, and its path is written
/// without an escaped `/` and is text without a NUL.
pub proof fn law_good_urls_are_taken_apart(
    url: CText,
    registered: Vec<String>,
    outcome: Result<(String, String, String), Failure>,
    scheme: Seq<char>,
    authority: Seq<char>,
    tail: Seq<char>,
)
    requires
        call_ensures(uri::resolve_with, (&url, &registered), outcome),
        !scheme.contains(':'),
        !authority.contains('/'),
        url.text() == Some(scheme + seq![':', '/', '/'] + (authority + seq!['/'] + tail)),
        !url.text()->0.contains('?'),
        !url.text()->0.contains('#'),
        schemes::texts(registered@).contains(text::lower(scheme)),
    ensures
        outcome is Ok <==> !authority.contains('@') && !escapes_a_slash(tail) && (
        percent::decoded(tail) matches Some(path) && !path.contains('\0')),
        outcome matches Err(f) ==> f.code is InvalidInput,
{
    let slash = seq!['/'];
    let rest = authority + slash + tail;
    lemma_scheme(scheme, rest);
    let n = authority.len() as int;
    assert(rest.subrange(n, n + 1) =~= slash);
    assert(text::occurs_at(rest, slash, n));
    assert forall|j: int| 0 <= j < n implies !(#[trigger] text::occurs_at(rest, slash, j)) by {
        if text::occurs_at(rest, slash, j) {
            assert(rest.subrange(j, j + 1)[0] == '/');
            assert(authority[j] == '/');
            assert(authority.contains(authority[j]));
        }
    }
    text::lemma_first_index_is(rest, slash, n);
    assert(rest.take(n) =~= authority);
    assert(rest.skip(n + 1) =~= tail);
    lemma_escaped_slash(tail);
}

/// Whether a `/` is written as an escape.
pub open spec fn escapes_a_slash(s: Seq<char>) -> bool {
    exists|i: int|
        0 <= i && i + 2 < s.len() && #[trigger] s[i] == '%' && s[i + 1] == '2' && (s[i + 2] == 'f'
            || s[i + 2] == 'F')
}

proof fn lemma_escaped_slash(s: Seq<char>)
    ensures
        escapes_a_slash(s) <==> text::first_index_of(text::lower(s), seq!['%', '2', 'f']) is Some,
{
    let small = text::lower(s);
    let mark = seq!['%', '2', 'f'];
    text::lemma_first_index_of(small, mark);
    if escapes_a_slash(s) {
        let i = choose|i: int|
            0 <= i && i + 2 < s.len() && #[trigger] s[i] == '%' && s[i + 1] == '2' && (s[i + 2]
                == 'f' || s[i + 2] == 'F');
        assert('F' as u32 + 32 == 'f' as u32);
        assert(small[i] == '%' && small[i + 1] == '2' && small[i + 2] == 'f');
        assert(small.subrange(i, i + 3) =~= mark);
        assert(text::occurs_at(small, mark, i));
    }
    if text::first_index_of(small, mark) is Some {
        let i = text::first_index_of(small, mark)->0;
        let found = small.subrange(i, i + 3);
        assert(found[0] == small[i] && found[1] == small[i + 1] && found[2] == small[i + 2]);
        lemma_small(s[i]);
        lemma_small(s[i + 1]);
        lemma_small(s[i + 2]);
        assert(s[i] == '%');
    }
}

/// What becomes a sign or a digit was one, and what becomes an `f` was one of the two.
proof fn lemma_small(c: char)
    ensures
        text::lower_char(c) == '%' ==> c == '%',
        text::lower_char(c) == '2' ==> c == '2',
        text::lower_char(c) == 'f' ==> c == 'f' || c == 'F',
{
    if 'A' <= c && c <= 'Z' {
        assert((c as u32 + 32) as char as u32 == c as u32 + 32);
    }
}

} // verus!
