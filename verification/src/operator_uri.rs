//! Operator URIs, split by the storage library's own rules.

use vstd::prelude::*;

use crate::error::{ErrorKind, Failure, OdErrorCode};
use crate::ffi;
use crate::ffi::{as_c_text, cstr, CText};
use crate::text;
use crate::uri;

verus! {

/// What `opendal::OperatorUri::new` makes of a URI without further options:
/// scheme, authority and root, or the kind and text of its error.
pub uninterp spec fn operator_uri(base: Seq<char>) -> Result<
    (Seq<char>, Option<Seq<char>>, Option<Seq<char>>),
    (Seq<char>, Seq<char>),
>;

/// Scheme, authority and root of a URI, or the kind and text of an error.
pub type Split = Result<(String, Option<String>, Option<String>), (String, String)>;

/// The texts of a split URI.
pub type SplitView = Result<(Seq<char>, Option<Seq<char>>, Option<Seq<char>>), (Seq<char>, Seq<char>)>;

/// An outcome in terms of its texts.
pub open spec fn split_view(split: Split) -> SplitView {
    match split {
        Ok(parts) => Ok((parts.0@, text::optional_text(parts.1), text::optional_text(parts.2))),
        Err(error) => Err((error.0@, error.1@)),
    }
}

/// A URI that is a scheme alone.
pub open spec fn bare_scheme(base: Seq<char>) -> SplitView {
    Ok((text::lower(base), None, None))
}

/// `opendal::OperatorUri::new` with no further options.  Its outcome depends on
/// the URI alone.  Text without `://` is a bare scheme, taken in small letters
/// and with neither authority nor root; a URI that cannot be parsed is an
/// invalid configuration.
#[verifier::external_body]
pub(crate) fn split_operator_uri(base: &str) -> (split: Split)
    ensures
        split_view(split) == operator_uri(base@),
        text::first_index_of(base@, uri::scheme_mark()) is None ==> split_view(split)
            == bare_scheme(base@),
        split is Err ==> split->Err_0.0@ == "ConfigInvalid"@,
{
    match opendal::OperatorUri::new(base, Vec::<(String, String)>::new()) {
        Ok(uri) => Ok(
            (
                uri.scheme().to_string(),
                uri.authority().map(|text| text.to_string()),
                uri.root().map(|text| text.to_string()),
            ),
        ),
        Err(error) => Err((error.kind().into_static().to_string(), error.to_string())),
    }
}

/// Parsed URI components.  An absent part reads as empty text; the flags tell
/// absent and empty apart.
pub struct OdopParsedUri {
    pub scheme: String,
    pub authority: String,
    pub root: String,
    pub has_authority: bool,
    pub has_root: bool,
}

/// Optional text as a C string.
pub open spec fn optional_c_text(s: Option<Seq<char>>) -> Seq<char> {
    match s {
        Some(s) => ffi::c_text(s),
        None => Seq::empty(),
    }
}

/// Whether an outcome is what a split URI is reported as.
pub open spec fn reports(
    outcome: Result<OdopParsedUri, Failure>,
    split: SplitView,
) -> bool {
    match (outcome, split) {
        (Ok(uri), Ok(parts)) => {
            &&& uri.scheme@ == ffi::c_text(parts.0)
            &&& uri.authority@ == optional_c_text(parts.1)
            &&& uri.root@ == optional_c_text(parts.2)
            &&& uri.has_authority == (parts.1 is Some)
            &&& uri.has_root == (parts.2 is Some)
        },
        (Err(failure), Err(error)) => failure.is(ErrorKind::named(error.0).category(), error.1),
        _ => false,
    }
}

/// The report of a split URI.
pub fn parsed_uri(split: Split) -> (uri: Result<OdopParsedUri, Failure>)
    ensures
        reports(uri, split_view(split)),
{
    match split {
        Ok((scheme, authority, root)) => {
            let has_authority: bool = authority.is_some();
            let has_root: bool = root.is_some();
            let authority: String = match authority {
                Some(authority) => as_c_text(authority),
                None => String::new(),
            };
            let root: String = match root {
                Some(root) => as_c_text(root),
                None => String::new(),
            };
            Ok(
                OdopParsedUri {
                    scheme: as_c_text(scheme),
                    authority,
                    root,
                    has_authority,
                    has_root,
                },
            )
        },
        Err((kind, message)) => Err(
            Failure::from_service(ErrorKind::from_name(kind.as_str()), message),
        ),
    }
}

/// Parse a URI.
pub fn odop_parse_uri(uri: &CText) -> (parsed: Result<OdopParsedUri, Failure>)
    ensures
        match uri.text() {
            None => parsed matches Err(e) && e.is(
                OdErrorCode::InvalidInput,
                "uri is null or not UTF-8"@,
            ),
            Some(base) => reports(parsed, operator_uri(base)),
        },
        uri.text() matches Some(base) ==> {
            &&& text::first_index_of(base, uri::scheme_mark()) is None ==> reports(
                parsed,
                bare_scheme(base),
            )
            &&& parsed matches Err(e) ==> e.code == OdErrorCode::InvalidInput
        },
{
    match cstr(uri) {
        Some(uri) => {
            proof {
                reveal_strlit("ConfigInvalid");
                reveal_strlit("Unexpected");
                reveal_strlit("Unsupported");
                assert("ConfigInvalid"@.len() != "Unexpected"@.len());
                assert("ConfigInvalid"@.len() != "Unsupported"@.len());
            }
            parsed_uri(split_operator_uri(uri.as_str()))
        },
        None => Err(Failure::new(OdErrorCode::InvalidInput, "uri is null or not UTF-8")),
    }
}

/// The scheme of a split URI, or `unknown`.
pub open spec fn scheme_or_unknown(split: SplitView) -> Seq<char> {
    match split {
        Ok(parts) => parts.0,
        Err(_) => "unknown"@,
    }
}

/// The scheme of a split URI, or `unknown`.
pub fn split_scheme(split: Split) -> (scheme: String)
    ensures
        scheme@ == scheme_or_unknown(split_view(split)),
{
    match split {
        Ok((scheme, _, _)) => scheme,
        Err(_) => "unknown".to_owned(),
    }
}

/// The scheme of a URI, for messages: `unknown` where the URI does not parse.
pub fn scheme_of(uri: &str) -> (scheme: String)
    ensures
        scheme@ == scheme_or_unknown(operator_uri(uri@)),
        text::first_index_of(uri@, uri::scheme_mark()) is None ==> scheme@ == text::lower(uri@),
{
    split_scheme(split_operator_uri(uri))
}

} // verus!
