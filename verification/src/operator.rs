//! Operators: what is asked for when one is built, and what is kept of it.

use vstd::prelude::*;

use crate::capability::CapabilityFlags;
use crate::config;
use crate::config::cache;
use crate::config::cache::cache_disabled;
use crate::config::io::IoConfig;
use crate::config::OperatorConfig;
use crate::error::{ErrorKind, Failure, OdErrorCode};
use crate::ffi;
use crate::ffi::{collect_pairs, cstr, CText};
use crate::io::IoOptions;
use crate::operator_uri;
use crate::operator_uri::split_operator_uri;
use crate::text;
use crate::text::has_char;
use crate::uri;

verus! {

/// What the logic keeps of an operator built from a URI.
pub struct OdOperator {
    /// The scheme the operator was built for.
    pub scheme: String,
    /// Reader and writer tuning.
    pub io: IoConfig,
    /// What the service can do; immutable for the operator's lifetime.
    pub cap: CapabilityFlags,
    /// What did not work out when the operator was built.
    pub warning: Option<String>,
}

/// What the logic keeps of an operator built from a scheme.
pub struct OdopOperator {
    /// The scheme the operator was built for.
    pub scheme: String,
    /// What the service can do.
    pub cap: CapabilityFlags,
    /// Reader and writer tuning.
    pub io: IoOptions,
}

/// What an operator's service can do.
pub fn full(op: &OdopOperator) -> (cap: CapabilityFlags)
    ensures
        cap == op.cap,
{
    op.cap
}

/// The decoded input of an operator's construction.
pub struct OperatorInput {
    pub uri: String,
    /// Service configuration, passed on as it is.
    pub service: Vec<(String, String)>,
    /// Cross-service options.
    pub options: Vec<(String, String)>,
    pub cache_namespace: Option<String>,
}

/// The error of collecting pairs, where there is one.
pub open spec fn is_pairs_error(
    keys: Option<&Vec<CText>>,
    values: Option<&Vec<CText>>,
    message: Seq<char>,
) -> bool {
    if keys is None || values is None {
        message == "keys/values null with len > 0"@
    } else {
        exists|i: int| #[trigger]
            ffi::first_undecodable(keys->0@, values->0@, i) && message == ffi::pair_error(
                keys->0@,
                values->0@,
                i,
            )
    }
}

/// Whether arrays of `len` pairs can be collected.
pub open spec fn pairs_decode(
    keys: Option<&Vec<CText>>,
    values: Option<&Vec<CText>>,
    len: usize,
) -> bool {
    len == 0 || (keys is Some && values is Some && forall|i: int|
        0 <= i < len ==> #[trigger] ffi::pair_decodes(keys->0@, values->0@, i))
}

/// The pairs of arrays that can be collected.
pub open spec fn collected(
    keys: Option<&Vec<CText>>,
    values: Option<&Vec<CText>>,
    len: usize,
) -> Seq<(Seq<char>, Seq<char>)> {
    if len == 0 {
        Seq::empty()
    } else {
        ffi::pairs_of(keys->0@, values->0@)
    }
}

/// Decode the input of an operator's construction: the URI, then the service
/// configuration, then the options.
pub fn operator_input(
    uri: &CText,
    keys: Option<&Vec<CText>>,
    values: Option<&Vec<CText>>,
    len: usize,
    option_keys: Option<&Vec<CText>>,
    option_values: Option<&Vec<CText>>,
    option_len: usize,
    cache_namespace: &CText,
) -> (input: Result<OperatorInput, Failure>)
    requires
        keys matches Some(k) ==> k@.len() == len,
        values matches Some(v) ==> v@.len() == len,
        option_keys matches Some(k) ==> k@.len() == option_len,
        option_values matches Some(v) ==> v@.len() == option_len,
    ensures
        input is Ok <==> uri.text() is Some && pairs_decode(keys, values, len) && pairs_decode(
            option_keys,
            option_values,
            option_len,
        ),
        input matches Ok(i) ==> {
            &&& uri.text() == Some(i.uri@)
            &&& ffi::pair_views(i.service@) == collected(keys, values, len)
            &&& ffi::pair_views(i.options@) == collected(option_keys, option_values, option_len)
            &&& text::optional_text(i.cache_namespace) == cache_namespace.text()
        },
        input matches Err(e) ==> {
            &&& e.code == OdErrorCode::InvalidInput
            &&& if uri.text() is None {
                e.message@ == "uri is null or not UTF-8"@
            } else if !pairs_decode(keys, values, len) {
                is_pairs_error(keys, values, e.message@)
            } else {
                is_pairs_error(option_keys, option_values, e.message@)
            }
        },
{
    let uri: String = match cstr(uri) {
        Some(uri) => uri.clone(),
        None => {
            return Err(Failure::new(OdErrorCode::InvalidInput, "uri is null or not UTF-8"));
        },
    };
    let service: Vec<(String, String)> = match collect_pairs(keys, values, len) {
        Ok(pairs) => pairs,
        Err(message) => {
            return Err(Failure { code: OdErrorCode::InvalidInput, message });
        },
    };
    let options: Vec<(String, String)> = match collect_pairs(
        option_keys,
        option_values,
        option_len,
    ) {
        Ok(pairs) => pairs,
        Err(message) => {
            return Err(Failure { code: OdErrorCode::InvalidInput, message });
        },
    };
    let cache_namespace: Option<String> = match cstr(cache_namespace) {
        Some(name) => Some(name.clone()),
        None => None,
    };
    proof {
        if len == 0 {
            assert(ffi::pair_views(service@) =~= Seq::<(Seq<char>, Seq<char>)>::empty());
        }
        if option_len == 0 {
            assert(ffi::pair_views(options@) =~= Seq::<(Seq<char>, Seq<char>)>::empty());
        }
    }
    Ok(OperatorInput { uri, service, options, cache_namespace })
}

/// What to build: the service under a URI, and the typed options around it.
pub struct OperatorRequest {
    pub uri: String,
    pub service: Vec<(String, String)>,
    pub scheme: String,
    pub config: OperatorConfig,
}

/// Whether an outcome is what a split URI makes of parsed options.
pub open spec fn is_request(
    request: Result<OperatorRequest, Failure>,
    input: OperatorInput,
    factor: Option<u32>,
    split: operator_uri::SplitView,
) -> bool {
    let options = ffi::pair_views(input.options@);
    match config::config_error(options, factor) {
        Some(message) => request matches Err(e) && e.is(OdErrorCode::InvalidInput, message),
        None => match split {
            Ok(parts) => request matches Ok(r) && {
                &&& r.uri == input.uri
                &&& r.service == input.service
                &&& r.scheme@ == parts.0
                &&& r.config.reads(options, factor)
                &&& r.config.cache_namespace == input.cache_namespace
            },
            Err(error) => request matches Err(e) && e.is(
                ErrorKind::named(error.0).category(),
                error.1,
            ),
        },
    }
}

/// Decide what to build once the URI is split.
pub fn operator_request(
    input: OperatorInput,
    factor: Option<u32>,
    split: operator_uri::Split,
) -> (request: Result<OperatorRequest, Failure>)
    ensures
        is_request(request, input, factor, operator_uri::split_view(split)),
{
    let config: OperatorConfig = match OperatorConfig::parse(
        &input.options,
        input.cache_namespace,
        factor,
    ) {
        Ok(config) => config,
        Err(message) => {
            return Err(Failure { code: OdErrorCode::InvalidInput, message });
        },
    };
    match split {
        Ok((scheme, _, _)) => Ok(
            OperatorRequest { uri: input.uri, service: input.service, scheme, config },
        ),
        Err((kind, message)) => Err(
            Failure::from_service(ErrorKind::from_name(kind.as_str()), message),
        ),
    }
}

/// Decide what to build.  The options are parsed before the URI is, and nothing
/// is built where either fails.  `factor` is the number that the value of
/// `retry.factor` spells, as single-precision bits.
pub fn od_operator_new(input: OperatorInput, factor: Option<u32>) -> (request: Result<
    OperatorRequest,
    Failure,
>)
    ensures
        is_request(request, input, factor, operator_uri::operator_uri(input.uri@)),
        text::first_index_of(input.uri@, uri::scheme_mark()) is None ==> is_request(
            request,
            input,
            factor,
            operator_uri::bare_scheme(input.uri@),
        ),
        request matches Err(e) ==> e.code == OdErrorCode::InvalidInput,
{
    proof {
        reveal_strlit("ConfigInvalid");
        reveal_strlit("Unexpected");
        reveal_strlit("Unsupported");
        assert("ConfigInvalid"@.len() != "Unexpected"@.len());
        assert("ConfigInvalid"@.len() != "Unsupported"@.len());
    }
    let split: operator_uri::Split = split_operator_uri(input.uri.as_str());
    operator_request(input, factor, split)
}

/// The warning about a cache that could not be built, as it can be handed over.
pub open spec fn cache_warning(error: Option<Seq<char>>) -> Option<Seq<char>> {
    match error {
        Some(error) if !cache::disabled_message(error).contains('\0') => Some(
            cache::disabled_message(error),
        ),
        _ => None,
    }
}

/// What is kept of an operator that was built.  `cache_error` says why its cache
/// could not be built, if so.
pub fn built_operator(
    request: &OperatorRequest,
    cap: CapabilityFlags,
    cache_error: Option<String>,
) -> (op: OdOperator)
    ensures
        op.scheme@ == request.scheme@,
        op.io == request.config.io,
        op.cap == cap,
        text::optional_text(op.warning) == cache_warning(
            text::optional_text(cache_error),
        ),
{
    let warning: Option<String> = match cache_error {
        Some(error) => {
            let warning: String = cache_disabled(error.as_str());
            if has_char(warning.as_str(), '\0') {
                None
            } else {
                Some(warning)
            }
        },
        None => None,
    };
    OdOperator { scheme: request.scheme.clone(), io: request.config.io, cap, warning }
}

/// The warning of an operator, if there is an operator and it has one.
pub fn od_operator_warning(op: Option<&OdOperator>) -> (warning: Option<&String>)
    ensures
        warning is Some <==> op is Some && op->0.warning is Some,
        warning matches Some(w) ==> op->0.warning == Some(*w),
{
    match op {
        Some(op) => op.warning.as_ref(),
        None => None,
    }
}

/// The decoded input of an operator's construction from a scheme.
pub struct SchemeRequest {
    pub scheme: String,
    /// Service configuration, passed on as it is.
    pub service: Vec<(String, String)>,
    /// Layer options.
    pub layers: Vec<(String, String)>,
}

/// Decode the input of an operator's construction from a scheme: the scheme, then
/// the service configuration, then the layer options.
pub fn odop_operator_new(
    scheme: &CText,
    keys: Option<&Vec<CText>>,
    values: Option<&Vec<CText>>,
    len: usize,
    layer_keys: Option<&Vec<CText>>,
    layer_values: Option<&Vec<CText>>,
    layer_len: usize,
) -> (request: Result<SchemeRequest, Failure>)
    requires
        keys matches Some(k) ==> k@.len() == len,
        values matches Some(v) ==> v@.len() == len,
        layer_keys matches Some(k) ==> k@.len() == layer_len,
        layer_values matches Some(v) ==> v@.len() == layer_len,
    ensures
        request is Ok <==> scheme.text() is Some && pairs_decode(keys, values, len)
            && pairs_decode(layer_keys, layer_values, layer_len),
        request matches Ok(r) ==> {
            &&& scheme.text() == Some(r.scheme@)
            &&& ffi::pair_views(r.service@) == collected(keys, values, len)
            &&& ffi::pair_views(r.layers@) == collected(layer_keys, layer_values, layer_len)
        },
        request matches Err(e) ==> {
            &&& e.code == OdErrorCode::InvalidInput
            &&& if scheme.text() is None {
                e.message@ == "scheme is null or not UTF-8"@
            } else if !pairs_decode(keys, values, len) {
                is_pairs_error(keys, values, e.message@)
            } else {
                is_pairs_error(layer_keys, layer_values, e.message@)
            }
        },
{
    let scheme: String = match cstr(scheme) {
        Some(scheme) => scheme.clone(),
        None => {
            return Err(Failure::new(OdErrorCode::InvalidInput, "scheme is null or not UTF-8"));
        },
    };
    let service: Vec<(String, String)> = match collect_pairs(keys, values, len) {
        Ok(pairs) => pairs,
        Err(message) => {
            return Err(Failure { code: OdErrorCode::InvalidInput, message });
        },
    };
    let layers: Vec<(String, String)> = match collect_pairs(layer_keys, layer_values, layer_len) {
        Ok(pairs) => pairs,
        Err(message) => {
            return Err(Failure { code: OdErrorCode::InvalidInput, message });
        },
    };
    proof {
        if len == 0 {
            assert(ffi::pair_views(service@) =~= Seq::<(Seq<char>, Seq<char>)>::empty());
        }
        if layer_len == 0 {
            assert(ffi::pair_views(layers@) =~= Seq::<(Seq<char>, Seq<char>)>::empty());
        }
    }
    Ok(SchemeRequest { scheme, service, layers })
}

/// What is kept of an operator built from a scheme: its tuning is what its own
/// options say, and what is set for all operators where they say nothing.
pub fn built_from_scheme(
    request: &SchemeRequest,
    cap: CapabilityFlags,
    defaults: &IoOptions,
) -> (op: OdopOperator)
    ensures
        op.scheme@ == request.scheme@,
        op.cap == cap,
        exists|own: IoOptions| #[trigger]
            own.over(*defaults) == op.io && own.given_by(ffi::pair_views(request.layers@)),
{
    let own: IoOptions = IoOptions::from_opts(&request.layers);
    OdopOperator { scheme: request.scheme.clone(), cap, io: own.with_defaults(defaults) }
}

} // verus!
