//! Operators.

use vstd::prelude::*;

use crate::capability::CapabilityFlags;
use crate::config::OperatorConfig;
use crate::error::{ErrorKind, Failure, OdErrorCode};
use crate::ffi;
use crate::ffi::CText;
use crate::io::IoOptions;
use crate::laws::config::last_value;
use crate::laws::options::{lemma_last_number, number_or_zero};
use crate::laws::uri::lemma_no_mark;
use crate::operator;
use crate::operator::{
    OdOperator, OdopOperator, OperatorInput, OperatorRequest, SchemeRequest,
};
use crate::operator_uri;
use crate::operator_uri::{OdopParsedUri, Split};
use crate::text;

verus! {

/// What is asked for when an operator is built comes from where it was given: the
/// options of the service and those of the operator are kept apart.
pub proof fn law_inputs_are_kept_apart(
    uri: CText,
    keys: Vec<CText>,
    values: Vec<CText>,
    option_keys: Vec<CText>,
    option_values: Vec<CText>,
    namespace: CText,
    input: OperatorInput,
)
    requires
        keys@.len() == values@.len(),
        option_keys@.len() == option_values@.len(),
        0 < keys@.len() <= usize::MAX,
        0 < option_keys@.len() <= usize::MAX,
        call_ensures(
            operator::operator_input,
            (
                &uri,
                Some(&keys),
                Some(&values),
                keys@.len() as usize,
                Some(&option_keys),
                Some(&option_values),
                option_keys@.len() as usize,
                &namespace,
            ),
            Ok::<OperatorInput, Failure>(input),
        ),
    ensures
        Some(input.uri@) == uri.text(),
        text::optional_text(input.cache_namespace) == namespace.text(),
        input.service@.len() == keys@.len(),
        forall|i: int|
            0 <= i < keys@.len() && keys@[i].text() is Some && values@[i].text() is Some ==> Some(
                (#[trigger] input.service@[i]).0@,
            ) == keys@[i].text() && Some(input.service@[i].1@) == values@[i].text(),
        input.options@.len() == option_keys@.len(),
        forall|i: int|
            0 <= i < option_keys@.len() && option_keys@[i].text() is Some
                && option_values@[i].text() is Some ==> Some((#[trigger] input.options@[i]).0@)
                == option_keys@[i].text() && Some(input.options@[i].1@)
                == option_values@[i].text(),
{
    let service = ffi::pair_views(input.service@);
    let given = ffi::pairs_of(keys@, values@);
    assert(service == given);
    assert(service.len() == given.len());
    let options = ffi::pair_views(input.options@);
    let others = ffi::pairs_of(option_keys@, option_values@);
    assert(options == others);
    assert(options.len() == others.len());
    assert forall|i: int|
        0 <= i < keys@.len() && keys@[i].text() is Some && values@[i].text() is Some implies Some(
        (#[trigger] input.service@[i]).0@,
    ) == keys@[i].text() && Some(input.service@[i].1@) == values@[i].text() by {
        assert(service[i] == given[i]);
    }
    assert forall|i: int|
        0 <= i < option_keys@.len() && option_keys@[i].text() is Some
            && option_values@[i].text() is Some implies Some((#[trigger] input.options@[i]).0@)
        == option_keys@[i].text() && Some(input.options@[i].1@) == option_values@[i].text() by {
        assert(options[i] == others[i]);
    }
}

/// The same for an operator that is asked for by its scheme.
pub proof fn law_schemes_are_asked_for(
    scheme: CText,
    keys: Vec<CText>,
    values: Vec<CText>,
    layer_keys: Vec<CText>,
    layer_values: Vec<CText>,
    request: SchemeRequest,
)
    requires
        keys@.len() == values@.len(),
        layer_keys@.len() == layer_values@.len(),
        0 < keys@.len() <= usize::MAX,
        0 < layer_keys@.len() <= usize::MAX,
        call_ensures(
            operator::odop_operator_new,
            (
                &scheme,
                Some(&keys),
                Some(&values),
                keys@.len() as usize,
                Some(&layer_keys),
                Some(&layer_values),
                layer_keys@.len() as usize,
            ),
            Ok::<SchemeRequest, Failure>(request),
        ),
    ensures
        Some(request.scheme@) == scheme.text(),
        request.service@.len() == keys@.len(),
        forall|i: int|
            0 <= i < keys@.len() && keys@[i].text() is Some && values@[i].text() is Some ==> Some(
                (#[trigger] request.service@[i]).0@,
            ) == keys@[i].text() && Some(request.service@[i].1@) == values@[i].text(),
        request.layers@.len() == layer_keys@.len(),
        forall|i: int|
            0 <= i < layer_keys@.len() && layer_keys@[i].text() is Some
                && layer_values@[i].text() is Some ==> Some((#[trigger] request.layers@[i]).0@)
                == layer_keys@[i].text() && Some(request.layers@[i].1@)
                == layer_values@[i].text(),
{
    let service = ffi::pair_views(request.service@);
    let given = ffi::pairs_of(keys@, values@);
    assert(service == given);
    assert(service.len() == given.len());
    let layers = ffi::pair_views(request.layers@);
    let others = ffi::pairs_of(layer_keys@, layer_values@);
    assert(layers == others);
    assert(layers.len() == others.len());
    assert forall|i: int|
        0 <= i < keys@.len() && keys@[i].text() is Some && values@[i].text() is Some implies Some(
        (#[trigger] request.service@[i]).0@,
    ) == keys@[i].text() && Some(request.service@[i].1@) == values@[i].text() by {
        assert(service[i] == given[i]);
    }
    assert forall|i: int|
        0 <= i < layer_keys@.len() && layer_keys@[i].text() is Some
            && layer_values@[i].text() is Some implies Some((#[trigger] request.layers@[i]).0@)
        == layer_keys@[i].text() && Some(request.layers@[i].1@) == layer_values@[i].text() by {
        assert(layers[i] == others[i]);
    }
}

/// A request is made exactly where the options are accepted and the URI has a scheme.
/// Bad options come first.
pub proof fn law_requests_need_options_and_a_scheme(
    input: OperatorInput,
    factor: Option<u32>,
    split: Split,
    parsed: Result<OperatorConfig, String>,
    outcome: Result<OperatorRequest, Failure>,
)
    requires
        call_ensures(
            OperatorConfig::parse,
            (&input.options, input.cache_namespace, factor),
            parsed,
        ),
        call_ensures(operator::operator_request, (input, factor, split), outcome),
    ensures
        outcome is Ok <==> parsed is Ok && split is Ok,
        outcome matches Ok(request) ==> {
            &&& request.uri == input.uri
            &&& request.service == input.service
            &&& request.scheme@ == (split->Ok_0).0@
            &&& request.config.cache_namespace == input.cache_namespace
        },
        parsed matches Err(message) ==> (outcome matches Err(f) && f.code is InvalidInput
            && f.message@ == message@),
        parsed is Ok && split is Err ==> (outcome matches Err(f) && f.message@
            == (split->Err_0).1@),
{
}

/// An operator keeps the scheme and the tuning that were asked for and what its service
/// can do.  A cache that could not be built leaves a warning.
pub proof fn law_operators_keep_what_was_asked(
    request: OperatorRequest,
    cap: CapabilityFlags,
    error: Option<String>,
    op: OdOperator,
    shown: Option<&String>,
)
    requires
        call_ensures(operator::built_operator, (&request, cap, error), op),
        call_ensures(operator::od_operator_warning, (Some(&op),), shown),
    ensures
        op.scheme@ == request.scheme@,
        op.io == request.config.io,
        op.cap == cap,
        error is None ==> op.warning is None,
        error matches Some(e) ==> !e@.contains('\0') ==> op.warning is Some && op.warning->0@
            == "OpenDAL cache disabled: "@ + e@,
        text::optional_ref(shown) == text::optional_text(op.warning),
{
    reveal_strlit("OpenDAL cache disabled: ");
    if error is Some && !error->0@.contains('\0') {
        let e = error->0@;
        let text = "OpenDAL cache disabled: "@ + e;
        if text.contains('\0') {
            let i = choose|i: int| 0 <= i < text.len() && text[i] == '\0';
            let n = "OpenDAL cache disabled: "@.len() as int;
            if i >= n {
                assert(e[i - n] == '\0');
                assert(e.contains(e[i - n]));
            }
        }
    }
}

/// The number set first: an operator's own, or that of the defaults.
pub open spec fn own_or_default(own: nat, default: usize) -> nat {
    if own > 0 {
        own
    } else {
        default as nat
    }
}

/// An operator that is asked for by its scheme is tuned by its own options first and by
/// the defaults where those say nothing.
pub proof fn law_schemes_are_tuned(
    request: SchemeRequest,
    cap: CapabilityFlags,
    defaults: IoOptions,
    op: OdopOperator,
    full: CapabilityFlags,
)
    requires
        call_ensures(operator::built_from_scheme, (&request, cap, &defaults), op),
        call_ensures(operator::full, (&op,), full),
    ensures
        op.scheme@ == request.scheme@,
        op.cap == cap,
        full == cap,
        op.io.read.concurrent == own_or_default(
            number_or_zero(last_value(request.layers@, "io.read.concurrent"@)),
            defaults.read.concurrent,
        ),
        op.io.read.chunk == own_or_default(
            number_or_zero(last_value(request.layers@, "io.read.chunk"@)),
            defaults.read.chunk,
        ),
        op.io.write.concurrent == own_or_default(
            number_or_zero(last_value(request.layers@, "io.write.concurrent"@)),
            defaults.write.concurrent,
        ),
        op.io.write.chunk == own_or_default(
            number_or_zero(last_value(request.layers@, "io.write.chunk"@)),
            defaults.write.chunk,
        ),
{
    let own = choose|own: IoOptions| #[trigger]
        own.over(defaults) == op.io && own.given_by(ffi::pair_views(request.layers@));
    lemma_given_by(request.layers@, own);
}

proof fn lemma_given_by(values: Seq<(String, String)>, own: IoOptions)
    requires
        own.given_by(ffi::pair_views(values)),
    ensures
        own.read.concurrent == number_or_zero(last_value(values, "io.read.concurrent"@)),
        own.read.chunk == number_or_zero(last_value(values, "io.read.chunk"@)),
        own.write.concurrent == number_or_zero(last_value(values, "io.write.concurrent"@)),
        own.write.chunk == number_or_zero(last_value(values, "io.write.chunk"@)),
{
    lemma_last_number(values, "io.read.concurrent"@);
    lemma_last_number(values, "io.read.chunk"@);
    lemma_last_number(values, "io.write.concurrent"@);
    lemma_last_number(values, "io.write.chunk"@);
}

/// The parts of a URI are reported each in its place, and a part that is missing is
/// told from one that is empty.
pub proof fn law_uri_parts_are_reported(split: Split, outcome: Result<OdopParsedUri, Failure>)
    requires
        call_ensures(operator_uri::parsed_uri, (split,), outcome),
    ensures
        outcome is Ok <==> split is Ok,
        split matches Ok(parts) ==> {
            let uri = outcome->Ok_0;
            &&& !parts.0@.contains('\0') ==> uri.scheme@ == parts.0@
            &&& uri.has_authority <==> parts.1 is Some
            &&& uri.has_root <==> parts.2 is Some
            &&& parts.1 matches Some(authority) ==> !authority@.contains('\0')
                ==> uri.authority@ == authority@
            &&& parts.2 matches Some(root) ==> !root@.contains('\0') ==> uri.root@ == root@
            &&& parts.1 is None ==> uri.authority@.len() == 0
            &&& parts.2 is None ==> uri.root@.len() == 0
        },
        split matches Err(error) ==> (outcome matches Err(f) && f.message@ == error.1@),
{
}

/// The scheme of a URI that cannot be split is unknown.
pub proof fn law_schemes_may_be_unknown(split: Split, scheme: String)
    requires
        call_ensures(operator_uri::split_scheme, (split,), scheme),
    ensures
        split matches Ok(parts) ==> scheme@ == parts.0@,
        split is Err ==> scheme@ == "unknown"@,
{
}

/// Text without a `:` is a scheme, in small letters, and nothing else.
pub proof fn law_bare_schemes(
    uri: &str,
    scheme: String,
    given: CText,
    outcome: Result<OdopParsedUri, Failure>,
)
    requires
        call_ensures(operator_uri::scheme_of, (uri,), scheme),
        call_ensures(operator_uri::odop_parse_uri, (&given,), outcome),
        given.text() == Some(uri@),
        !uri@.contains(':'),
    ensures
        scheme@ == text::lower(uri@),
        outcome is Ok,
        !uri@.contains('\0') && !text::lower(uri@).contains('\0') ==> outcome->Ok_0.scheme@
            == text::lower(uri@),
        !outcome->Ok_0.has_authority,
        !outcome->Ok_0.has_root,
{
    lemma_no_mark(uri@);
}

/// An operator that is asked for by a bare scheme is asked for by that scheme.
pub proof fn law_bare_schemes_are_asked_for(
    input: OperatorInput,
    factor: Option<u32>,
    parsed: Result<OperatorConfig, String>,
    outcome: Result<OperatorRequest, Failure>,
)
    requires
        call_ensures(
            OperatorConfig::parse,
            (&input.options, input.cache_namespace, factor),
            parsed,
        ),
        call_ensures(operator::od_operator_new, (input, factor), outcome),
        !input.uri@.contains(':'),
    ensures
        outcome is Ok <==> parsed is Ok,
        outcome matches Ok(request) ==> request.uri == input.uri && request.service
            == input.service && request.scheme@ == text::lower(input.uri@)
            && request.config.cache_namespace == input.cache_namespace,
        outcome matches Err(f) ==> f.code is InvalidInput,
{
    lemma_no_mark(input.uri@);
}

/// A warning that cannot be handed over is left out.
pub proof fn law_warnings_hold_no_nul(
    request: OperatorRequest,
    cap: CapabilityFlags,
    error: String,
    op: OdOperator,
)
    requires
        call_ensures(operator::built_operator, (&request, cap, Some(error)), op),
        error@.contains('\0'),
    ensures
        op.warning is None,
{
    let text = "OpenDAL cache disabled: "@ + error@;
    let i = choose|i: int| 0 <= i < error@.len() && error@[i] == '\0';
    let n = "OpenDAL cache disabled: "@.len() as int;
    assert(text[n + i] == '\0');
    assert(text.contains(text[n + i]));
}

/// A URI that cannot be split fails with the category of its error.
pub proof fn law_split_errors_keep_their_category(
    error: (String, String),
    name: &str,
    kind: ErrorKind,
    category: OdErrorCode,
    parsed: Result<OdopParsedUri, Failure>,
    input: OperatorInput,
    factor: Option<u32>,
    config: OperatorConfig,
    request: Result<OperatorRequest, Failure>,
)
    requires
        name@ == error.0@,
        call_ensures(ErrorKind::from_name, (name,), kind),
        call_ensures(ErrorKind::code, (kind,), category),
        call_ensures(operator_uri::parsed_uri, (Err(error),), parsed),
        call_ensures(
            OperatorConfig::parse,
            (&input.options, input.cache_namespace, factor),
            Ok::<OperatorConfig, String>(config),
        ),
        call_ensures(operator::operator_request, (input, factor, Err(error)), request),
    ensures
        parsed matches Err(f) && f.code == category && f.message@ == error.1@,
        request matches Err(f) && f.code == category && f.message@ == error.1@,
{
}

} // verus!
