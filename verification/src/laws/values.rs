//! Schemes, capabilities, versions and text from outside.

use vstd::prelude::*;

use crate::capability;
use crate::capability::OdopCapabilityList;
use crate::error::Failure;
use crate::ffi;
use crate::ffi::CText;
use crate::init;
use crate::schemes;
use crate::schemes::{KeptSchemes, OdSchemeList};
use crate::text;
use crate::version;

verus! {

/// A list contains a scheme exactly where one of its texts is that.
pub proof fn law_schemes_are_found(list: Vec<String>, scheme: &str, found: bool)
    requires
        call_ensures(schemes::contains_scheme, (&list, scheme), found),
    ensures
        found ==> exists|i: int| 0 <= i < list@.len() && (#[trigger] list@[i])@ == scheme@,
        forall|i: int| 0 <= i < list@.len() && (#[trigger] list@[i])@ == scheme@ ==> found,
{
    let texts = schemes::texts(list@);
    if found {
        let i = choose|i: int| 0 <= i < texts.len() && texts[i] == scheme@;
        assert(list@[i]@ == scheme@);
    }
    assert forall|i: int| 0 <= i < list@.len() && (#[trigger] list@[i])@ == scheme@ implies found by {
        assert(texts[i] == scheme@);
        assert(texts.contains(scheme@));
    }
}

/// A list that is handed over holds the same schemes in the same order.
pub proof fn law_schemes_are_listed(
    schemes: Vec<String>,
    outcome: Result<OdSchemeList, Failure>,
    i: int,
)
    requires
        call_ensures(OdSchemeList::of, (&schemes,), outcome),
        0 <= i < schemes@.len(),
    ensures
        schemes@[i]@.contains('\0') ==> outcome is Err,
        outcome matches Ok(list) ==> list.schemes@.len() == schemes@.len()
            && list.schemes@[i]@ == schemes@[i]@,
        outcome matches Err(f) ==> f.code is Unexpected,
{
    let texts = schemes::texts(schemes@);
    assert(texts[i] == schemes@[i]@);
    if outcome is Ok {
        let listed = schemes::texts(outcome->Ok_0.schemes@);
        assert(listed.len() == texts.len());
        assert(listed[i] == texts[i]);
    }
}

/// The entries of a list are got by their index, and none beyond its end.
pub proof fn law_listed_schemes_are_got(
    list: OdSchemeList,
    len: usize,
    index: usize,
    scheme: Option<&String>,
)
    requires
        call_ensures(OdSchemeList::len, (&list,), len),
        call_ensures(OdSchemeList::entry, (&list, index), scheme),
    ensures
        len == list.schemes@.len(),
        scheme is Some <==> index < len,
        scheme matches Some(s) ==> s@ == list.schemes@[index as int]@,
{
}

/// A scheme is supported or not for good, once the schemes were looked up.
pub proof fn law_support_does_not_change(
    scheme: CText,
    kept: &mut KeptSchemes,
    found: bool,
    again: &mut KeptSchemes,
    later: bool,
)
    requires
        call_ensures(schemes::od_scheme_supported, (&scheme, kept), found),
        call_ensures(schemes::od_scheme_supported, (&scheme, again), later),
        old(again)@ == final(kept)@,
        scheme.text() is Some,
    ensures
        later == found,
        final(again)@ == final(kept)@,
{
}

/// Without text no scheme is supported, and the built-in ones always are.
pub proof fn law_built_in_schemes_are_supported(
    scheme: CText,
    kept: &mut KeptSchemes,
    found: bool,
)
    requires
        call_ensures(schemes::od_scheme_supported, (&scheme, kept), found),
    ensures
        scheme.text() is None ==> !found,
        scheme.text() == Some("memory"@) || scheme.text() == Some("fs"@) || scheme.text() == Some(
            "file"@,
        ) || scheme.text() == Some("s3"@) ==> found,
{
}

/// Truth values are kept in order, and what is none is left out.
pub proof fn law_truth_values_are_kept(
    fields: Vec<(String, Option<bool>)>,
    more: Vec<(String, Option<bool>)>,
    name: String,
    value: Option<bool>,
    flags: Vec<(String, bool)>,
    others: Vec<(String, bool)>,
)
    requires
        more@ == fields@.push((name, value)),
        call_ensures(capability::boolean_fields, (&fields,), flags),
        call_ensures(capability::boolean_fields, (&more,), others),
    ensures
        fields@.len() == 0 ==> flags@.len() == 0,
        value is None ==> capability::flag_views(others@) == capability::flag_views(flags@),
        value is Some ==> others@.len() == flags@.len() + 1 && others@.last().0@ == name@
            && others@.last().1 == value->0,
        forall|i: int|
            0 <= i < flags@.len() ==> (#[trigger] others@[i]).0@ == flags@[i].0@ && others@[i].1
                == flags@[i].1,
{
    let before = capability::field_views(fields@);
    let after = capability::field_views(more@);
    assert(after.drop_last() =~= before);
    assert(after.last() == (name@, value));
    let a = capability::flag_views(flags@);
    let b = capability::flag_views(others@);
    assert(a.len() == flags@.len());
    assert(b.len() == others@.len());
    if value is Some {
        assert(b == a.push((name@, value->0)));
        assert(b.last() == (others@.last().0@, others@.last().1));
    }
    assert forall|i: int| 0 <= i < flags@.len() implies (#[trigger] others@[i]).0@ == flags@[i].0@
        && others@[i].1 == flags@[i].1 by {
        assert(b[i] == a[i]);
    }
}

/// Something is supported exactly where it is flagged as true under its name.
pub proof fn law_flags_tell_what_is_supported(
    flags: Vec<(String, bool)>,
    name: CText,
    supported: bool,
)
    requires
        call_ensures(capability::supports, (&flags, &name), supported),
    ensures
        name.text() is None ==> !supported,
        supported ==> exists|i: int|
            0 <= i < flags@.len() && Some((#[trigger] flags@[i]).0@) == name.text() && flags@[i].1,
        forall|i: int|
            0 <= i < flags@.len() && Some((#[trigger] flags@[i]).0@) == name.text() && flags@[i].1
                ==> supported,
{
    let views = capability::flag_views(flags@);
    if supported {
        let i = choose|i: int|
            0 <= i < views.len() && #[trigger] views[i] == (name.text()->0, true);
        assert(Some(flags@[i].0@) == name.text());
    }
    assert forall|i: int|
        0 <= i < flags@.len() && Some((#[trigger] flags@[i]).0@) == name.text()
            && flags@[i].1 implies supported by {
        assert(views[i] == (name.text()->0, true));
        assert(capability::is_supported(views, name.text()->0));
    }
}

/// A list of flags is handed over in order, name by name and value by value.
pub proof fn law_flags_are_listed(
    flags: Vec<(String, bool)>,
    list: OdopCapabilityList,
    len: usize,
    index: usize,
    has_output: bool,
    item: Option<(&String, bool)>,
)
    requires
        call_ensures(OdopCapabilityList::of, (&flags,), list),
        call_ensures(capability::odop_capabilities_len, (Some(&list),), len),
        call_ensures(capability::odop_capabilities_entry, (Some(&list), index, has_output), item),
    ensures
        len == flags@.len(),
        item is Some <==> has_output && index < len,
        item matches Some(i) ==> i.1 == flags@[index as int].1 && (!flags@[index as int].0@.contains(
            '\0',
        ) ==> i.0@ == flags@[index as int].0@),
{
    let views = capability::flag_views(flags@);
    assert(list.lists(views));
    assert(list.items@.len() == views.len());
    if item is Some {
        assert(list.items@[index as int].1 == views[index as int].1);
        assert(list.items@[index as int].0@ == ffi::c_text(views[index as int].0));
    }
}

/// The version names the core and the storage library.
pub proof fn law_versions_name_the_core(core: &str, text: String)
    requires
        call_ensures(version::odop_version, (core,), text),
    ensures
        text@ == "opendalfs-core "@ + core@ + " (opendal 0.57)"@,
{
}

/// A version that comes from a commit shows the first seven characters of that commit;
/// any other shows itself alone.
pub proof fn law_commits_are_shown(
    version: &str,
    source: &str,
    text: String,
    place: Seq<char>,
    commit: Seq<char>,
)
    requires
        call_ensures(version::locked_version, (version, Some(source)), text),
        source@ == seq!['g', 'i', 't', '+'] + place + seq!['#'] + commit,
        !commit.contains('#'),
    ensures
        commit.len() == 0 ==> text@ == version@,
        0 < commit.len() <= 7 ==> text@ == version@ + " (git "@ + commit + ")"@,
        commit.len() > 7 ==> text@ == version@ + " (git "@ + commit.take(7) + ")"@,
{
    let s = source@;
    let n = 4 + place.len() as int;
    assert(s[n] == '#');
    assert(s.contains('#'));
    text::lemma_last_index(s, '#');
    let i = text::last_index(s, '#')->0;
    if i > n {
        assert(s[i] == commit[i - n - 1]);
        assert(commit.contains(commit[i - n - 1]));
    }
    assert(i == n);
    assert(s.take(4) =~= seq!['g', 'i', 't', '+']);
    assert(s.skip(n + 1) =~= commit);
}

/// What comes from a registry, or from nowhere, shows its version alone.
pub proof fn law_releases_are_shown(version: &str, source: Option<&str>, text: String)
    requires
        call_ensures(version::locked_version, (version, source), text),
        source matches Some(s) ==> !(s@.len() >= 4 && s@.take(4) == seq!['g', 'i', 't', '+'])
            || !s@.contains('#'),
    ensures
        text@ == version@,
{
    if source is Some {
        text::lemma_last_index(source->0@, '#');
    }
}

/// Text is taken as it is; where there is none, a null is told from what is not text.
pub proof fn law_text_is_taken(
    p: CText,
    name: &str,
    text: Option<&String>,
    optional: Result<Option<String>, String>,
)
    requires
        call_ensures(ffi::cstr, (&p,), text),
        call_ensures(ffi::optional_cstr, (&p, name), optional),
    ensures
        p matches CText::Text(t) ==> text is Some && text->0@ == t@ && (optional matches Ok(Some(s))
            && s@ == t@),
        p is Null ==> text is None && (optional matches Ok(s) && s is None),
        p is NotUtf8 ==> text is None && (optional matches Err(e) && e@ == name@
            + " is not UTF-8"@),
{
}

/// Text that holds a NUL is handed over as none.
pub proof fn law_text_is_handed_over(s: String, text: String)
    requires
        call_ensures(ffi::as_c_text, (s,), text),
    ensures
        !s@.contains('\0') ==> text@ == s@,
        s@.contains('\0') ==> text@.len() == 0,
{
}

/// Pairs are collected in order, each key with its own value.
pub proof fn law_pairs_are_collected(
    keys: Vec<CText>,
    values: Vec<CText>,
    outcome: Result<Vec<(String, String)>, String>,
    i: int,
)
    requires
        keys@.len() == values@.len(),
        0 < keys@.len() <= usize::MAX,
        call_ensures(
            ffi::collect_pairs,
            (Some(&keys), Some(&values), keys@.len() as usize),
            outcome,
        ),
        0 <= i < keys@.len(),
        keys@[i].text() is Some,
        values@[i].text() is Some,
    ensures
        outcome matches Ok(pairs) ==> pairs@.len() == keys@.len() && Some(pairs@[i].0@)
            == keys@[i].text() && Some(pairs@[i].1@) == values@[i].text(),
{
    if outcome is Ok {
        let views = ffi::pair_views(outcome->Ok_0@);
        let given = ffi::pairs_of(keys@, values@);
        assert(views == given);
        assert(views.len() == given.len());
        assert(views[i] == given[i]);
    }
}

/// A provider is ready where one was there, was installed, or is there now.
pub proof fn law_providers_are_ready(
    had: bool,
    installed: bool,
    has: bool,
    ready: Result<(), Failure>,
)
    requires
        call_ensures(init::provider_ready, (had, installed, has), ready),
    ensures
        ready is Ok <==> had || installed || has,
        ready matches Err(f) ==> f.code is Unexpected,
{
}

/// What a service can do is told the same way by every means there is.
pub proof fn law_capabilities_agree(
    capability: opendal::Capability,
    flags: Vec<(String, bool)>,
    name: CText,
    supported: bool,
    told: bool,
    list: Result<OdopCapabilityList, Failure>,
    other: Result<OdopCapabilityList, Failure>,
)
    requires
        call_ensures(capability::capability_bools, (&capability,), flags),
        call_ensures(capability::supports, (&flags, &name), supported),
        call_ensures(capability::od_operator_supports, (&capability, &name), told),
        call_ensures(capability::odop_capabilities, (Some(&capability),), list),
        call_ensures(capability::od_capabilities, (Some(&capability),), other),
    ensures
        told == supported,
        list matches Ok(l) && l.items@.len() == flags@.len(),
        other matches Ok(l) && l.items@.len() == flags@.len(),
{
    let views = capability::flag_views(flags@);
    assert(views.len() == flags@.len());
}

/// Without an operator there are no capabilities.
pub proof fn law_missing_operators_have_no_capabilities(
    list: Result<OdopCapabilityList, Failure>,
    other: Result<OdopCapabilityList, Failure>,
    len: usize,
)
    requires
        call_ensures(capability::odop_capabilities, (None,), list),
        call_ensures(capability::od_capabilities, (None,), other),
        call_ensures(capability::odop_capabilities_len, (None,), len),
    ensures
        list matches Err(f) && f.code is InvalidInput,
        other matches Err(f) && f.code is InvalidInput,
        len == 0,
{
}

/// Sorting keeps the schemes and puts them in order, each once.
pub proof fn law_schemes_are_sorted(list: Vec<String>, sorted: Vec<String>, scheme: Seq<char>)
    requires
        call_ensures(schemes::sorted_schemes, (&list,), sorted),
    ensures
        schemes::texts(sorted@).contains(scheme) <==> schemes::texts(list@).contains(scheme),
        schemes::strictly_ascending(schemes::texts(sorted@)),
{
}

/// The schemes that are listed are those that are supported, in order.
pub proof fn law_listed_schemes_are_supported(
    kept: &mut KeptSchemes,
    outcome: Result<OdSchemeList, Failure>,
    scheme: CText,
    again: &mut KeptSchemes,
    found: bool,
)
    requires
        call_ensures(schemes::od_schemes, (kept,), outcome),
        call_ensures(schemes::od_scheme_supported, (&scheme, again), found),
        old(again)@ == final(kept)@,
        scheme.text() is Some,
    ensures
        outcome matches Ok(list) ==> (found <==> schemes::texts(list.schemes@).contains(
            scheme.text()->0,
        )) && schemes::strictly_ascending(schemes::texts(list.schemes@)),
        outcome matches Err(f) ==> f.code is Unexpected,
        old(kept)@ is Some ==> final(kept)@ == old(kept)@,
        final(kept)@ is Some,
{
}

/// Nothing is kept before the schemes were looked up.
pub proof fn law_nothing_is_kept_at_first(kept: KeptSchemes)
    requires
        call_ensures(KeptSchemes::new, (), kept),
    ensures
        kept@ is None,
{
}

} // verus!
