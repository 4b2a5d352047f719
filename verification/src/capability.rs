//! What a service can do: guards and introspection.

use vstd::prelude::*;

use crate::error::{Failure, OdErrorCode};
use crate::ffi;
use crate::ffi::{as_c_text, cstr, CText};
use crate::text::text_eq;

verus! {

/// The operations that calls are guarded by.
#[derive(Clone, Copy, Debug, PartialEq, Eq, Structural)]
pub struct CapabilityFlags {
    pub stat: bool,
    pub read: bool,
    pub write: bool,
    pub list: bool,
    pub create_dir: bool,
    pub delete: bool,
    pub rename: bool,
    pub copy: bool,
}

/// What is said of an operation that a service does not support.
pub open spec fn unsupported_message(scheme: Seq<char>, op_name: Seq<char>) -> Seq<char> {
    "service '"@ + scheme + "' does not support "@ + op_name
}

/// Fail early where a service does not support an operation.
pub fn require(scheme: &str, supported: bool, op_name: &str) -> (guard: Result<(), Failure>)
    ensures
        guard is Ok <==> supported,
        guard matches Err(e) ==> e.is(
            OdErrorCode::Unsupported,
            unsupported_message(scheme@, op_name@),
        ),
{
    if supported {
        Ok(())
    } else {
        let mut message: String = "service '".to_owned();
        message.append(scheme);
        message.append("' does not support ");
        message.append(op_name);
        Err(Failure { code: OdErrorCode::Unsupported, message })
    }
}

/// `opendal::Capability`, the storage library's own record of what a service can
/// do.  Nothing is known of what is inside.
#[verifier::external_type_specification]
#[verifier::external_body]
pub struct ExCapability(opendal::Capability);

/// The fields of the JSON object that `serde_json::to_value` writes a capability
/// as, in order, each with its truth value where it has one.
pub uninterp spec fn capability_object(capability: opendal::Capability) -> Seq<
    (Seq<char>, Option<bool>),
>;

/// Fields in terms of their texts.
pub open spec fn field_views(fields: Seq<(String, Option<bool>)>) -> Seq<
    (Seq<char>, Option<bool>),
> {
    Seq::new(fields.len(), |i: int| (fields[i].0@, fields[i].1))
}

/// The names of fields.
pub open spec fn field_names(fields: Seq<(Seq<char>, Option<bool>)>) -> Seq<Seq<char>> {
    Seq::new(fields.len(), |i: int| fields[i].0)
}

/// `serde_json::to_value` of a capability: the fields of the object that it is
/// written as, each with its truth value where it has one.  They depend on the
/// capability alone.  Which fields there are is up to the storage library; a JSON
/// object names none twice.
#[verifier::external_body]
fn capability_fields(capability: &opendal::Capability) -> (fields: Vec<(String, Option<bool>)>)
    ensures
        field_views(fields@) == capability_object(*capability),
        field_names(field_views(fields@)).no_duplicates(),
{
    match serde_json::to_value(capability) {
        Ok(serde_json::Value::Object(fields)) => fields
            .into_iter()
            .map(|(name, value)| (name, value.as_bool()))
            .collect(),
        _ => Vec::new(),
    }
}

/// The fields that hold a truth value, in order.
pub open spec fn truth_fields(fields: Seq<(Seq<char>, Option<bool>)>) -> Seq<(Seq<char>, bool)>
    decreases fields.len(),
{
    if fields.len() == 0 {
        Seq::empty()
    } else {
        let before = truth_fields(fields.drop_last());
        match fields.last().1 {
            Some(truth) => before.push((fields.last().0, truth)),
            None => before,
        }
    }
}

/// Named truth values in terms of their texts.
pub open spec fn flag_views(flags: Seq<(String, bool)>) -> Seq<(Seq<char>, bool)> {
    Seq::new(flags.len(), |i: int| (flags[i].0@, flags[i].1))
}

/// The fields that hold a truth value.  Limits and other hints are left out.
pub fn boolean_fields(fields: &Vec<(String, Option<bool>)>) -> (flags: Vec<(String, bool)>)
    ensures
        flag_views(flags@) == truth_fields(field_views(fields@)),
{
    let ghost views = field_views(fields@);
    let mut flags: Vec<(String, bool)> = Vec::new();
    let mut i: usize = 0;
    assert(views.take(0) =~= Seq::<(Seq<char>, Option<bool>)>::empty());
    assert(flag_views(flags@) =~= truth_fields(views.take(0)));
    while i < fields.len()
        invariant
            views == field_views(fields@),
            i <= fields@.len(),
            flag_views(flags@) == truth_fields(views.take(i as int)),
        decreases fields@.len() - i,
    {
        let ghost before = flag_views(flags@);
        assert(views.take(i + 1).drop_last() =~= views.take(i as int));
        assert(views.take(i + 1).last() == views[i as int]);
        match fields[i].1 {
            Some(truth) => {
                flags.push((fields[i].0.clone(), truth));
                assert(flag_views(flags@) =~= before.push((views[i as int].0, truth)));
            },
            None => {},
        }
        i += 1;
    }
    assert(views.take(i as int) =~= views);
    flags
}

/// Whether named truth values name nothing twice.
pub open spec fn distinct_names(flags: Seq<(Seq<char>, bool)>) -> bool {
    forall|i: int, j: int|
        0 <= i < j < flags.len() ==> (#[trigger] flags[i]).0 != (#[trigger] flags[j]).0
}

/// Leaving fields out keeps names distinct.
proof fn lemma_truth_fields(fields: Seq<(Seq<char>, Option<bool>)>)
    requires
        field_names(fields).no_duplicates(),
    ensures
        distinct_names(truth_fields(fields)),
        forall|i: int|
            0 <= i < truth_fields(fields).len() ==> field_names(fields).contains(
                (#[trigger] truth_fields(fields)[i]).0,
            ),
    decreases fields.len(),
{
    if fields.len() > 0 {
        let front = fields.drop_last();
        let names = field_names(fields);
        assert(field_names(front) =~= names.drop_last());
        assert forall|i: int, j: int|
            0 <= i < field_names(front).len() && 0 <= j < field_names(front).len() && i != j implies
            field_names(front)[i] != field_names(front)[j] by {
            assert(names[i] != names[j]);
        }
        lemma_truth_fields(front);
        let before = truth_fields(front);
        let after = truth_fields(fields);
        assert forall|i: int| 0 <= i < before.len() implies names.contains(
            (#[trigger] before[i]).0,
        ) && before[i].0 != names.last() by {
            assert(field_names(front).contains(before[i].0));
            let k = choose|k: int|
                0 <= k < field_names(front).len() && field_names(front)[k] == before[i].0;
            assert(names[k] == before[i].0);
            assert(names[k] != names[names.len() - 1]);
        }
        assert(names.contains(names[names.len() - 1]));
        assert forall|i: int| 0 <= i < after.len() implies names.contains(
            (#[trigger] after[i]).0,
        ) by {
            if i < before.len() {
                assert(after[i] == before[i]);
            }
        }
    }
}

/// Every truth value of a capability under its name.
pub fn capability_bools(capability: &opendal::Capability) -> (flags: Vec<(String, bool)>)
    ensures
        flag_views(flags@) == truth_fields(capability_object(*capability)),
        distinct_names(flag_views(flags@)),
{
    let fields: Vec<(String, Option<bool>)> = capability_fields(capability);
    proof {
        lemma_truth_fields(field_views(fields@));
    }
    boolean_fields(&fields)
}

/// Whether `name` is one of the capabilities that are there.
pub open spec fn is_supported(flags: Seq<(Seq<char>, bool)>, name: Seq<char>) -> bool {
    exists|i: int| 0 <= i < flags.len() && #[trigger] flags[i] == (name, true)
}

/// Whether a capability, asked for by name, is there.  Names that are not known
/// are not.
pub fn supports(flags: &Vec<(String, bool)>, name: &CText) -> (supported: bool)
    ensures
        supported == (name.text() is Some && is_supported(flag_views(flags@), name.text()->0)),
{
    let wanted: &String = match cstr(name) {
        Some(wanted) => wanted,
        None => {
            return false;
        },
    };
    let mut i: usize = 0;
    while i < flags.len()
        invariant
            i <= flags@.len(),
            name.text() == Some(wanted@),
            forall|j: int| 0 <= j < i ==> #[trigger] flag_views(flags@)[j] != (wanted@, true),
        decreases flags@.len() - i,
    {
        if flags[i].1 && text_eq(flags[i].0.as_str(), wanted.as_str()) {
            assert(flag_views(flags@)[i as int] == (wanted@, true));
            return true;
        }
        i += 1;
    }
    false
}

/// Whether a capability of an operator, asked for by name, is there.
pub fn od_operator_supports(capability: &opendal::Capability, name: &CText) -> (supported: bool)
    ensures
        supported == (name.text() is Some && is_supported(
            truth_fields(capability_object(*capability)),
            name.text()->0,
        )),
{
    supports(&capability_bools(capability), name)
}

/// An index-addressable list of capabilities.
pub struct OdopCapabilityList {
    pub items: Vec<(String, bool)>,
}

impl OdopCapabilityList {
    /// Whether this is the list of named truth values.
    pub open spec fn lists(self, flags: Seq<(Seq<char>, bool)>) -> bool {
        &&& self.items@.len() == flags.len()
        &&& forall|i: int|
            0 <= i < flags.len() ==> (#[trigger] self.items@[i]).0@ == ffi::c_text(flags[i].0)
                && self.items@[i].1 == flags[i].1
    }

    /// The list of named truth values.
    pub fn of(flags: &Vec<(String, bool)>) -> (list: OdopCapabilityList)
        ensures
            list.lists(flag_views(flags@)),
    {
        let mut items: Vec<(String, bool)> = Vec::new();
        let mut i: usize = 0;
        while i < flags.len()
            invariant
                i <= flags@.len(),
                items@.len() == i,
                forall|j: int|
                    0 <= j < i ==> (#[trigger] items@[j]).0@ == ffi::c_text(flags@[j].0@)
                        && items@[j].1 == flags@[j].1,
            decreases flags@.len() - i,
        {
            items.push((as_c_text(flags[i].0.clone()), flags[i].1));
            i += 1;
        }
        OdopCapabilityList { items }
    }

    /// The number of capabilities.
    pub fn len(&self) -> (len: usize)
        ensures
            len == self.items@.len(),
    {
        self.items.len()
    }

    /// The capability at `index`.
    pub fn entry(&self, index: usize) -> (item: Option<&(String, bool)>)
        ensures
            item is Some <==> index < self.items@.len(),
            item matches Some(i) ==> *i == self.items@[index as int],
    {
        if index < self.items.len() {
            Some(&self.items[index])
        } else {
            None
        }
    }
}

/// Whether an outcome is the list of the capabilities of an operator, or says that
/// there is no operator.
pub open spec fn is_listed(
    list: Result<OdopCapabilityList, Failure>,
    capability: Option<&opendal::Capability>,
) -> bool {
    match capability {
        None => list matches Err(e) && e.is(OdErrorCode::InvalidInput, "null operator"@),
        Some(capability) => list matches Ok(l) && l.lists(
            truth_fields(capability_object(*capability)),
        ),
    }
}

/// The capabilities of an operator built from a scheme, if there is one, as a list.
pub fn odop_capabilities(capability: Option<&opendal::Capability>) -> (list: Result<
    OdopCapabilityList,
    Failure,
>)
    ensures
        is_listed(list, capability),
{
    match capability {
        Some(capability) => Ok(OdopCapabilityList::of(&capability_bools(capability))),
        None => Err(Failure::new(OdErrorCode::InvalidInput, "null operator")),
    }
}

/// The capabilities of an operator, if there is one, as a list.
pub fn od_capabilities(capability: Option<&opendal::Capability>) -> (list: Result<
    OdopCapabilityList,
    Failure,
>)
    ensures
        is_listed(list, capability),
{
    odop_capabilities(capability)
}

/// The number of capabilities; zero where there is no list.
pub fn odop_capabilities_len(list: Option<&OdopCapabilityList>) -> (len: usize)
    ensures
        len == match list {
            Some(list) => list.items@.len(),
            None => 0,
        },
{
    match list {
        Some(list) => list.len(),
        None => 0,
    }
}

/// The capability at `index`.  There is none without a list or a place for it.
pub fn odop_capabilities_entry(
    list: Option<&OdopCapabilityList>,
    index: usize,
    has_output: bool,
) -> (item: Option<(&String, bool)>)
    ensures
        item is Some <==> list is Some && has_output && index < list->0.items@.len(),
        item matches Some(i) ==> i.0@ == list->0.items@[index as int].0@ && i.1
            == list->0.items@[index as int].1,
{
    if !has_output {
        return None;
    }
    match list {
        Some(list) => match list.entry(index) {
            Some(item) => Some((&item.0, item.1)),
            None => None,
        },
        None => None,
    }
}

} // verus!
