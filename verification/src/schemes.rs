//! The schemes that services are registered under.

use vstd::prelude::*;

use crate::error::{Failure, OdErrorCode};
use crate::ffi::{cstr, CText};
use crate::text;
use crate::text::{has_char, text_eq};
use crate::text_map;
use crate::text_map::TextMap;

verus! {

/// The texts of a list of strings.
pub open spec fn texts(list: Seq<String>) -> Seq<Seq<char>> {
    Seq::new(list.len(), |i: int| list[i]@)
}

/// Whether texts ascend strictly, so that none occurs twice.
pub open spec fn strictly_ascending(list: Seq<Seq<char>>) -> bool {
    forall|i: int, j: int| 0 <= i < j < list.len() ==> #[trigger] text::text_lt(list[i], list[j])
}

/// The schemes of the services that this library is built with.
pub open spec fn is_built_in(scheme: Seq<char>) -> bool {
    scheme == "memory"@ || scheme == "fs"@ || scheme == "file"@ || scheme == "s3"@
}

/// Whether texts can be the schemes of a registry: the built-in ones are among
/// them, and none has a capital letter of the ASCII range.
pub open spec fn can_be_registered(list: Seq<Seq<char>>) -> bool {
    &&& forall|s: Seq<char>| is_built_in(s) ==> #[trigger] list.contains(s)
    &&& forall|s: Seq<char>| #[trigger] list.contains(s) ==> text::lower(s) == s
}

/// `opendal::init_default_registry`, then `opendal::OperatorRegistry::schemes`: the
/// services that the storage library is built with are registered, and what the
/// process has registered by now is listed as a set.  Schemes are kept in small
/// letters and never taken out again, so those of the services that `Cargo.toml`
/// selects are there.  Which others are, and in which order they come, depends on
/// the process and is not said.
#[verifier::external_body]
fn registry_schemes() -> (schemes: Vec<String>)
    ensures
        texts(schemes@).no_duplicates(),
        can_be_registered(texts(schemes@)),
{
    opendal::init_default_registry();
    opendal::OperatorRegistry::get().schemes().into_iter().collect()
}

/// Whether `scheme` is one of `schemes`.
pub fn contains_scheme(schemes: &Vec<String>, scheme: &str) -> (found: bool)
    ensures
        found == texts(schemes@).contains(scheme@),
{
    let mut i: usize = 0;
    while i < schemes.len()
        invariant
            i <= schemes@.len(),
            forall|j: int| 0 <= j < i ==> #[trigger] texts(schemes@)[j] != scheme@,
        decreases schemes@.len() - i,
    {
        if text_eq(schemes[i].as_str(), scheme) {
            assert(texts(schemes@)[i as int] == scheme@);
            return true;
        }
        i += 1;
    }
    false
}

/// The schemes in ascending order, each once.
pub fn sorted_schemes(schemes: &Vec<String>) -> (sorted: Vec<String>)
    ensures
        strictly_ascending(texts(sorted@)),
        forall|s: Seq<char>|
            #[trigger] texts(sorted@).contains(s) <==> texts(schemes@).contains(s),
{
    let mut seen: TextMap<()> = TextMap::new();
    let mut i: usize = 0;
    while i < schemes.len()
        invariant
            i <= schemes@.len(),
            seen.wf(),
            forall|s: Seq<char>| #[trigger]
                seen@.dom().contains(s) <==> texts(schemes@).take(i as int).contains(s),
        decreases schemes@.len() - i,
    {
        let ghost before = texts(schemes@).take(i as int);
        let ghost after = texts(schemes@).take(i + 1);
        let ghost added = schemes@[i as int]@;
        seen.insert(schemes[i].clone(), ());
        proof {
            assert(after =~= before.push(added));
            assert forall|s: Seq<char>| #[trigger] seen@.dom().contains(s) <==> after.contains(s) by {
                if after.contains(s) && s != added {
                    let j = choose|j: int| 0 <= j < after.len() && after[j] == s;
                    assert(before[j] == s);
                }
                if before.contains(s) {
                    let j = choose|j: int| 0 <= j < before.len() && before[j] == s;
                    assert(after[j] == s);
                }
                assert(after[i as int] == added);
            }
        }
        i += 1;
    }
    assert(texts(schemes@).take(i as int) =~= texts(schemes@));
    let mut sorted: Vec<String> = Vec::new();
    let mut k: usize = 0;
    while k < seen.len()
        invariant
            k <= seen.rows().len(),
            sorted@.len() == k,
            forall|j: int| 0 <= j < k ==> #[trigger] sorted@[j]@ == seen.rows()[j].0,
        decreases seen.rows().len() - k,
    {
        sorted.push(seen.key(k).clone());
        k += 1;
    }
    proof {
        let list = texts(sorted@);
        let rows = seen.rows();
        assert forall|i: int, j: int| 0 <= i < j < list.len() implies #[trigger] text::text_lt(
            list[i],
            list[j],
        ) by {
            assert(list[i] == sorted@[i]@ && list[j] == sorted@[j]@);
            assert(text::text_lt(rows[i].0, rows[j].0));
        }
        assert forall|s: Seq<char>| #[trigger] list.contains(s) <==> seen@.dom().contains(s) by {
            if list.contains(s) {
                let j = choose|j: int| 0 <= j < list.len() && list[j] == s;
                assert(sorted@[j]@ == rows[j].0);
                text_map::lemma_entry(rows, j);
            }
            if seen@.dom().contains(s) {
                let j = choose|j: int| 0 <= j < rows.len() && (#[trigger] rows[j]).0 == s;
                assert(sorted@[j]@ == rows[j].0);
                assert(list[j] == s);
            }
        }
    }
    sorted
}

/// What is registered by now, in ascending order.  The registry is read anew, so a
/// later call may list more.
pub fn current_schemes() -> (schemes: Vec<String>)
    ensures
        strictly_ascending(texts(schemes@)),
        can_be_registered(texts(schemes@)),
{
    sorted_schemes(&registry_schemes())
}

/// The schemes that were registered when they were first asked for, once they were.
pub struct KeptSchemes {
    list: Option<Vec<String>>,
}

impl View for KeptSchemes {
    type V = Option<Seq<Seq<char>>>;

    closed spec fn view(&self) -> Option<Seq<Seq<char>>> {
        match self.list {
            Some(list) => Some(texts(list@)),
            None => None,
        }
    }
}

impl KeptSchemes {
    #[verifier::type_invariant]
    spec fn wf(self) -> bool {
        self.list matches Some(list) ==> strictly_ascending(texts(list@)) && can_be_registered(
            texts(list@),
        )
    }

    /// Nothing was asked for yet.
    pub fn new() -> (kept: KeptSchemes)
        ensures
            kept@ is None,
    {
        KeptSchemes { list: None }
    }
}

/// The registered schemes in ascending order.  They are read once: the first list
/// is kept, and every later call returns it.
pub fn registered_schemes<'a>(kept: &'a mut KeptSchemes) -> (schemes: &'a Vec<String>)
    ensures
        final(kept)@ == Some(texts(schemes@)),
        old(kept)@ is Some ==> final(kept)@ == old(kept)@,
        strictly_ascending(texts(schemes@)),
        can_be_registered(texts(schemes@)),
{
    proof {
        use_type_invariant(&*kept);
    }
    if kept.list.is_none() {
        kept.list = Some(current_schemes());
    }
    kept.list.as_ref().unwrap()
}

/// Whether a service is registered under `scheme`: whether it is one of the kept
/// schemes.  The built-in ones always are.
pub fn od_scheme_supported(scheme: &CText, kept: &mut KeptSchemes) -> (found: bool)
    ensures
        match scheme.text() {
            None => !found && final(kept)@ == old(kept)@,
            Some(s) => {
                &&& final(kept)@ matches Some(list) && found == list.contains(s)
                &&& old(kept)@ is Some ==> final(kept)@ == old(kept)@
                &&& is_built_in(s) ==> found
                &&& text::lower(s) != s ==> !found
            },
        },
{
    match cstr(scheme) {
        Some(scheme) => contains_scheme(registered_schemes(kept), scheme.as_str()),
        None => false,
    }
}

/// A list of schemes that can be handed over as C strings.
pub struct OdSchemeList {
    pub schemes: Vec<String>,
}

/// Whether some scheme holds a NUL.
pub open spec fn has_nul(list: Seq<Seq<char>>) -> bool {
    exists|i: int| 0 <= i < list.len() && (#[trigger] list[i]).contains('\0')
}

impl OdSchemeList {
    /// A list of `schemes`, unless one of them cannot be handed over.
    pub fn of(schemes: &Vec<String>) -> (list: Result<OdSchemeList, Failure>)
        ensures
            list is Err <==> has_nul(texts(schemes@)),
            list matches Ok(l) ==> texts(l.schemes@) == texts(schemes@),
            list matches Err(e) ==> e.is(
                OdErrorCode::Unexpected,
                "registered scheme contains a NUL byte"@,
            ),
    {
        let mut copies: Vec<String> = Vec::new();
        let mut i: usize = 0;
        while i < schemes.len()
            invariant
                i <= schemes@.len(),
                copies@.len() == i,
                forall|j: int| 0 <= j < i ==> #[trigger] copies@[j]@ == schemes@[j]@,
                forall|j: int| 0 <= j < i ==> !(#[trigger] texts(schemes@)[j]).contains('\0'),
            decreases schemes@.len() - i,
        {
            if has_char(schemes[i].as_str(), '\0') {
                assert(texts(schemes@)[i as int].contains('\0'));
                return Err(
                    Failure::new(OdErrorCode::Unexpected, "registered scheme contains a NUL byte"),
                );
            }
            copies.push(schemes[i].clone());
            i += 1;
        }
        assert(texts(copies@) =~= texts(schemes@));
        Ok(OdSchemeList { schemes: copies })
    }

    /// The number of schemes.
    pub fn len(&self) -> (len: usize)
        ensures
            len == self.schemes@.len(),
    {
        self.schemes.len()
    }

    /// The scheme at `index`.
    pub fn entry(&self, index: usize) -> (scheme: Option<&String>)
        ensures
            scheme is Some <==> index < self.schemes@.len(),
            scheme matches Some(s) ==> *s == self.schemes@[index as int],
    {
        if index < self.schemes.len() {
            Some(&self.schemes[index])
        } else {
            None
        }
    }
}

/// Every registered scheme, in ascending order: the kept ones.
pub fn od_schemes(kept: &mut KeptSchemes) -> (list: Result<OdSchemeList, Failure>)
    ensures
        old(kept)@ is Some ==> final(kept)@ == old(kept)@,
        final(kept)@ is Some,
        list is Err <==> has_nul(final(kept)@->0),
        list matches Ok(l) ==> {
            &&& texts(l.schemes@) == final(kept)@->0
            &&& strictly_ascending(texts(l.schemes@))
            &&& can_be_registered(texts(l.schemes@))
        },
        list matches Err(e) ==> e.is(
            OdErrorCode::Unexpected,
            "registered scheme contains a NUL byte"@,
        ),
{
    OdSchemeList::of(registered_schemes(kept))
}

} // verus!
