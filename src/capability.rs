use vstd::prelude::*;
use crate::policy::Config;

verus! {

/// Why the capability set could not be reduced.
#[derive(Debug, Clone, Copy, PartialEq, Eq, Structural)]
pub enum CapabilityError {
    /// The policy names a capability the platform does not know.
    UnknownCapabilityName,
    /// The platform refused to drop a capability.
    DropFailed,
}

pub uninterp spec fn canonical_name_of(name: Seq<char>) -> Seq<char>;

/// Relies on `caps::to_canonical`: the name in upper case, with the `CAP_`
/// prefix added where it lacks one.
#[verifier::external_body]
fn canonical_name(name: &str) -> (r: String)
    ensures
        r@ == canonical_name_of(name@),
{
    caps::to_canonical(name)
}

pub uninterp spec fn capability_number_of(name: Seq<char>) -> Option<u8>;

/// Relies on `caps::Capability`'s `FromStr`: the capability spelled exactly
/// `name`, if the crate knows one, given as its kernel number.
#[verifier::external_body]
fn capability_number(name: &str) -> (r: Option<u8>)
    ensures
        r == capability_number_of(name@),
{
    name.parse::<caps::Capability>().ok().map(|c| c.index())
}

/// A capability number that some name stands for.
pub open spec fn is_known_capability(c: u8) -> bool {
    exists|name: Seq<char>| #[trigger] capability_number_of(name) == Some(c)
}

/// Relies on `caps::all`: every capability the crate knows, each once, given
/// as kernel numbers in no particular order.
#[verifier::external_body]
fn known_capabilities() -> (r: Vec<u8>)
    ensures
        r@.no_duplicates(),
        forall|i: int| 0 <= i < r@.len() ==> is_known_capability(#[trigger] r@[i]),
        forall|name: Seq<char>| #[trigger] capability_number_of(name) is Some
            ==> r@.contains(capability_number_of(name)->0),
{
    caps::all().into_iter().map(|c| c.index()).collect()
}

/// The capability a policy entry names, if any: names are matched without
/// regard to case and with or without their `CAP_` prefix.
pub open spec fn capability_of(name: Seq<char>) -> Option<u8> {
    capability_number_of(canonical_name_of(name))
}

/// Every name in `names` is a known capability.
pub open spec fn all_known(names: Seq<String>) -> bool {
    forall|i: int| 0 <= i < names.len() ==> (#[trigger] capability_of(names[i]@)) is Some
}

/// The capability that each name in `names` stands for.
pub open spec fn capability_list(names: Seq<String>) -> Seq<u8> {
    names.map_values(|n: String| capability_of(n@)->0)
}

/// The capabilities named by a policy: none where the list is omitted.
pub fn parse_capabilities(names: &Option<Vec<String>>) -> (r: Result<Vec<u8>, CapabilityError>)
    ensures
        names.is_none() ==> r is Ok && r->Ok_0@.len() == 0,
        names.is_some() ==> (all_known(names->Some_0@) <==> r is Ok),
        names.is_some() && r is Ok ==> r->Ok_0@ == capability_list(names->Some_0@),
        r is Err ==> r == Err::<Vec<u8>, CapabilityError>(CapabilityError::UnknownCapabilityName),
{
    match names {
        None => Ok(Vec::new()),
        Some(v) => {
            let mut out: Vec<u8> = Vec::new();
            let mut i: usize = 0;
            while i < v.len()
                invariant
                    i <= v.len(),
                    names.is_some(),
                    names->Some_0@ == v@,
                    out@ == capability_list(v@).take(i as int),
                    forall|k: int| 0 <= k < i ==> (#[trigger] capability_of(v@[k]@)) is Some,
                decreases v.len() - i,
            {
                let canonical = canonical_name(v[i].as_str());
                match capability_number(canonical.as_str()) {
                    Some(c) => {
                        out.push(c);
                        i = i + 1;
                        assert(out@ =~= capability_list(v@).take(i as int));
                    },
                    None => {
                        assert(capability_of(v@[i as int]@) is None);
                        assert(!all_known(v@));
                        return Err(CapabilityError::UnknownCapabilityName);
                    },
                }
            }
            assert(capability_list(v@).take(i as int) =~= capability_list(v@));
            Ok(out)
        },
    }
}

fn list_contains(v: &Vec<u8>, x: u8) -> (r: bool)
    ensures
        r == v@.contains(x),
{
    let mut i: usize = 0;
    while i < v.len()
        invariant
            i <= v.len(),
            forall|k: int| 0 <= k < i ==> v@[k] != x,
        decreases v.len() - i,
    {
        if v[i] == x {
            return true;
        }
        i = i + 1;
    }
    false
}

/// The capabilities of `known` that `keep` does not hold, in the order of
/// `known`.
pub open spec fn drop_list(known: Seq<u8>, keep: Seq<u8>) -> Seq<u8> {
    known.filter(|c: u8| !keep.contains(c))
}

/// The capabilities to drop: those of `known` outside the allow-list `keep`.
pub fn capabilities_to_drop(known: &Vec<u8>, keep: &Vec<u8>) -> (r: Vec<u8>)
    ensures
        r@ == drop_list(known@, keep@),
        forall|c: u8| r@.contains(c) <==> known@.contains(c) && !keep@.contains(c),
{
    let ghost pred = |c: u8| !keep@.contains(c);
    let mut out: Vec<u8> = Vec::new();
    let mut i: usize = 0;
    while i < known.len()
        invariant
            i <= known.len(),
            pred == (|c: u8| !keep@.contains(c)),
            out@ == known@.take(i as int).filter(pred),
            forall|k: int| 0 <= k < out@.len() ==> known@.contains(#[trigger] out@[k]),
        decreases known.len() - i,
    {
        assert(known@.take(i as int + 1).drop_last() =~= known@.take(i as int));
        reveal(Seq::filter);
        if !list_contains(keep, known[i]) {
            assert(known@.contains(known@[i as int]));
            out.push(known[i]);
        }
        i = i + 1;
    }
    assert(known@.take(i as int) =~= known@);
    broadcast use vstd::seq_lib::group_filter_ensures;
    assert forall|c: u8| known@.contains(c) && !keep@.contains(c) implies out@.contains(c) by {
        let k = choose|k: int| 0 <= k < known@.len() && known@[k] == c;
        assert(pred(known@[k]));
    }
    assert forall|c: u8| out@.contains(c) implies known@.contains(c) && !keep@.contains(c) by {
        let k = choose|k: int| 0 <= k < out@.len() && out@[k] == c;
        assert(pred(out@[k]));
        assert(known@.contains(out@[k]));
    }
    out
}

/// The guard's effect on a capability set: the dropped ones are removed.
pub open spec fn after_drop(initial: Set<u8>, dropped: Seq<u8>) -> Set<u8> {
    initial.difference(dropped.to_set())
}

/// Whatever capabilities the process held before, as long as they include
/// the allow-list and are all known ones, dropping every known capability
/// outside the allow-list leaves exactly the allow-list; so the result
/// depends on the allow-list alone.
pub proof fn lemma_guard_leaves_allow_list(initial: Set<u8>, dropped: Seq<u8>, keep: Seq<u8>)
    requires
        keep.to_set().subset_of(initial),
        forall|c: u8| #[trigger] initial.contains(c) ==> is_known_capability(c),
        forall|c: u8| #[trigger] dropped.contains(c) <==> is_known_capability(c) && !keep.contains(c),
    ensures
        after_drop(initial, dropped) == keep.to_set(),
{
    assert forall|c: u8| #[trigger] after_drop(initial, dropped).contains(c) <==> keep.to_set().contains(c) by {
        if keep.to_set().contains(c) {
            assert(keep.contains(c));
            assert(!dropped.contains(c));
        }
        if initial.contains(c) && !keep.to_set().contains(c) {
            assert(!keep.contains(c));
            assert(dropped.contains(c));
        }
    }
    assert(after_drop(initial, dropped) =~= keep.to_set());
}

impl Config {
    /// The capabilities the policy allows, as kernel numbers.
    pub fn capabilities(&self) -> (r: Result<Vec<u8>, CapabilityError>)
        ensures
            match self.capabilities_view() {
                None => r is Ok && r->Ok_0@.len() == 0,
                Some(v) => {
                    &&& all_known(v) <==> r is Ok
                    &&& r is Ok ==> r->Ok_0@ == capability_list(v)
                    &&& r is Err ==> r == Err::<Vec<u8>, CapabilityError>(CapabilityError::UnknownCapabilityName)
                },
            },
    {
        parse_capabilities(self.capability_names())
    }
}

/// The capabilities to drop under `cfg`: every known capability the policy
/// does not allow; an error where the policy names an unknown one.
pub fn drop_set(cfg: &Config) -> (r: Result<Vec<u8>, CapabilityError>)
    ensures
        match cfg.capabilities_view() {
            None => r is Ok,
            Some(v) => all_known(v) <==> r is Ok,
        },
        r is Err ==> r == Err::<Vec<u8>, CapabilityError>(CapabilityError::UnknownCapabilityName),
        r is Ok ==> ({
            let keep = match cfg.capabilities_view() {
                None => Seq::<u8>::empty(),
                Some(v) => capability_list(v),
            };
            forall|c: u8| #[trigger] r->Ok_0@.contains(c) <==> is_known_capability(c) && !keep.contains(c)
        }),
{
    let keep = cfg.capabilities()?;
    let known = known_capabilities();
    let d = capabilities_to_drop(&known, &keep);
    proof {
        assert forall|c: u8| #[trigger] known@.contains(c) <==> is_known_capability(c) by {
            if known@.contains(c) {
                let i = choose|i: int| 0 <= i < known@.len() && known@[i] == c;
                assert(is_known_capability(known@[i]));
            }
            if is_known_capability(c) {
                let name = choose|name: Seq<char>| #[trigger] capability_number_of(name) == Some(c);
                assert(capability_number_of(name) is Some);
            }
        }
    }
    Ok(d)
}

} // verus!
