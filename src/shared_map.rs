use crate::server::ClientState;
use dashmap::DashMap;
use vstd::prelude::*;

verus! {

#[verifier::external_type_specification]
#[verifier::external_body]
#[verifier::reject_recursive_types(K)]
#[verifier::reject_recursive_types(V)]
#[verifier::reject_recursive_types(S)]
pub struct ExDashMap<K, V, S>(DashMap<K, V, S>);

/// A registry of clients: what each was last brought to, by identifier.
pub type Registry = DashMap<u64, ClientState>;

/// What a registry of clients holds, by client identifier.
pub uninterp spec fn registry_contents(m: Registry) -> Map<u64, ClientState>;

/// Relies on dashmap::DashMap::new: a map with no entries.
#[verifier::external_body]
pub(crate) fn registry_new() -> (r: Registry)
    ensures
        registry_contents(r).dom() == Set::<u64>::empty(),
{
    DashMap::new()
}

/// Relies on dashmap::DashMap::get: the entry under `id`, if any, handed out
/// as a copy.
#[verifier::external_body]
pub(crate) fn registry_get(m: &Registry, id: u64) -> (r: Option<ClientState>)
    ensures
        match r {
            Some(c) => {
                &&& registry_contents(*m).contains_key(id)
                &&& c.hash == registry_contents(*m)[id].hash
                &&& c.state@ == registry_contents(*m)[id].state@
            },
            None => !registry_contents(*m).contains_key(id),
        },
{
    m.get(&id).map(|e| e.value().clone())
}

/// Relies on dashmap::DashMap::insert: the entry under `id` becomes `c`,
/// the others stay.
#[verifier::external_body]
pub(crate) fn registry_insert(m: &mut Registry, id: u64, c: ClientState)
    ensures
        registry_contents(*final(m)) == registry_contents(*old(m)).insert(id, c),
{
    m.insert(id, c);
}

/// Relies on dashmap::DashMap::remove: the entry under `id` goes, the others
/// stay.
#[verifier::external_body]
pub(crate) fn registry_remove(m: &mut Registry, id: u64)
    ensures
        registry_contents(*final(m)) == registry_contents(*old(m)).remove(id),
{
    m.remove(&id);
}

} // verus!

verus! {

/// What a concurrent state holds, with each value read as its characters.
pub uninterp spec fn conc_contents(m: DashMap<u64, String>) -> Map<u64, Seq<char>>;

/// Relies on dashmap::DashMap::new: a map with no entries.
#[verifier::external_body]
pub(crate) fn conc_new() -> (r: DashMap<u64, String>)
    ensures
        conc_contents(r).dom() == Set::<u64>::empty(),
{
    DashMap::new()
}

/// Relies on dashmap::DashMap::iter: every entry once, copied out, in an
/// order that the map's hasher decides, when no other thread changes the map
/// meanwhile.
#[verifier::external_body]
pub(crate) fn conc_entries(m: &DashMap<u64, String>) -> (r: Vec<(u64, String)>)
    ensures
        forall|i: int|
            0 <= i < r@.len() ==> #[trigger] conc_contents(*m).contains_key(r@[i].0)
                && conc_contents(*m)[r@[i].0] == r@[i].1@,
        forall|k: u64| #[trigger]
            conc_contents(*m).contains_key(k) ==> exists|i: int| 0 <= i < r@.len() && r@[i].0 == k,
        forall|i: int, j: int| 0 <= i < j < r@.len() ==> r@[i].0 != r@[j].0,
{
    m.iter().map(|e| (*e.key(), e.value().clone())).collect()
}

/// Relies on dashmap::DashMap::insert: the entry under `k` becomes `v`, the
/// others stay.
#[verifier::external_body]
pub(crate) fn conc_insert(m: &mut DashMap<u64, String>, k: u64, v: String)
    ensures
        conc_contents(*final(m)) == conc_contents(*old(m)).insert(k, v@),
{
    m.insert(k, v);
}

/// Relies on dashmap::DashMap::remove: the entry under `k` goes, the others
/// stay.
#[verifier::external_body]
pub(crate) fn conc_remove(m: &mut DashMap<u64, String>, k: u64)
    ensures
        conc_contents(*final(m)) == conc_contents(*old(m)).remove(k),
{
    m.remove(&k);
}

} // verus!
