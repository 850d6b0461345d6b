use vstd::prelude::*;
use ahash::AHashMap;
use ahash::RandomState;
use crate::stringtables::UserInfo;
use crate::events::EventDescriptor;

verus! {

/// ahash's `AHashMap`, carried as an opaque value; what it holds is named below.
#[verifier::external_type_specification]
#[verifier::external_body]
#[verifier::reject_recursive_types(K)]
#[verifier::reject_recursive_types(V)]
#[verifier::reject_recursive_types(S)]
pub struct ExAHashMap<K, V, S>(AHashMap<K, V, S>);

/// ahash's `RandomState`, the hasher type of `AHashMap`; opaque.
#[verifier::external_type_specification]
#[verifier::external_body]
pub struct ExRandomState(RandomState);

/// What a baseline cache holds: class id to the raw field bytes of that class's baseline.
pub uninterp spec fn baseline_entries(m: AHashMap<u32, Vec<u8>>) -> Map<u32, Seq<u8>>;

/// Relies on `AHashMap::new`: a new map is empty.
#[verifier::external_body]
pub(crate) fn baselines_new() -> (r: AHashMap<u32, Vec<u8>>)
    ensures
        baseline_entries(r).dom() == Set::<u32>::empty(),
{
    AHashMap::new()
}

/// Relies on `AHashMap::insert`: the key maps to the new value afterwards, other keys keep
/// theirs.
#[verifier::external_body]
pub(crate) fn baselines_insert(m: &mut AHashMap<u32, Vec<u8>>, k: u32, v: Vec<u8>)
    ensures
        baseline_entries(*final(m)) == baseline_entries(*old(m)).insert(k, v@),
{
    m.insert(k, v);
}

/// Relies on `AHashMap::get`: the value stored under the key, if any (cloned out).
#[verifier::external_body]
pub(crate) fn baselines_get(m: &AHashMap<u32, Vec<u8>>, k: u32) -> (r: Option<Vec<u8>>)
    ensures
        baseline_entries(*m).contains_key(k) ==> r is Some && r->Some_0@ == baseline_entries(
            *m,
        )[k],
        !baseline_entries(*m).contains_key(k) ==> r is None,
{
    m.get(&k).cloned()
}

/// What a player table holds: steam id to the player's steam id, name, user id and relay flag.
pub uninterp spec fn player_entries(m: AHashMap<u64, UserInfo>) -> Map<u64, (u64, Seq<char>, i32, bool)>;

/// Relies on `AHashMap::new`: a new map is empty.
#[verifier::external_body]
pub(crate) fn players_new() -> (r: AHashMap<u64, UserInfo>)
    ensures
        player_entries(r).dom() == Set::<u64>::empty(),
{
    AHashMap::new()
}

/// Relies on `AHashMap::insert`: the key maps to the new player afterwards, other keys keep
/// theirs.
#[verifier::external_body]
pub(crate) fn players_insert(m: &mut AHashMap<u64, UserInfo>, k: u64, v: UserInfo)
    ensures
        player_entries(*final(m)) == player_entries(*old(m)).insert(k, v.spec_fields()),
{
    m.insert(k, v);
}

/// What a descriptor table holds: event id to event name.
pub uninterp spec fn descriptor_entries(m: AHashMap<i32, EventDescriptor>) -> Map<i32, Seq<char>>;

/// Relies on `AHashMap::new`: a new map is empty.
#[verifier::external_body]
pub(crate) fn descriptors_new() -> (r: AHashMap<i32, EventDescriptor>)
    ensures
        descriptor_entries(r).dom() == Set::<i32>::empty(),
{
    AHashMap::new()
}

/// Relies on `AHashMap::insert`: the id maps to the new descriptor afterwards, other ids
/// keep theirs.
#[verifier::external_body]
pub(crate) fn descriptors_insert(m: &mut AHashMap<i32, EventDescriptor>, k: i32, v: EventDescriptor)
    ensures
        descriptor_entries(*final(m)) == descriptor_entries(*old(m)).insert(k, v.name@),
{
    m.insert(k, v);
}

/// Relies on `AHashMap::get`: the name of the descriptor stored under the id, if any
/// (cloned out).
#[verifier::external_body]
pub(crate) fn descriptors_get_name(m: &AHashMap<i32, EventDescriptor>, k: i32) -> (r: Option<String>)
    ensures
        descriptor_entries(*m).contains_key(k) ==> r is Some && r->Some_0@ == descriptor_entries(
            *m,
        )[k],
        !descriptor_entries(*m).contains_key(k) ==> r is None,
{
    m.get(&k).map(|d| d.name.clone())
}

} // verus!
