use dashmap::mapref::entry::Entry as DashEntry;
use dashmap::DashMap;
use vstd::prelude::*;

use crate::filter_box::base::{Entry, FilterBox};

verus! {

/// `dashmap::DashMap`, a concurrent hash map, held opaque.
#[verifier::external_type_specification]
#[verifier::external_body]
#[verifier::reject_recursive_types(K)]
#[verifier::reject_recursive_types(V)]
#[verifier::reject_recursive_types(S)]
pub struct ExDashMap<K, V, S>(dashmap::DashMap<K, V, S>);

/// The keys that a `DashMap` of tokens holds, each taken as its 32 bytes.
pub uninterp spec fn dashmap_keys(m: DashMap<Entry, ()>) -> Set<Seq<u8>>;

/// `DashMap::new`: an empty map.
#[verifier::external_body]
fn dashmap_new() -> (m: DashMap<Entry, ()>)
    ensures
        dashmap_keys(m) == Set::<Seq<u8>>::empty(),
{
    DashMap::new()
}

/// `DashMap::with_capacity`: an empty map with room reserved for `capacity`
/// entries.
#[verifier::external_body]
fn dashmap_with_capacity(capacity: usize) -> (m: DashMap<Entry, ()>)
    ensures
        dashmap_keys(m) == Set::<Seq<u8>>::empty(),
{
    DashMap::with_capacity(capacity)
}

/// `DashMap::insert`: afterwards the map holds `key` besides what it held.
#[verifier::external_body]
fn dashmap_insert(m: &mut DashMap<Entry, ()>, key: Entry)
    ensures
        dashmap_keys(*final(m)) == dashmap_keys(*old(m)).insert(key@),
{
    m.insert(key, ());
}

/// `DashMap::contains_key`: whether the map holds `key`.
#[verifier::external_body]
fn dashmap_contains_key(m: &DashMap<Entry, ()>, key: &Entry) -> (r: bool)
    ensures
        r == dashmap_keys(*m).contains(key@),
{
    m.contains_key(key)
}

/// `DashMap::entry` followed by `VacantEntry::insert` when the key is absent:
/// returns whether the key was absent; afterwards the map holds the key.
#[verifier::external_body]
fn dashmap_insert_if_vacant(m: &mut DashMap<Entry, ()>, key: Entry) -> (r: bool)
    ensures
        r == !dashmap_keys(*old(m)).contains(key@),
        dashmap_keys(*final(m)) == dashmap_keys(*old(m)).insert(key@),
{
    match m.entry(key) {
        DashEntry::Occupied(_) => false,
        DashEntry::Vacant(entry) => {
            entry.insert(());
            true
        },
    }
}

/// An exact filter backed by a concurrent hash map.
pub struct DashMapFilterBox {
    inner: DashMap<Entry, ()>,
}

impl DashMapFilterBox {
    pub closed spec fn view(&self) -> Set<Seq<u8>> {
        dashmap_keys(self.inner)
    }

    pub fn new() -> (r: Self)
        ensures
            r.view() == Set::<Seq<u8>>::empty(),
    {
        Self { inner: dashmap_new() }
    }

    pub fn with_capacity(capacity: usize) -> (r: Self)
        ensures
            r.view() == Set::<Seq<u8>>::empty(),
    {
        Self { inner: dashmap_with_capacity(capacity) }
    }

    pub fn default() -> (r: Self)
        ensures
            r.view() == Set::<Seq<u8>>::empty(),
    {
        Self::new()
    }
}

impl FilterBox for DashMapFilterBox {
    closed spec fn tokens(&self) -> Set<Seq<u8>> {
        dashmap_keys(self.inner)
    }

    open spec fn admits(&self, token: Seq<u8>) -> bool {
        !self.tokens().contains(token)
    }

    fn from_entries(tokens: &[Entry]) -> (r: std::io::Result<Self>)
        ensures
            r matches Ok(f) && f.tokens() == Set::new(
                |t: Seq<u8>| exists|i: int| 0 <= i < tokens@.len() && t == #[trigger] tokens@[i]@,
            ),
    {
        let mut filter = DashMapFilterBox::with_capacity(tokens.len());
        let mut i: usize = 0;
        while i < tokens.len()
            invariant
                0 <= i <= tokens@.len(),
                filter.tokens() == Set::new(
                    |t: Seq<u8>| exists|k: int| 0 <= k < i && t == #[trigger] tokens@[k]@,
                ),
            decreases tokens@.len() - i,
        {
            let ghost before = filter.tokens();
            dashmap_insert(&mut filter.inner, tokens[i]);
            assert(filter.tokens() =~= Set::new(
                |t: Seq<u8>| exists|k: int| 0 <= k < i + 1 && t == #[trigger] tokens@[k]@,
            )) by {
                assert forall|t: Seq<u8>| filter.tokens().contains(t) implies (exists|k: int|
                    0 <= k < i + 1 && t == #[trigger] tokens@[k]@) by {
                    if t == tokens@[i as int]@ {
                    } else {
                        assert(before.contains(t));
                    }
                }
            }
            i = i + 1;
        }
        Ok(filter)
    }

    fn insert(&mut self, token: &Entry) -> (r: std::io::Result<()>)
        ensures
            r is Ok,
    {
        dashmap_insert(&mut self.inner, *token);
        Ok(())
    }

    fn test(&self, token: &Entry) -> (r: bool)
        ensures
            r == !self.tokens().contains(token@),
    {
        !dashmap_contains_key(&self.inner, token)
    }

    fn test_and_insert(&mut self, token: &Entry) -> (r: std::io::Result<bool>)
        ensures
            r == Ok::<bool, std::io::Error>(!old(self).tokens().contains(token@)),
            final(self).tokens() == old(self).tokens().insert(token@),
    {
        let fresh = dashmap_insert_if_vacant(&mut self.inner, *token);
        proof {
            if !fresh {
                assert(old(self).tokens().insert(token@) =~= old(self).tokens());
            }
        }
        Ok(fresh)
    }
}

} // verus!
