//! Running accumulator collections backed by hashbrown, as the compiler's
//! cumulative sets and its notable claim lookup. Verus sees each collection
//! only through its mathematical contents, named below.
use vstd::prelude::*;

verus! {

/// A set of capability catalog indices, backed by hashbrown's hash set.
#[verifier::external_body]
pub struct IdxSet {
    inner: hashbrown::HashSet<usize>,
}

/// The mathematical contents of an `IdxSet`.
pub uninterp spec fn idx_set_view(s: IdxSet) -> Set<int>;

impl IdxSet {
    /// Relies on hashbrown::HashSet::new: the new set is empty.
    #[verifier::external_body]
    pub fn new() -> (s: IdxSet)
        ensures
            idx_set_view(s) == Set::<int>::empty(),
    {
        IdxSet { inner: hashbrown::HashSet::new() }
    }

    /// Relies on hashbrown::HashSet::insert: afterwards the set holds the
    /// given value and everything it held before.
    #[verifier::external_body]
    pub fn insert(&mut self, x: usize)
        ensures
            idx_set_view(*final(self)) == idx_set_view(*old(self)).insert(x as int),
    {
        self.inner.insert(x);
    }

    /// Relies on hashbrown::HashSet::contains: true exactly when the value is
    /// in the set.
    #[verifier::external_body]
    pub fn contains(&self, x: usize) -> (r: bool)
        ensures
            r == idx_set_view(*self).contains(x as int),
    {
        self.inner.contains(&x)
    }
}

/// A set of composite notable keys, backed by hashbrown's hash set.
#[verifier::external_body]
pub struct KeySet {
    inner: hashbrown::HashSet<(u64, u64)>,
}

/// The mathematical contents of a `KeySet`.
pub uninterp spec fn key_set_view(s: KeySet) -> Set<(u64, u64)>;

/// The empty set of composite notable keys.
pub open spec fn empty_key_set() -> Set<(u64, u64)> {
    Set::empty()
}

impl KeySet {
    /// Relies on hashbrown::HashSet::new: the new set is empty.
    #[verifier::external_body]
    pub fn new() -> (s: KeySet)
        ensures
            key_set_view(s) == empty_key_set(),
    {
        KeySet { inner: hashbrown::HashSet::new() }
    }

    /// Relies on hashbrown::HashSet::insert: afterwards the set holds the
    /// given key and everything it held before.
    #[verifier::external_body]
    pub fn insert(&mut self, key: (u64, u64))
        ensures
            key_set_view(*final(self)) == key_set_view(*old(self)).insert(key),
    {
        self.inner.insert(key);
    }

    /// Relies on hashbrown::HashSet::contains: true exactly when the key is
    /// in the set.
    #[verifier::external_body]
    pub fn contains(&self, key: (u64, u64)) -> (r: bool)
        ensures
            r == key_set_view(*self).contains(key),
    {
        self.inner.contains(&key)
    }
}

/// A map from composite notable keys to claim positions (preset index, slot
/// index), backed by hashbrown's hash map.
#[verifier::external_body]
pub struct KeyMap {
    inner: hashbrown::HashMap<(u64, u64), (usize, usize)>,
}

/// The mathematical contents of a `KeyMap`.
pub uninterp spec fn key_map_view(m: KeyMap) -> Map<(u64, u64), (usize, usize)>;

/// The empty claim map.
pub open spec fn empty_key_map() -> Map<(u64, u64), (usize, usize)> {
    Map::empty()
}

impl KeyMap {
    /// Relies on hashbrown::HashMap::new: the new map is empty.
    #[verifier::external_body]
    pub fn new() -> (m: KeyMap)
        ensures
            key_map_view(m) == empty_key_map(),
    {
        KeyMap { inner: hashbrown::HashMap::new() }
    }

    /// Relies on hashbrown::HashMap::insert: afterwards the key maps to the
    /// given value, and every other binding is unchanged.
    #[verifier::external_body]
    pub fn insert(&mut self, key: (u64, u64), val: (usize, usize))
        ensures
            key_map_view(*final(self)) == key_map_view(*old(self)).insert(key, val),
    {
        self.inner.insert(key, val);
    }

    /// Relies on hashbrown::HashMap::get: returns the binding of the key,
    /// and nothing when the key is absent.
    #[verifier::external_body]
    pub fn get(&self, key: (u64, u64)) -> (r: Option<(usize, usize)>)
        ensures
            match r {
                Some(v) => key_map_view(*self).dom().contains(key) && key_map_view(*self)[key] == v,
                None => !key_map_view(*self).dom().contains(key),
            },
    {
        self.inner.get(&key).copied()
    }
}

} // verus!
