use std::any::TypeId;
use vstd::prelude::*;

verus! {

/// `std::any::TypeId`, the key of the registry, carried as an opaque value.
#[verifier::external_type_specification]
#[verifier::external_body]
pub struct ExTypeId(TypeId);

/// Relies on `PartialEq for std::any::TypeId`: two identities compare equal
/// exactly when they are the identity of the same type.
#[verifier::external_body]
fn same_type(a: &TypeId, b: &TypeId) -> (r: bool)
    ensures
        r == (*a == *b),
{
    *a == *b
}

/// The handle bound for `key` in `m`, or `None` where nothing is bound.
pub open spec fn entry(m: Map<TypeId, usize>, key: TypeId) -> Option<usize> {
    if m.contains_key(key) {
        Some(m[key])
    } else {
        None
    }
}

/// The bindings of one execution context: at most one address handle per type
/// identity.
pub struct Registry {
    slots: Vec<(TypeId, usize)>,
    entries: Ghost<Map<TypeId, usize>>,
}

impl View for Registry {
    type V = Map<TypeId, usize>;

    closed spec fn view(&self) -> Map<TypeId, usize> {
        self.entries@
    }
}

impl Registry {
    /// The slots hold each key once, and exactly the entries of the view.
    pub closed spec fn wf(&self) -> bool {
        &&& forall|i: int, j: int|
            0 <= i < j < self.slots@.len() ==> #[trigger] self.slots@[i].0 != #[trigger] self.slots@[j].0
        &&& forall|i: int|
            0 <= i < self.slots@.len() ==> {
                &&& self.entries@.contains_key(#[trigger] self.slots@[i].0)
                &&& self.entries@[self.slots@[i].0] == self.slots@[i].1
            }
        &&& forall|k: TypeId| #[trigger]
            self.entries@.contains_key(k) ==> exists|i: int|
                0 <= i < self.slots@.len() && #[trigger] self.slots@[i].0 == k
    }

    /// An empty registry: nothing is bound.
    pub fn new() -> (r: Self)
        ensures
            r.wf(),
            r@ == Map::<TypeId, usize>::empty(),
    {
        Registry { slots: Vec::new(), entries: Ghost(Map::empty()) }
    }
    /// Where `key` stands among the slots, if it is bound.
    fn position(&self, key: &TypeId) -> (r: Option<usize>)
        requires
            self.wf(),
        ensures
            match r {
                Some(i) => i < self.slots@.len() && self.slots@[i as int].0 == *key,
                None => !self@.contains_key(*key),
            },
    {
        let mut i: usize = 0;
        while i < self.slots.len()
            invariant
                self.wf(),
                i <= self.slots@.len(),
                forall|j: int| 0 <= j < i ==> #[trigger] self.slots@[j].0 != *key,
            decreases self.slots@.len() - i,
        {
            if same_type(&self.slots[i].0, key) {
                return Some(i);
            }
            i = i + 1;
        }
        None
    }

    /// The handle bound for `key`, if any. Reads only.
    pub fn get(&self, key: &TypeId) -> (r: Option<usize>)
        requires
            self.wf(),
        ensures
            r == entry(self@, *key),
    {
        match self.position(key) {
            Some(i) => Some(self.slots[i].1),
            None => None,
        }
    }

    /// Binds `key` to `addr`, replacing what was bound before, and returns
    /// that previous handle.
    pub fn set(&mut self, key: TypeId, addr: usize) -> (r: Option<usize>)
        requires
            old(self).wf(),
        ensures
            final(self).wf(),
            final(self)@ == old(self)@.insert(key, addr),
            r == entry(old(self)@, key),
    {
        match self.position(&key) {
            Some(i) => {
                let prev = self.slots[i].1;
                self.slots.set(i, (key, addr));
                self.entries = Ghost(self.entries@.insert(key, addr));
                proof {
                    assert forall|j: int| 0 <= j < self.slots@.len() && j != i implies
                        #[trigger] self.slots@[j] == old(self).slots@[j] && self.slots@[j].0 != key by {
                        if j < i {
                            assert(old(self).slots@[j].0 != old(self).slots@[i as int].0);
                        } else {
                            assert(old(self).slots@[i as int].0 != old(self).slots@[j].0);
                        }
                    }
                    assert forall|k: TypeId| #[trigger]
                        self.entries@.contains_key(k) implies exists|j: int|
                            0 <= j < self.slots@.len() && #[trigger] self.slots@[j].0 == k by {
                        if k != key {
                            assert(old(self).entries@.contains_key(k));
                            let j = choose|j: int|
                                0 <= j < old(self).slots@.len() && #[trigger] old(self).slots@[j].0 == k;
                            assert(self.slots@[j].0 == k);
                        } else {
                            assert(self.slots@[i as int].0 == k);
                        }
                    }
                }
                Some(prev)
            },
            None => {
                self.slots.push((key, addr));
                self.entries = Ghost(self.entries@.insert(key, addr));
                proof {
                    let n = self.slots@.len() - 1;
                    assert(self.slots@[n].0 == key);
                    assert forall|k: TypeId| #[trigger]
                        self.entries@.contains_key(k) implies exists|i: int|
                            0 <= i < self.slots@.len() && #[trigger] self.slots@[i].0 == k by {
                        if k != key {
                            assert(old(self).entries@.contains_key(k));
                            let i = choose|i: int|
                                0 <= i < old(self).slots@.len() && #[trigger] old(self).slots@[i].0 == k;
                            assert(self.slots@[i].0 == k);
                        } else {
                            assert(self.slots@[n].0 == k);
                        }
                    }
                }
                None
            },
        }
    }

    /// Removes whatever is bound for `key`; nothing else changes.
    pub fn remove(&mut self, key: &TypeId)
        requires
            old(self).wf(),
        ensures
            final(self).wf(),
            final(self)@ == old(self)@.remove(*key),
    {
        if let Some(i) = self.position(key) {
            self.slots.remove(i);
            self.entries = Ghost(self.entries@.remove(*key));
            proof {
                assert forall|k: TypeId| #[trigger]
                    self.entries@.contains_key(k) implies exists|j: int|
                        0 <= j < self.slots@.len() && #[trigger] self.slots@[j].0 == k by {
                    assert(old(self).entries@.contains_key(k));
                    let j = choose|j: int|
                        0 <= j < old(self).slots@.len() && #[trigger] old(self).slots@[j].0 == k;
                    assert(j != i);
                    if j < i {
                        assert(self.slots@[j].0 == k);
                    } else {
                        assert(self.slots@[j - 1].0 == k);
                    }
                }
            }
        }
    }
}

} // verus!
