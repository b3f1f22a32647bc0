//! Sets of item ids and of keys.

use vstd::prelude::*;
use vstd::hash_set::{HashSetWithView, StringHashSet};

verus! {

broadcast use vstd::std_specs::hash::group_hash_axioms;

/// A set of item ids.
pub struct IdSet {
    ids: HashSetWithView<usize>,
}

impl View for IdSet {
    type V = Set<usize>;

    closed spec fn view(&self) -> Set<usize> {
        self.ids@
    }
}

impl IdSet {
    /// An empty set.
    pub fn new() -> (res: Self)
        ensures
            res@ == Set::<usize>::empty(),
    {
        IdSet { ids: HashSetWithView::new() }
    }

    /// Whether `id` is in the set.
    pub fn contains(&self, id: usize) -> (res: bool)
        ensures
            res == self@.contains(id),
    {
        self.ids.contains(&id)
    }

    /// Adds `id`; tells whether it was new.
    pub fn insert(&mut self, id: usize) -> (res: bool)
        ensures
            final(self)@ == old(self)@.insert(id),
            res == !old(self)@.contains(id),
    {
        self.ids.insert(id)
    }

    /// The number of ids in the set.
    pub fn len(&self) -> (res: usize)
        ensures
            res == self@.len(),
    {
        self.ids.len()
    }
}

/// A set of strings that also keeps them in the order they were first added.
pub struct KeySet {
    set: StringHashSet,
    order: Vec<String>,
}

impl View for KeySet {
    type V = Set<Seq<char>>;

    closed spec fn view(&self) -> Set<Seq<char>> {
        self.set@
    }
}

impl KeySet {
    /// The listed keys are exactly the keys of the set.
    pub closed spec fn wf(&self) -> bool {
        &&& forall|i: int| 0 <= i < self.order@.len() ==> self.set@.contains(#[trigger] self.order@[i]@)
        &&& forall|k: Seq<char>|
            #[trigger] self.set@.contains(k) ==> exists|i: int|
                0 <= i < self.order@.len() && #[trigger] self.order@[i]@ == k
    }

    /// The keys in the order they were first added.
    pub closed spec fn order(&self) -> Seq<Seq<char>> {
        self.order@.map_values(|k: String| k@)
    }

    /// An empty set.
    pub fn new() -> (res: Self)
        ensures
            res.wf(),
            res@ == Set::<Seq<char>>::empty(),
            res.order() == Seq::<Seq<char>>::empty(),
    {
        KeySet { set: StringHashSet::new(), order: Vec::new() }
    }

    /// Whether `key` is in the set.
    pub fn contains(&self, key: &str) -> (res: bool)
        ensures
            res == self@.contains(key@),
    {
        self.set.contains(key)
    }

    /// Adds `key`.
    pub fn insert(&mut self, key: String)
        requires
            old(self).wf(),
        ensures
            final(self).wf(),
            final(self)@ == old(self)@.insert(key@),
            final(self).order() == if old(self)@.contains(key@) {
                old(self).order()
            } else {
                old(self).order().push(key@)
            },
    {
        if !self.set.contains(key.as_str()) {
            let ghost before = self.order@;
            self.set.insert(key.clone());
            self.order.push(key);
            assert(self.order@.map_values(|k: String| k@) =~= before.map_values(|k: String| k@).push(
                self.order@[before.len() as int]@,
            ));
            assert forall|k: Seq<char>| #[trigger] self.set@.contains(k) implies exists|i: int|
                0 <= i < self.order@.len() && #[trigger] self.order@[i]@ == k by {
                if k == self.order@[before.len() as int]@ {
                } else {
                    let i = choose|i: int| 0 <= i < before.len() && #[trigger] before[i]@ == k;
                    assert(self.order@[i] == before[i]);
                }
            }
        }
    }

    /// The number of keys.
    pub fn len(&self) -> (res: usize)
        ensures
            res == self@.len(),
    {
        self.set.len()
    }

    /// The keys, in the order they were first added.
    pub fn keys(&self) -> (res: &Vec<String>)
        requires
            self.wf(),
        ensures
            forall|i: int| 0 <= i < res@.len() ==> self@.contains(#[trigger] res@[i]@),
            forall|k: Seq<char>|
                #[trigger] self@.contains(k) ==> exists|i: int|
                    0 <= i < res@.len() && #[trigger] res@[i]@ == k,
            res@.map_values(|k: String| k@) == self.order(),
    {
        &self.order
    }
}

} // verus!
