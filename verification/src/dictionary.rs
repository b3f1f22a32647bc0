//! Dictionaries that replace repeated strings by dense integer ids.

use vstd::prelude::*;
use vstd::hash_map::StringHashMap;

verus! {

/// Assigns ids `0, 1, 2, …` to strings in the order they are first seen.
pub struct Dictionary {
    ids: StringHashMap<i32>,
    values: Vec<String>,
}

impl Dictionary {
    /// The id of each string seen.
    pub closed spec fn ids(&self) -> Map<Seq<char>, i32> {
        self.ids@
    }

    /// The strings seen, each at the position of its id.
    pub closed spec fn values(&self) -> Seq<Seq<char>> {
        self.values.deep_view()
    }

    /// The ids are `0..n` for the `n` strings seen, each string at its id.
    pub closed spec fn wf(&self) -> bool {
        &&& self.values@.len() < i32::MAX
        &&& self.ids@.dom().finite()
        &&& self.ids@.len() == self.values@.len()
        &&& forall|i: int|
            0 <= i < self.values@.len() ==> #[trigger] self.ids@.contains_key(self.values@[i]@)
                && self.ids@[self.values@[i]@] == i
        &&& forall|k: Seq<char>|
            #[trigger] self.ids@.contains_key(k) ==> 0 <= self.ids@[k] < self.values@.len()
                && self.values@[self.ids@[k] as int]@ == k
    }

    /// An empty dictionary.
    pub fn new() -> (res: Self)
        ensures
            res.wf(),
            res.ids() == Map::<Seq<char>, i32>::empty(),
            res.values() == Seq::<Seq<char>>::empty(),
    {
        let res = Dictionary { ids: StringHashMap::new(), values: Vec::new() };
        assert(res.values() =~= Seq::<Seq<char>>::empty());
        res
    }

    /// The number of strings seen.
    pub fn len(&self) -> (res: usize)
        requires
            self.wf(),
        ensures
            res == self.values().len(),
            res == self.ids().len(),
    {
        self.values.len()
    }

    /// The dictionary is well formed and can take one more string.
    pub open spec fn has_room(&self) -> bool {
        self.wf() && self.values().len() < i32::MAX - 1
    }

    /// The id `value` gets: its existing id, or the next free one.
    pub open spec fn id_for(&self, value: Seq<char>) -> i32 {
        if self.ids().contains_key(value) {
            self.ids()[value]
        } else {
            self.values().len() as i32
        }
    }

    /// `next` is this dictionary after `value` was given its id.
    pub open spec fn added(&self, value: Seq<char>, next: &Dictionary) -> bool {
        if self.ids().contains_key(value) {
            next.ids() == self.ids() && next.values() == self.values()
        } else {
            next.ids() == self.ids().insert(value, self.id_for(value)) && next.values()
                == self.values().push(value)
        }
    }

    /// The id an optional value gets.
    pub open spec fn id_for_opt(&self, value: Option<Seq<char>>) -> Option<i32> {
        match value {
            Some(v) => Some(self.id_for(v)),
            None => None,
        }
    }

    /// `next` is this dictionary after an optional value was given its id.
    pub open spec fn added_opt(&self, value: Option<Seq<char>>, next: &Dictionary) -> bool {
        match value {
            Some(v) => self.added(v, next),
            None => next.ids() == self.ids() && next.values() == self.values(),
        }
    }

    /// The id of `value`: its existing id, or the next free one, which it is
    /// given.
    pub fn normalize(&mut self, value: String) -> (res: i32)
        requires
            old(self).has_room(),
        ensures
            final(self).wf(),
            res == old(self).id_for(value@),
            old(self).added(value@, &*final(self)),
    {
        match self.ids.get(value.as_str()) {
            Some(id) => *id,
            None => {
                let id = self.values.len() as i32;
                let ghost old_values = self.values@;
                self.ids.insert(value.clone(), id);
                self.values.push(value);
                assert(self.values() =~= old(self).values().push(value@));
                assert forall|i: int| 0 <= i < self.values@.len() implies #[trigger] self.ids@.contains_key(
                    self.values@[i]@,
                ) && self.ids@[self.values@[i]@] == i by {
                    if i < old_values.len() {
                        assert(self.values@[i] == old_values[i]);
                    }
                }
                id
            },
        }
    }

    /// The id of an optional value, the way `normalize` gives it.
    pub fn normalize_opt(&mut self, value: Option<String>) -> (res: Option<i32>)
        requires
            old(self).has_room(),
        ensures
            final(self).wf(),
            res == old(self).id_for_opt(value.deep_view()),
            old(self).added_opt(value.deep_view(), &*final(self)),
    {
        match value {
            Some(v) => Some(self.normalize(v)),
            None => None,
        }
    }

    /// The entries `(value, id)` in id order.
    pub fn entries(&self) -> (res: Vec<(String, i32)>)
        requires
            self.wf(),
        ensures
            res@.len() == self.values().len(),
            forall|i: int|
                0 <= i < res@.len() ==> #[trigger] res@[i].0@ == self.values()[i] && res@[i].1 == i,
    {
        let mut out: Vec<(String, i32)> = Vec::new();
        let mut i: usize = 0;
        while i < self.values.len()
            invariant
                i <= self.values@.len(),
                self.values@.len() < i32::MAX,
                out@.len() == i,
                forall|j: int|
                    0 <= j < i ==> #[trigger] out@[j].0@ == self.values()[j] && out@[j].1 == j,
            decreases self.values@.len() - i,
        {
            out.push((self.values[i].clone(), i as i32));
            i = i + 1;
        }
        out
    }
}

} // verus!

verus! {

/// The entries of a dictionary after one more string was given its id.
pub open spec fn dict_step(
    ids: Map<Seq<char>, i32>,
    values: Seq<Seq<char>>,
    v: Seq<char>,
) -> (Map<Seq<char>, i32>, Seq<Seq<char>>) {
    if ids.contains_key(v) {
        (ids, values)
    } else {
        (ids.insert(v, values.len() as i32), values.push(v))
    }
}

/// The id a string gets in a dictionary with these entries.
pub open spec fn dict_id(ids: Map<Seq<char>, i32>, values: Seq<Seq<char>>, v: Seq<char>) -> i32 {
    if ids.contains_key(v) {
        ids[v]
    } else {
        values.len() as i32
    }
}

/// The entries of a dictionary after `names` were given ids, in order.
pub open spec fn dict_fold(
    ids: Map<Seq<char>, i32>,
    values: Seq<Seq<char>>,
    names: Seq<Seq<char>>,
) -> (Map<Seq<char>, i32>, Seq<Seq<char>>)
    decreases names.len(),
{
    if names.len() == 0 {
        (ids, values)
    } else {
        let prev = dict_fold(ids, values, names.drop_last());
        dict_step(prev.0, prev.1, names.last())
    }
}

/// Giving ids to `names` adds at most one string per name.
pub proof fn lemma_dict_fold_len(
    ids: Map<Seq<char>, i32>,
    values: Seq<Seq<char>>,
    names: Seq<Seq<char>>,
)
    ensures
        values.len() <= dict_fold(ids, values, names).1.len() <= values.len() + names.len(),
    decreases names.len(),
{
    if names.len() > 0 {
        lemma_dict_fold_len(ids, values, names.drop_last());
    }
}

} // verus!

verus! {

/// Distinct strings have distinct ids, and every id is below the number of
/// strings seen.
pub proof fn law_ids_distinct(d: &Dictionary, a: Seq<char>, b: Seq<char>)
    requires
        d.wf(),
        d.ids().contains_key(a),
        d.ids().contains_key(b),
        a != b,
    ensures
        d.ids()[a] != d.ids()[b],
        0 <= d.ids()[a] < d.values().len(),
{
}

/// Giving a string its id a second time returns the same id and leaves the
/// dictionary as it was.
pub proof fn law_normalize_idempotent(d1: &Dictionary, d2: &Dictionary, d3: &Dictionary, v: Seq<char>)
    requires
        d1.wf(),
        d1.added(v, d2),
        d2.added(v, d3),
    ensures
        d2.id_for(v) == d1.id_for(v),
        d3.ids() == d2.ids(),
        d3.values() == d2.values(),
        d2.ids().contains_key(v),
{
}

/// The string given an id can be found again at that id.
pub proof fn law_value_at_id(d: &Dictionary, v: Seq<char>)
    requires
        d.wf(),
        d.ids().contains_key(v),
    ensures
        d.values()[d.ids()[v] as int] == v,
{
}

} // verus!
