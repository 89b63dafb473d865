//! Values keyed by text.

use crate::split;
use vstd::hash_map::StringHashMap;
use vstd::prelude::*;

verus! {

broadcast use split::lemma_texts_push;

/// A value for each of a set of keys, which stay in the order in which they
/// came.
#[verifier::reject_recursive_types(T)]
pub struct Table<T> {
    keys: Vec<String>,
    values: StringHashMap<T>,
}

impl<T> View for Table<T> {
    type V = Map<Seq<char>, T>;

    closed spec fn view(&self) -> Map<Seq<char>, T> {
        self.values@
    }
}

impl<T: Copy> Table<T> {
    /// The keys, in the order in which they came.
    pub closed spec fn order(&self) -> Seq<Seq<char>> {
        split::texts(self.keys@)
    }

    /// The keys in `order` are those that have a value, each once.
    pub open spec fn wf(&self) -> bool {
        &&& self.order().no_duplicates()
        &&& self.order().to_set() == self@.dom()
    }

    /// A table with no keys.
    pub fn new() -> (r: Table<T>)
        ensures
            r.wf(),
            r@ == Map::<Seq<char>, T>::empty(),
            r.order() == Seq::<Seq<char>>::empty(),
    {
        let r = Table { keys: Vec::new(), values: StringHashMap::new() };
        assert(r.order().to_set() =~= r@.dom());
        r
    }

    /// How many keys have a value.
    pub fn len(&self) -> (r: usize)
        ensures
            r == self@.len(),
    {
        self.values.len()
    }

    /// The number of keys in `order`.
    pub fn size(&self) -> (r: usize)
        ensures
            r == self.order().len(),
    {
        self.keys.len()
    }

    /// The `i`th key.
    pub fn key(&self, i: usize) -> (r: &str)
        requires
            i < self.order().len(),
        ensures
            r@ == self.order()[i as int],
    {
        self.keys[i].as_str()
    }

    /// The value of a key.
    pub fn get(&self, k: &str) -> (r: Option<T>)
        ensures
            r == (if self@.contains_key(k@) {
                Some(self@[k@])
            } else {
                None
            }),
    {
        match self.values.get(k) {
            Some(x) => Some(*x),
            None => None,
        }
    }

    /// Whether a key has a value.
    pub fn has(&self, k: &str) -> (r: bool)
        ensures
            r == self@.contains_key(k@),
    {
        self.values.contains_key(k)
    }

    /// Gives a key a value.
    pub fn set(&mut self, k: &str, x: T)
        requires
            old(self).wf(),
        ensures
            final(self).wf(),
            final(self)@ == old(self)@.insert(k@, x),
            final(self).order() == (if old(self)@.contains_key(k@) {
                old(self).order()
            } else {
                old(self).order().push(k@)
            }),
    {
        let ghost before = self.order();
        if !self.values.contains_key(k) {
            self.keys.push(k.to_string());
            proof {
                let after = self.order();
                assert(after =~= before.push(k@));
                assert(!before.contains(k@)) by {
                    if before.contains(k@) {
                        assert(before.to_set().contains(k@));
                    }
                }
                assert(after.to_set() =~= before.to_set().insert(k@)) by {
                    assert forall|q: Seq<char>| #[trigger]
                        before.to_set().insert(k@).contains(q) implies after.to_set().contains(
                        q,
                    ) by {
                        if q == k@ {
                            assert(after[before.len() as int] == q);
                        } else {
                            let i = choose|i: int| 0 <= i < before.len() && before[i] == q;
                            assert(after[i] == q);
                        }
                    }
                }
            }
        } else {
            assert(before.to_set().insert(k@) =~= before.to_set());
        }
        self.values.insert(k.to_string(), x);
    }
}

} // verus!
