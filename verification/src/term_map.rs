use vstd::prelude::*;
use vstd::hash_map::StringHashMap;

use crate::text::views;

verus! {

broadcast use vstd::hash_map::group_hash_map_axioms;

/// A map from terms to values that also remembers its terms in insertion order,
/// so that they can be walked.
#[verifier::reject_recursive_types(V)]
pub struct TermMap<V> {
    keys: Vec<String>,
    map: StringHashMap<V>,
}

impl<V> View for TermMap<V> {
    type V = Map<Seq<char>, V>;

    closed spec fn view(&self) -> Map<Seq<char>, V> {
        self.map@
    }
}

impl<V> TermMap<V> {
    /// The terms of the map, in the order in which they were first inserted.
    pub closed spec fn key_seq(&self) -> Seq<Seq<char>> {
        views(self.keys@)
    }

    /// The terms are listed once each, and exactly the terms of the map are listed.
    pub closed spec fn wf(&self) -> bool {
        &&& self.key_seq().no_duplicates()
        &&& forall|t: Seq<char>| #[trigger] self.map@.contains_key(t) <==> self.key_seq().contains(t)
    }

    pub proof fn lemma_wf_len(&self)
        requires
            self.wf(),
        ensures
            self@.dom().finite(),
            self@.len() == self.key_seq().len(),
            self.key_seq().no_duplicates(),
            forall|t: Seq<char>| #[trigger] self@.contains_key(t) <==> self.key_seq().contains(t),
            forall|i: int|
                0 <= i < self.key_seq().len() ==> #[trigger] self@.contains_key(self.key_seq()[i]),
    {
        self.key_seq().unique_seq_to_set();
        assert(self.map@.dom() =~= self.key_seq().to_set());
        assert forall|i: int| 0 <= i < self.key_seq().len() implies #[trigger] self@.contains_key(
            self.key_seq()[i],
        ) by {
            assert(self.key_seq().contains(self.key_seq()[i]));
        }
    }

    /// An empty map.
    pub fn new() -> (r: Self)
        ensures
            r.wf(),
            r@ == Map::<Seq<char>, V>::empty(),
            r.key_seq() == Seq::<Seq<char>>::empty(),
    {
        let r = TermMap { keys: Vec::new(), map: StringHashMap::new() };
        assert(r.key_seq() =~= Seq::<Seq<char>>::empty());
        r
    }

    /// The number of terms in the map.
    pub fn len(&self) -> (n: usize)
        requires
            self.wf(),
        ensures
            n == self@.len(),
            n == self.key_seq().len(),
    {
        proof {
            self.lemma_wf_len();
        }
        self.keys.len()
    }

    /// Whether `k` is a term of the map.
    pub fn contains_key(&self, k: &str) -> (b: bool)
        ensures
            b == self@.contains_key(k@),
    {
        self.map.contains_key(k)
    }

    /// The value stored for `k`, if any.
    pub fn get(&self, k: &str) -> (r: Option<&V>)
        ensures
            match r {
                Some(v) => self@.contains_key(k@) && *v == self@[k@],
                None => !self@.contains_key(k@),
            },
    {
        self.map.get(k)
    }

    /// The `i`-th term in insertion order.
    pub fn key_at(&self, i: usize) -> (k: &String)
        requires
            i < self.key_seq().len(),
        ensures
            k@ == self.key_seq()[i as int],
    {
        &self.keys[i]
    }

    /// Stores `v` for `k`; a term that was absent goes to the end of the order.
    pub fn insert(&mut self, k: String, v: V)
        requires
            old(self).wf(),
        ensures
            final(self).wf(),
            final(self)@ == old(self)@.insert(k@, v),
            old(self)@.contains_key(k@) ==> final(self).key_seq() == old(self).key_seq(),
            !old(self)@.contains_key(k@) ==> final(self).key_seq() == old(self).key_seq().push(k@),
    {
        if self.map.contains_key(k.as_str()) {
            self.map.insert(k, v);
        } else {
            let ghost old_keys = self.key_seq();
            let k2 = k.clone();
            self.map.insert(k, v);
            self.keys.push(k2);
            proof {
                assert(self.key_seq() =~= old_keys.push(k2@));
                assert(!old_keys.contains(k2@));
                assert forall|i: int, j: int|
                    0 <= i < self.key_seq().len() && 0 <= j < self.key_seq().len() && i != j
                        implies self.key_seq()[i] != self.key_seq()[j] by {
                    if i < old_keys.len() && j < old_keys.len() {
                    } else if i == old_keys.len() {
                        assert(old_keys.contains(self.key_seq()[j]));
                    } else {
                        assert(old_keys.contains(self.key_seq()[i]));
                    }
                }
                assert forall|t: Seq<char>| #[trigger] self.map@.contains_key(t) <==> self.key_seq().contains(t) by {
                    if self.key_seq().contains(t) && t != k2@ {
                        let i = choose|i: int| 0 <= i < self.key_seq().len() && self.key_seq()[i] == t;
                        assert(old_keys[i] == t);
                    }
                    if old_keys.contains(t) {
                        let i = choose|i: int| 0 <= i < old_keys.len() && old_keys[i] == t;
                        assert(self.key_seq()[i] == t);
                    }
                    if t == k2@ {
                        assert(self.key_seq()[old_keys.len() as int] == t);
                    }
                }
            }
        }
    }

    /// Removes `k` from the map (and from the order).
    pub fn remove(&mut self, k: &str)
        requires
            old(self).wf(),
        ensures
            final(self).wf(),
            final(self)@ == old(self)@.remove(k@),
    {
        if !self.map.contains_key(k) {
            self.map.remove(k);
            return;
        }
        let ghost old_keys = self.key_seq();
        let target = k.to_string();
        let mut i: usize = 0;
        while i < self.keys.len()
            invariant
                self.wf(),
                self.key_seq() == old_keys,
                self.map@.contains_key(target@),
                target@ == k@,
                i <= self.keys@.len(),
                forall|j: int| 0 <= j < i ==> old_keys[j] != target@,
            ensures
                i <= self.keys@.len(),
                i < self.keys@.len() ==> old_keys[i as int] == target@,
            decreases self.keys@.len() - i,
        {
            if self.keys[i] == target {
                break;
            }
            i = i + 1;
        }
        if i == self.keys.len() {
            proof {
                assert(old_keys.contains(target@));
                let j = choose|j: int| 0 <= j < old_keys.len() && old_keys[j] == target@;
                assert(false);
            }
            return;
        }
        assert(old_keys[i as int] == k@);
        self.keys.remove(i);
        self.map.remove(k);
        proof {
            assert(self.key_seq() =~= old_keys.remove(i as int));
            assert forall|a: int, b: int|
                0 <= a < self.key_seq().len() && 0 <= b < self.key_seq().len() && a != b
                    implies self.key_seq()[a] != self.key_seq()[b] by {
                let a2 = if a < i { a } else { a + 1 };
                let b2 = if b < i { b } else { b + 1 };
                assert(self.key_seq()[a] == old_keys[a2]);
                assert(self.key_seq()[b] == old_keys[b2]);
            }
            assert forall|t: Seq<char>| #[trigger] self.map@.contains_key(t) <==> self.key_seq().contains(t) by {
                if self.key_seq().contains(t) {
                    let a = choose|a: int| 0 <= a < self.key_seq().len() && self.key_seq()[a] == t;
                    let a2 = if a < i { a } else { a + 1 };
                    assert(old_keys[a2] == t);
                    assert(old_keys.contains(t));
                    assert(a2 != i);
                }
                if self.map@.contains_key(t) {
                    assert(old_keys.contains(t));
                    let a2 = choose|a2: int| 0 <= a2 < old_keys.len() && old_keys[a2] == t;
                    assert(a2 != i);
                    let a = if a2 < i { a2 } else { a2 - 1 };
                    assert(self.key_seq()[a] == t);
                }
            }
        }
    }
}

} // verus!
