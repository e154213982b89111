//! A string-keyed map backed by a vector of pairs.  Keys are unique;
//! inserting a key that is already present overwrites its value, so the
//! last write wins.  The abstract model is a `Map<Seq<char>, V>` over
//! the keys' character sequences.

use crate::text::str_eq_str;
use vstd::prelude::*;

verus! {

/// Association list with unique keys and last-write-wins insertion.
pub struct KvMap<V> {
    pairs: Vec<(String, V)>,
}

/// The map denoted by an association list: later pairs override earlier ones.
pub open spec fn map_of<V: View>(pairs: Seq<(String, V)>) -> Map<Seq<char>, V::V>
    decreases pairs.len(),
{
    if pairs.len() == 0 {
        Map::empty()
    } else {
        map_of(pairs.drop_last()).insert(pairs.last().0@, pairs.last().1@)
    }
}

impl<V: View> View for KvMap<V> {
    type V = Map<Seq<char>, V::V>;

    closed spec fn view(&self) -> Map<Seq<char>, V::V> {
        map_of(self.pairs@)
    }
}

/// The keys of an association list, with later pairs overriding earlier
/// ones, always cover exactly the domain of its map.
proof fn lemma_map_of_domain<V: View>(pairs: Seq<(String, V)>, k: Seq<char>)
    ensures
        map_of(pairs).contains_key(k) <==> exists|i: int| 0 <= i < pairs.len() && pairs[i].0@ == k,
    decreases pairs.len(),
{
    if pairs.len() > 0 {
        lemma_map_of_domain(pairs.drop_last(), k);
        if map_of(pairs).contains_key(k) {
            if pairs.last().0@ == k {
                assert(pairs[pairs.len() - 1].0@ == k);
            } else {
                let i = choose|i: int| 0 <= i < pairs.drop_last().len() && pairs.drop_last()[i].0@
                    == k;
                assert(pairs[i].0@ == k);
            }
        }
        if exists|i: int| 0 <= i < pairs.len() && pairs[i].0@ == k {
            let i = choose|i: int| 0 <= i < pairs.len() && pairs[i].0@ == k;
            if i < pairs.len() - 1 {
                assert(pairs.drop_last()[i].0@ == k);
            }
        }
    }
}

/// With unique keys, the pair holding `k` decides both membership and value.
proof fn lemma_map_of_at<V: View>(pairs: Seq<(String, V)>, i: int)
    requires
        0 <= i < pairs.len(),
        forall|p: int, q: int| 0 <= p < q < pairs.len() ==> pairs[p].0@ != pairs[q].0@,
    ensures
        map_of(pairs).contains_key(pairs[i].0@),
        map_of(pairs)[pairs[i].0@] == pairs[i].1@,
    decreases pairs.len(),
{
    if i == pairs.len() - 1 {
    } else {
        assert(forall|p: int, q: int|
            0 <= p < q < pairs.drop_last().len() ==> pairs.drop_last()[p].0@
                != pairs.drop_last()[q].0@);
        lemma_map_of_at(pairs.drop_last(), i);
        assert(pairs[i].0@ != pairs.last().0@);
    }
}

/// Overwriting the pair that holds `k` updates the map at `k` alone.
proof fn lemma_map_of_update<V: View>(pairs: Seq<(String, V)>, i: int, k: String, v: V)
    requires
        0 <= i < pairs.len(),
        pairs[i].0@ == k@,
        forall|p: int, q: int| 0 <= p < q < pairs.len() ==> pairs[p].0@ != pairs[q].0@,
    ensures
        map_of(pairs.update(i, (k, v))) == map_of(pairs).insert(k@, v@),
    decreases pairs.len(),
{
    let updated = pairs.update(i, (k, v));
    if i == pairs.len() - 1 {
        assert(updated.drop_last() =~= pairs.drop_last());
        assert(map_of(updated) =~= map_of(pairs).insert(k@, v@));
    } else {
        assert(updated.drop_last() =~= pairs.drop_last().update(i, (k, v)));
        assert(forall|p: int, q: int|
            0 <= p < q < pairs.drop_last().len() ==> pairs.drop_last()[p].0@
                != pairs.drop_last()[q].0@);
        lemma_map_of_update(pairs.drop_last(), i, k, v);
        assert(updated.last() == pairs.last());
        assert(pairs.last().0@ != k@);
        assert(map_of(updated) =~= map_of(pairs).insert(k@, v@));
    }
}

impl<V: View> KvMap<V> {
    /// Keys are pairwise distinct.
    pub closed spec fn wf(&self) -> bool {
        forall|p: int, q: int| 0 <= p < q < self.pairs@.len() ==> self.pairs@[p].0@
            != self.pairs@[q].0@
    }

    /// An empty map.
    pub fn new() -> (r: KvMap<V>)
        ensures
            r@ == Map::<Seq<char>, V::V>::empty(),
            r.wf(),
    {
        KvMap { pairs: Vec::new() }
    }

    /// Binds `k` to `v`; an earlier binding of `k` is overwritten.
    pub fn insert(&mut self, k: String, v: V)
        requires
            old(self).wf(),
        ensures
            final(self).wf(),
            final(self)@ == old(self)@.insert(k@, v@),
    {
        let n = self.pairs.len();
        let mut i: usize = 0;
        while i < n
            invariant
                i <= n,
                n == self.pairs@.len(),
                self.wf(),
                self == old(self),
                forall|p: int| 0 <= p < i ==> self.pairs@[p].0@ != k@,
            decreases n - i,
        {
            if str_eq_str(self.pairs[i].0.as_str(), k.as_str()) {
                proof {
                    lemma_map_of_update(self.pairs@, i as int, k, v);
                }
                self.pairs.set(i, (k, v));
                return ;
            }
            i = i + 1;
        }
        proof {
            assert(self.pairs@.push((k, v)).drop_last() =~= self.pairs@);
        }
        self.pairs.push((k, v));
    }

    /// The value bound to `k`, if `k` is bound at all.
    pub fn get(&self, k: &str) -> (r: Option<&V>)
        requires
            self.wf(),
        ensures
            match r {
                Some(v) => self@.contains_key(k@) && v@ == self@[k@],
                None => !self@.contains_key(k@),
            },
    {
        let n = self.pairs.len();
        let mut i: usize = 0;
        while i < n
            invariant
                i <= n,
                n == self.pairs@.len(),
                self.wf(),
                forall|p: int| 0 <= p < i ==> self.pairs@[p].0@ != k@,
            decreases n - i,
        {
            if str_eq_str(self.pairs[i].0.as_str(), k) {
                proof {
                    lemma_map_of_at(self.pairs@, i as int);
                }
                return Some(&self.pairs[i].1);
            }
            i = i + 1;
        }
        proof {
            lemma_map_of_domain(self.pairs@, k@);
        }
        None
    }

    /// Whether `k` is bound.
    pub fn contains_key(&self, k: &str) -> (r: bool)
        requires
            self.wf(),
        ensures
            r == self@.contains_key(k@),
    {
        self.get(k).is_some()
    }
}

} // verus!
