//! Counts keyed by term.

use crate::split;
use crate::table::Table;
use vstd::prelude::*;

verus! {

broadcast use split::lemma_texts_push;

/// A count for each of a set of terms.
pub type TermTable = Table<usize>;

/// The count of a term; 0 if it has none.
pub open spec fn count_in(m: Map<Seq<char>, usize>, t: Seq<char>) -> int {
    if m.contains_key(t) {
        m[t] as int
    } else {
        0
    }
}

/// One less, but not below 0.
pub open spec fn one_less(n: usize) -> usize {
    if n > 0 {
        (n - 1) as usize
    } else {
        0
    }
}

/// `m` with one less for each term in `ks` that it holds.
pub open spec fn lowered(m: Map<Seq<char>, usize>, ks: Set<Seq<char>>) -> Map<Seq<char>, usize> {
    Map::new(
        |t: Seq<char>| m.contains_key(t),
        |t: Seq<char>|
            if ks.contains(t) {
                one_less(m[t])
            } else {
                m[t]
            },
    )
}

/// `m` with one more for each term in `ks`.
pub open spec fn raised(m: Map<Seq<char>, usize>, ks: Set<Seq<char>>) -> Map<Seq<char>, usize> {
    Map::new(
        |t: Seq<char>| m.contains_key(t) || ks.contains(t),
        |t: Seq<char>|
            if ks.contains(t) {
                (count_in(m, t) + 1) as usize
            } else {
                m[t]
            },
    )
}

/// How often `t` occurs in a list of terms.
pub open spec fn occurrences(ts: Seq<Seq<char>>, t: Seq<char>) -> nat
    decreases ts.len(),
{
    if ts.len() == 0 {
        0
    } else {
        occurrences(ts.drop_last(), t) + (if ts.last() == t {
            1nat
        } else {
            0
        })
    }
}

/// How often each term of a list occurs in it.
pub open spec fn tally(ts: Seq<Seq<char>>) -> Map<Seq<char>, usize> {
    Map::new(|t: Seq<char>| ts.contains(t), |t: Seq<char>| occurrences(ts, t) as usize)
}

/// A term occurs at most as often as the list is long, and at all exactly if
/// the list contains it.
pub proof fn lemma_occurrences(ts: Seq<Seq<char>>, t: Seq<char>)
    ensures
        occurrences(ts, t) <= ts.len(),
        ts.contains(t) <==> occurrences(ts, t) > 0,
    decreases ts.len(),
{
    if ts.len() > 0 {
        lemma_occurrences(ts.drop_last(), t);
        if ts.contains(t) && ts.last() != t {
            let i = choose|i: int| 0 <= i < ts.len() && ts[i] == t;
            assert(ts.drop_last()[i] == t);
        }
        if ts.drop_last().contains(t) {
            let i = choose|i: int| 0 <= i < ts.drop_last().len() && ts.drop_last()[i] == t;
            assert(ts[i] == t);
        }
        if ts.last() == t {
            assert(ts[ts.len() - 1] == t);
        }
    }
}

impl TermTable {
    /// Adds one to the count of a term.
    pub fn bump(&mut self, t: &str)
        requires
            old(self).wf(),
            count_in(old(self)@, t@) < usize::MAX,
        ensures
            final(self).wf(),
            final(self)@ == old(self)@.insert(t@, (count_in(old(self)@, t@) + 1) as usize),
    {
        let n: usize = match self.get(t) {
            Some(n) => n,
            None => 0,
        };
        self.set(t, n + 1);
    }

    /// Takes one from each count whose term `other` holds.
    pub fn lower(&mut self, other: &TermTable)
        requires
            old(self).wf(),
            other.wf(),
        ensures
            final(self).wf(),
            final(self)@ == lowered(old(self)@, other@.dom()),
    {
        let ghost start = self@;
        let ghost ks = other.order();
        let mut i: usize = 0;
        assert(lowered(start, ks.take(0).to_set()) =~= start);
        while i < other.size()
            invariant
                i <= ks.len(),
                ks == other.order(),
                ks.no_duplicates(),
                self.wf(),
                self@ == lowered(start, ks.take(i as int).to_set()),
            decreases ks.len() - i,
        {
            let t = other.key(i);
            let ghost seen = ks.take(i as int).to_set();
            proof {
                assert(!seen.contains(t@));
                lemma_take_set(ks, i as int);
            }
            if let Some(n) = self.get(t) {
                self.set(t, n.saturating_sub(1));
            }
            assert(self@ =~= lowered(start, seen.insert(t@)));
            i += 1;
        }
        assert(ks.take(i as int) =~= ks);
    }

    /// Adds one to the count of each term of `other`.
    pub fn raise(&mut self, other: &TermTable)
        requires
            old(self).wf(),
            other.wf(),
            forall|t: Seq<char>| other@.contains_key(t) ==> count_in(old(self)@, t) < usize::MAX,
        ensures
            final(self).wf(),
            final(self)@ == raised(old(self)@, other@.dom()),
    {
        let ghost start = self@;
        let ghost ks = other.order();
        let mut i: usize = 0;
        assert(raised(start, ks.take(0).to_set()) =~= start);
        assert forall|j: int| 0 <= j < ks.len() implies count_in(start, #[trigger] ks[j])
            < usize::MAX by {
            assert(ks.to_set().contains(ks[j]));
        }
        while i < other.size()
            invariant
                i <= ks.len(),
                ks == other.order(),
                ks.no_duplicates(),
                self.wf(),
                forall|j: int| 0 <= j < ks.len() ==> count_in(start, #[trigger] ks[j]) < usize::MAX,
                self@ == raised(start, ks.take(i as int).to_set()),
            decreases ks.len() - i,
        {
            let t = other.key(i);
            let ghost seen = ks.take(i as int).to_set();
            proof {
                assert(!seen.contains(t@));
                lemma_take_set(ks, i as int);
                assert(count_in(start, ks[i as int]) < usize::MAX);
            }
            self.bump(t);
            assert(self@ =~= raised(start, seen.insert(t@)));
            i += 1;
        }
        assert(ks.take(i as int) =~= ks);
    }
}

/// One more element of a list adds it to the set of those taken.
proof fn lemma_take_set(ks: Seq<Seq<char>>, i: int)
    requires
        0 <= i < ks.len(),
    ensures
        ks.take(i + 1).to_set() == ks.take(i).to_set().insert(ks[i]),
{
    let a = ks.take(i + 1);
    let b = ks.take(i);
    assert forall|k: Seq<char>| #[trigger]
        b.to_set().insert(ks[i]).contains(k) implies a.to_set().contains(k) by {
        if k == ks[i] {
            assert(a[i] == k);
        } else {
            let j = choose|j: int| 0 <= j < b.len() && b[j] == k;
            assert(a[j] == k);
        }
    }
    assert(a.to_set() =~= b.to_set().insert(ks[i]));
}

/// Counts how often each term of a list occurs in it.
pub fn count_terms(ts: &Vec<String>) -> (r: TermTable)
    ensures
        r.wf(),
        r@ == tally(split::texts(ts@)),
{
    let ghost all = split::texts(ts@);
    let mut r = TermTable::new();
    let mut i: usize = 0;
    assert(r@ =~= tally(all.take(0)));
    while i < ts.len()
        invariant
            i <= ts@.len(),
            all == split::texts(ts@),
            r.wf(),
            r@ == tally(all.take(i as int)),
        decreases ts@.len() - i,
    {
        let t = ts[i].as_str();
        let ghost seen = all.take(i as int);
        proof {
            assert(all[i as int] == t@);
            lemma_occurrences(seen, t@);
            assert(all.take(i + 1).drop_last() =~= seen);
            assert forall|k: Seq<char>| all.take(i + 1).contains(k) <==> (seen.contains(k) || k
                == t@) by {
                lemma_occurrences(seen, k);
                lemma_occurrences(all.take(i + 1), k);
            }
        }
        r.bump(t);
        assert(r@ =~= tally(all.take(i + 1)));
        i += 1;
    }
    assert(all.take(i as int) =~= all);
    r
}

} // verus!
