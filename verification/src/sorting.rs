//! Texts in order.

use crate::split;
use crate::text::chars_of;
use vstd::prelude::*;

verus! {

broadcast use split::lemma_texts_push;

/// Whether `a` comes before `b` or is the same, character by character.
pub open spec fn text_le(a: Seq<char>, b: Seq<char>) -> bool
    decreases a.len(),
{
    if a.len() == 0 {
        true
    } else if b.len() == 0 {
        false
    } else if a[0] != b[0] {
        a[0] < b[0]
    } else {
        text_le(a.drop_first(), b.drop_first())
    }
}

/// Where `t` goes in an ordered list: behind those that do not come after it.
pub open spec fn place(v: Seq<Seq<char>>, t: Seq<char>) -> int
    decreases v.len(),
{
    if v.len() == 0 {
        0
    } else if text_le(v[0], t) {
        1 + place(v.drop_first(), t)
    } else {
        0
    }
}

/// The texts of a list in order.
pub open spec fn ordered(v: Seq<Seq<char>>) -> Seq<Seq<char>>
    decreases v.len(),
{
    if v.len() == 0 {
        Seq::empty()
    } else {
        let before = ordered(v.drop_last());
        before.insert(place(before, v.last()), v.last())
    }
}

fn le(a: &str, b: &str) -> (r: bool)
    ensures
        r == text_le(a@, b@),
{
    let x = chars_of(a);
    let y = chars_of(b);
    let mut i: usize = 0;
    assert(a@.skip(0) =~= a@);
    assert(b@.skip(0) =~= b@);
    while i < x.len() && i < y.len()
        invariant
            i <= x@.len(),
            i <= y@.len(),
            x@ == a@,
            y@ == b@,
            text_le(a@, b@) == text_le(a@.skip(i as int), b@.skip(i as int)),
        decreases x@.len() - i,
    {
        assert(a@.skip(i as int).drop_first() =~= a@.skip(i + 1));
        assert(b@.skip(i as int).drop_first() =~= b@.skip(i + 1));
        if x[i] != y[i] {
            return x[i] < y[i];
        }
        i += 1;
    }
    i == x.len()
}

proof fn lemma_place(v: Seq<Seq<char>>, t: Seq<char>)
    ensures
        0 <= place(v, t) <= v.len(),
        forall|k: int| 0 <= k < place(v, t) ==> text_le(#[trigger] v[k], t),
        place(v, t) < v.len() ==> !text_le(v[place(v, t)], t),
    decreases v.len(),
{
    if v.len() > 0 && text_le(v[0], t) {
        let rest = v.drop_first();
        lemma_place(rest, t);
        assert forall|k: int| 0 <= k < place(v, t) implies text_le(#[trigger] v[k], t) by {
            if k > 0 {
                assert(rest[k - 1] == v[k]);
            }
        }
        if place(rest, t) < rest.len() {
            assert(rest[place(rest, t)] == v[place(v, t)]);
        }
    }
}

fn find_place(v: &Vec<String>, t: &str) -> (r: usize)
    ensures
        r == place(split::texts(v@), t@),
        r <= v@.len(),
{
    let ghost all = split::texts(v@);
    let mut i: usize = 0;
    assert(all.skip(0) =~= all);
    while i < v.len()
        invariant
            i <= v@.len(),
            all == split::texts(v@),
            place(all, t@) == i + place(all.skip(i as int), t@),
        decreases v@.len() - i,
    {
        assert(all[i as int] == v@[i as int]@);
        assert(all.skip(i as int).drop_first() =~= all.skip(i + 1));
        if !le(v[i].as_str(), t) {
            return i;
        }
        i += 1;
    }
    i
}

/// Puts the texts of a list in order.
pub fn sort_texts(v: &Vec<String>) -> (r: Vec<String>)
    ensures
        split::texts(r@) == ordered(split::texts(v@)),
{
    let ghost all = split::texts(v@);
    let mut out: Vec<String> = Vec::new();
    let mut i: usize = 0;
    assert(split::texts(out@) =~= ordered(all.take(0)));
    while i < v.len()
        invariant
            i <= v@.len(),
            all == split::texts(v@),
            split::texts(out@) == ordered(all.take(i as int)),
        decreases v@.len() - i,
    {
        let t = v[i].as_str();
        assert(all[i as int] == t@);
        assert(all.take(i + 1).drop_last() =~= all.take(i as int));
        let ghost before = split::texts(out@);
        let p = find_place(&out, t);
        out.insert(p, t.to_string());
        assert(split::texts(out@) =~= before.insert(p as int, t@));
        i += 1;
    }
    assert(all.take(i as int) =~= all);
    out
}

proof fn lemma_le_total(a: Seq<char>, b: Seq<char>)
    ensures
        text_le(a, b) || text_le(b, a),
    decreases a.len(),
{
    if a.len() > 0 && b.len() > 0 && a[0] == b[0] {
        lemma_le_total(a.drop_first(), b.drop_first());
    }
}

proof fn lemma_le_trans(a: Seq<char>, b: Seq<char>, c: Seq<char>)
    requires
        text_le(a, b),
        text_le(b, c),
    ensures
        text_le(a, c),
    decreases a.len(),
{
    if a.len() > 0 && b.len() > 0 && c.len() > 0 && a[0] == b[0] && b[0] == c[0] {
        lemma_le_trans(a.drop_first(), b.drop_first(), c.drop_first());
    }
}

/// An ordered list holds the same texts as often as the list it was made of,
/// and none comes after a later one.
pub proof fn law_ordered(v: Seq<Seq<char>>)
    ensures
        ordered(v).to_multiset() == v.to_multiset(),
        forall|i: int, j: int|
            0 <= i <= j < ordered(v).len() ==> text_le(
                #[trigger] ordered(v)[i],
                #[trigger] ordered(v)[j],
            ),
    decreases v.len(),
{
    broadcast use vstd::seq_lib::group_to_multiset_ensures;

    if v.len() > 0 {
        let init = v.drop_last();
        let t = v.last();
        law_ordered(init);
        let before = ordered(init);
        let p = place(before, t);
        lemma_place(before, t);
        let now = before.insert(p, t);
        assert(init.push(t) =~= v);
        assert(now.to_multiset() =~= before.to_multiset().insert(t)) by {
            vstd::seq_lib::to_multiset_insert(before, p, t);
        }
        assert(init.push(t).to_multiset() =~= init.to_multiset().insert(t));
        assert forall|i: int, j: int| 0 <= i <= j < now.len() implies text_le(
            #[trigger] now[i],
            #[trigger] now[j],
        ) by {
            let a = now[i];
            let b = now[j];
            if i == j {
                lemma_le_total(a, b);
            } else if j < p {
                assert(a == before[i] && b == before[j]);
            } else if j == p {
                assert(a == before[i]);
            } else if i < p {
                assert(a == before[i] && b == before[j - 1]);
            } else if i == p {
                assert(b == before[j - 1]);
                lemma_le_total(before[p], t);
                lemma_le_trans(t, before[p], before[j - 1]);
            } else {
                assert(a == before[i - 1] && b == before[j - 1]);
            }
        }
    }
}

/// Texts are ordered by their first difference: of two with the same front, the one
/// with the smaller character behind it comes first, and a front comes before what
/// goes on from it.
pub proof fn law_order(front: Seq<char>, a: Seq<char>, b: Seq<char>)
    requires
        a.len() > 0,
        b.len() > 0,
        a[0] < b[0],
    ensures
        text_le(front + a, front + b),
        !text_le(front + b, front + a),
        text_le(front, front + a),
        !text_le(front + a, front),
        text_le(front, front),
    decreases front.len(),
{
    if front.len() == 0 {
        assert(front + a =~= a);
        assert(front + b =~= b);
    } else {
        let r = front.drop_first();
        law_order(r, a, b);
        assert((front + a).drop_first() =~= r + a);
        assert((front + b).drop_first() =~= r + b);
        assert((front + a)[0] == front[0] && (front + b)[0] == front[0]);
    }
}

} // verus!
