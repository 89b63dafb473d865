//! Finding the files that changed since the last scan, and where the index of
//! a work directory is kept.

use crate::index::{self, indexable};
use crate::number::{self, show_hex};
use crate::split;
use crate::table::Table;
use crate::text::cat2;
use vstd::prelude::*;

verus! {

broadcast use {split::lemma_texts_push, split::lemma_views_push};

// ── Scans ───────────────────────────────────────────────────────────────────

/// When a file was last written, and its size.
#[derive(Clone, Copy, Debug, PartialEq, Eq, Structural)]
pub struct Stamp {
    pub mtime: i64,
    pub size: u64,
}

/// A file found by a scan, with its path below the work directory.
pub struct Scanned {
    pub path: String,
    pub stamp: Stamp,
}

/// The model of a scanned file.
#[verifier::ext_equal]
pub struct ScannedView {
    pub path: Seq<char>,
    pub stamp: Stamp,
}

impl View for Scanned {
    type V = ScannedView;

    open spec fn view(&self) -> ScannedView {
        ScannedView { path: self.path@, stamp: self.stamp }
    }
}

/// What the last scan found.
pub struct RefreshState {
    pub mtimes: Table<Stamp>,
}

impl RefreshState {
    /// The table is well formed.
    pub open spec fn wf(&self) -> bool {
        self.mtimes.wf()
    }
}

impl View for RefreshState {
    type V = Map<Seq<char>, Stamp>;

    open spec fn view(&self) -> Map<Seq<char>, Stamp> {
        self.mtimes@
    }
}

impl Default for RefreshState {
    /// The state before the first scan.
    fn default() -> (r: Self)
        ensures
            r.wf(),
            r@ == Map::<Seq<char>, Stamp>::empty(),
            r.mtimes.order() == Seq::<Seq<char>>::empty(),
    {
        RefreshState { mtimes: Table::new() }
    }
}

/// The stamps that a scan found, by path.
pub open spec fn stamps_of(found: Seq<ScannedView>) -> Map<Seq<char>, Stamp>
    decreases found.len(),
{
    if found.len() == 0 {
        Map::empty()
    } else if index::is_indexable(found.last().path) {
        stamps_of(found.drop_last()).insert(found.last().path, found.last().stamp)
    } else {
        stamps_of(found.drop_last())
    }
}

/// Whether a scanned file is new or has another stamp than before.
pub open spec fn is_changed(prev: Map<Seq<char>, Stamp>, f: ScannedView) -> bool {
    !prev.contains_key(f.path) || prev[f.path] != f.stamp
}

/// The scanned files that are new or have another stamp than before, in the
/// order of the scan.
pub open spec fn changed_in(prev: Map<Seq<char>, Stamp>, found: Seq<ScannedView>) -> Seq<Seq<char>>
    decreases found.len(),
{
    if found.len() == 0 {
        Seq::empty()
    } else {
        let before = changed_in(prev, found.drop_last());
        let f = found.last();
        if index::is_indexable(f.path) && is_changed(prev, f) {
            before.push(f.path)
        } else {
            before
        }
    }
}

/// Those of `paths` that the scan did not find.
pub open spec fn gone_from(paths: Seq<Seq<char>>, next: Map<Seq<char>, Stamp>) -> Seq<Seq<char>>
    decreases paths.len(),
{
    if paths.len() == 0 {
        Seq::empty()
    } else if next.contains_key(paths.last()) {
        gone_from(paths.drop_last(), next)
    } else {
        gone_from(paths.drop_last(), next).push(paths.last())
    }
}

/// Compares a scan with the last one: the files that are new, changed or gone,
/// and the state for the next comparison.
pub fn diff_against(state: &RefreshState, found: &Vec<Scanned>) -> (r: (Vec<String>, RefreshState))
    requires
        state.wf(),
    ensures
        r.1.wf(),
        r.1@ == stamps_of(split::views(found@)),
        split::texts(r.0@) == changed_in(state@, split::views(found@)) + gone_from(
            state.mtimes.order(),
            r.1@,
        ),
{
    let ghost all = split::views(found@);
    let mut changed: Vec<String> = Vec::new();
    let mut next = RefreshState::default();
    let mut i: usize = 0;
    assert(split::texts(changed@) =~= changed_in(state@, all.take(0)));
    while i < found.len()
        invariant
            i <= found@.len(),
            all == split::views(found@),
            next.wf(),
            next@ == stamps_of(all.take(i as int)),
            split::texts(changed@) == changed_in(state@, all.take(i as int)),
        decreases found@.len() - i,
    {
        let f = &found[i];
        assert(all[i as int] == f@);
        assert(all.take(i + 1).drop_last() =~= all.take(i as int));
        if indexable(f.path.as_str()) {
            next.mtimes.set(f.path.as_str(), f.stamp);
            let known = match state.mtimes.get(f.path.as_str()) {
                Some(s) => s == f.stamp,
                None => false,
            };
            if !known {
                changed.push(f.path.as_str().to_string());
            }
        }
        i += 1;
    }
    assert(all.take(i as int) =~= all);
    let ghost scanned = split::texts(changed@);
    let ghost ks = state.mtimes.order();
    let mut j: usize = 0;
    assert(scanned + gone_from(ks.take(0), next@) =~= scanned);
    while j < state.mtimes.size()
        invariant
            j <= ks.len(),
            ks == state.mtimes.order(),
            split::texts(changed@) == scanned + gone_from(ks.take(j as int), next@),
        decreases ks.len() - j,
    {
        let k = state.mtimes.key(j);
        assert(ks.take(j + 1).drop_last() =~= ks.take(j as int));
        if !next.mtimes.has(k) {
            changed.push(k.to_string());
            assert(scanned + gone_from(ks.take(j as int), next@).push(k@) =~= (scanned + gone_from(
                ks.take(j as int),
                next@,
            )).push(k@));
        }
        j += 1;
    }
    assert(ks.take(j as int) =~= ks);
    (changed, next)
}

proof fn lemma_stamps(found: Seq<ScannedView>, i: int)
    requires
        0 <= i < found.len(),
        index::is_indexable(found[i].path),
        forall|a: int, b: int|
            0 <= a < b < found.len() ==> (#[trigger] found[a]).path != (#[trigger] found[b]).path,
    ensures
        stamps_of(found).contains_key(found[i].path),
        stamps_of(found)[found[i].path] == found[i].stamp,
    decreases found.len(),
{
    if i < found.len() - 1 {
        lemma_stamps(found.drop_last(), i);
        assert(found[i].path != found[found.len() - 1].path);
    }
}

proof fn lemma_nothing_changed(prev: Map<Seq<char>, Stamp>, found: Seq<ScannedView>)
    requires
        forall|i: int|
            0 <= i < found.len() && index::is_indexable((#[trigger] found[i]).path) ==> !is_changed(
                prev,
                found[i],
            ),
    ensures
        changed_in(prev, found).len() == 0,
    decreases found.len(),
{
    if found.len() > 0 {
        assert forall|i: int|
            0 <= i < found.drop_last().len() && index::is_indexable(
                (#[trigger] found.drop_last()[i]).path,
            ) implies !is_changed(prev, found.drop_last()[i]) by {
            assert(found.drop_last()[i] == found[i]);
        }
        lemma_nothing_changed(prev, found.drop_last());
        assert(found[found.len() - 1] == found.last());
    }
}

proof fn lemma_none_gone(paths: Seq<Seq<char>>, next: Map<Seq<char>, Stamp>)
    requires
        forall|i: int| 0 <= i < paths.len() ==> next.contains_key(#[trigger] paths[i]),
    ensures
        gone_from(paths, next).len() == 0,
    decreases paths.len(),
{
    if paths.len() > 0 {
        assert forall|i: int| 0 <= i < paths.drop_last().len() implies next.contains_key(
            #[trigger] paths.drop_last()[i],
        ) by {
            assert(paths.drop_last()[i] == paths[i]);
        }
        lemma_none_gone(paths.drop_last(), next);
        assert(paths[paths.len() - 1] == paths.last());
    }
}

/// A second scan that finds the same reports nothing: with the state of the
/// first scan, and whatever order it keeps its paths in, no file is changed
/// and none is gone.
pub proof fn law_same_scan_reports_nothing(found: Seq<ScannedView>, paths: Seq<Seq<char>>)
    requires
        forall|a: int, b: int|
            0 <= a < b < found.len() ==> (#[trigger] found[a]).path != (#[trigger] found[b]).path,
        paths.to_set() == stamps_of(found).dom(),
    ensures
        changed_in(stamps_of(found), found).len() == 0,
        gone_from(paths, stamps_of(found)).len() == 0,
{
    let s = stamps_of(found);
    assert forall|i: int|
        0 <= i < found.len() && index::is_indexable((#[trigger] found[i]).path) implies !is_changed(
        s,
        found[i],
    ) by {
        lemma_stamps(found, i);
    }
    lemma_nothing_changed(s, found);
    assert forall|i: int| 0 <= i < paths.len() implies s.contains_key(#[trigger] paths[i]) by {
        assert(paths.to_set().contains(paths[i]));
    }
    lemma_none_gone(paths, s);
}

/// A file whose stamp is another than before is reported, and so is one that
/// is new.
pub proof fn law_changed_is_reported(prev: Map<Seq<char>, Stamp>, found: Seq<ScannedView>, i: int)
    requires
        0 <= i < found.len(),
        index::is_indexable(found[i].path),
        is_changed(prev, found[i]),
    ensures
        changed_in(prev, found).contains(found[i].path),
    decreases found.len(),
{
    if i < found.len() - 1 {
        law_changed_is_reported(prev, found.drop_last(), i);
        let before = changed_in(prev, found.drop_last());
        let k = choose|k: int| 0 <= k < before.len() && before[k] == found[i].path;
        assert(changed_in(prev, found)[k] == found[i].path);
    } else {
        assert(changed_in(prev, found).last() == found[i].path);
    }
}

/// A file of the last scan that this one does not find is reported.
pub proof fn law_gone_is_reported(paths: Seq<Seq<char>>, next: Map<Seq<char>, Stamp>, i: int)
    requires
        0 <= i < paths.len(),
        !next.contains_key(paths[i]),
    ensures
        gone_from(paths, next).contains(paths[i]),
    decreases paths.len(),
{
    if i < paths.len() - 1 {
        law_gone_is_reported(paths.drop_last(), next, i);
        let before = gone_from(paths.drop_last(), next);
        let k = choose|k: int| 0 <= k < before.len() && before[k] == paths[i];
        assert(gone_from(paths, next)[k] == paths[i]);
    } else {
        assert(gone_from(paths, next).last() == paths[i]);
    }
}

proof fn lemma_all_new(found: Seq<ScannedView>)
    ensures
        changed_in(Map::empty(), found) == indexed_paths(found),
    decreases found.len(),
{
    if found.len() > 0 {
        lemma_all_new(found.drop_last());
    }
}

/// The scanned files that are indexed, in the order of the scan.
pub open spec fn indexed_paths(found: Seq<ScannedView>) -> Seq<Seq<char>>
    decreases found.len(),
{
    if found.len() == 0 {
        Seq::empty()
    } else if index::is_indexable(found.last().path) {
        indexed_paths(found.drop_last()).push(found.last().path)
    } else {
        indexed_paths(found.drop_last())
    }
}

/// The first scan, which is compared with nothing, reports each file that is
/// indexed and no other.
pub proof fn law_first_scan_reports_all(found: Seq<ScannedView>)
    ensures
        changed_in(Map::empty(), found) + gone_from(Seq::empty(), stamps_of(found))
            == indexed_paths(found),
{
    lemma_all_new(found);
    assert(changed_in(Map::empty(), found) + Seq::<Seq<char>>::empty() =~= indexed_paths(found));
}

/// Where one file is found that is indexed, the first scan reports it, a second
/// that finds it as it was reports nothing, and one that finds it with another
/// stamp reports it alone.
pub proof fn law_scans_of_one_file(f: ScannedView, later: Stamp)
    requires
        index::is_indexable(f.path),
        later != f.stamp,
    ensures
        ({
            let first = seq![f];
            let then = seq![ScannedView { stamp: later, ..f }];
            let s = stamps_of(first);
            let known = seq![f.path];
            &&& known.to_set() == s.dom()
            &&& changed_in(Map::empty(), first) + gone_from(Seq::empty(), s) == seq![f.path]
            &&& (changed_in(s, first) + gone_from(known, s)).len() == 0
            &&& changed_in(s, then) + gone_from(known, stamps_of(then)) == seq![f.path]
        }),
{
    let first = seq![f];
    let g = ScannedView { stamp: later, ..f };
    let then = seq![g];
    let none = Seq::<ScannedView>::empty();
    assert(first.drop_last() =~= none);
    assert(then.drop_last() =~= none);
    let s = stamps_of(first);
    let known = seq![f.path];
    assert(known.drop_last() =~= Seq::<Seq<char>>::empty());
    assert(known[0] == f.path);
    assert(stamps_of(none) =~= Map::empty());
    assert(s =~= Map::empty().insert(f.path, f.stamp));
    assert(stamps_of(then) =~= Map::empty().insert(f.path, later));
    assert forall|p: Seq<char>| known.to_set().contains(p) == s.dom().contains(p) by {
        if p == f.path {
            assert(known.contains(known[0]));
        }
    }
    assert(known.to_set() =~= s.dom());
    assert(changed_in(Map::empty(), none).len() == 0);
    assert(changed_in(s, none).len() == 0);
    assert(gone_from(Seq::empty(), s).len() == 0);
    assert(gone_from(Seq::empty(), stamps_of(then)).len() == 0);
    assert(changed_in(Map::empty(), first) + gone_from(Seq::empty(), s) =~= seq![f.path]);
    assert(changed_in(s, then) + gone_from(known, stamps_of(then)) =~= seq![f.path]);
}

// ── Where an index is kept ──────────────────────────────────────────────────

/// The FNV-1a hash of some bytes.
pub open spec fn fnv(bytes: Seq<u8>) -> u64
    decreases bytes.len(),
{
    if bytes.len() == 0 {
        0xcbf29ce484222325
    } else {
        u64::wrapping_mul(fnv(bytes.drop_last()) ^ (bytes.last() as u64), 0x100000001b3)
    }
}

/// The name of the file that keeps the index of a work directory.
pub open spec fn index_file_of(work_dir: Seq<char>) -> Seq<char> {
    number::hex(fnv(vstd::utf8::encode_utf8(work_dir)) as nat, 16) + ".json"@
}

/// The name of the file that keeps the index of a work directory.
pub fn index_file(work_dir: &str) -> (r: String)
    ensures
        r@ == index_file_of(work_dir@),
{
    let b = work_dir.as_bytes();
    let mut h: u64 = 0xcbf29ce484222325;
    let mut i: usize = 0;
    while i < b.len()
        invariant
            i <= b@.len(),
            h == fnv(b@.take(i as int)),
        decreases b@.len() - i,
    {
        assert(b@.take(i + 1).drop_last() =~= b@.take(i as int));
        h = (h ^ (b[i] as u64)).wrapping_mul(0x100000001b3);
        i += 1;
    }
    assert(b@.take(i as int) =~= b@);
    let s = show_hex(h, 16);
    cat2(s.as_str(), ".json")
}

/// The hash of a text works byte by byte: it is taken further from the hash of what
/// stands in front alone, and of one byte it is the offset basis with the byte mixed
/// in, times the prime.
pub proof fn law_hash(a: Seq<u8>, b: Seq<u8>, c: Seq<u8>, x: u8)
    requires
        fnv(a) == fnv(b),
    ensures
        fnv(a + c) == fnv(b + c),
        fnv(seq![x]) == u64::wrapping_mul(14695981039346656037u64 ^ (x as u64), 1099511628211u64),
        fnv(Seq::empty()) == 14695981039346656037u64,
    decreases c.len(),
{
    assert(seq![x].drop_last() =~= Seq::<u8>::empty());
    assert(fnv(seq![x].drop_last()) == 14695981039346656037u64);
    if c.len() == 0 {
        assert(a + c =~= a);
        assert(b + c =~= b);
    } else {
        law_hash(a, b, c.drop_last(), x);
        assert((a + c).drop_last() =~= a + c.drop_last());
        assert((b + c).drop_last() =~= b + c.drop_last());
    }
}

/// The index of a directory is kept in a file of sixteen digits and its ending; two
/// directories share one only if their hashes are the same.
pub proof fn law_index_file(d: Seq<char>, e: Seq<char>)
    ensures
        ".json"@.is_suffix_of(index_file_of(d)),
        index_file_of(d).len() == 21,
        index_file_of(d) == index_file_of(e) ==> fnv(vstd::utf8::encode_utf8(d)) == fnv(
            vstd::utf8::encode_utf8(e),
        ),
{
    reveal_strlit(".json");
    let m = fnv(vstd::utf8::encode_utf8(d)) as nat;
    let n = fnv(vstd::utf8::encode_utf8(e)) as nat;
    assert(vstd::arithmetic::power::pow(16, 16) == 0x1_0000_0000_0000_0000int) by {
        reveal_with_fuel(vstd::arithmetic::power::pow, 17);
    }
    let f = index_file_of(d);
    number::law_hex_tells_apart(m, m, 16);
    number::law_hex_tells_apart(n, n, 16);
    assert(f.subrange(f.len() - 5, f.len() as int) =~= ".json"@);
    if f == index_file_of(e) {
        assert(number::hex(m, 16) =~= f.take(16));
        assert(number::hex(n, 16) =~= index_file_of(e).take(16));
        number::law_hex_tells_apart(m, n, 16);
    }
}

} // verus!
