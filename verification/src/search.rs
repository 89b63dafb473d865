//! Searching the index, by terms and by declared names.

use crate::index::{self, tokenize, Index};
use crate::number::{self, byte_len_capped, take_bytes};
use crate::shown::{self, quote};
use crate::split::{self, split_lines};
use crate::text::{self, cat2, cat3, cat6, chars_of, empty, same, string_of, trim};
use vstd::prelude::*;
use vstd::string::*;

verus! {

broadcast use {split::lemma_texts_push, split::lemma_views_push};

/// How well a file matches: an integer that orders the matches of one search,
/// 0 for none, and the number as it is shown.
pub struct Score {
    pub order: u64,
    pub shown: String,
}

/// The model of a score.
#[verifier::ext_equal]
pub struct ScoreView {
    pub order: u64,
    pub shown: Seq<char>,
}

impl View for Score {
    type V = ScoreView;

    open spec fn view(&self) -> ScoreView {
        ScoreView { order: self.order, shown: self.shown@ }
    }
}

/// A match.
pub struct SearchResult {
    pub path: String,
    pub score: Score,
    pub snippet: String,
    /// Whether the match came from a declared name rather than from terms.
    pub is_symbol: bool,
}

/// The model of a match.
#[verifier::ext_equal]
pub struct SearchResultView {
    pub path: Seq<char>,
    pub score: ScoreView,
    pub snippet: Seq<char>,
    pub is_symbol: bool,
}

impl View for SearchResult {
    type V = SearchResultView;

    open spec fn view(&self) -> SearchResultView {
        SearchResultView {
            path: self.path@,
            score: self.score@,
            snippet: self.snippet@,
            is_symbol: self.is_symbol,
        }
    }
}

// ── Evidence ────────────────────────────────────────────────────────────────

/// What speaks for a file on one term of the query: how often the term occurs
/// among the file's terms, in how many files it occurs, and whether the file
/// declares a name that holds it.
#[derive(Clone, Copy, Debug, PartialEq, Eq, Structural)]
pub struct Evidence {
    pub count: usize,
    pub total: usize,
    pub df: usize,
    pub declared: bool,
}

/// Whether a name holds a term, in lower case.
pub open spec fn holds(name: Seq<char>, term: Seq<char>) -> bool {
    text::lowercase(name) == term || text::occurs(text::lowercase(name), term)
}

/// Whether one of the names holds a term.
pub open spec fn declares(names: Seq<Seq<char>>, term: Seq<char>) -> bool {
    exists|k: int| 0 <= k < names.len() && holds(#[trigger] names[k], term)
}

/// The evidence on one term. A term that the index does not know counts as
/// one that a single file holds.
pub open spec fn evidence_on(
    v: index::IndexView,
    f: index::FileEntryView,
    term: Seq<char>,
) -> Evidence {
    Evidence {
        count: if f.tf.contains_key(term) {
            f.tf[term]
        } else {
            0
        },
        total: f.total as usize,
        df: if v.df.contains_key(term) {
            v.df[term]
        } else {
            1
        },
        declared: declares(f.symbols, term),
    }
}

/// The evidence on each term of a query.
pub open spec fn evidence_for(
    v: index::IndexView,
    f: index::FileEntryView,
    terms: Seq<Seq<char>>,
) -> Seq<Evidence> {
    Seq::new(terms.len(), |i: int| evidence_on(v, f, terms[i]))
}

/// Whether the file at `i` declares a name that holds one of the terms.
pub open spec fn by_symbol(v: index::IndexView, i: int, terms: Seq<Seq<char>>) -> bool {
    exists|k: int| 0 <= k < terms.len() && declares(v.files[i].symbols, #[trigger] terms[k])
}

fn name_holds(name: &str, term: &str) -> (r: bool)
    ensures
        r == holds(name@, term@),
{
    let low = name.to_lowercase();
    if same(low.as_str(), term) {
        true
    } else {
        text::contains_str(low.as_str(), term)
    }
}

fn names_hold(names: &Vec<String>, term: &str) -> (r: bool)
    ensures
        r == declares(split::texts(names@), term@),
{
    let ghost all = split::texts(names@);
    let mut i: usize = 0;
    while i < names.len()
        invariant
            i <= names@.len(),
            all == split::texts(names@),
            forall|k: int| 0 <= k < i ==> !holds(#[trigger] all[k], term@),
        decreases names@.len() - i,
    {
        assert(all[i as int] == names@[i as int]@);
        if name_holds(names[i].as_str(), term) {
            assert(holds(all[i as int], term@));
            return true;
        }
        i += 1;
    }
    false
}

/// What speaks for the file at `i`, term by term of the query.
pub fn evidence(idx: &Index, i: usize, query: &str) -> (r: Vec<Evidence>)
    requires
        i < idx@.files.len(),
    ensures
        r@ == evidence_for(idx@, idx@.files[i as int], index::terms_of(query@)),
{
    let terms = tokenize(query);
    let f = &idx.files[i];
    let ghost all = split::texts(terms@);
    let mut out: Vec<Evidence> = Vec::new();
    let mut k: usize = 0;
    while k < terms.len()
        invariant
            k <= terms@.len(),
            all == split::texts(terms@),
            idx@.files[i as int] == f@,
            out@ =~= evidence_for(idx@, f@, all).take(k as int),
        decreases terms@.len() - k,
    {
        let t = terms[k].as_str();
        assert(all[k as int] == t@);
        let count: usize = match f.tf.get(t) {
            Some(n) => n,
            None => 0,
        };
        let df: usize = match idx.df.get(t) {
            Some(n) => n,
            None => 1,
        };
        let declared = names_hold(&f.symbols, t);
        out.push(Evidence { count, total: f.total, df, declared });
        k += 1;
    }
    out
}

fn any_declared(idx: &Index, i: usize, terms: &Vec<String>) -> (r: bool)
    requires
        i < idx@.files.len(),
    ensures
        r == by_symbol(idx@, i as int, split::texts(terms@)),
{
    let ghost all = split::texts(terms@);
    let mut k: usize = 0;
    while k < terms.len()
        invariant
            k <= terms@.len(),
            i < idx@.files.len(),
            all == split::texts(terms@),
            forall|m: int|
                0 <= m < k ==> !declares(idx@.files[i as int].symbols, #[trigger] all[m]),
        decreases terms@.len() - k,
    {
        assert(all[k as int] == terms@[k as int]@);
        if names_hold(&idx.files[i].symbols, terms[k].as_str()) {
            assert(declares(idx@.files[i as int].symbols, all[k as int]));
            return true;
        }
        k += 1;
    }
    false
}

// ── Ranking ─────────────────────────────────────────────────────────────────

/// Where a file of rank `k` goes among ranked files: behind those that are at
/// least as good.
pub open spec fn slot(ranked: Seq<int>, scores: Seq<ScoreView>, k: u64) -> int
    decreases ranked.len(),
{
    if ranked.len() == 0 {
        0
    } else {
        let p = slot(ranked.drop_last(), scores, k);
        if p < ranked.len() - 1 {
            p
        } else if scores[ranked.last()].order < k {
            ranked.len() - 1
        } else {
            ranked.len() as int
        }
    }
}

/// The files with a score above 0, best first, equals in their own order.
pub open spec fn ranking(scores: Seq<ScoreView>, n: nat) -> Seq<int>
    decreases n,
{
    if n == 0 {
        Seq::empty()
    } else {
        let before = ranking(scores, (n - 1) as nat);
        if scores[n - 1].order > 0 {
            before.insert(slot(before, scores, scores[n - 1].order), n - 1)
        } else {
            before
        }
    }
}

/// At most the first `limit` of a list.
pub open spec fn at_most<T>(s: Seq<T>, limit: nat) -> Seq<T> {
    if s.len() > limit {
        s.take(limit as int)
    } else {
        s
    }
}

/// The match of the file at `i`, before its snippet is read.
pub open spec fn match_of(
    v: index::IndexView,
    scores: Seq<ScoreView>,
    terms: Seq<Seq<char>>,
    i: int,
) -> SearchResultView {
    SearchResultView {
        path: v.files[i].path,
        score: scores[i],
        snippet: Seq::empty(),
        is_symbol: by_symbol(v, i, terms),
    }
}

/// The matches of a query, given each file's score.
pub open spec fn matches_of(
    v: index::IndexView,
    query: Seq<char>,
    limit: nat,
    scores: Seq<ScoreView>,
) -> Seq<SearchResultView> {
    let terms = index::terms_of(query);
    if terms.len() == 0 {
        Seq::empty()
    } else {
        let ids = at_most(ranking(scores, v.files.len()), limit);
        Seq::new(ids.len(), |k: int| match_of(v, scores, terms, ids[k]))
    }
}

/// The order of a ranking: a better score first, and of two equal ones the
/// earlier file.
pub open spec fn before_in(scores: Seq<ScoreView>, a: int, b: int) -> bool {
    scores[a].order > scores[b].order || (scores[a].order == scores[b].order && a < b)
}

proof fn lemma_slot(ranked: Seq<int>, scores: Seq<ScoreView>, k: u64)
    ensures
        0 <= slot(ranked, scores, k) <= ranked.len(),
        forall|j: int|
            0 <= j < slot(ranked, scores, k) ==> scores[#[trigger] ranked[j]].order >= k,
        slot(ranked, scores, k) < ranked.len() ==> scores[ranked[slot(
            ranked,
            scores,
            k,
        )]].order < k,
    decreases ranked.len(),
{
    if ranked.len() > 0 {
        lemma_slot(ranked.drop_last(), scores, k);
        let p = slot(ranked.drop_last(), scores, k);
        assert forall|j: int| 0 <= j < slot(ranked, scores, k) implies scores[
            #[trigger] ranked[j]].order >= k by {
            if j < ranked.len() - 1 {
                assert(ranked.drop_last()[j] == ranked[j]);
            }
        }
        if p < ranked.len() - 1 {
            assert(ranked.drop_last()[p] == ranked[p]);
        }
    }
}

/// A ranking holds exactly the files with a score above 0, each once, a better
/// one before a worse one, and equals in the order of the index.
pub proof fn law_ranking(scores: Seq<ScoreView>, n: nat)
    requires
        n <= scores.len(),
    ensures
        ranking(scores, n).len() <= n,
        forall|k: int|
            0 <= k < ranking(scores, n).len() ==> 0 <= #[trigger] ranking(scores, n)[k] < n
                && scores[ranking(scores, n)[k]].order > 0,
        forall|i: int| 0 <= i < n && scores[i].order > 0 ==> ranking(scores, n).contains(i),
        forall|a: int, b: int|
            0 <= a < b < ranking(scores, n).len() ==> before_in(
                scores,
                #[trigger] ranking(scores, n)[a],
                #[trigger] ranking(scores, n)[b],
            ),
    decreases n,
{
    if n > 0 {
        let m = (n - 1) as nat;
        law_ranking(scores, m);
        let before = ranking(scores, m);
        let now = ranking(scores, n);
        let k = scores[n - 1].order;
        if k > 0 {
            let p = slot(before, scores, k);
            lemma_slot(before, scores, k);
            assert(now =~= before.insert(p, n - 1));
            assert forall|i: int| 0 <= i < n && scores[i].order > 0 implies now.contains(i) by {
                if i == n - 1 {
                    assert(now[p] == i);
                } else {
                    assert(before.contains(i));
                    let j = choose|j: int| 0 <= j < before.len() && before[j] == i;
                    if j < p {
                        assert(now[j] == i);
                    } else {
                        assert(now[j + 1] == i);
                    }
                }
            }
            assert forall|j: int| 0 <= j < now.len() implies 0 <= #[trigger] now[j] < n
                && scores[now[j]].order > 0 by {
                if j < p {
                    assert(now[j] == before[j]);
                } else if j > p {
                    assert(now[j] == before[j - 1]);
                }
            }
            assert forall|a: int, b: int| 0 <= a < b < now.len() implies before_in(
                scores,
                #[trigger] now[a],
                #[trigger] now[b],
            ) by {
                let x = if a < p {
                    before[a]
                } else if a == p {
                    n - 1
                } else {
                    before[a - 1]
                };
                let y = if b < p {
                    before[b]
                } else if b == p {
                    n - 1
                } else {
                    before[b - 1]
                };
                assert(now[a] == x && now[b] == y);
                if a == p {
                    assert(before_in(scores, before[p], before[b - 1]) || b - 1 == p);
                }
            }
        } else {
            assert forall|i: int| 0 <= i < n && scores[i].order > 0 implies now.contains(i) by {
                assert(i < m);
            }
        }
    }
}

fn find_slot(ranked: &Vec<usize>, scores: &Vec<Score>, k: u64) -> (r: usize)
    requires
        forall|j: int| 0 <= j < ranked@.len() ==> #[trigger] ranked@[j] < scores@.len(),
    ensures
        r <= ranked@.len(),
        r == slot(places(ranked@), split::views(scores@), k),
{
    let ghost all = places(ranked@);
    let ghost ss = split::views(scores@);
    let mut i: usize = 0;
    while i < ranked.len()
        invariant
            i <= ranked@.len(),
            all == places(ranked@),
            ss == split::views(scores@),
            forall|j: int| 0 <= j < ranked@.len() ==> #[trigger] ranked@[j] < scores@.len(),
            slot(all.take(i as int), ss, k) == i,
        decreases ranked@.len() - i,
    {
        assert(all.take(i + 1).drop_last() =~= all.take(i as int));
        assert(all[i as int] == ranked@[i as int]);
        let j = ranked[i];
        assert(ss[j as int] == scores@[j as int]@);
        if scores[j].order < k {
            proof {
                lemma_slot(all, ss, k);
                lemma_slot(all.take(i as int), ss, k);
                let p = slot(all, ss, k);
                if p < i {
                    assert(all.take(i as int)[p] == all[p]);
                }
            }
            return i;
        }
        i += 1;
    }
    assert(all.take(i as int) =~= all);
    i
}

/// Indices as integers.
pub open spec fn places(v: Seq<usize>) -> Seq<int> {
    v.map_values(|i: usize| i as int)
}

fn rank(scores: &Vec<Score>, n: usize) -> (r: Vec<usize>)
    requires
        n <= scores@.len(),
    ensures
        places(r@) == ranking(split::views(scores@), n as nat),
        forall|j: int| 0 <= j < r@.len() ==> #[trigger] r@[j] < n,
{
    let ghost ss = split::views(scores@);
    let mut out: Vec<usize> = Vec::new();
    let mut i: usize = 0;
    assert(places(out@) =~= ranking(ss, 0));
    while i < n
        invariant
            i <= n <= scores@.len(),
            ss == split::views(scores@),
            places(out@) == ranking(ss, i as nat),
            forall|j: int| 0 <= j < out@.len() ==> #[trigger] out@[j] < i,
        decreases n - i,
    {
        let k = scores[i].order;
        assert(ss[i as int] == scores@[i as int]@);
        if k > 0 {
            let p = find_slot(&out, scores, k);
            let ghost before = places(out@);
            let ghost old_out = out@;
            out.insert(p, i);
            proof {
                assert(places(out@) =~= before.insert(p as int, i as int));
                assert forall|j: int| 0 <= j < out@.len() implies #[trigger] out@[j] < i + 1 by {
                    if j < p {
                        assert(out@[j] == old_out[j]);
                    } else if j > p {
                        assert(out@[j] == old_out[j - 1]);
                    }
                }
            }
        }
        i += 1;
    }
    out
}

/// The files that match a query, best first. `scores` gives each file's score;
/// the snippets are read afterwards.
pub fn search(idx: &Index, query: &str, limit: usize, scores: &Vec<Score>) -> (r: Vec<SearchResult>)
    requires
        scores@.len() == idx@.files.len(),
    ensures
        split::views(r@) == matches_of(idx@, query@, limit as nat, split::views(scores@)),
{
    let terms = tokenize(query);
    assert(split::texts(terms@).len() == terms@.len());
    let mut out: Vec<SearchResult> = Vec::new();
    if terms.len() == 0 {
        assert(split::views(out@) =~= Seq::empty());
        return out;
    }
    let ranked = rank(scores, idx.files.len());
    let ghost all = places(ranked@);
    let ghost ss = split::views(scores@);
    let ghost want = matches_of(idx@, query@, limit as nat, ss);
    let end: usize = if ranked.len() > limit {
        limit
    } else {
        ranked.len()
    };
    assert(want.len() == end);
    let mut i: usize = 0;
    while i < end
        invariant
            i <= end <= ranked@.len(),
            forall|j: int| 0 <= j < ranked@.len() ==> #[trigger] ranked@[j] < idx@.files.len(),
            scores@.len() == idx@.files.len(),
            all == places(ranked@),
            ss == split::views(scores@),
            split::texts(terms@) == index::terms_of(query@),
            want.len() == end,
            forall|k: int|
                0 <= k < end ==> #[trigger] want[k] == match_of(
                    idx@,
                    ss,
                    split::texts(terms@),
                    all[k],
                ),
            split::views(out@) =~= want.take(i as int),
        decreases end - i,
    {
        let j = ranked[i];
        let f = &idx.files[j];
        let s = &scores[j];
        assert(ss[j as int] == s@);
        assert(all[i as int] == j);
        assert(idx@.files[j as int] == f@);
        let snippet = empty();
        let is_symbol = any_declared(idx, j, &terms);
        out.push(
            SearchResult {
                path: f.path.as_str().to_string(),
                score: Score { order: s.order, shown: s.shown.as_str().to_string() },
                snippet,
                is_symbol,
            },
        );
        i += 1;
    }
    out
}

// ── Declarations ────────────────────────────────────────────────────────────

/// How a file's first fitting name fits: in full, in part, or not at all.
pub open spec fn grade(names: Seq<Seq<char>>, term: Seq<char>) -> Option<bool>
    decreases names.len(),
{
    if names.len() == 0 {
        None
    } else {
        match grade(names.drop_last(), term) {
            Some(g) => Some(g),
            None => if text::lowercase(names.last()) == term {
                Some(true)
            } else if text::occurs(text::lowercase(names.last()), term) {
                Some(false)
            } else {
                None
            },
        }
    }
}

/// The files whose grade is `g`, in order.
pub open spec fn graded(
    files: Seq<index::FileEntryView>,
    term: Seq<char>,
    g: bool,
) -> Seq<int>
    decreases files.len(),
{
    if files.len() == 0 {
        Seq::empty()
    } else {
        let before = graded(files.drop_last(), term, g);
        if grade(files.last().symbols, term) == Some(g) {
            before.push(files.len() - 1)
        } else {
            before
        }
    }
}

/// The score of a name that fits in full.
pub open spec fn full_score() -> ScoreView {
    ScoreView { order: 10_000, shown: "10.000"@ }
}

/// The score of a name that fits in part.
pub open spec fn part_score() -> ScoreView {
    ScoreView { order: 6_000, shown: "6.000"@ }
}

/// The match of the file at `i` by a declared name.
pub open spec fn declared_match(v: index::IndexView, i: int, full: bool) -> SearchResultView {
    SearchResultView {
        path: v.files[i].path,
        score: if full {
            full_score()
        } else {
            part_score()
        },
        snippet: Seq::empty(),
        is_symbol: true,
    }
}

/// The matches of a list of files.
pub open spec fn declared_matches(
    v: index::IndexView,
    ids: Seq<int>,
    full: bool,
) -> Seq<SearchResultView> {
    Seq::new(ids.len(), |k: int| declared_match(v, ids[k], full))
}

/// The files that declare a name: those that have it in full, then those that
/// have it in part.
pub open spec fn declarations(
    v: index::IndexView,
    symbol: Seq<char>,
    limit: nat,
) -> Seq<SearchResultView> {
    let term = text::lowercase(symbol);
    at_most(
        declared_matches(v, graded(v.files, term, true), true) + declared_matches(
            v,
            graded(v.files, term, false),
            false,
        ),
        limit,
    )
}

fn grade_of(names: &Vec<String>, term: &str) -> (r: Option<bool>)
    ensures
        r == grade(split::texts(names@), term@),
{
    let ghost all = split::texts(names@);
    let mut i: usize = 0;
    while i < names.len()
        invariant
            i <= names@.len(),
            all == split::texts(names@),
            grade(all.take(i as int), term@) is None,
        decreases names@.len() - i,
    {
        assert(all[i as int] == names@[i as int]@);
        assert(all.take(i + 1).drop_last() =~= all.take(i as int));
        let low = names[i].as_str().to_lowercase();
        if same(low.as_str(), term) {
            proof {
                lemma_grade_stays(all, term@, i + 1);
            }
            return Some(true);
        }
        if text::contains_str(low.as_str(), term) {
            proof {
                lemma_grade_stays(all, term@, i + 1);
            }
            return Some(false);
        }
        i += 1;
    }
    assert(all.take(i as int) =~= all);
    None
}

proof fn lemma_grade_stays(names: Seq<Seq<char>>, term: Seq<char>, i: int)
    requires
        0 <= i <= names.len(),
        grade(names.take(i), term) is Some,
    ensures
        grade(names, term) == grade(names.take(i), term),
    decreases names.len(),
{
    if i < names.len() {
        assert(names.drop_last().take(i) =~= names.take(i));
        lemma_grade_stays(names.drop_last(), term, i);
    } else {
        assert(names.take(i) =~= names);
    }
}

fn collect_graded(idx: &Index, term: &str, full: bool, limit: usize, out: &mut Vec<SearchResult>)
    requires
        old(out)@.len() <= limit,
    ensures
        split::views(final(out)@) == at_most(
            split::views(old(out)@) + declared_matches(
                idx@,
                graded(idx@.files, term@, full),
                full,
            ),
            limit as nat,
        ),
        final(out)@.len() <= limit,
{
    let ghost start = split::views(out@);
    let mut i: usize = 0;
    assert(start + declared_matches(idx@, graded(idx@.files.take(0), term@, full), full)
        =~= start);
    while i < idx.files.len()
        invariant
            i <= idx@.files.len(),
            idx@.files.len() == idx.files@.len(),
            out@.len() <= limit,
            split::views(out@) == at_most(
                start + declared_matches(
                    idx@,
                    graded(idx@.files.take(i as int), term@, full),
                    full,
                ),
                limit as nat,
            ),
        decreases idx@.files.len() - i,
    {
        let f = &idx.files[i];
        let ghost ids = graded(idx@.files.take(i as int), term@, full);
        assert(idx@.files.take(i + 1).drop_last() =~= idx@.files.take(i as int));
        assert(idx@.files[i as int] == f@);
        let ghost so_far = start + declared_matches(idx@, ids, full);
        if let Some(g) = grade_of(&f.symbols, term) {
            if g == full {
                assert(start + declared_matches(idx@, ids.push(i as int), full) =~= so_far.push(
                    declared_match(idx@, i as int, full),
                ));
                if out.len() < limit {
                    let snippet = empty();
                    let score = if full {
                        Score { order: 10_000, shown: "10.000".to_string() }
                    } else {
                        Score { order: 6_000, shown: "6.000".to_string() }
                    };
                    out.push(
                        SearchResult {
                            path: f.path.as_str().to_string(),
                            score,
                            snippet,
                            is_symbol: true,
                        },
                    );
                } else {
                    assert(so_far.push(declared_match(idx@, i as int, full)).take(limit as int)
                        =~= so_far.take(limit as int));
                    assert(so_far.len() == limit ==> so_far.take(limit as int) =~= so_far);
                }
            }
        }
        i += 1;
    }
    assert(idx@.files.take(i as int) =~= idx@.files);
}

/// Finds the files that declare a name. The snippets are read afterwards.
pub fn search_symbols(idx: &Index, symbol: &str, limit: usize) -> (r: Vec<SearchResult>)
    ensures
        split::views(r@) == declarations(idx@, symbol@, limit as nat),
{
    let term = symbol.to_lowercase();
    let mut out: Vec<SearchResult> = Vec::new();
    let ghost full = declared_matches(idx@, graded(idx@.files, term@, true), true);
    let ghost part = declared_matches(idx@, graded(idx@.files, term@, false), false);
    collect_graded(idx, term.as_str(), true, limit, &mut out);
    proof {
        assert(Seq::<SearchResultView>::empty() + full =~= full);
        assert(split::views(Seq::<SearchResult>::empty()) =~= Seq::empty());
    }
    collect_graded(idx, term.as_str(), false, limit, &mut out);
    proof {
        assert(at_most(at_most(full, limit as nat) + part, limit as nat) =~= at_most(
            full + part,
            limit as nat,
        ));
    }
    out
}

// ── Snippets ────────────────────────────────────────────────────────────────

/// Whether a text holds one of the terms.
pub open spec fn holds_any(s: Seq<char>, terms: Seq<Seq<char>>) -> bool {
    exists|k: int| 0 <= k < terms.len() && text::occurs(s, #[trigger] terms[k])
}

/// A line cut to 120 bytes, at a character, with an ellipsis if it was longer.
pub open spec fn shortened(t: Seq<char>) -> Seq<char> {
    if number::byte_len(t) > 120 {
        number::byte_prefix(t, 120) + "…"@
    } else {
        t
    }
}

/// The first of the lines that holds one of the terms, trimmed and cut; empty
/// if none does.
pub open spec fn first_snippet(ls: Seq<Seq<char>>, terms: Seq<Seq<char>>) -> Seq<char>
    decreases ls.len(),
{
    if ls.len() == 0 {
        Seq::empty()
    } else if holds_any(text::lowercase(ls[0]), terms) {
        shortened(text::trimmed(ls[0]))
    } else {
        first_snippet(ls.drop_first(), terms)
    }
}

/// The snippet of a file: empty if it could not be read.
pub open spec fn snippet_of(s: Option<Seq<char>>, terms: Seq<Seq<char>>) -> Seq<char> {
    match s {
        Some(s) => first_snippet(split::lines(s), terms),
        None => Seq::empty(),
    }
}

fn any_term(s: &str, terms: &Vec<String>) -> (r: bool)
    ensures
        r == holds_any(s@, split::texts(terms@)),
{
    let ghost all = split::texts(terms@);
    let mut k: usize = 0;
    while k < terms.len()
        invariant
            k <= terms@.len(),
            all == split::texts(terms@),
            forall|m: int| 0 <= m < k ==> !text::occurs(s@, #[trigger] all[m]),
        decreases terms@.len() - k,
    {
        assert(all[k as int] == terms@[k as int]@);
        if text::contains_str(s, terms[k].as_str()) {
            assert(text::occurs(s@, all[k as int]));
            return true;
        }
        k += 1;
    }
    false
}

fn snippet_in(s: &str, terms: &Vec<String>) -> (r: String)
    ensures
        r@ == first_snippet(split::lines(s@), split::texts(terms@)),
{
    let v = chars_of(s);
    let ls = split_lines(v.as_slice());
    let ghost all = split::lines(s@);
    let ghost ts = split::texts(terms@);
    let mut i: usize = 0;
    assert(all.skip(0) =~= all);
    while i < ls.len()
        invariant
            i <= ls@.len(),
            all == split::lines(s@),
            all == split::char_slices(ls@),
            ts == split::texts(terms@),
            first_snippet(all, ts) == first_snippet(all.skip(i as int), ts),
        decreases ls@.len() - i,
    {
        assert(all[i as int] == ls@[i as int]@);
        assert(all.skip(i as int).drop_first() =~= all.skip(i + 1));
        let line = string_of(ls[i]);
        let low = line.as_str().to_lowercase();
        if any_term(low.as_str(), terms) {
            let t = trim(ls[i]);
            if byte_len_capped(t, 120) > 120 {
                let cut = string_of(take_bytes(t, 120));
                return cat2(cut.as_str(), "…");
            }
            return string_of(t);
        }
        i += 1;
    }
    empty()
}

/// The snippet of a file for some terms.
pub fn extract_snippet(s: &Option<String>, terms: &Vec<String>) -> (r: String)
    ensures
        r@ == snippet_of(split::opt_text(*s), split::texts(terms@)),
{
    match s {
        Some(s) => snippet_in(s.as_str(), terms),
        None => empty(),
    }
}

/// A match with its snippet.
pub open spec fn with_snippet(
    r: SearchResultView,
    s: Option<Seq<char>>,
    terms: Seq<Seq<char>>,
) -> SearchResultView {
    SearchResultView { snippet: snippet_of(s, terms), ..r }
}

/// Gives a match the snippet of its file.
pub fn set_snippet(r: &mut SearchResult, s: &Option<String>, terms: &Vec<String>)
    ensures
        final(r)@ == with_snippet(old(r)@, split::opt_text(*s), split::texts(terms@)),
{
    r.snippet = extract_snippet(s, terms);
}

/// Where a match's file lies.
pub fn full_path(idx: &Index, r: &SearchResult) -> (p: String)
    ensures
        p@ == idx@.work_dir + "/"@ + r@.path,
        p@ == path_in(idx@.work_dir, r@.path),
{
    cat3(idx.work_dir.as_str(), "/", r.path.as_str())
}

// ── Printed results ─────────────────────────────────────────────────────────

/// The lines of one match behind `mark`.
pub open spec fn match_text(mark: Seq<char>, r: SearchResultView) -> Seq<char> {
    mark + "["@ + r.score.shown + "] "@ + r.path + "\n"@ + (if r.snippet.len() > 0 {
        "          "@ + r.snippet + "\n"@
    } else {
        Seq::empty()
    })
}

/// The lines of some matches of a search by terms.
pub open spec fn match_texts(rs: Seq<SearchResultView>, marked: bool) -> Seq<char>
    decreases rs.len(),
{
    if rs.len() == 0 {
        Seq::empty()
    } else {
        match_texts(rs.drop_last(), marked) + match_text(
            if !marked {
                "  "@
            } else if rs.last().is_symbol {
                "  ⚡ "@
            } else {
                "     "@
            },
            rs.last(),
        )
    }
}

/// The results of a search by terms as text.
pub open spec fn results_text(rs: Seq<SearchResultView>, query: Seq<char>) -> Seq<char> {
    if rs.len() == 0 {
        "No results for "@ + shown::quoted(query)
    } else {
        "Search results for "@ + shown::quoted(query) + ":\n"@ + match_texts(rs, true)
    }
}

/// The results of a search for a name as text.
pub open spec fn symbol_results_text(rs: Seq<SearchResultView>, symbol: Seq<char>) -> Seq<char> {
    if rs.len() == 0 {
        "No definitions for "@ + shown::quoted(symbol)
    } else {
        "Definitions of "@ + shown::quoted(symbol) + ":\n"@ + match_texts(rs, false)
    }
}

fn append_matches(out: &mut String, rs: &Vec<SearchResult>, marked: bool)
    ensures
        final(out)@ == old(out)@ + match_texts(split::views(rs@), marked),
{
    let ghost all = split::views(rs@);
    let ghost start = out@;
    let mut i: usize = 0;
    assert(start + match_texts(all.take(0), marked) =~= start);
    while i < rs.len()
        invariant
            i <= rs@.len(),
            all == split::views(rs@),
            out@ == start + match_texts(all.take(i as int), marked),
        decreases rs@.len() - i,
    {
        let r = &rs[i];
        assert(all[i as int] == r@);
        assert(all.take(i + 1).drop_last() =~= all.take(i as int));
        let mark = if !marked {
            "  "
        } else if r.is_symbol {
            "  ⚡ "
        } else {
            "     "
        };
        let ghost before = out@;
        let line = cat6(mark, "[", r.score.shown.as_str(), "] ", r.path.as_str(), "\n");
        let tail = if r.snippet.as_str().is_empty() {
            empty()
        } else {
            cat3("          ", r.snippet.as_str(), "\n")
        };
        let both = cat2(line.as_str(), tail.as_str());
        out.append(both.as_str());
        assert(start + (match_texts(all.take(i as int), marked) + both@) =~= before + both@);
        i += 1;
    }
    assert(all.take(i as int) =~= all);
}

/// The results of a search by terms as text.
pub fn format_results(results: &Vec<SearchResult>, query: &str) -> (r: String)
    ensures
        r@ == results_text(split::views(results@), query@),
{
    let q = quote(query);
    if results.len() == 0 {
        return cat2("No results for ", q.as_str());
    }
    let mut out = cat3("Search results for ", q.as_str(), ":\n");
    append_matches(&mut out, results, true);
    out
}

/// The results of a search for a name as text.
pub fn format_symbol_results(results: &Vec<SearchResult>, symbol: &str) -> (r: String)
    ensures
        r@ == symbol_results_text(split::views(results@), symbol@),
{
    let q = quote(symbol);
    if results.len() == 0 {
        return cat2("No definitions for ", q.as_str());
    }
    let mut out = cat3("Definitions of ", q.as_str(), ":\n");
    append_matches(&mut out, results, false);
    out
}

// ── Laws of searching ───────────────────────────────────────────────────────

/// The evidence has one entry for each term of the query, in its order. In a
/// consistent index, the frequency in it is the number of files that hold the
/// term; a term that the index does not know counts as held by one file.
pub proof fn law_evidence_counts_files(
    v: index::IndexView,
    i: int,
    terms: Seq<Seq<char>>,
    k: int,
)
    requires
        index::consistent(v),
        0 <= i < v.files.len(),
        0 <= k < terms.len(),
    ensures
        evidence_for(v, v.files[i], terms).len() == terms.len(),
        index::holders(v.files, terms[k]).finite(),
        index::holders(v.files, terms[k]).len() > 0 ==> evidence_for(v, v.files[i], terms)[k].df
            == index::holders(v.files, terms[k]).len(),
        !v.df.contains_key(terms[k]) ==> evidence_for(v, v.files[i], terms)[k].df == 1,
        evidence_for(v, v.files[i], terms)[k].count > 0 ==> evidence_for(
            v,
            v.files[i],
            terms,
        )[k].df > 0,
{
    let t = terms[k];
    index::law_frequency_is_number_of_holders(v, t);
    if v.files[i].tf.contains_key(t) {
        let h = index::holders(v.files, t);
        assert(h.contains(i));
        if h.len() == 0 {
            assert(h =~= Set::<int>::empty());
        }
    }
}

/// Of two terms that some file holds, the one in fewer files never has the larger
/// frequency in the evidence.
pub proof fn law_rarer_term_weighs_more(
    v: index::IndexView,
    f: index::FileEntryView,
    a: Seq<char>,
    b: Seq<char>,
)
    requires
        index::consistent(v),
        0 < index::holders(v.files, a).len() <= index::holders(v.files, b).len(),
    ensures
        evidence_on(v, f, a).df <= evidence_on(v, f, b).df,
{
    index::law_frequency_is_number_of_holders(v, a);
    index::law_frequency_is_number_of_holders(v, b);
}

/// The evidence from a file counts the term among the terms of the file's text,
/// and knows how many these are.
pub proof fn law_evidence_counts_terms(
    v: index::IndexView,
    path: Seq<char>,
    ext: Seq<char>,
    s: Seq<char>,
    t: Seq<char>,
)
    requires
        index::terms_of(s).len() <= usize::MAX,
    ensures
        evidence_on(v, index::entry_of(path, ext, s), t).count == index::terms_of(
            s,
        ).to_multiset().count(t),
        evidence_on(v, index::entry_of(path, ext, s), t).total == index::terms_of(s).len(),
{
    index::law_entry_counts_terms(path, ext, s, t);
    index::terms_of(s).to_multiset_ensures();
}

/// Whether a name holds a term as a part, in lower case.
pub open spec fn part_of_name(name: Seq<char>, t: Seq<char>) -> bool {
    exists|a: Seq<char>, b: Seq<char>| text::lowercase(name) == #[trigger] (a + t + b)
}

/// A file declares a term exactly if one of its names, in lower case, holds it at
/// the start, in the middle or at the end.
pub proof fn law_evidence_of_names(
    v: index::IndexView,
    f: index::FileEntryView,
    t: Seq<char>,
)
    ensures
        evidence_on(v, f, t).declared <==> exists|k: int|
            0 <= k < f.symbols.len() && part_of_name(#[trigger] f.symbols[k], t),
{
    let none = Seq::<char>::empty();
    assert forall|k: int| 0 <= k < f.symbols.len() implies (part_of_name(#[trigger] f.symbols[k], t)
        <==> holds(f.symbols[k], t)) by {
        lemma_part_of_name(f.symbols[k], t);
    }
    if declares(f.symbols, t) {
        let k = choose|k: int| 0 <= k < f.symbols.len() && holds(#[trigger] f.symbols[k], t);
        assert(part_of_name(f.symbols[k], t));
    }
    if exists|k: int| 0 <= k < f.symbols.len() && part_of_name(#[trigger] f.symbols[k], t) {
        let k = choose|k: int|
            0 <= k < f.symbols.len() && part_of_name(#[trigger] f.symbols[k], t);
        assert(holds(f.symbols[k], t));
    }
}

proof fn lemma_part_of_name(name: Seq<char>, t: Seq<char>)
    ensures
        part_of_name(name, t) <==> holds(name, t),
{
    let none = Seq::<char>::empty();
    let low = text::lowercase(name);
    text::law_occurs(low, t);
    if low == t {
        assert(low =~= none + t + none);
        assert(low == none + t + none);
    }
}

/// A match is found by a name exactly if the file declares one that holds a term of
/// the query. The matches are at most `limit`, each of a file with a score above 0,
/// with its path and its score; a query without terms has none.
pub proof fn law_matches(
    v: index::IndexView,
    query: Seq<char>,
    limit: nat,
    scores: Seq<ScoreView>,
    k: int,
)
    requires
        v.files.len() <= scores.len(),
        0 <= k < matches_of(v, query, limit, scores).len(),
    ensures
        index::terms_of(query).len() > 0,
        matches_of(v, query, limit, scores).len() <= limit,
        ({
            let r = matches_of(v, query, limit, scores)[k];
            exists|i: int|
                {
                    &&& 0 <= i < v.files.len()
                    &&& r.path == (#[trigger] v.files[i]).path
                    &&& r.score == scores[i]
                    &&& scores[i].order > 0
                    &&& r.is_symbol <==> exists|n: int, m: int|
                        0 <= n < index::terms_of(query).len() && 0 <= m < v.files[i].symbols.len()
                            && part_of_name(
                            #[trigger] v.files[i].symbols[m],
                            #[trigger] index::terms_of(query)[n],
                        )
                }
        }),
{
    let ids = at_most(ranking(scores, v.files.len()), limit);
    let i = ids[k];
    law_ranking(scores, v.files.len());
    assert(i == ranking(scores, v.files.len())[k]);
    let f = v.files[i];
    let ts = index::terms_of(query);
    assert(v.files[i].path == f.path);
    if by_symbol(v, i, ts) {
        let n = choose|n: int| 0 <= n < ts.len() && declares(v.files[i].symbols, #[trigger] ts[n]);
        law_evidence_of_names(v, f, ts[n]);
        let m = choose|m: int|
            0 <= m < f.symbols.len() && part_of_name(#[trigger] f.symbols[m], ts[n]);
        assert(part_of_name(v.files[i].symbols[m], ts[n]));
    }
    if exists|n: int, m: int|
        0 <= n < ts.len() && 0 <= m < f.symbols.len() && part_of_name(
            #[trigger] f.symbols[m],
            #[trigger] ts[n],
        ) {
        let (n, m) = choose|n: int, m: int|
            0 <= n < ts.len() && 0 <= m < f.symbols.len() && part_of_name(
                #[trigger] f.symbols[m],
                #[trigger] ts[n],
            );
        assert(part_of_name(f.symbols[m], ts[n]));
        law_evidence_of_names(v, f, ts[n]);
        assert(declares(v.files[i].symbols, ts[n]));
    }
}

/// With room for all, the matches are as many as the files with a score above 0,
/// and a larger limit only adds matches behind.
pub proof fn law_limit_cuts_matches(
    v: index::IndexView,
    query: Seq<char>,
    small: nat,
    large: nat,
    scores: Seq<ScoreView>,
)
    requires
        small <= large,
        v.files.len() <= scores.len(),
    ensures
        matches_of(v, query, small, scores).is_prefix_of(matches_of(v, query, large, scores)),
        matches_of(v, query, small, scores).len() < small ==> matches_of(v, query, small, scores)
            == matches_of(v, query, large, scores),
{
    let a = matches_of(v, query, small, scores);
    let b = matches_of(v, query, large, scores);
    assert(a.len() <= b.len());
    assert(a =~= b.subrange(0, a.len() as int));
}

/// The first of a file's names that holds a term decides: it fits in full if it is
/// the term, in lower case, and in part otherwise. Without such a name the file does
/// not fit.
pub proof fn law_grade(
    a: Seq<Seq<char>>,
    n: Seq<char>,
    b: Seq<Seq<char>>,
    t: Seq<char>,
)
    requires
        forall|k: int| 0 <= k < a.len() ==> !part_of_name(#[trigger] a[k], t),
    ensures
        part_of_name(n, t) ==> grade(a.push(n) + b, t) == Some(text::lowercase(n) == t),
        grade(a, t) is None,
{
    lemma_no_grade(a, t);
    let all = a.push(n) + b;
    let k = a.len() as int + 1;
    assert(all.take(k) =~= a.push(n));
    assert(a.push(n).drop_last() =~= a);
    lemma_part_of_name(n, t);
    if part_of_name(n, t) {
        lemma_grade_stays(all, t, k);
    }
}

proof fn lemma_no_grade(a: Seq<Seq<char>>, t: Seq<char>)
    requires
        forall|k: int| 0 <= k < a.len() ==> !part_of_name(#[trigger] a[k], t),
    ensures
        grade(a, t) is None,
    decreases a.len(),
{
    if a.len() > 0 {
        let init = a.drop_last();
        assert forall|k: int| 0 <= k < init.len() implies !part_of_name(#[trigger] init[k], t) by {
            assert(init[k] == a[k]);
        }
        lemma_no_grade(init, t);
        assert(!part_of_name(a[a.len() - 1], t));
        lemma_part_of_name(a.last(), t);
    }
}

/// The files of a grade are all those that have it, each once, in their order.
pub proof fn law_graded(files: Seq<index::FileEntryView>, t: Seq<char>, g: bool)
    ensures
        forall|k: int|
            0 <= k < graded(files, t, g).len() ==> 0 <= #[trigger] graded(files, t, g)[k]
                < files.len() && grade(files[graded(files, t, g)[k]].symbols, t) == Some(g),
        forall|i: int|
            0 <= i < files.len() && grade((#[trigger] files[i]).symbols, t) == Some(g) ==> graded(
                files,
                t,
                g,
            ).contains(i),
        forall|j: int, k: int|
            0 <= j < k < graded(files, t, g).len() ==> #[trigger] graded(files, t, g)[j]
                < #[trigger] graded(files, t, g)[k],
    decreases files.len(),
{
    if files.len() > 0 {
        let init = files.drop_last();
        law_graded(init, t, g);
        let before = graded(init, t, g);
        let now = graded(files, t, g);
        assert forall|k: int| 0 <= k < now.len() implies 0 <= #[trigger] now[k] < files.len()
            && grade(files[now[k]].symbols, t) == Some(g) by {
            if k < before.len() {
                assert(now[k] == before[k]);
                assert(init[before[k]] == files[before[k]]);
            }
        }
        assert forall|i: int| 0 <= i < files.len() && grade((#[trigger] files[i]).symbols, t)
            == Some(g) implies now.contains(i) by {
            if i < files.len() - 1 {
                assert(init[i] == files[i]);
                let k = choose|k: int| 0 <= k < before.len() && before[k] == i;
                assert(now[k] == i);
            } else {
                assert(now[before.len() as int] == i);
            }
        }
        assert forall|j: int, k: int| 0 <= j < k < now.len() implies #[trigger] now[j]
            < #[trigger] now[k] by {
            assert(now[j] == before[j]);
            if k < before.len() {
                assert(now[k] == before[k]);
            }
        }
    }
}

/// A search for a name gives, up to the limit, the files that have it in full and
/// then those that have it in part, whatever the case: every file that fits is
/// there if the limit allows, and a full match never stands behind a partial one.
pub proof fn law_declarations(v: index::IndexView, symbol: Seq<char>, limit: nat, i: int)
    requires
        0 <= i < v.files.len(),
    ensures
        declarations(v, symbol, limit).len() <= limit,
        forall|j: int, k: int|
            0 <= j < k < declarations(v, symbol, limit).len() ==> (#[trigger] declarations(
                v,
                symbol,
                limit,
            )[j]).score.order >= (#[trigger] declarations(v, symbol, limit)[k]).score.order,
        declarations(v, symbol, limit).len() < limit && grade(
            v.files[i].symbols,
            text::lowercase(symbol),
        ) is Some ==> exists|k: int|
            0 <= k < declarations(v, symbol, limit).len() && (#[trigger] declarations(
                v,
                symbol,
                limit,
            )[k]).path == v.files[i].path,
        forall|k: int|
            0 <= k < declarations(v, symbol, limit).len() ==> (#[trigger] declarations(
                v,
                symbol,
                limit,
            )[k]).is_symbol,
{
    let t = text::lowercase(symbol);
    law_graded(v.files, t, true);
    law_graded(v.files, t, false);
    let fi = graded(v.files, t, true);
    let pi = graded(v.files, t, false);
    let all = declared_matches(v, fi, true) + declared_matches(v, pi, false);
    let d = declarations(v, symbol, limit);
    assert forall|k: int| 0 <= k < d.len() implies d[k] == all[k] by {}
    if d.len() < limit && grade(v.files[i].symbols, t) is Some {
        assert(d == all);
        if grade(v.files[i].symbols, t) == Some(true) {
            let k = choose|k: int| 0 <= k < fi.len() && fi[k] == i;
            assert(d[k].path == v.files[i].path);
        } else {
            let k = choose|k: int| 0 <= k < pi.len() && pi[k] == i;
            assert(d[fi.len() + k].path == v.files[i].path);
        }
    }
}

/// The snippet is the first line that holds one of the terms, in lower case, without
/// whitespace around it; it is cut only above 120 bytes, and then ends in an
/// ellipsis.
pub proof fn law_snippet(
    a: Seq<Seq<char>>,
    l: Seq<char>,
    b: Seq<Seq<char>>,
    terms: Seq<Seq<char>>,
    k: int,
)
    requires
        forall|j: int, n: int|
            0 <= j < a.len() && 0 <= n < terms.len() ==> !text::occurs(
                text::lowercase(#[trigger] a[j]),
                #[trigger] terms[n],
            ),
        0 <= k < terms.len(),
        text::occurs(text::lowercase(l), terms[k]),
    ensures
        number::byte_len(text::trimmed(l)) <= 120 ==> first_snippet(a.push(l) + b, terms)
            == text::trimmed(l),
        number::byte_len(text::trimmed(l)) > 120 ==> first_snippet(a.push(l) + b, terms).drop_last()
            == number::byte_prefix(text::trimmed(l), 120) && first_snippet(
            a.push(l) + b,
            terms,
        ).last() == '…',
        first_snippet(a, terms).len() == 0,
        snippet_of(None, terms).len() == 0,
{
    lemma_snippet(a, l, b, terms, k);
    reveal_strlit("…");
    assert(shortened(text::trimmed(l)).drop_last() =~= number::byte_prefix(text::trimmed(l), 120)
        || number::byte_len(text::trimmed(l)) <= 120);
}

proof fn lemma_snippet(
    a: Seq<Seq<char>>,
    l: Seq<char>,
    b: Seq<Seq<char>>,
    terms: Seq<Seq<char>>,
    k: int,
)
    requires
        forall|j: int, n: int|
            0 <= j < a.len() && 0 <= n < terms.len() ==> !text::occurs(
                text::lowercase(#[trigger] a[j]),
                #[trigger] terms[n],
            ),
        0 <= k < terms.len(),
        text::occurs(text::lowercase(l), terms[k]),
    ensures
        first_snippet(a.push(l) + b, terms) == shortened(text::trimmed(l)),
        first_snippet(a, terms).len() == 0,
    decreases a.len(),
{
    let all = a.push(l) + b;
    if a.len() == 0 {
        assert(all[0] == l);
        assert(text::occurs(text::lowercase(all[0]), terms[k]));
        assert(holds_any(text::lowercase(all[0]), terms));
    } else {
        assert(all[0] == a[0]);
        let r = a.drop_first();
        assert(all.drop_first() =~= r.push(l) + b);
        assert forall|j: int, n: int| 0 <= j < r.len() && 0 <= n < terms.len() implies !text::occurs(
            text::lowercase(#[trigger] r[j]),
            #[trigger] terms[n],
        ) by {
            assert(r[j] == a[j + 1]);
        }
        assert(!holds_any(text::lowercase(a[0]), terms)) by {
            if holds_any(text::lowercase(a[0]), terms) {
                let n = choose|n: int|
                    0 <= n < terms.len() && text::occurs(
                        text::lowercase(a[0]),
                        #[trigger] terms[n],
                    );
                assert(!text::occurs(text::lowercase(a[0]), terms[n]));
            }
        }
        lemma_snippet(r, l, b, terms, k);
    }
}

/// Printed results hold each match, with its score in brackets, its path and its
/// snippet, one behind the other; without a match the query alone is told.
pub proof fn law_results_are_printed(
    a: Seq<SearchResultView>,
    r: SearchResultView,
    b: Seq<SearchResultView>,
    query: Seq<char>,
)
    ensures
        text::occurs(
            results_text(a.push(r) + b, query),
            "["@ + r.score.shown + "] "@ + r.path + "\n"@,
        ),
        text::occurs(
            symbol_results_text(a.push(r) + b, query),
            "["@ + r.score.shown + "] "@ + r.path + "\n"@,
        ),
        text::occurs(results_text(a.push(r) + b, query), r.snippet),
        results_text(Seq::empty(), query) == "No results for "@ + shown::quoted(query),
{
    lemma_match_texts(a, r, b, true);
    lemma_match_texts(a, r, b, false);
    let none = Seq::<char>::empty();
    let head = "Search results for "@ + shown::quoted(query) + ":\n"@;
    let head2 = "Definitions of "@ + shown::quoted(query) + ":\n"@;
    let x = match_texts(a.push(r) + b, true);
    let y = match_texts(a.push(r) + b, false);
    let line = "["@ + r.score.shown + "] "@ + r.path + "\n"@;
    assert(head + x =~= head + x + none);
    assert(head2 + y =~= head2 + y + none);
    text::law_occurs_within(head, x, none, line);
    text::law_occurs_within(head2, y, none, line);
    text::law_occurs_within(head, x, none, r.snippet);
}

proof fn lemma_match_texts(
    a: Seq<SearchResultView>,
    r: SearchResultView,
    b: Seq<SearchResultView>,
    marked: bool,
)
    ensures
        text::occurs(
            match_texts(a.push(r) + b, marked),
            "["@ + r.score.shown + "] "@ + r.path + "\n"@,
        ),
        text::occurs(match_texts(a.push(r) + b, marked), r.snippet),
    decreases b.len(),
{
    let all = a.push(r) + b;
    let line = "["@ + r.score.shown + "] "@ + r.path + "\n"@;
    if b.len() == 0 {
        assert(all.drop_last() =~= a);
        assert(all.last() == r);
        let mark = if !marked {
            "  "@
        } else if r.is_symbol {
            "  ⚡ "@
        } else {
            "     "@
        };
        lemma_last_match(match_texts(a, marked), mark, r);
    } else {
        let init = b.drop_last();
        lemma_match_texts(a, r, init, marked);
        assert(all.drop_last() =~= a.push(r) + init);
        let x = match_texts(a.push(r) + init, marked);
        assert(match_texts(all, marked).take(x.len() as int) =~= x);
        lemma_goes_on(match_texts(a.push(r) + init, marked), match_texts(all, marked), line);
        lemma_goes_on(match_texts(a.push(r) + init, marked), match_texts(all, marked), r.snippet);
    }
}

proof fn lemma_goes_on(x: Seq<char>, y: Seq<char>, m: Seq<char>)
    requires
        text::occurs(x, m),
        y.len() >= x.len(),
        y.take(x.len() as int) == x,
    ensures
        text::occurs(y, m),
{
    let none = Seq::<char>::empty();
    let z = y.skip(x.len() as int);
    assert(y =~= none + x + z) by {
        assert(y =~= y.take(x.len() as int) + z);
    }
    text::law_occurs_within(none, x, z, m);
}

proof fn lemma_last_match(before: Seq<char>, mark: Seq<char>, r: SearchResultView)
    ensures
        text::occurs(
            before + match_text(mark, r),
            "["@ + r.score.shown + "] "@ + r.path + "\n"@,
        ),
        text::occurs(before + match_text(mark, r), r.snippet),
{
    let none = Seq::<char>::empty();
    let line = "["@ + r.score.shown + "] "@ + r.path + "\n"@;
    let tail = if r.snippet.len() > 0 {
        "          "@ + r.snippet + "\n"@
    } else {
        none
    };
    let whole = before + match_text(mark, r);
    assert(match_text(mark, r) =~= mark + line + tail);
    assert(whole =~= (before + mark) + line + tail);
    text::law_occurs_in_middle(before + mark, line, tail);
    if r.snippet.len() > 0 {
        let front = before + mark + line + "          "@;
        assert(whole =~= front + r.snippet + "\n"@);
        text::law_occurs_in_middle(front, r.snippet, "\n"@);
    } else {
        assert(whole =~= whole + r.snippet + none);
        text::law_occurs_in_middle(whole, r.snippet, none);
    }
}

/// Where a file of the index lies.
pub open spec fn path_in(work_dir: Seq<char>, path: Seq<char>) -> Seq<char> {
    work_dir + "/"@ + path
}

/// The place of a file leads back to its path in the index, and has the work
/// directory in front.
pub proof fn law_path_leads_back(work_dir: Seq<char>, path: Seq<char>)
    requires
        path.len() > 0,
        path[0] != '/',
    ensures
        index::relative(work_dir, path_in(work_dir, path)) == path,
        work_dir.is_prefix_of(path_in(work_dir, path)),
        path.is_suffix_of(path_in(work_dir, path)),
{
    reveal_strlit("/");
    let p = path_in(work_dir, path);
    index::law_relative(work_dir, "/"@, path);
    assert(p.subrange(0, work_dir.len() as int) =~= work_dir);
    assert(p.subrange(p.len() - path.len(), p.len() as int) =~= path);
}

/// A snippet is added to a match and nothing else of it changes.
pub proof fn law_snippet_is_added(
    r: SearchResultView,
    s: Option<Seq<char>>,
    terms: Seq<Seq<char>>,
)
    ensures
        with_snippet(r, s, terms).snippet == snippet_of(s, terms),
        with_snippet(r, s, terms).path == r.path,
        with_snippet(r, s, terms).score == r.score,
        with_snippet(r, s, terms).is_symbol == r.is_symbol,
        with_snippet(r, None, terms).snippet.len() == 0,
{
}

} // verus!
