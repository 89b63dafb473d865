//! Completion of a path in the input line.

use crate::file_command::{self, DirEntry, DirEntryView};
use crate::sorting::{self, sort_texts};
use crate::split;
use crate::text::{self, cat2, cat3, chars_of, find_after_last, starts_str, string_of, CharClass};
use vstd::prelude::*;
use vstd::slice::slice_subrange;

verus! {

broadcast use {split::lemma_texts_push, split::lemma_views_push};

/// The path at the end of an input, taken apart.
#[derive(Debug)]
pub struct Completion {
    /// What stands before the path.
    pub before: String,
    /// The directory part of the path, with its slash.
    pub dir: String,
    /// How the name begins that is to be completed.
    pub prefix: String,
}

/// The model of [`Completion`].
#[verifier::ext_equal]
pub struct CompletionView {
    pub before: Seq<char>,
    pub dir: Seq<char>,
    pub prefix: Seq<char>,
}

impl View for Completion {
    type V = CompletionView;

    open spec fn view(&self) -> CompletionView {
        CompletionView { before: self.before@, dir: self.dir@, prefix: self.prefix@ }
    }
}

/// The place where the last word of an input begins.
pub open spec fn word_start(input: Seq<char>) -> int {
    text::after_last(input, text::among(" "@))
}

/// The last word of an input as a path, unless it is empty.
pub open spec fn path_at_end(input: Seq<char>) -> Option<CompletionView> {
    let word = input.skip(word_start(input));
    let slash = text::after_last(word, text::among("/"@));
    if word.len() == 0 {
        None
    } else {
        Some(
            CompletionView {
                before: input.take(word_start(input)),
                dir: word.take(slash),
                prefix: word.skip(slash),
            },
        )
    }
}

/// The last word of an input as a path. Its directory is to be listed, from the
/// work directory on, for [`complete`].
pub fn split_path(input: &str) -> (r: Option<Completion>)
    ensures
        match r {
            Some(c) => path_at_end(input@) == Some(c@),
            None => path_at_end(input@) is None,
        },
{
    let v = chars_of(input);
    let i = find_after_last(v.as_slice(), CharClass::In(" "));
    let word = slice_subrange(v.as_slice(), i, v.len());
    proof {
        assert(word@ =~= input@.skip(i as int));
    }
    if word.len() == 0 {
        return None;
    }
    let j = find_after_last(word, CharClass::In("/"));
    let before = string_of(slice_subrange(v.as_slice(), 0, i));
    let dir = string_of(slice_subrange(word, 0, j));
    let prefix = string_of(slice_subrange(word, j, word.len()));
    proof {
        assert(before@ =~= input@.take(i as int));
        assert(dir@ =~= word@.take(j as int));
        assert(prefix@ =~= word@.skip(j as int));
    }
    Some(Completion { before, dir, prefix })
}

/// How many characters two texts share at their front.
pub open spec fn shared_len(a: Seq<char>, b: Seq<char>) -> nat
    decreases a.len(),
{
    if a.len() == 0 || b.len() == 0 || a[0] != b[0] {
        0
    } else {
        1 + shared_len(a.drop_first(), b.drop_first())
    }
}

/// What all texts of a list begin with.
pub open spec fn shared_front(v: Seq<Seq<char>>) -> Seq<char>
    decreases v.len(),
{
    if v.len() == 0 {
        Seq::empty()
    } else if v.len() == 1 {
        v[0]
    } else {
        let front = shared_front(v.drop_last());
        front.take(shared_len(front, v.last()) as int)
    }
}

/// The names in a listing that a path can be completed to, in order.
pub open spec fn candidates(es: Seq<DirEntryView>, prefix: Seq<char>) -> Seq<Seq<char>> {
    sorting::ordered(
        file_command::entry_names(
            es.filter(|e: DirEntryView| prefix.is_prefix_of(e.name)),
        ),
    )
}

/// The input with its path completed from the listing of the directory: by the
/// one name that fits, or by what all that fit have in common, if that is more
/// than what is there.
pub open spec fn completed(c: CompletionView, es: Seq<DirEntryView>) -> Option<Seq<char>> {
    let found = candidates(es, c.prefix);
    if found.len() == 0 {
        None
    } else if found.len() == 1 {
        Some(c.before + c.dir + found[0])
    } else if shared_front(found).len() > c.prefix.len() {
        Some(c.before + c.dir + shared_front(found))
    } else {
        None
    }
}

proof fn lemma_shared_len(a: Seq<char>, b: Seq<char>)
    ensures
        shared_len(a, b) <= a.len(),
        shared_len(a, b) <= b.len(),
        forall|k: int| 0 <= k < shared_len(a, b) ==> a[k] == #[trigger] b[k],
        shared_len(a, b) < a.len() && shared_len(a, b) < b.len() ==> a[shared_len(a, b) as int]
            != b[shared_len(a, b) as int],
    decreases a.len(),
{
    if a.len() > 0 && b.len() > 0 && a[0] == b[0] {
        let x = a.drop_first();
        let y = b.drop_first();
        lemma_shared_len(x, y);
        assert forall|k: int| 0 <= k < shared_len(a, b) implies a[k] == #[trigger] b[k] by {
            if k > 0 {
                assert(x[k - 1] == y[k - 1]);
            }
        }
        if shared_len(a, b) < a.len() && shared_len(a, b) < b.len() {
            let n = shared_len(x, y) as int;
            assert(x[n] == a[n + 1]);
            assert(y[n] == b[n + 1]);
        }
    }
}

/// What all texts of a list begin with is at the front of each, and as long as
/// can be.
proof fn lemma_shared_front(v: Seq<Seq<char>>, p: Seq<char>)
    requires
        v.len() > 0,
        forall|k: int| 0 <= k < v.len() ==> p.is_prefix_of(#[trigger] v[k]),
    ensures
        p.is_prefix_of(shared_front(v)),
        forall|k: int| 0 <= k < v.len() ==> shared_front(v).is_prefix_of(#[trigger] v[k]),
    decreases v.len(),
{
    if v.len() > 1 {
        let rest = v.drop_last();
        assert forall|k: int| 0 <= k < rest.len() implies p.is_prefix_of(#[trigger] rest[k]) by {
            assert(rest[k] == v[k]);
        }
        lemma_shared_front(rest, p);
        let front = shared_front(rest);
        let last = v.last();
        let n = shared_len(front, last) as int;
        lemma_shared_len(front, last);
        assert(p.is_prefix_of(v[v.len() - 1]));
        assert(p.len() <= n) by {
            if n < p.len() {
                assert(front[n] == p[n]);
                assert(last[n] == p[n]);
            }
        }
        assert(p =~= front.take(n).subrange(0, p.len() as int)) by {
            assert forall|i: int| 0 <= i < p.len() implies p[i] == front[i] by {}
        }
        assert forall|k: int| 0 <= k < v.len() implies shared_front(v).is_prefix_of(
            #[trigger] v[k],
        ) by {
            if k < rest.len() {
                assert(rest[k] == v[k]);
                assert(front.is_prefix_of(rest[k]));
                assert(front.take(n) =~= v[k].subrange(0, n));
            } else {
                assert(front.take(n) =~= last.subrange(0, n));
            }
        }
    } else {
        assert(v[0] =~= v[0].subrange(0, v[0].len() as int));
    }
}

proof fn lemma_filtered(es: Seq<DirEntryView>, p: spec_fn(DirEntryView) -> bool, i: int)
    requires
        0 <= i < es.len(),
    ensures
        es.take(i + 1).filter(p) == if p(es[i]) {
            es.take(i).filter(p).push(es[i])
        } else {
            es.take(i).filter(p)
        },
{
    reveal(Seq::filter);
    assert(es.take(i + 1).drop_last() =~= es.take(i));
}

fn matching(es: &Vec<DirEntry>, prefix: &str) -> (r: Vec<String>)
    ensures
        split::texts(r@) == file_command::entry_names(
            split::views(es@).filter(|e: DirEntryView| prefix@.is_prefix_of(e.name)),
        ),
{
    let ghost all = split::views(es@);
    let ghost p = |e: DirEntryView| prefix@.is_prefix_of(e.name);
    let mut out: Vec<String> = Vec::new();
    let mut i: usize = 0;
    proof {
        reveal(Seq::filter);
        assert(split::texts(out@) =~= file_command::entry_names(all.take(0).filter(p)));
    }
    while i < es.len()
        invariant
            i <= es@.len(),
            all == split::views(es@),
            p == (|e: DirEntryView| prefix@.is_prefix_of(e.name)),
            split::texts(out@) == file_command::entry_names(all.take(i as int).filter(p)),
        decreases es@.len() - i,
    {
        let ghost before = all.take(i as int).filter(p);
        assert(all[i as int] == es@[i as int]@);
        proof {
            lemma_filtered(all, p, i as int);
        }
        if starts_str(es[i].name.as_str(), prefix) {
            let name = if es[i].is_dir {
                cat2(es[i].name.as_str(), "/")
            } else {
                es[i].name.as_str().to_string()
            };
            out.push(name);
            assert(file_command::entry_names(before.push(all[i as int]))
                =~= file_command::entry_names(before).push(name@));
        }
        i += 1;
    }
    assert(all.take(i as int) =~= all);
    out
}

fn count_shared(a: &[char], b: &[char]) -> (r: usize)
    ensures
        r == shared_len(a@, b@),
        r <= a@.len(),
{
    let mut i: usize = 0;
    assert(a@.skip(0) =~= a@);
    assert(b@.skip(0) =~= b@);
    while i < a.len() && i < b.len() && a[i] == b[i]
        invariant
            i <= a@.len(),
            i <= b@.len(),
            shared_len(a@, b@) == i + shared_len(a@.skip(i as int), b@.skip(i as int)),
        decreases a@.len() - i,
    {
        assert(a@.skip(i as int).drop_first() =~= a@.skip(i + 1));
        assert(b@.skip(i as int).drop_first() =~= b@.skip(i + 1));
        i += 1;
    }
    i
}

fn find_shared(v: &Vec<String>) -> (r: String)
    requires
        v@.len() > 0,
    ensures
        r@ == shared_front(split::texts(v@)),
{
    let ghost all = split::texts(v@);
    assert(all[0] == v@[0]@);
    let mut front = v[0].as_str().to_string();
    let mut i: usize = 1;
    assert(all.take(1)[0] == all[0]);
    while i < v.len()
        invariant
            1 <= i <= v@.len(),
            all == split::texts(v@),
            front@ == shared_front(all.take(i as int)),
        decreases v@.len() - i,
    {
        let a = chars_of(front.as_str());
        let b = chars_of(v[i].as_str());
        let n = count_shared(a.as_slice(), b.as_slice());
        assert(all[i as int] == v@[i as int]@);
        assert(all.take(i + 1).drop_last() =~= all.take(i as int));
        assert(all.take(i + 1).last() == all[i as int]);
        front = string_of(slice_subrange(a.as_slice(), 0, n));
        assert(a@.subrange(0, n as int) =~= a@.take(n as int));
        i += 1;
    }
    assert(all.take(i as int) =~= all);
    front
}

/// The input with its path completed from the listing of the directory.
pub fn complete(c: &Completion, es: &Vec<DirEntry>) -> (r: Option<String>)
    ensures
        split::opt_text(r) == completed(c@, split::views(es@)),
{
    let found = sort_texts(&matching(es, c.prefix.as_str()));
    let ghost all = split::texts(found@);
    assert(all == candidates(split::views(es@), c.prefix@));
    assert(all.len() == found@.len());
    if found.len() == 0 {
        None
    } else if found.len() == 1 {
        assert(all[0] == found@[0]@);
        Some(cat3(c.before.as_str(), c.dir.as_str(), found[0].as_str()))
    } else {
        let front = find_shared(&found);
        if chars_of(front.as_str()).len() > chars_of(c.prefix.as_str()).len() {
            Some(cat3(c.before.as_str(), c.dir.as_str(), front.as_str()))
        } else {
            None
        }
    }
}

/// A completion only adds to the input: what was typed stays as it is.
pub proof fn law_completion_keeps_input(input: Seq<char>, es: Seq<DirEntryView>)
    ensures
        path_at_end(input) matches Some(c) ==> completed(c, es) matches Some(r)
            ==> input.is_prefix_of(r),
{
    if let Some(c) = path_at_end(input) {
        if let Some(r) = completed(c, es) {
            let word = input.skip(word_start(input));
            text::lemma_after_last(input, text::among(" "@));
            text::lemma_after_last(word, text::among("/"@));
            assert(c.before + c.dir + c.prefix =~= input);
            let p = |e: DirEntryView| c.prefix.is_prefix_of(e.name);
            let found = candidates(es, c.prefix);
            let kept = es.filter(p);
            let names = file_command::entry_names(kept);
            assert forall|k: int| 0 <= k < found.len() implies c.prefix.is_prefix_of(
                #[trigger] found[k],
            ) by {
                sorting::law_ordered(names);
                assert(found.to_multiset().count(found[k]) > 0) by {
                    broadcast use vstd::seq_lib::group_to_multiset_ensures;

                    assert(found.contains(found[k]));
                }
                assert(names.contains(found[k])) by {
                    broadcast use vstd::seq_lib::group_to_multiset_ensures;

                }
                let i = choose|i: int| 0 <= i < names.len() && names[i] == found[k];
                es.lemma_filter_pred(p, i);
                assert(c.prefix.is_prefix_of(kept[i].name));
                assert(c.prefix =~= names[i].subrange(0, c.prefix.len() as int));
            }
            lemma_shared_front(found, c.prefix);
            let tail = if found.len() == 1 {
                found[0]
            } else {
                shared_front(found)
            };
            assert(c.prefix.is_prefix_of(tail)) by {
                assert(c.prefix.is_prefix_of(found[0]));
            }
            assert(r =~= c.before + c.dir + tail);
            assert(input =~= r.subrange(0, input.len() as int)) by {
                assert(c.prefix =~= tail.subrange(0, c.prefix.len() as int));
                assert forall|i: int| 0 <= i < c.prefix.len() implies c.prefix[i] == tail[i] by {
                    assert(tail.subrange(0, c.prefix.len() as int)[i] == tail[i]);
                }
            }
        }
    }
}

/// The path at the end of the input is its last word: what stands before the blank
/// stays, the directory ends at its last slash, and the rest is to be completed.
pub proof fn law_path_at_end(before: Seq<char>, dir: Seq<char>, prefix: Seq<char>)
    requires
        before.len() > 0 ==> before.last() == ' ',
        dir.len() > 0 ==> dir.last() == '/',
        dir.len() + prefix.len() > 0,
        forall|i: int| 0 <= i < dir.len() ==> #[trigger] dir[i] != ' ',
        forall|i: int| 0 <= i < prefix.len() ==> #[trigger] prefix[i] != ' ' && prefix[i] != '/',
    ensures
        path_at_end(before + dir + prefix) == Some(CompletionView { before, dir, prefix }),
{
    let input = before + dir + prefix;
    let word = dir + prefix;
    let b = text::among(" "@);
    let s = text::among("/"@);
    reveal_strlit(" ");
    reveal_strlit("/");
    assert(" "@[0] == ' ' && "/"@[0] == '/');
    text::lemma_after_last(input, b);
    let k = text::after_last(input, b);
    if k > before.len() {
        assert(b(input[k - 1]));
        let j = k - 1 - before.len();
        assert(input[k - 1] == word[j]);
        if j < dir.len() {
            assert(word[j] == dir[j]);
        } else {
            assert(word[j] == prefix[j - dir.len()]);
        }
    }
    if k < before.len() {
        assert(input[before.len() - 1] == ' ');
        assert(b(input[before.len() - 1]));
    }
    assert(k == before.len());
    assert(input.skip(k) =~= word);
    assert(input.take(k) =~= before);
    text::lemma_after_last(word, s);
    let m = text::after_last(word, s);
    if m > dir.len() {
        assert(s(word[m - 1]));
        assert(word[m - 1] == prefix[m - 1 - dir.len()]);
    }
    if m < dir.len() {
        assert(word[dir.len() - 1] == '/');
        assert(s(word[dir.len() - 1]));
    }
    assert(word.take(m) =~= dir);
    assert(word.skip(m) =~= prefix);
}

/// The shared front of some names begins each of them, and nothing longer does.
pub proof fn law_shared_front(v: Seq<Seq<char>>, p: Seq<char>)
    requires
        v.len() > 0,
    ensures
        forall|i: int| 0 <= i < v.len() ==> shared_front(v).is_prefix_of(#[trigger] v[i]),
        (forall|i: int| 0 <= i < v.len() ==> p.is_prefix_of(#[trigger] v[i])) ==> p.is_prefix_of(
            shared_front(v),
        ),
{
    let none = Seq::<char>::empty();
    assert forall|i: int| 0 <= i < v.len() implies none.is_prefix_of(#[trigger] v[i]) by {
        assert(v[i].subrange(0, 0) =~= none);
    }
    lemma_shared_front(v, none);
    if forall|i: int| 0 <= i < v.len() ==> p.is_prefix_of(#[trigger] v[i]) {
        lemma_shared_front(v, p);
    }
}

/// What is offered are the entries whose name begins with what was typed, all of
/// them, a directory with its slash.
pub proof fn law_candidates(es: Seq<DirEntryView>, prefix: Seq<char>, i: int)
    requires
        0 <= i < es.len(),
    ensures
        prefix.is_prefix_of(es[i].name) ==> candidates(es, prefix).contains(
            if es[i].is_dir {
                es[i].name.push('/')
            } else {
                es[i].name
            },
        ),
        (forall|k: int| 0 <= k < es.len() ==> !prefix.is_prefix_of((#[trigger] es[k]).name))
            ==> candidates(es, prefix).len() == 0,
{
    broadcast use vstd::seq_lib::group_to_multiset_ensures;

    let p = |e: DirEntryView| prefix.is_prefix_of(e.name);
    let kept = es.filter(p);
    let names = file_command::entry_names(kept);
    let found = candidates(es, prefix);
    sorting::law_ordered(names);
    if prefix.is_prefix_of(es[i].name) {
        assert(p(es[i]));
        es.lemma_filter_contains(p, i);
        assert(kept.contains(es[i]));
        let k = choose|k: int| 0 <= k < kept.len() && kept[k] == es[i];
        file_command::law_entry_names(kept, k);
        assert(names.contains(names[k]));
        assert(found.to_multiset().count(names[k]) > 0);
        assert(found.contains(names[k]));
    }
    if forall|k: int| 0 <= k < es.len() ==> !prefix.is_prefix_of((#[trigger] es[k]).name) {
        if kept.len() > 0 {
            es.lemma_filter_pred(p, 0);
            assert(p(kept[0]));
            es.lemma_filter_contains_rev(p, kept[0]);
            let k = choose|k: int| 0 <= k < es.len() && es[k] == kept[0];
            assert(!prefix.is_prefix_of(es[k].name));
        }
        assert(names.len() == 0);
        assert(found.to_multiset().len() == 0);
    }
}

/// A single fitting entry is filled in whole; several are filled in as far as they
/// agree, if that is more than was typed; without one nothing is.
pub proof fn law_completed(c: CompletionView, es: Seq<DirEntryView>)
    ensures
        candidates(es, c.prefix).len() == 0 ==> completed(c, es) is None,
        candidates(es, c.prefix).len() == 1 ==> completed(c, es) == Some(
            c.before + c.dir + candidates(es, c.prefix)[0],
        ),
        candidates(es, c.prefix).len() > 1 && completed(c, es) is Some ==> completed(c, es)->0.len()
            > c.before.len() + c.dir.len() + c.prefix.len(),
{
}

} // verus!
