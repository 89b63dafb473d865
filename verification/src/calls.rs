//! What is known of a tool call from its name and its arguments.

use crate::json::{self, field};
use crate::message::{self, ToolCall};
use crate::paths::{self, file_name};
use crate::split::{self, join};
use crate::text::{self, cat2, cat3, cat4, chars_of, contains_str, empty, same, string_of};
use vstd::prelude::*;
use vstd::slice::slice_subrange;

verus! {

broadcast use {split::lemma_texts_push, split::lemma_views_push};

// ── Running several calls at once ───────────────────────────────────────────

/// The tools without side effects, which need no order among them.
pub open spec fn parallel_safe(name: Seq<char>) -> bool {
    ||| name == "read_file"@
    ||| name == "list_directory"@
    ||| name == "search_codebase"@
    ||| name == "search_symbols"@
    ||| name == "grep"@
    ||| name == "glob"@
    ||| name == "ast_skeleton"@
    ||| name == "ast_get_node"@
}

/// Whether calls of a tool may run at the same time.
pub fn is_parallel_safe(name: &str) -> (r: bool)
    ensures
        r == parallel_safe(name@),
{
    same(name, "read_file") || same(name, "list_directory") || same(name, "search_codebase")
        || same(name, "search_symbols") || same(name, "grep") || same(name, "glob") || same(
        name,
        "ast_skeleton",
    ) || same(name, "ast_get_node")
}

/// Whether the call at `i` may run together with others.
pub open spec fn safe_at(calls: Seq<message::ToolCallView>, i: int) -> bool {
    0 <= i < calls.len() && parallel_safe(calls[i].name)
}

/// Where the run of safe calls that holds `i` begins.
pub open spec fn run_start(calls: Seq<message::ToolCallView>, i: int) -> int
    decreases i,
{
    if i > 0 && safe_at(calls, i - 1) {
        run_start(calls, i - 1)
    } else {
        i
    }
}

/// The group of the call at `i`: the start of its run, if the run holds two
/// calls or more.
pub open spec fn group_of(calls: Seq<message::ToolCallView>, i: int) -> Option<usize> {
    if safe_at(calls, i) && (safe_at(calls, i - 1) || safe_at(calls, i + 1)) {
        Some(run_start(calls, i) as usize)
    } else {
        None
    }
}

/// The group of each call.
pub open spec fn groups(calls: Seq<message::ToolCallView>) -> Seq<Option<usize>> {
    Seq::new(calls.len(), |i: int| group_of(calls, i))
}

/// A run is made of safe calls, from its start on.
pub proof fn lemma_run(calls: Seq<message::ToolCallView>, i: int)
    requires
        safe_at(calls, i),
    ensures
        0 <= run_start(calls, i) <= i,
        forall|k: int| run_start(calls, i) <= k <= i ==> #[trigger] safe_at(calls, k),
        !safe_at(calls, run_start(calls, i) - 1),
    decreases i,
{
    if i > 0 && safe_at(calls, i - 1) {
        lemma_run(calls, i - 1);
    }
}

/// From `s` on to `i`, with nothing safe before `s`, the run starts at `s`.
pub proof fn lemma_run_from(calls: Seq<message::ToolCallView>, s: int, i: int)
    requires
        0 <= s <= i,
        forall|k: int| s <= k <= i ==> #[trigger] safe_at(calls, k),
        !safe_at(calls, s - 1),
    ensures
        run_start(calls, i) == s,
    decreases i,
{
    if s < i {
        assert(safe_at(calls, i - 1));
        lemma_run_from(calls, s, i - 1);
    }
}

/// Two calls have the same group exactly if both lie in one unbroken run of
/// safe calls; a call that is alone in its run has no group.
pub proof fn law_groups(calls: Seq<message::ToolCallView>, i: int, j: int)
    requires
        0 <= i < j < calls.len(),
        calls.len() <= usize::MAX,
    ensures
        (group_of(calls, i) is Some && group_of(calls, i) == group_of(calls, j)) <==> (forall|
            k: int,
        |
            i <= k <= j ==> #[trigger] safe_at(calls, k)),
        group_of(calls, i) is Some <==> safe_at(calls, i) && (safe_at(calls, i - 1) || safe_at(
            calls,
            i + 1,
        )),
{
    if forall|k: int| i <= k <= j ==> #[trigger] safe_at(calls, k) {
        assert(safe_at(calls, i) && safe_at(calls, j));
        assert(safe_at(calls, i + 1));
        assert(safe_at(calls, j - 1));
        lemma_run(calls, i);
        let s = run_start(calls, i);
        lemma_run_from(calls, s, j);
    }
    if group_of(calls, i) is Some && group_of(calls, i) == group_of(calls, j) {
        lemma_run(calls, i);
        lemma_run(calls, j);
        assert forall|k: int| i <= k <= j implies #[trigger] safe_at(calls, k) by {
            assert(run_start(calls, i) == run_start(calls, j));
        }
    }
}

/// The groups of some calls, for showing which ran together.
pub fn parallel_group_ids(calls: &Vec<ToolCall>) -> (r: Vec<Option<usize>>)
    ensures
        r@ == groups(split::views(calls@)),
{
    let ghost all = split::views(calls@);
    let mut ids: Vec<Option<usize>> = Vec::new();
    let mut i: usize = 0;
    while i < calls.len()
        invariant
            i <= calls@.len(),
            all == split::views(calls@),
            ids@ =~= groups(all).take(i as int),
            i < calls@.len() ==> !(safe_at(all, i - 1) && safe_at(all, i as int)),
        decreases calls@.len() - i,
    {
        assert(all[i as int] == calls@[i as int]@);
        if is_parallel_safe(calls[i].name.as_str()) {
            let start = i;
            while i < calls.len() && is_parallel_safe(calls[i].name.as_str())
                invariant
                    start <= i <= calls@.len(),
                    all == split::views(calls@),
                    forall|k: int| start <= k < i ==> #[trigger] safe_at(all, k),
                ensures
                    start <= i <= calls@.len(),
                    forall|k: int| start <= k < i ==> #[trigger] safe_at(all, k),
                    !safe_at(all, i as int),
                decreases calls@.len() - i,
            {
                assert(all[i as int] == calls@[i as int]@);
                i += 1;
                proof {
                    if i < calls@.len() {
                        assert(all[i as int] == calls@[i as int]@);
                    }
                }
            }
            proof {
                assert(safe_at(all, start as int));
            }
            let id = if i - start > 1 {
                Some(start)
            } else {
                None
            };
            let mut k: usize = start;
            while k < i
                invariant
                    start <= k <= i <= calls@.len(),
                    all == split::views(calls@),
                    all.len() <= usize::MAX,
                    id == (if i - start > 1 {
                        Some(start)
                    } else {
                        None
                    }),
                    forall|m: int| start <= m < i ==> #[trigger] safe_at(all, m),
                    !safe_at(all, i as int),
                    !safe_at(all, start - 1),
                    ids@ =~= groups(all).take(k as int),
                decreases i - k,
            {
                proof {
                    assert(safe_at(all, k as int));
                    lemma_run_from(all, start as int, k as int);
                    if i - start > 1 {
                        if k == start {
                            assert(safe_at(all, k + 1));
                        } else {
                            assert(safe_at(all, k - 1));
                        }
                    }
                    assert(group_of(all, k as int) == id);
                }
                ids.push(id);
                k += 1;
            }
        } else {
            assert(group_of(all, i as int) is None);
            ids.push(None);
            i += 1;
        }
    }
    ids
}

// ── Short descriptions ──────────────────────────────────────────────────────

/// Which quotes a command line is inside of.
pub enum Quote {
    Outside,
    Single,
    Double,
}

/// How far the words of a command line are read: those that are complete, the
/// characters of the one begun, and the quotes it is inside of.
pub struct WordScan {
    pub words: Seq<Seq<char>>,
    pub begun: Seq<char>,
    pub quote: Quote,
}

/// Reading one more character.
pub open spec fn scan_char(st: WordScan, c: char) -> WordScan {
    match st.quote {
        Quote::Single => WordScan {
            begun: st.begun.push(c),
            quote: if c == '\'' {
                Quote::Outside
            } else {
                Quote::Single
            },
            ..st
        },
        Quote::Double => WordScan {
            begun: st.begun.push(c),
            quote: if c == '"' {
                Quote::Outside
            } else {
                Quote::Double
            },
            ..st
        },
        Quote::Outside => if c == '\'' {
            WordScan { begun: st.begun.push(c), quote: Quote::Single, ..st }
        } else if c == '"' {
            WordScan { begun: st.begun.push(c), quote: Quote::Double, ..st }
        } else if c == ' ' || c == '\t' {
            WordScan {
                words: if st.begun.len() > 0 {
                    st.words.push(st.begun)
                } else {
                    st.words
                },
                begun: Seq::empty(),
                quote: Quote::Outside,
            }
        } else {
            WordScan { begun: st.begun.push(c), ..st }
        },
    }
}

/// Reading a command line.
pub open spec fn scan_words(s: Seq<char>) -> WordScan
    decreases s.len(),
{
    if s.len() == 0 {
        WordScan { words: Seq::empty(), begun: Seq::empty(), quote: Quote::Outside }
    } else {
        scan_char(scan_words(s.drop_last()), s.last())
    }
}

/// The words of a command line: a quoted string is one word.
pub open spec fn shell_words(s: Seq<char>) -> Seq<Seq<char>> {
    let st = scan_words(s);
    if st.begun.len() > 0 {
        st.words.push(st.begun)
    } else {
        st.words
    }
}

/// The first `n` words of a command line.
pub open spec fn first_words(s: Seq<char>, n: nat) -> Seq<char> {
    let ws = shell_words(s);
    split::joined(
        if ws.len() > n {
            ws.take(n as int)
        } else {
            ws
        },
        " "@,
    )
}

proof fn lemma_words_grow(s: Seq<char>, i: int)
    requires
        0 <= i <= s.len(),
    ensures
        scan_words(s.take(i)).words.len() <= scan_words(s).words.len(),
        scan_words(s).words.take(scan_words(s.take(i)).words.len() as int) == scan_words(
            s.take(i),
        ).words,
    decreases s.len(),
{
    if i < s.len() {
        lemma_words_grow(s.drop_last(), i);
        assert(s.drop_last().take(i) =~= s.take(i));
        let a = scan_words(s.take(i)).words;
        let b = scan_words(s.drop_last()).words;
        let c = scan_words(s).words;
        assert(c.take(b.len() as int) =~= b);
        assert(c.take(a.len() as int) =~= b.take(a.len() as int));
    } else {
        assert(s.take(i) =~= s);
        let c = scan_words(s).words;
        assert(c.take(c.len() as int) =~= c);
    }
}

/// Whether `w` is one word that was begun and leaves quotes as `q` says.
pub open spec fn is_one_word(w: Seq<char>, q: Quote) -> bool {
    &&& w.len() > 0
    &&& scan_words(w).words.len() == 0
    &&& scan_words(w).begun == w
    &&& scan_words(w).quote == q
}

proof fn lemma_scanned_words(s: Seq<char>)
    ensures
        forall|k: int|
            0 <= k < scan_words(s).words.len() ==> is_one_word(
                #[trigger] scan_words(s).words[k],
                Quote::Outside,
            ),
        scan_words(s).begun.len() > 0 ==> is_one_word(scan_words(s).begun, scan_words(s).quote),
        scan_words(s).begun.len() == 0 ==> scan_words(s).quote == Quote::Outside,
    decreases s.len(),
{
    if s.len() > 0 {
        let c = s.last();
        let st = scan_words(s.drop_last());
        lemma_scanned_words(s.drop_last());
        let b = st.begun.push(c);
        assert(b.drop_last() =~= st.begun);
        if st.begun.len() == 0 {
            assert(st.begun =~= Seq::<char>::empty());
        }
        assert forall|k: int| 0 <= k < scan_words(s).words.len() implies is_one_word(
            #[trigger] scan_words(s).words[k],
            Quote::Outside,
        ) by {
            if k < st.words.len() {
                assert(scan_words(s).words[k] == st.words[k]);
            }
        }
    }
}

/// Reading goes on anew behind a place where no word is begun.
proof fn lemma_scan_on(a: Seq<char>, w: Seq<char>)
    requires
        scan_words(a).begun.len() == 0,
        scan_words(a).quote == Quote::Outside,
    ensures
        scan_words(a + w).words == scan_words(a).words + scan_words(w).words,
        scan_words(a + w).begun == scan_words(w).begun,
        scan_words(a + w).quote == scan_words(w).quote,
    decreases w.len(),
{
    if w.len() == 0 {
        assert(a + w =~= a);
        assert(scan_words(a).begun =~= Seq::<char>::empty());
        assert(scan_words(a).words + scan_words(w).words =~= scan_words(a).words);
    } else {
        lemma_scan_on(a, w.drop_last());
        assert((a + w).drop_last() =~= a + w.drop_last());
        assert(scan_words(a + w).words =~= scan_words(a).words + scan_words(w).words);
    }
}

/// Whether some texts are the words of a command line: each is one word, and
/// none but the last leaves a quote open.
pub open spec fn are_words(ws: Seq<Seq<char>>) -> bool {
    &&& forall|k: int|
        0 <= k < ws.len() - 1 ==> is_one_word(#[trigger] ws[k], Quote::Outside)
    &&& ws.len() > 0 ==> is_one_word(ws.last(), scan_words(ws.last()).quote)
}

proof fn lemma_words_read_back(ws: Seq<Seq<char>>)
    requires
        are_words(ws),
        ws.len() > 0,
    ensures
        scan_words(split::joined(ws, " "@)).words == ws.drop_last(),
        scan_words(split::joined(ws, " "@)).begun == ws.last(),
        scan_words(split::joined(ws, " "@)).quote == scan_words(ws.last()).quote,
    decreases ws.len(),
{
    let j = split::joined(ws, " "@);
    if ws.len() == 1 {
        assert(scan_words(j).words =~= ws.drop_last());
    } else {
        reveal_strlit(" ");
        let init = ws.drop_last();
        assert(init.last() == ws[ws.len() - 2]);
        assert forall|k: int| 0 <= k < init.len() - 1 implies is_one_word(
            #[trigger] init[k],
            Quote::Outside,
        ) by {
            assert(init[k] == ws[k]);
        }
        lemma_words_read_back(init);
        let a = split::joined(init, " "@);
        let b = a + " "@;
        assert(b.drop_last() =~= a);
        assert(b.last() == ' ');
        assert(scan_words(b) == scan_char(scan_words(a), ' '));
        assert(scan_words(b).words =~= init);
        lemma_scan_on(b, ws.last());
        assert(j == b + ws.last());
        assert(scan_words(j).words =~= init);
    }
}

proof fn lemma_shell_words(s: Seq<char>)
    ensures
        are_words(shell_words(s)),
{
    lemma_scanned_words(s);
    let st = scan_words(s);
    let ws = shell_words(s);
    assert forall|k: int| 0 <= k < ws.len() - 1 implies is_one_word(
        #[trigger] ws[k],
        Quote::Outside,
    ) by {
        assert(ws[k] == st.words[k]);
    }
    if ws.len() > 0 && st.begun.len() == 0 {
        assert(ws.last() == st.words[ws.len() - 1]);
    }
}

proof fn lemma_joined_take(ws: Seq<Seq<char>>, n: int)
    requires
        0 <= n <= ws.len(),
    ensures
        split::joined(ws.take(n), " "@).len() <= split::joined(ws, " "@).len(),
    decreases ws.len(),
{
    if n < ws.len() {
        lemma_joined_take(ws.drop_last(), n);
        assert(ws.drop_last().take(n) =~= ws.take(n));
    } else {
        assert(ws.take(n) =~= ws);
    }
}

proof fn lemma_words_fit(s: Seq<char>)
    ensures
        split::joined(scan_words(s).words, " "@).len() + (if scan_words(s).words.len() > 0 {
            1nat
        } else {
            0
        }) + scan_words(s).begun.len() <= s.len(),
    decreases s.len(),
{
    if s.len() > 0 {
        reveal_strlit(" ");
        let st = scan_words(s.drop_last());
        lemma_words_fit(s.drop_last());
        assert(st.words.push(st.begun).drop_last() =~= st.words);
    }
}

/// Cutting a command line to its first words never lengthens it, and cutting it
/// again changes nothing.
pub proof fn law_truncation_is_stable(s: Seq<char>, n: nat)
    ensures
        first_words(s, n).len() <= s.len(),
        first_words(first_words(s, n), n) == first_words(s, n),
{
    reveal_strlit(" ");
    let ws = shell_words(s);
    let ks = if ws.len() > n {
        ws.take(n as int)
    } else {
        ws
    };
    let r = first_words(s, n);
    lemma_words_fit(s);
    let st = scan_words(s);
    assert(st.words.push(st.begun).drop_last() =~= st.words);
    assert(split::joined(ws, " "@).len() <= s.len());
    assert(ws.take(ws.len() as int) =~= ws);
    lemma_joined_take(ws, ks.len() as int);
    lemma_shell_words(s);
    if ks.len() == 0 {
        assert(r =~= Seq::<char>::empty());
        assert(shell_words(r) =~= ks);
    } else {
        assert forall|k: int| 0 <= k < ks.len() - 1 implies is_one_word(
            #[trigger] ks[k],
            Quote::Outside,
        ) by {
            assert(ks[k] == ws[k]);
        }
        assert(ks.last() == ws[ks.len() - 1]);
        lemma_words_read_back(ks);
        assert(shell_words(r) =~= ks);
    }
}

/// A word of a command line is never cut inside a quote: none but the last of
/// the line leaves a quote open.
pub proof fn law_words_are_whole(s: Seq<char>, k: int)
    requires
        0 <= k < shell_words(s).len() - 1,
    ensures
        scan_words(shell_words(s)[k]).quote == Quote::Outside,
        shell_words(shell_words(s)[k]) == seq![shell_words(s)[k]],
{
    lemma_shell_words(s);
    let w = shell_words(s)[k];
    assert(is_one_word(w, Quote::Outside));
    assert(shell_words(w) =~= seq![w]);
}

/// The first `n` words of a command line, with quoted strings kept whole.
pub fn shell_aware_truncate(cmd: &str, n: usize) -> (r: String)
    ensures
        r@ == first_words(cmd@, n as nat),
{
    let v = chars_of(cmd);
    let ghost s = v@;
    let mut words: Vec<String> = Vec::new();
    let mut start: usize = 0;
    let mut i: usize = 0;
    let mut single = false;
    let mut double = false;
    proof {
        assert(s.take(0) =~= Seq::<char>::empty());
        assert(s.subrange(0, 0) =~= Seq::<char>::empty());
        assert(split::texts(words@) =~= Seq::<Seq<char>>::empty());
    }
    while i < v.len() && words.len() < n
        invariant
            s == v@,
            start <= i <= v@.len(),
            !(single && double),
            split::texts(words@) == scan_words(s.take(i as int)).words,
            s.subrange(start as int, i as int) == scan_words(s.take(i as int)).begun,
            scan_words(s.take(i as int)).quote == (if single {
                Quote::Single
            } else if double {
                Quote::Double
            } else {
                Quote::Outside
            }),
        decreases v@.len() - i,
    {
        let c = v[i];
        proof {
            assert(s.take(i + 1).drop_last() =~= s.take(i as int));
            assert(s.take(i + 1).last() == c);
            assert(s.subrange(start as int, i + 1) =~= s.subrange(start as int, i as int).push(c));
        }
        if single {
            if c == '\'' {
                single = false;
            }
        } else if double {
            if c == '"' {
                double = false;
            }
        } else if c == '\'' {
            single = true;
        } else if c == '"' {
            double = true;
        } else if c == ' ' || c == '\t' {
            if start < i {
                words.push(string_of(slice_subrange(v.as_slice(), start, i)));
            }
            start = i + 1;
            assert(s.subrange(start as int, i + 1) =~= Seq::<char>::empty());
        }
        i += 1;
    }
    assert(split::texts(words@).len() == words@.len());
    if words.len() >= n {
        proof {
            lemma_words_grow(s, i as int);
            let ws = shell_words(s);
            let all = scan_words(s).words;
            let got = split::texts(words@);
            assert(all.take(got.len() as int) =~= got);
            assert forall|k: int| 0 <= k < got.len() implies ws[k] == #[trigger] got[k] by {
                assert(all.take(got.len() as int)[k] == all[k]);
            }
            assert(ws.take(n as int) =~= got.take(n as int));
            if ws.len() <= n {
                assert(ws =~= got.take(n as int));
            }
        }
        return first_of(&words, n);
    }
    assert(s.take(i as int) =~= s);
    if start < v.len() {
        words.push(string_of(slice_subrange(v.as_slice(), start, v.len())));
    }
    assert(split::texts(words@).len() == words@.len());
    join(&words, " ")
}

fn first_of(words: &Vec<String>, n: usize) -> (r: String)
    requires
        n <= words@.len(),
    ensures
        r@ == split::joined(split::texts(words@).take(n as int), " "@),
{
    let mut out: Vec<String> = Vec::new();
    let ghost all = split::texts(words@);
    let mut i: usize = 0;
    while i < n
        invariant
            i <= n <= words@.len(),
            all == split::texts(words@),
            split::texts(out@) =~= all.take(i as int),
        decreases n - i,
    {
        assert(all[i as int] == words@[i as int]@);
        out.push(words[i].as_str().to_string());
        i += 1;
    }
    join(&out, " ")
}

/// The text of an argument of a call; "?" if it has none.
pub open spec fn shown_arg(input: Seq<char>, key: Seq<char>) -> Seq<char> {
    match json::json_field(input, key) {
        Some(s) => s,
        None => "?"@,
    }
}

/// The final component of a path; the path itself if it has none.
pub open spec fn base_name(path: Seq<char>) -> Seq<char> {
    match paths::name_of(path) {
        Some(n) => n,
        None => path,
    }
}

/// A call in a few words, for the task list.
pub open spec fn short_desc(name: Seq<char>, input: Seq<char>) -> Seq<char> {
    if name == "read_file"@ || name == "write_file"@ || name == "edit_file"@ || name
        == "multi_edit"@ || name == "notebook_edit"@ {
        name + ": "@ + base_name(shown_arg(input, "path"@))
    } else if name == "run_command"@ {
        "run: "@ + first_words(shown_arg(input, "command"@), 3)
    } else if name == "search_codebase"@ {
        "search: "@ + shown_arg(input, "query"@)
    } else if name == "grep"@ {
        "grep: "@ + shown_arg(input, "pattern"@)
    } else if name == "glob"@ {
        "glob: "@ + shown_arg(input, "pattern"@)
    } else if name == "ast_skeleton"@ {
        "ast_skeleton: "@ + base_name(shown_arg(input, "file"@))
    } else if name == "ast_get_node"@ {
        "ast_get_node: "@ + shown_arg(input, "node_id"@)
    } else if name == "ast_mutate"@ {
        "ast_mutate: "@ + shown_arg(input, "operation"@) + " @ "@ + shown_arg(input, "node_id"@)
    } else {
        name
    }
}

fn arg(input: &str, key: &str) -> (r: String)
    ensures
        r@ == shown_arg(input@, key@),
{
    match field(input, key) {
        Some(s) => s,
        None => "?".to_string(),
    }
}

fn base(path: &str) -> (r: String)
    ensures
        r@ == base_name(path@),
{
    match file_name(path) {
        Some(n) => n,
        None => path.to_string(),
    }
}

/// A call in a few words, for the task list.
pub fn tool_short_desc(name: &str, input: &str) -> (r: String)
    ensures
        r@ == short_desc(name@, input@),
{
    if same(name, "read_file") || same(name, "write_file") || same(name, "edit_file") || same(
        name,
        "multi_edit",
    ) || same(name, "notebook_edit") {
        let p = arg(input, "path");
        let b = base(p.as_str());
        cat3(name, ": ", b.as_str())
    } else if same(name, "run_command") {
        let c = arg(input, "command");
        let w = shell_aware_truncate(c.as_str(), 3);
        cat2("run: ", w.as_str())
    } else if same(name, "search_codebase") {
        let q = arg(input, "query");
        cat2("search: ", q.as_str())
    } else if same(name, "grep") {
        let p = arg(input, "pattern");
        cat2("grep: ", p.as_str())
    } else if same(name, "glob") {
        let p = arg(input, "pattern");
        cat2("glob: ", p.as_str())
    } else if same(name, "ast_skeleton") {
        let f = arg(input, "file");
        let b = base(f.as_str());
        cat2("ast_skeleton: ", b.as_str())
    } else if same(name, "ast_get_node") {
        let id = arg(input, "node_id");
        cat2("ast_get_node: ", id.as_str())
    } else if same(name, "ast_mutate") {
        let op = arg(input, "operation");
        let id = arg(input, "node_id");
        cat4("ast_mutate: ", op.as_str(), " @ ", id.as_str())
    } else {
        name.to_string()
    }
}

// ── Arguments ───────────────────────────────────────────────────────────────

/// The string at `key` in a call's arguments; empty if it has none.
pub open spec fn arg_or_empty(input: Seq<char>, key: Seq<char>) -> Seq<char> {
    match json::json_field(input, key) {
        Some(s) => s,
        None => Seq::empty(),
    }
}

/// The command of a call.
pub fn extract_cmd_str(input: &str) -> (r: String)
    ensures
        r@ == arg_or_empty(input@, "command"@),
{
    match field(input, "command") {
        Some(s) => s,
        None => empty(),
    }
}

/// The path of a call.
pub fn extract_path_field(input: &str) -> (r: Option<String>)
    ensures
        split::opt_text(r) == json::json_field(input@, "path"@),
{
    field(input, "path")
}

/// The summary of a call.
pub fn extract_summary_field(input: &str) -> (r: String)
    ensures
        r@ == arg_or_empty(input@, "summary"@),
{
    match field(input, "summary") {
        Some(s) => s,
        None => empty(),
    }
}

/// The file that a call works on: its path where it is given and not empty.
/// One that starts at the root stands as it is; the others are to be resolved
/// against the work directory.
pub open spec fn edited_path(input: Seq<char>) -> Option<(Seq<char>, bool)> {
    match json::json_field(input, "path"@) {
        Some(p) => if p.len() == 0 {
            None
        } else {
            Some((p, "/"@.is_prefix_of(p)))
        },
        None => None,
    }
}

/// The path of a file to edit.
pub struct EditedPath {
    pub path: String,
    /// Whether the path starts at the root.
    pub absolute: bool,
}

/// The file that a call works on.
pub fn extract_file_path(input: &str) -> (r: Option<EditedPath>)
    ensures
        match r {
            Some(p) => edited_path(input@) == Some((p.path@, p.absolute)),
            None => edited_path(input@) is None,
        },
{
    match field(input, "path") {
        Some(p) => if p.as_str().is_empty() {
            None
        } else {
            let absolute = text::starts_str(p.as_str(), "/");
            Some(EditedPath { path: p, absolute })
        },
        None => None,
    }
}

/// Whether a tool changes a file.
pub open spec fn edits_file(name: Seq<char>) -> bool {
    ||| name == "edit_file"@
    ||| name == "write_file"@
    ||| name == "notebook_edit"@
    ||| name == "multi_edit"@
}

/// Whether a tool changes a file.
pub fn is_file_edit(name: &str) -> (r: bool)
    ensures
        r == edits_file(name@),
{
    same(name, "edit_file") || same(name, "write_file") || same(name, "notebook_edit") || same(
        name,
        "multi_edit",
    )
}

// ── Hints ───────────────────────────────────────────────────────────────────

/// What a failed call's output suggests; empty if nothing.
pub open spec fn hint_for(name: Seq<char>, output: Seq<char>) -> Seq<char> {
    let out = text::lowercase(output);
    if name == "run_command"@ {
        if text::occurs(out, "command not found"@) {
            "The command wasn't found. Check the spelling or install it first."@
        } else if text::occurs(out, "permission denied"@) {
            "Permission denied. Try running with sudo or check file permissions."@
        } else if text::occurs(out, "no such file"@) {
            "File or directory not found. Check the path and try again."@
        } else if text::occurs(out, "not permitted"@) {
            "This command needs approval. Use /allow <command> to permit it."@
        } else {
            Seq::empty()
        }
    } else if name == "read_file"@ {
        if text::occurs(out, "no such file"@) {
            "File not found. Check the path — it may need to be created first."@
        } else if text::occurs(out, "permission denied"@) {
            "Can't read this file due to permissions."@
        } else {
            Seq::empty()
        }
    } else if name == "write_file"@ || name == "edit_file"@ {
        if text::occurs(out, "permission denied"@) {
            "Can't write to this location. Check directory permissions."@
        } else if text::occurs(out, "no such file"@) && name == "edit_file"@ {
            "File doesn't exist yet. Use write_file to create it first."@
        } else if text::occurs(out, "old_string not found"@) {
            "The text to replace wasn't found. The file may have changed — re-read it and try again."@
        } else {
            Seq::empty()
        }
    } else if name == "multi_edit"@ {
        if text::occurs(out, "old_string not found"@) {
            "One of the edits' old_string wasn't found (possibly after earlier edits in the batch already ran). Re-read the file and adjust the edits."@
        } else if text::occurs(out, "edits"@) && (text::occurs(out, "empty"@) || text::occurs(
            out,
            "required"@,
        )) {
            "multi_edit needs a non-empty 'edits' array of {old_string, new_string} pairs."@
        } else {
            Seq::empty()
        }
    } else if name == "search_codebase"@ {
        if text::occurs(out, "index not built"@) {
            "No search index yet. Run /index to build one for this project."@
        } else {
            Seq::empty()
        }
    } else {
        Seq::empty()
    }
}

/// A short hint for a common failure of a tool, so that the user need not wait
/// for the model to react.
pub fn error_hint(name: &str, output: &str) -> (r: String)
    ensures
        r@ == hint_for(name@, output@),
{
    let low = output.to_lowercase();
    let out = low.as_str();
    if same(name, "run_command") {
        if contains_str(out, "command not found") {
            "The command wasn't found. Check the spelling or install it first.".to_string()
        } else if contains_str(out, "permission denied") {
            "Permission denied. Try running with sudo or check file permissions.".to_string()
        } else if contains_str(out, "no such file") {
            "File or directory not found. Check the path and try again.".to_string()
        } else if contains_str(out, "not permitted") {
            "This command needs approval. Use /allow <command> to permit it.".to_string()
        } else {
            empty()
        }
    } else if same(name, "read_file") {
        if contains_str(out, "no such file") {
            "File not found. Check the path — it may need to be created first.".to_string()
        } else if contains_str(out, "permission denied") {
            "Can't read this file due to permissions.".to_string()
        } else {
            empty()
        }
    } else if same(name, "write_file") || same(name, "edit_file") {
        if contains_str(out, "permission denied") {
            "Can't write to this location. Check directory permissions.".to_string()
        } else if contains_str(out, "no such file") && same(name, "edit_file") {
            "File doesn't exist yet. Use write_file to create it first.".to_string()
        } else if contains_str(out, "old_string not found") {
            "The text to replace wasn't found. The file may have changed — re-read it and try again.".to_string()
        } else {
            empty()
        }
    } else if same(name, "multi_edit") {
        if contains_str(out, "old_string not found") {
            "One of the edits' old_string wasn't found (possibly after earlier edits in the batch already ran). Re-read the file and adjust the edits.".to_string()
        } else if contains_str(out, "edits") && (contains_str(out, "empty") || contains_str(
            out,
            "required",
        )) {
            "multi_edit needs a non-empty 'edits' array of {old_string, new_string} pairs.".to_string()
        } else {
            empty()
        }
    } else if same(name, "search_codebase") {
        if contains_str(out, "index not built") {
            "No search index yet. Run /index to build one for this project.".to_string()
        } else {
            empty()
        }
    } else {
        empty()
    }
}

// ── Laws of calls ───────────────────────────────────────────────────────────

/// A word outside of quotes ends at a blank or a tab, and what follows is cut by
/// itself.
pub proof fn law_words_of_two_parts(w: Seq<char>, c: char, b: Seq<char>)
    requires
        is_one_word(w, Quote::Outside),
        c == ' ' || c == '\t',
    ensures
        shell_words(w.push(c) + b) == seq![w] + shell_words(b),
        shell_words(w) == seq![w],
{
    lemma_scan_after(w, c, b);
    let st = scan_words(b);
    assert(shell_words(w) =~= seq![w]);
    assert(seq![w] + st.words.push(st.begun) =~= (seq![w] + st.words).push(st.begun));
}

proof fn lemma_scan_after(w: Seq<char>, c: char, b: Seq<char>)
    requires
        is_one_word(w, Quote::Outside),
        c == ' ' || c == '\t',
    ensures
        scan_words(w.push(c) + b) == (WordScan {
            words: seq![w] + scan_words(b).words,
            ..scan_words(b)
        }),
    decreases b.len(),
{
    let s = w.push(c) + b;
    if b.len() == 0 {
        assert(s =~= w.push(c));
        assert(s.drop_last() =~= w);
        assert(scan_words(s).words =~= seq![w]);
        assert(seq![w] + scan_words(b).words =~= seq![w]);
    } else {
        lemma_scan_after(w, c, b.drop_last());
        assert(s.drop_last() =~= w.push(c) + b.drop_last());
        let st = scan_words(b.drop_last());
        assert(seq![w] + st.words.push(st.begun) =~= (seq![w] + st.words).push(st.begun));
        assert(scan_words(s).words =~= seq![w] + scan_words(b).words);
    }
}

/// A text without blanks, tabs and quotes is one word, and so is a text between
/// two quotes of a kind that it does not hold itself, with the quotes.
pub proof fn law_plain_and_quoted_words(w: Seq<char>, q: char, inner: Seq<char>)
    requires
        w.len() > 0,
        forall|i: int|
            0 <= i < w.len() ==> #[trigger] w[i] != ' ' && w[i] != '\t' && w[i] != '"' && w[i]
                != '\'',
        q == '"' || q == '\'',
        forall|i: int| 0 <= i < inner.len() ==> #[trigger] inner[i] != q,
    ensures
        is_one_word(w, Quote::Outside),
        is_one_word(seq![q] + inner + seq![q], Quote::Outside),
        shell_words(w) == seq![w],
        shell_words(seq![q] + inner + seq![q]) == seq![seq![q] + inner + seq![q]],
{
    lemma_plain(w);
    assert(shell_words(w) =~= seq![w]);
    lemma_open_quote(q, inner);
    let s = seq![q] + inner + seq![q];
    assert(s.drop_last() =~= seq![q] + inner);
    assert(s.last() == q);
    assert(scan_words(s).begun =~= s);
    assert(shell_words(s) =~= seq![s]);
}

proof fn lemma_plain(w: Seq<char>)
    requires
        forall|i: int|
            0 <= i < w.len() ==> #[trigger] w[i] != ' ' && w[i] != '\t' && w[i] != '"' && w[i]
                != '\'',
    ensures
        scan_words(w).words.len() == 0,
        scan_words(w).begun == w,
        scan_words(w).quote == Quote::Outside,
    decreases w.len(),
{
    if w.len() > 0 {
        let init = w.drop_last();
        assert forall|i: int| 0 <= i < init.len() implies #[trigger] init[i] != ' ' && init[i]
            != '\t' && init[i] != '"' && init[i] != '\'' by {
            assert(init[i] == w[i]);
        }
        lemma_plain(init);
        assert(w[w.len() - 1] == w.last());
        assert(scan_words(w).begun =~= w);
    }
}

proof fn lemma_open_quote(q: char, inner: Seq<char>)
    requires
        q == '"' || q == '\'',
        forall|i: int| 0 <= i < inner.len() ==> #[trigger] inner[i] != q,
    ensures
        ({
            let st = scan_words(seq![q] + inner);
            &&& st.words.len() == 0
            &&& st.begun == seq![q] + inner
            &&& st.quote == (if q == '"' {
                Quote::Double
            } else {
                Quote::Single
            })
        }),
    decreases inner.len(),
{
    let s = seq![q] + inner;
    if inner.len() == 0 {
        assert(s =~= seq![q]);
        assert(s.drop_last() =~= Seq::<char>::empty());
        assert(scan_words(s.drop_last()).begun.len() == 0);
        assert(scan_words(s).begun =~= s);
    } else {
        let init = inner.drop_last();
        assert forall|i: int| 0 <= i < init.len() implies #[trigger] init[i] != q by {
            assert(init[i] == inner[i]);
        }
        lemma_open_quote(q, init);
        assert(s.drop_last() =~= seq![q] + init);
        assert(inner[inner.len() - 1] == inner.last());
        assert(scan_words(s).begun =~= s);
    }
}

/// A command line is cut to its first words: with two words or more in front, the
/// first words of the whole are the word and the first of what follows.
pub proof fn law_first_words(w: Seq<char>, b: Seq<char>, n: nat)
    requires
        is_one_word(w, Quote::Outside),
    ensures
        first_words(w + " "@ + b, 1) == w,
        shell_words(b).len() > 0 && n > 0 ==> first_words(w + " "@ + b, n + 1) == w + " "@
            + first_words(b, n),
        first_words(b, 0).len() == 0,
{
    reveal_strlit(" ");
    assert(w + " "@ + b =~= w.push(' ') + b);
    law_words_of_two_parts(w, ' ', b);
    let ws = shell_words(b);
    let all = seq![w] + ws;
    let none = Seq::<Seq<char>>::empty();
    split::law_joined(none, none, w, " "@);
    if all.len() > 1 {
        assert(all.take(1) =~= seq![w]);
    } else {
        assert(all =~= seq![w]);
    }
    if ws.len() > 0 && n > 0 {
        let front = if ws.len() > n {
            ws.take(n as int)
        } else {
            ws
        };
        if ws.len() > n {
            assert(all.take(n as int + 1) =~= seq![w] + front);
        }
        split::law_joined(seq![w], front, w, " "@);
    }
    assert(ws.take(0) =~= none);
    assert(ws.len() == 0 ==> ws =~= none);
}

/// A call on a file is described by its tool and the file's name, without the
/// directories in front of it.
pub proof fn law_file_calls_are_named(
    name: Seq<char>,
    input: Seq<char>,
    dir: Seq<char>,
    file: Seq<char>,
)
    requires
        name == "read_file"@ || name == "write_file"@ || name == "edit_file"@ || name
            == "multi_edit"@ || name == "notebook_edit"@,
        json::json_field(input, "path"@) == Some(dir + "/"@ + file),
        file.len() > 0,
        forall|i: int| 0 <= i < file.len() ==> #[trigger] file[i] != '/',
        file != "."@,
        file != ".."@,
    ensures
        short_desc(name, input) == name + ": "@ + file,
{
    paths::law_name_in_directory(dir, file);
}

/// A shell call is described by at most the first three words of its command.
pub proof fn law_shell_calls_are_cut(input: Seq<char>, cmd: Seq<char>)
    requires
        json::json_field(input, "command"@) == Some(cmd),
    ensures
        short_desc("run_command"@, input) == "run: "@ + first_words(cmd, 3),
        arg_or_empty(input, "command"@) == cmd,
{
    reveal_strlit("run_command");
    reveal_strlit("read_file");
    reveal_strlit("write_file");
    reveal_strlit("edit_file");
    reveal_strlit("multi_edit");
    reveal_strlit("notebook_edit");
    assert("run_command"@.len() == 11 && "write_file"@.len() == 10 && "read_file"@.len() == 9);
    assert("run_command"@[0] == 'r' && "notebook_edit"@[0] == 'n');
}

/// The path of an edit is the one of the call, unless there is none or it is
/// empty; it is absolute exactly if it begins with a slash.
pub proof fn law_edited_path(input: Seq<char>)
    ensures
        json::json_field(input, "path"@) is None ==> edited_path(input) is None,
        json::json_field(input, "path"@) matches Some(p) ==> {
            &&& edited_path(input) is Some <==> p.len() > 0
            &&& p.len() > 0 ==> (edited_path(input)->0).0 == p
            &&& p.len() > 0 ==> ((edited_path(input)->0).1 <==> p[0] == '/')
        },
{
    reveal_strlit("/");
    if let Some(p) = json::json_field(input, "path"@) {
        if p.len() > 0 {
            if "/"@.is_prefix_of(p) {
                assert(p.subrange(0, 1) =~= "/"@);
                assert(p.subrange(0, 1)[0] == '/');
            }
            if p[0] == '/' {
                assert(p.subrange(0, 1) =~= "/"@);
            }
        }
    }
}

/// Each call has its entry among the groups, and the number of a group is the place
/// of its first call: the call there is safe, and the one before it is not.
pub proof fn law_group_numbers(calls: Seq<message::ToolCallView>, i: int)
    requires
        0 <= i < calls.len(),
        calls.len() <= usize::MAX,
        group_of(calls, i) is Some,
    ensures
        groups(calls).len() == calls.len(),
        groups(calls)[i] == group_of(calls, i),
        ({
            let g = group_of(calls, i)->0 as int;
            &&& 0 <= g <= i
            &&& g == 0 || !safe_at(calls, g - 1)
            &&& forall|k: int| g <= k <= i ==> #[trigger] safe_at(calls, k)
        }),
{
    lemma_group_start(calls, i);
}

proof fn lemma_group_start(calls: Seq<message::ToolCallView>, i: int)
    requires
        0 <= i < calls.len(),
        safe_at(calls, i),
    ensures
        0 <= run_start(calls, i) <= i,
        run_start(calls, i) == 0 || !safe_at(calls, run_start(calls, i) - 1),
        forall|k: int| run_start(calls, i) <= k <= i ==> #[trigger] safe_at(calls, k),
    decreases i,
{
    if i > 0 && safe_at(calls, i - 1) {
        lemma_group_start(calls, i - 1);
    }
}

/// Only tools that read may run beside each other.
pub proof fn law_writing_tools_run_alone(name: Seq<char>)
    requires
        name == "write_file"@ || name == "edit_file"@ || name == "multi_edit"@ || name
            == "notebook_edit"@ || name == "run_command"@,
    ensures
        !parallel_safe(name),
        name != "run_command"@ ==> edits_file(name),
        name == "run_command"@ ==> !edits_file(name),
        parallel_safe("read_file"@),
        parallel_safe("list_directory"@),
        parallel_safe("search_codebase"@),
        parallel_safe("search_symbols"@),
        parallel_safe("grep"@),
        parallel_safe("glob"@),
        !edits_file("read_file"@),
{
    lemma_lengths();
}

proof fn lemma_lengths()
    ensures
        "write_file"@.len() == 10 && "write_file"@[0] == 'w',
        "edit_file"@.len() == 9 && "edit_file"@[0] == 'e',
        "multi_edit"@.len() == 10 && "multi_edit"@[0] == 'm',
        "notebook_edit"@.len() == 13,
        "run_command"@.len() == 11,
        "read_file"@.len() == 9 && "read_file"@[0] == 'r',
        "list_directory"@.len() == 14,
        "search_codebase"@.len() == 15,
        "search_symbols"@.len() == 14,
        "grep"@.len() == 4,
        "glob"@.len() == 4,
        "ast_skeleton"@.len() == 12,
        "ast_get_node"@.len() == 12,
{
    reveal_strlit("write_file");
    reveal_strlit("edit_file");
    reveal_strlit("multi_edit");
    reveal_strlit("notebook_edit");
    reveal_strlit("run_command");
    reveal_strlit("read_file");
    reveal_strlit("list_directory");
    reveal_strlit("search_codebase");
    reveal_strlit("search_symbols");
    reveal_strlit("grep");
    reveal_strlit("glob");
    reveal_strlit("ast_skeleton");
    reveal_strlit("ast_get_node");
}

/// What a shell call failed for decides its hint, in this order: a command that is
/// not found, missing permissions, a missing file, a command that needs approval.
/// Where none of them is told there is no hint.
pub proof fn law_shell_hints(output: Seq<char>)
    ensures
        ({
            let h = hint_for("run_command"@, output);
            let told = |x: Seq<char>| text::occurs(text::lowercase(output), x);
            &&& told("command not found"@) ==> h
                == "The command wasn't found. Check the spelling or install it first."@
            &&& !told("command not found"@) && told("permission denied"@) ==> h
                == "Permission denied. Try running with sudo or check file permissions."@
            &&& !told("command not found"@) && !told("permission denied"@) && told("no such file"@)
                ==> h == "File or directory not found. Check the path and try again."@
            &&& !told("command not found"@) && !told("permission denied"@) && !told("no such file"@)
                && told("not permitted"@) ==> h
                == "This command needs approval. Use /allow <command> to permit it."@
            &&& !told("command not found"@) && !told("permission denied"@) && !told("no such file"@)
                && !told("not permitted"@) ==> h.len() == 0
        }),
{
}

/// A missing file is hinted at when reading and when editing, not when writing; a
/// text to replace that is not there is hinted at in every edit.
pub proof fn law_file_hints(output: Seq<char>)
    requires
        !text::occurs(text::lowercase(output), "permission denied"@),
    ensures
        text::occurs(text::lowercase(output), "no such file"@) ==> hint_for(
            "read_file"@,
            output,
        ).len() > 0 && hint_for("edit_file"@, output).len() > 0,
        text::occurs(text::lowercase(output), "no such file"@) && !text::occurs(
            text::lowercase(output),
            "old_string not found"@,
        ) ==> hint_for("write_file"@, output).len() == 0,
        text::occurs(text::lowercase(output), "old_string not found"@) ==> hint_for(
            "edit_file"@,
            output,
        ).len() > 0 && hint_for("multi_edit"@, output).len() > 0,
        !text::occurs(text::lowercase(output), "no such file"@) ==> hint_for(
            "read_file"@,
            output,
        ).len() == 0,
{
    lemma_lengths();
    reveal_strlit("File not found. Check the path — it may need to be created first.");
    reveal_strlit("File doesn't exist yet. Use write_file to create it first.");
    reveal_strlit(
        "The text to replace wasn't found. The file may have changed — re-read it and try again.",
    );
    reveal_strlit(
        "One of the edits' old_string wasn't found (possibly after earlier edits in the batch already ran). Re-read the file and adjust the edits.",
    );
}

} // verus!
