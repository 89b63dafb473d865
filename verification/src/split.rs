//! Splitting, joining and replacing.

use crate::text::{self, cat3, chars_of, find_sub, string_of, CharClass};
use vstd::prelude::*;
use vstd::slice::slice_subrange;
use vstd::string::*;

verus! {

// ── Views of lists of texts ─────────────────────────────────────────────────

/// The views of a list of values.
pub open spec fn views<T: View>(v: Seq<T>) -> Seq<T::V> {
    Seq::new(v.len(), |i: int| v[i].view())
}

/// Adding a value at the end adds its view at the end.
pub broadcast proof fn lemma_views_push<T: View>(v: Seq<T>, x: T)
    ensures
        #[trigger] views(v.push(x)) == views(v).push(x.view()),
{
    assert(views(v.push(x)) =~= views(v).push(x.view()));
}

/// The texts of a list of strings.
pub open spec fn texts(v: Seq<String>) -> Seq<Seq<char>> {
    v.map_values(|s: String| s@)
}

/// The text of an optional string.
pub open spec fn opt_text(s: Option<String>) -> Option<Seq<char>> {
    match s {
        Some(t) => Some(t@),
        None => None,
    }
}

/// The texts of a list of character slices.
pub open spec fn char_slices(v: Seq<&[char]>) -> Seq<Seq<char>> {
    v.map_values(|s: &[char]| s@)
}

/// Adding a string at the end adds its text at the end.
pub broadcast proof fn lemma_texts_push(v: Seq<String>, s: String)
    ensures
        #[trigger] texts(v.push(s)) == texts(v).push(s@),
{
    assert(texts(v.push(s)) =~= texts(v).push(s@));
}

/// Adding a character slice at the end adds its text at the end.
pub broadcast proof fn lemma_char_slices_push<'a>(v: Seq<&'a [char]>, s: &'a [char])
    ensures
        #[trigger] char_slices(v.push(s)) == char_slices(v).push(s@),
{
    assert(char_slices(v.push(s)) =~= char_slices(v).push(s@));
}

// ── Pieces ──────────────────────────────────────────────────────────────────

/// The pieces of `s` between the characters in `p`: one more than there are
/// such characters.
pub open spec fn pieces(s: Seq<char>, p: spec_fn(char) -> bool) -> Seq<Seq<char>>
    decreases s.len(),
{
    if s.len() == 0 {
        seq![Seq::<char>::empty()]
    } else {
        let before = pieces(s.drop_last(), p);
        if p(s.last()) {
            before.push(Seq::<char>::empty())
        } else {
            before.drop_last().push(before.last().push(s.last()))
        }
    }
}

/// A text has at least one piece.
pub proof fn lemma_pieces_nonempty(s: Seq<char>, p: spec_fn(char) -> bool)
    ensures
        pieces(s, p).len() >= 1,
    decreases s.len(),
{
    if s.len() > 0 {
        lemma_pieces_nonempty(s.drop_last(), p);
    }
}

/// A character in `p` between two texts divides their pieces.
pub proof fn lemma_pieces_join(a: Seq<char>, c: char, b: Seq<char>, p: spec_fn(char) -> bool)
    requires
        p(c),
    ensures
        pieces(a.push(c) + b, p) == pieces(a, p) + pieces(b, p),
    decreases b.len(),
{
    let all = a.push(c) + b;
    if b.len() == 0 {
        assert(all =~= a.push(c));
        assert(all.drop_last() =~= a);
        assert(pieces(all, p) =~= pieces(a, p) + pieces(b, p));
    } else {
        lemma_pieces_join(a, c, b.drop_last(), p);
        lemma_pieces_nonempty(b.drop_last(), p);
        assert(all.drop_last() =~= a.push(c) + b.drop_last());
        let x = pieces(a, p);
        let y = pieces(b.drop_last(), p);
        assert((x + y).drop_last() =~= x + y.drop_last());
        assert(pieces(all, p) =~= x + pieces(b, p));
    }
}

/// The pieces of `s` between the characters of class `k`.
pub fn split<'a>(s: &'a [char], k: CharClass) -> (r: Vec<&'a [char]>)
    ensures
        char_slices(r@) == pieces(s@, k.pred()),
        r@.len() >= 1,
{
    broadcast use lemma_char_slices_push;

    let mut out: Vec<&'a [char]> = Vec::new();
    let mut start: usize = 0;
    let mut i: usize = 0;
    assert(s@.subrange(0, 0) =~= Seq::<char>::empty());
    assert(pieces(s@.take(0), k.pred()) =~= char_slices(out@).push(s@.subrange(0, 0)));
    while i < s.len()
        invariant
            start <= i <= s@.len(),
            pieces(s@.take(i as int), k.pred()) == char_slices(out@).push(
                s@.subrange(start as int, i as int),
            ),
        decreases s@.len() - i,
    {
        let ghost before = pieces(s@.take(i as int), k.pred());
        assert(s@.take(i + 1).drop_last() =~= s@.take(i as int));
        assert(before.drop_last() =~= char_slices(out@));
        if k.has(s[i]) {
            out.push(slice_subrange(s, start, i));
            start = i + 1;
            assert(s@.subrange(start as int, i + 1) =~= Seq::<char>::empty());
        } else {
            assert(s@.subrange(start as int, i as int).push(s@[i as int]) =~= s@.subrange(
                start as int,
                i + 1,
            ));
        }
        i += 1;
    }
    assert(s@.take(i as int) =~= s@);
    out.push(slice_subrange(s, start, s.len()));
    out
}

// ── Words ───────────────────────────────────────────────────────────────────

/// The nonempty texts of a list.
pub open spec fn nonempty(v: Seq<Seq<char>>) -> Seq<Seq<char>> {
    v.filter(|t: Seq<char>| t.len() > 0)
}

/// The words of `s`: its nonempty pieces between whitespace.
pub open spec fn words(s: Seq<char>) -> Seq<Seq<char>> {
    nonempty(pieces(s, text::white()))
}

/// The words of `s`.
pub fn split_words(s: &str) -> (r: Vec<String>)
    ensures
        texts(r@) == words(s@),
{
    broadcast use lemma_texts_push;

    let v = chars_of(s);
    let all = split(v.as_slice(), CharClass::White);
    let ghost ps = pieces(s@, text::white());
    let ghost keep = |t: Seq<char>| t.len() > 0;
    let mut out: Vec<String> = Vec::new();
    let mut i: usize = 0;
    assert(ps.take(0).filter(keep) =~= texts(out@)) by {
        reveal(Seq::filter);
    }
    while i < all.len()
        invariant
            i <= all@.len(),
            ps == char_slices(all@),
            keep == |t: Seq<char>| t.len() > 0,
            texts(out@) == ps.take(i as int).filter(keep),
        decreases all@.len() - i,
    {
        proof {
            reveal(Seq::filter);
            assert(ps.take(i + 1).drop_last() =~= ps.take(i as int));
            assert(ps[i as int] == all@[i as int]@);
        }
        if all[i].len() > 0 {
            out.push(string_of(all[i]));
        }
        i += 1;
    }
    assert(ps.take(i as int) =~= ps);
    out
}

// ── Lines ───────────────────────────────────────────────────────────────────

/// A line without the carriage return that may stand before its line feed.
pub open spec fn without_cr(s: Seq<char>) -> Seq<char> {
    if s.len() > 0 && s.last() == '\r' {
        s.drop_last()
    } else {
        s
    }
}

/// The predicate "is a line feed".
pub open spec fn line_feed() -> spec_fn(char) -> bool {
    text::among("\n"@)
}

/// The lines of `s`: each ends in a line feed, or in a carriage return and a
/// line feed; the last may do without.
pub open spec fn lines(s: Seq<char>) -> Seq<Seq<char>> {
    let ps = pieces(s, line_feed());
    let ended = ps.drop_last().map_values(|t: Seq<char>| without_cr(t));
    if ps.last().len() == 0 {
        ended
    } else {
        ended.push(ps.last())
    }
}

proof fn lemma_pieces_len(s: Seq<char>, p: spec_fn(char) -> bool)
    ensures
        pieces(s, p).len() >= 1,
        pieces(s, p).len() - 1 + pieces(s, p).last().len() <= s.len(),
    decreases s.len(),
{
    if s.len() > 0 {
        lemma_pieces_len(s.drop_last(), p);
    }
}

/// A text has at most as many lines as characters.
pub proof fn lemma_lines_len(s: Seq<char>)
    ensures
        lines(s).len() <= s.len(),
{
    lemma_pieces_len(s, line_feed());
}

/// The lines of `s`.
pub fn split_lines<'a>(s: &'a [char]) -> (r: Vec<&'a [char]>)
    ensures
        char_slices(r@) == lines(s@),
{
    broadcast use lemma_char_slices_push;

    let all = split(s, CharClass::In("\n"));
    let ghost ps = pieces(s@, line_feed());
    let ghost ended = ps.drop_last().map_values(|t: Seq<char>| without_cr(t));
    let last: usize = all.len() - 1;
    let mut out: Vec<&'a [char]> = Vec::new();
    let mut i: usize = 0;
    assert(char_slices(out@) =~= ended.take(0));
    while i < last
        invariant
            i <= last,
            last == all@.len() - 1,
            ps == char_slices(all@),
            ended == ps.drop_last().map_values(|t: Seq<char>| without_cr(t)),
            char_slices(out@) == ended.take(i as int),
        decreases last - i,
    {
        let line = all[i];
        assert(ps[i as int] == line@);
        assert(ended.take(i + 1) =~= ended.take(i as int).push(without_cr(line@)));
        if line.len() > 0 && line[line.len() - 1] == '\r' {
            assert(line@.drop_last() =~= line@.subrange(0, line@.len() - 1));
            out.push(slice_subrange(line, 0, line.len() - 1));
        } else {
            out.push(line);
        }
        i += 1;
    }
    assert(ended.take(i as int) =~= ended);
    assert(ps.last() == all@[last as int]@);
    if all[last].len() > 0 {
        out.push(all[last]);
    }
    out
}

/// How many lines a text has.
pub fn count_lines(s: &str) -> (r: usize)
    ensures
        r == lines(s@).len(),
{
    let v = chars_of(s);
    let l = split_lines(v.as_slice());
    assert(char_slices(l@).len() == l@.len());
    l.len()
}

// ── Joining ─────────────────────────────────────────────────────────────────

/// The texts of a list with `sep` between neighbours.
pub open spec fn joined(v: Seq<Seq<char>>, sep: Seq<char>) -> Seq<char>
    decreases v.len(),
{
    if v.len() == 0 {
        Seq::empty()
    } else if v.len() == 1 {
        v[0]
    } else {
        joined(v.drop_last(), sep) + sep + v.last()
    }
}

/// Joins the texts of a list with `sep` between neighbours.
pub fn join(v: &Vec<String>, sep: &str) -> (r: String)
    ensures
        r@ == joined(texts(v@), sep@),
{
    let ghost t = texts(v@);
    let mut out = String::new();
    let mut i: usize = 0;
    while i < v.len()
        invariant
            i <= v@.len(),
            t == texts(v@),
            out@ == joined(t.take(i as int), sep@),
        decreases v@.len() - i,
    {
        assert(t.take(i + 1).drop_last() =~= t.take(i as int));
        assert(t[i as int] == v@[i as int]@);
        if i > 0 {
            out.append(sep);
        } else {
            assert(Seq::<char>::empty() + v@[0]@ =~= v@[0]@);
        }
        out.append(v[i].as_str());
        i += 1;
    }
    assert(t.take(i as int) =~= t);
    out
}

// ── Replacing ───────────────────────────────────────────────────────────────

/// `s` with its first occurrence of `pat` replaced by `with`.
pub open spec fn replaced_first(s: Seq<char>, pat: Seq<char>, with: Seq<char>) -> Seq<char> {
    let r = text::find_text(s, pat);
    if r < 0 {
        s
    } else {
        s.take(r) + with + s.skip(r + pat.len())
    }
}

/// `s` with every occurrence of `pat` replaced by `with`, from the left and
/// without overlaps. `pat` holds at least one character.
pub open spec fn replaced_all(s: Seq<char>, pat: Seq<char>, with: Seq<char>) -> Seq<char>
    decreases s.len(),
{
    let r = text::find_text(s, pat);
    if r < 0 || pat.len() == 0 || r + pat.len() > s.len() {
        s
    } else {
        s.take(r) + with + replaced_all(s.skip(r + pat.len()), pat, with)
    }
}

/// Replaces the first occurrence of `pat` in `s`.
pub fn replace_first(s: &str, pat: &str, with: &str) -> (r: String)
    ensures
        r@ == replaced_first(s@, pat@, with@),
{
    let v = chars_of(s);
    let total = v.len();
    match find_sub(v.as_slice(), pat) {
        Some(i) => {
            let n = chars_of(pat).len();
            assert(i + n <= total);
            let a = string_of(slice_subrange(v.as_slice(), 0, i));
            let b = string_of(slice_subrange(v.as_slice(), i + n, v.len()));
            cat3(a.as_str(), with, b.as_str())
        },
        None => s.to_string(),
    }
}

/// Replaces every occurrence of `pat` in `s`.
pub fn replace_all(s: &str, pat: &str, with: &str) -> (r: String)
    requires
        pat@.len() > 0,
    ensures
        r@ == replaced_all(s@, pat@, with@),
{
    let v = chars_of(s);
    let n = chars_of(pat).len();
    let mut out = String::new();
    let mut from: usize = 0;
    assert(s@.skip(0) =~= s@);
    assert(out@ + replaced_all(s@, pat@, with@) =~= replaced_all(s@, pat@, with@));
    loop
        invariant
            from <= v@.len(),
            v@ == s@,
            n == pat@.len(),
            n > 0,
            out@ + replaced_all(s@.skip(from as int), pat@, with@) == replaced_all(
                s@,
                pat@,
                with@,
            ),
        decreases v@.len() - from,
    {
        let rest = slice_subrange(v.as_slice(), from, v.len());
        assert(rest@ =~= s@.skip(from as int));
        match find_sub(rest, pat) {
            Some(i) => {
                let head = string_of(slice_subrange(rest, 0, i));
                let ghost before = out@;
                let ghost tail = replaced_all(rest@.skip(i + n), pat@, with@);
                assert(rest@.skip(i + n) =~= s@.skip(from + i + n));
                out.append(head.as_str());
                out.append(with);
                assert(before + (rest@.take(i as int) + with@ + tail) =~= out@ + tail);
                from = from + i + n;
            },
            None => {
                let t = string_of(rest);
                out.append(t.as_str());
                return out;
            },
        }
    }
}

// ── Laws of splitting and joining ───────────────────────────────────────────

/// A text without a character in `p` is one piece. Together with the division at
/// such a character this says what the pieces of every text are.
pub proof fn law_one_piece(s: Seq<char>, p: spec_fn(char) -> bool)
    requires
        text::none_in(s, p),
    ensures
        pieces(s, p) == seq![s],
    decreases s.len(),
{
    if s.len() > 0 {
        let t = s.drop_last();
        assert forall|i: int| 0 <= i < t.len() implies !p(#[trigger] t[i]) by {
            assert(t[i] == s[i]);
        }
        law_one_piece(t, p);
        assert(!p(s[s.len() - 1]));
        assert(t.push(s.last()) =~= s);
        assert(pieces(s, p) =~= seq![s]);
    } else {
        assert(s =~= Seq::<char>::empty());
    }
}

/// No piece holds a character in `p`.
pub proof fn law_pieces_are_clean(s: Seq<char>, p: spec_fn(char) -> bool)
    ensures
        forall|k: int| 0 <= k < pieces(s, p).len() ==> text::none_in(#[trigger] pieces(s, p)[k], p),
    decreases s.len(),
{
    if s.len() > 0 {
        law_pieces_are_clean(s.drop_last(), p);
        lemma_pieces_nonempty(s.drop_last(), p);
        let before = pieces(s.drop_last(), p);
        let now = pieces(s, p);
        assert forall|k: int| 0 <= k < now.len() implies text::none_in(#[trigger] now[k], p) by {
            if k < now.len() - 1 {
                assert(now[k] == before[k]);
            } else if !p(s.last()) {
                assert(text::none_in(before[before.len() - 1], p));
            }
        }
    }
}

/// A piece is a part of the text that lies between two characters in `p` or the
/// ends of the text.
pub open spec fn is_part(s: Seq<char>, p: spec_fn(char) -> bool, x: Seq<char>) -> bool {
    exists|a: Seq<char>, b: Seq<char>|
        s == #[trigger] (a + x + b) && (a.len() > 0 ==> p(a.last())) && (b.len() > 0 ==> p(b[0]))
}

/// The pieces of a text are exactly its parts without a character in `p` that lie
/// between two such characters or the ends.
pub proof fn law_pieces_are_the_parts(s: Seq<char>, p: spec_fn(char) -> bool, x: Seq<char>)
    ensures
        pieces(s, p).contains(x) <==> text::none_in(x, p) && is_part(s, p, x),
{
    if pieces(s, p).contains(x) {
        let k = choose|k: int| 0 <= k < pieces(s, p).len() && pieces(s, p)[k] == x;
        law_pieces_are_clean(s, p);
        assert(text::none_in(pieces(s, p)[k], p));
        lemma_piece_is_part(s, p, k);
    }
    if text::none_in(x, p) && is_part(s, p, x) {
        let (a, b) = choose|a: Seq<char>, b: Seq<char>|
            s == #[trigger] (a + x + b) && (a.len() > 0 ==> p(a.last())) && (b.len() > 0 ==> p(
                b[0],
            ));
        lemma_part_is_piece(a, x, b, p);
    }
}

proof fn lemma_piece_is_part(s: Seq<char>, p: spec_fn(char) -> bool, k: int) -> (r: (
    Seq<char>,
    Seq<char>,
))
    requires
        0 <= k < pieces(s, p).len(),
    ensures
        s == r.0 + pieces(s, p)[k] + r.1,
        r.0.len() > 0 ==> p(r.0.last()),
        r.1.len() > 0 ==> p(r.1[0]),
        r.1.len() > 0 <==> k < pieces(s, p).len() - 1,
    decreases s.len(),
{
    let e = Seq::<char>::empty();
    if s.len() == 0 {
        assert(s =~= e + pieces(s, p)[k] + e);
        (e, e)
    } else {
        let t = s.drop_last();
        lemma_pieces_nonempty(t, p);
        let before = pieces(t, p);
        let now = pieces(s, p);
        let c = s.last();
        if p(c) && k == before.len() {
            assert(s =~= s + now[k] + e);
            (s, e)
        } else if p(c) || k < before.len() - 1 {
            let r = lemma_piece_is_part(t, p, k);
            assert(now[k] == before[k]);
            assert(s =~= t.push(c));
            assert((r.0 + now[k] + r.1).push(c) =~= r.0 + now[k] + r.1.push(c));
            (r.0, r.1.push(c))
        } else {
            let r = lemma_piece_is_part(t, p, k);
            assert(r.1 =~= e);
            assert(now[k] == before.last().push(c));
            assert(s =~= t.push(c));
            assert((r.0 + before.last() + e).push(c) =~= r.0 + now[k] + e);
            (r.0, e)
        }
    }
}

proof fn lemma_part_is_piece(a: Seq<char>, x: Seq<char>, b: Seq<char>, p: spec_fn(char) -> bool)
    requires
        text::none_in(x, p),
        a.len() > 0 ==> p(a.last()),
        b.len() > 0 ==> p(b[0]),
    ensures
        pieces(a + x + b, p).contains(x),
{
    law_one_piece(x, p);
    let tail = pieces(x + b, p);
    if b.len() > 0 {
        assert(x + b =~= x.push(b[0]) + b.drop_first());
        lemma_pieces_join(x, b[0], b.drop_first(), p);
        assert(tail[0] == x);
    } else {
        assert(x + b =~= x);
        assert(tail[0] == x);
    }
    lemma_pieces_nonempty(x + b, p);
    if a.len() > 0 {
        assert(a + x + b =~= a.drop_last().push(a.last()) + (x + b));
        lemma_pieces_join(a.drop_last(), a.last(), x + b, p);
        let all = pieces(a + x + b, p);
        assert(all[pieces(a.drop_last(), p).len() as int] == x);
    } else {
        assert(a + x + b =~= x + b);
    }
}

proof fn lemma_nonempty_join(a: Seq<Seq<char>>, b: Seq<Seq<char>>)
    ensures
        nonempty(a + b) == nonempty(a) + nonempty(b),
    decreases b.len(),
{
    reveal(Seq::filter);
    if b.len() == 0 {
        assert(a + b =~= a);
        assert(nonempty(a + b) =~= nonempty(a) + nonempty(b));
    } else {
        lemma_nonempty_join(a, b.drop_last());
        assert((a + b).drop_last() =~= a + b.drop_last());
        assert(nonempty(a + b) =~= nonempty(a) + nonempty(b));
    }
}

/// The words of two texts with whitespace between them are those of the first and
/// then those of the second.
pub proof fn law_words_of_two_texts(a: Seq<char>, c: char, b: Seq<char>)
    requires
        text::char_whitespace(c),
    ensures
        words(a.push(c) + b) == words(a) + words(b),
{
    lemma_pieces_join(a, c, b, text::white());
    lemma_nonempty_join(pieces(a, text::white()), pieces(b, text::white()));
}

/// A text without whitespace is one word, if it holds a character.
pub proof fn law_one_word(s: Seq<char>)
    requires
        text::none_in(s, |c: char| text::char_whitespace(c)),
    ensures
        s.len() > 0 ==> words(s) == seq![s],
        s.len() == 0 ==> words(s).len() == 0,
{
    reveal(Seq::filter);
    law_one_piece(s, text::white());
    let ps = seq![s];
    let none = Seq::<Seq<char>>::empty();
    assert(ps.drop_last() =~= none);
    assert(nonempty(none) =~= none);
    if s.len() > 0 {
        assert(words(s) =~= seq![s]);
    }
}

/// A line ends at its line feed, and at the carriage return before it: the lines
/// of a text that begins with one are that line and then those of the rest.
pub proof fn law_first_line(a: Seq<char>, b: Seq<char>)
    requires
        text::none_in(a, |c: char| c == '\n'),
        a.len() > 0 ==> a.last() != '\r',
    ensures
        lines(a + "\n"@ + b) == seq![a] + lines(b),
        lines(a + "\r\n"@ + b) == seq![a] + lines(b),
        lines(a) == (if a.len() > 0 {
            seq![a]
        } else {
            Seq::empty()
        }),
{
    reveal_strlit("\n");
    reveal_strlit("\r\n");
    let p = line_feed();
    assert("\n"@[0] == '\n');
    assert(p('\n'));
    assert forall|i: int| 0 <= i < a.len() implies !p(#[trigger] a[i]) by {
        if "\n"@.contains(a[i]) {
            let k = choose|k: int| 0 <= k < "\n"@.len() && "\n"@[k] == a[i];
        }
    }
    law_one_piece(a, p);
    lemma_pieces_nonempty(b, p);
    let x = a.push('\r');
    assert forall|i: int| 0 <= i < x.len() implies !p(#[trigger] x[i]) by {
        if i < a.len() {
            assert(x[i] == a[i]);
        } else if "\n"@.contains(x[i]) {
            let k = choose|k: int| 0 <= k < "\n"@.len() && "\n"@[k] == x[i];
        }
    }
    law_one_piece(x, p);
    lemma_pieces_join(a, '\n', b, p);
    lemma_pieces_join(x, '\n', b, p);
    assert(a + "\n"@ + b =~= a.push('\n') + b);
    assert(a + "\r\n"@ + b =~= x.push('\n') + b);
    assert(x.drop_last() =~= a);
    let f = |t: Seq<char>| without_cr(t);
    let y = pieces(b, p);
    assert((seq![a] + y).drop_last() =~= seq![a] + y.drop_last());
    assert((seq![x] + y).drop_last() =~= seq![x] + y.drop_last());
    assert((seq![a] + y.drop_last()).map_values(f) =~= seq![a] + y.drop_last().map_values(f));
    assert((seq![x] + y.drop_last()).map_values(f) =~= seq![a] + y.drop_last().map_values(f));
    assert(lines(a + "\n"@ + b) =~= seq![a] + lines(b));
    assert(lines(a + "\r\n"@ + b) =~= seq![a] + lines(b));
    assert(seq![a].drop_last().map_values(f) =~= Seq::<Seq<char>>::empty());
    assert(lines(a) =~= (if a.len() > 0 {
        seq![a]
    } else {
        Seq::empty()
    }));
}

/// Joining two lists is joining each, with the separator between the two.
pub proof fn law_joined(a: Seq<Seq<char>>, b: Seq<Seq<char>>, x: Seq<char>, sep: Seq<char>)
    ensures
        joined(seq![x], sep) == x,
        joined(Seq::<Seq<char>>::empty(), sep).len() == 0,
        a.len() > 0 && b.len() > 0 ==> joined(a + b, sep) == joined(a, sep) + sep + joined(b, sep),
    decreases b.len(),
{
    if a.len() > 0 && b.len() > 0 {
        assert((a + b).drop_last() =~= a + b.drop_last());
        if b.len() == 1 {
            assert(a + b.drop_last() =~= a);
        } else {
            law_joined(a, b.drop_last(), x, sep);
            let j = joined(a, sep);
            let k = joined(b.drop_last(), sep);
            assert(joined(a + b, sep) =~= j + sep + (k + sep + b.last()));
        }
    }
}

/// Each text of a list occurs in what they are joined to.
pub proof fn law_joined_holds_each(v: Seq<Seq<char>>, sep: Seq<char>, i: int)
    requires
        0 <= i < v.len(),
    ensures
        text::occurs(joined(v, sep), v[i]),
    decreases v.len(),
{
    let j = joined(v, sep);
    text::law_occurs(j, v[i]);
    let e = Seq::<char>::empty();
    if v.len() == 1 {
        assert(j =~= e + v[i] + e);
    } else {
        let k = joined(v.drop_last(), sep);
        if i == v.len() - 1 {
            assert(j =~= (k + sep) + v[i] + e);
        } else {
            law_joined_holds_each(v.drop_last(), sep, i);
            assert(v.drop_last()[i] == v[i]);
            text::law_occurs(k, v[i]);
            let (a, b) = choose|a: Seq<char>, b: Seq<char>| k == #[trigger] (a + v[i] + b);
            assert(j =~= a + v[i] + (b + sep + v.last()));
        }
    }
}

/// Only the first occurrence is replaced, and only where there is one.
pub proof fn law_replaced_first(a: Seq<char>, pat: Seq<char>, b: Seq<char>, with: Seq<char>)
    requires
        forall|i: int| 0 <= i < a.len() ==> !#[trigger] text::occurs_at(a + pat + b, pat, i),
    ensures
        replaced_first(a + pat + b, pat, with) == a + with + b,
{
    let s = a + pat + b;
    text::lemma_find_text(s, pat);
    assert(s.skip(a.len() as int) =~= pat + b);
    assert((pat + b).subrange(0, pat.len() as int) =~= pat);
    assert(text::occurs_at(s, pat, a.len() as int));
    let r = text::find_text(s, pat);
    assert(r == a.len());
    assert(s.take(r) =~= a);
    assert(s.skip(r + pat.len()) =~= b);
}

/// A text that does not hold the pattern stays as it is; one that does has the
/// first occurrence replaced and then those of the rest.
pub proof fn law_replaced_all(a: Seq<char>, pat: Seq<char>, b: Seq<char>, with: Seq<char>)
    requires
        pat.len() > 0,
    ensures
        !text::occurs(a, pat) ==> replaced_first(a, pat, with) == a && replaced_all(a, pat, with)
            == a,
        (forall|i: int| 0 <= i < a.len() ==> !#[trigger] text::occurs_at(a + pat + b, pat, i))
            ==> replaced_all(a + pat + b, pat, with) == a + with + replaced_all(b, pat, with),
{
    text::lemma_find_text(a, pat);
    if forall|i: int| 0 <= i < a.len() ==> !#[trigger] text::occurs_at(a + pat + b, pat, i) {
        let s = a + pat + b;
        text::lemma_find_text(s, pat);
        assert(s.skip(a.len() as int) =~= pat + b);
        assert((pat + b).subrange(0, pat.len() as int) =~= pat);
        assert(text::occurs_at(s, pat, a.len() as int));
        let r = text::find_text(s, pat);
        assert(r == a.len());
        assert(s.take(r) =~= a);
        assert(s.skip(r + pat.len()) =~= b);
    }
}

} // verus!
