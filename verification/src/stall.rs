//! Answers that announce an action and do not take it.

use crate::split::{self, split};
use crate::text::{self, chars_of, starts_str, string_of, trim, CharClass};
use vstd::prelude::*;

verus! {

/// The characters that end a sentence.
pub open spec fn sentence_ends() -> spec_fn(char) -> bool {
    text::among(".!?\n"@)
}

/// Whether a sentence in lower case begins as a promise of an action.
pub open spec fn promises(s: Seq<char>) -> bool {
    ||| "let me "@.is_prefix_of(s)
    ||| "let's "@.is_prefix_of(s)
    ||| "i'll "@.is_prefix_of(s)
    ||| "i will "@.is_prefix_of(s)
    ||| "i'm going to "@.is_prefix_of(s)
    ||| "i am going to "@.is_prefix_of(s)
    ||| "now i'll "@.is_prefix_of(s)
    ||| "now i will "@.is_prefix_of(s)
    ||| "next i'll "@.is_prefix_of(s)
    ||| "next, i'll "@.is_prefix_of(s)
    ||| "next i will "@.is_prefix_of(s)
    ||| "going to now "@.is_prefix_of(s)
    ||| "i'll now "@.is_prefix_of(s)
    ||| "i will now "@.is_prefix_of(s)
}

/// A sentence, trimmed and in lower case.
pub open spec fn plain_sentence(s: Seq<char>) -> Seq<char> {
    text::lowercase(text::trimmed(s))
}

/// Whether one of the sentences of a text promises an action.
pub open spec fn is_stall(s: Seq<char>) -> bool {
    let sentences = split::pieces(s, sentence_ends());
    exists|k: int|
        0 <= k < sentences.len() && plain_sentence(#[trigger] sentences[k]).len() > 0 && promises(
            plain_sentence(sentences[k]),
        )
}

fn is_promise(s: &str) -> (r: bool)
    ensures
        r == promises(s@),
{
    starts_str(s, "let me ") || starts_str(s, "let's ") || starts_str(s, "i'll ") || starts_str(
        s,
        "i will ",
    ) || starts_str(s, "i'm going to ") || starts_str(s, "i am going to ") || starts_str(
        s,
        "now i'll ",
    ) || starts_str(s, "now i will ") || starts_str(s, "next i'll ") || starts_str(s, "next, i'll ")
        || starts_str(s, "next i will ") || starts_str(s, "going to now ") || starts_str(
        s,
        "i'll now ",
    ) || starts_str(s, "i will now ")
}

/// Whether an answer without a tool call announces an action, so that what it
/// announces never happens. Every sentence counts: the announcement may be
/// followed by others.
pub fn looks_like_unfinished_stall(s: &str) -> (r: bool)
    ensures
        r == is_stall(s@),
{
    let v = chars_of(s);
    let parts = split(v.as_slice(), CharClass::In(".!?\n"));
    let ghost all = split::pieces(s@, sentence_ends());
    let mut i: usize = 0;
    while i < parts.len()
        invariant
            i <= parts@.len(),
            all == split::char_slices(parts@),
            all == split::pieces(s@, sentence_ends()),
            forall|k: int|
                0 <= k < i ==> !(plain_sentence(#[trigger] all[k]).len() > 0 && promises(
                    plain_sentence(all[k]),
                )),
        decreases parts@.len() - i,
    {
        assert(all[i as int] == parts@[i as int]@);
        let t = string_of(trim(parts[i]));
        let low = t.as_str().to_lowercase();
        if !low.as_str().is_empty() && is_promise(low.as_str()) {
            assert(promises(plain_sentence(all[i as int])));
            return true;
        }
        i += 1;
    }
    false
}

// ── Laws of announcements ───────────────────────────────────────────────────

/// The phrases that announce an action.
pub open spec fn phrases() -> Seq<Seq<char>> {
    seq![
        "let me "@,
        "let's "@,
        "i'll "@,
        "i will "@,
        "i'm going to "@,
        "i am going to "@,
        "now i'll "@,
        "now i will "@,
        "next i'll "@,
        "next, i'll "@,
        "next i will "@,
        "going to now "@,
        "i'll now "@,
        "i will now "@,
    ]
}

/// Whether a character ends a sentence.
pub open spec fn ends_sentence(c: char) -> bool {
    c == '.' || c == '!' || c == '?' || c == '\n'
}

/// Whether `x` is a sentence of `s`: a part without a character that ends a
/// sentence, which stands between two of these or the ends of the text.
pub open spec fn is_sentence(s: Seq<char>, x: Seq<char>) -> bool {
    &&& forall|i: int| 0 <= i < x.len() ==> !ends_sentence(#[trigger] x[i])
    &&& exists|a: Seq<char>, b: Seq<char>|
        s == #[trigger] (a + x + b) && (a.len() > 0 ==> ends_sentence(a.last())) && (b.len() > 0
            ==> ends_sentence(b[0]))
}

/// Whether a sentence, in lower case and without the whitespace around it, begins
/// with one of the phrases.
pub open spec fn announces(x: Seq<char>) -> bool {
    exists|k: int|
        0 <= k < phrases().len() && (#[trigger] phrases()[k]).is_prefix_of(
            text::lowercase(text::trimmed(x)),
        )
}

proof fn lemma_sentence_ends(c: char)
    ensures
        sentence_ends()(c) <==> ends_sentence(c),
{
    reveal_strlit(".!?\n");
    let set = ".!?\n"@;
    assert(set[0] == '.' && set[1] == '!' && set[2] == '?' && set[3] == '\n');
    if set.contains(c) {
        let k = choose|k: int| 0 <= k < set.len() && set[k] == c;
        assert(k == 0 || k == 1 || k == 2 || k == 3);
    }
}

proof fn lemma_announces(x: Seq<char>)
    ensures
        announces(x) <==> plain_sentence(x).len() > 0 && promises(plain_sentence(x)),
{
    let p = phrases();
    let s = plain_sentence(x);
    reveal_strlit("let me ");
    reveal_strlit("let's ");
    reveal_strlit("i'll ");
    reveal_strlit("i will ");
    reveal_strlit("i'm going to ");
    reveal_strlit("i am going to ");
    reveal_strlit("now i'll ");
    reveal_strlit("now i will ");
    reveal_strlit("next i'll ");
    reveal_strlit("next, i'll ");
    reveal_strlit("next i will ");
    reveal_strlit("going to now ");
    reveal_strlit("i'll now ");
    reveal_strlit("i will now ");
    assert(p[0] == "let me "@ && p[1] == "let's "@ && p[2] == "i'll "@ && p[3] == "i will "@);
    assert(p[4] == "i'm going to "@ && p[5] == "i am going to "@ && p[6] == "now i'll "@);
    assert(p[7] == "now i will "@ && p[8] == "next i'll "@ && p[9] == "next, i'll "@);
    assert(p[10] == "next i will "@ && p[11] == "going to now "@ && p[12] == "i'll now "@);
    assert(p[13] == "i will now "@ && p.len() == 14);
    if announces(x) {
        let k = choose|k: int| 0 <= k < p.len() && (#[trigger] p[k]).is_prefix_of(s);
        assert(p[k].len() > 0);
        assert(k == 0 || k == 1 || k == 2 || k == 3 || k == 4 || k == 5 || k == 6 || k == 7 || k
            == 8 || k == 9 || k == 10 || k == 11 || k == 12 || k == 13);
    }
}

/// An answer is a stall exactly if one of its sentences, whichever, announces an
/// action.
pub proof fn law_any_sentence_counts(s: Seq<char>)
    ensures
        is_stall(s) <==> exists|x: Seq<char>| #[trigger] is_sentence(s, x) && announces(x),
{
    let p = sentence_ends();
    let ps = split::pieces(s, p);
    assert forall|c: char| p(c) == ends_sentence(c) by {
        lemma_sentence_ends(c);
    }
    if is_stall(s) {
        let k = choose|k: int|
            0 <= k < ps.len() && plain_sentence(#[trigger] ps[k]).len() > 0 && promises(
                plain_sentence(ps[k]),
            );
        let x = ps[k];
        assert(ps.contains(x));
        split::law_pieces_are_the_parts(s, p, x);
        let (a, b) = choose|a: Seq<char>, b: Seq<char>|
            s == #[trigger] (a + x + b) && (a.len() > 0 ==> p(a.last())) && (b.len() > 0 ==> p(
                b[0],
            ));
        assert(s == a + x + b);
        lemma_announces(x);
        assert(is_sentence(s, x));
    }
    if exists|x: Seq<char>| #[trigger] is_sentence(s, x) && announces(x) {
        let x = choose|x: Seq<char>| #[trigger] is_sentence(s, x) && announces(x);
        let (a, b) = choose|a: Seq<char>, b: Seq<char>|
            s == #[trigger] (a + x + b) && (a.len() > 0 ==> ends_sentence(a.last())) && (b.len() > 0
                ==> ends_sentence(b[0]));
        assert(split::is_part(s, p, x)) by {
            assert(s == a + x + b);
        }
        split::law_pieces_are_the_parts(s, p, x);
        let k = choose|k: int| 0 <= k < ps.len() && ps[k] == x;
        lemma_announces(x);
        assert(promises(plain_sentence(ps[k])));
    }
}

/// Two texts with the end of a sentence between them are a stall exactly if one of
/// the two is.
pub proof fn law_stall_of_two_texts(a: Seq<char>, c: char, b: Seq<char>)
    requires
        c == '.' || c == '!' || c == '?' || c == '\n',
    ensures
        is_stall(a.push(c) + b) <==> is_stall(a) || is_stall(b),
{
    lemma_sentence_ends(c);
    let p = sentence_ends();
    split::lemma_pieces_join(a, c, b, p);
    let x = split::pieces(a, p);
    let y = split::pieces(b, p);
    let all = x + y;
    if is_stall(a.push(c) + b) {
        let k = choose|k: int|
            0 <= k < all.len() && plain_sentence(#[trigger] all[k]).len() > 0 && promises(
                plain_sentence(all[k]),
            );
        if k < x.len() {
            assert(all[k] == x[k]);
        } else {
            assert(all[k] == y[k - x.len()]);
        }
    }
    if is_stall(a) {
        let k = choose|k: int|
            0 <= k < x.len() && plain_sentence(#[trigger] x[k]).len() > 0 && promises(
                plain_sentence(x[k]),
            );
        assert(all[k] == x[k]);
    }
    if is_stall(b) {
        let k = choose|k: int|
            0 <= k < y.len() && plain_sentence(#[trigger] y[k]).len() > 0 && promises(
                plain_sentence(y[k]),
            );
        assert(all[x.len() + k] == y[k]);
    }
}

} // verus!
