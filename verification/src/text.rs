//! Text primitives over sequences of characters.
//!
//! The exec functions work on character slices; what they compute is stated
//! over `Seq<char>`, the view of a string.

use vstd::prelude::*;
use vstd::slice::slice_subrange;
use vstd::string::*;

verus! {

// ── What the standard library decides ───────────────────────────────────────

/// Whether a character is whitespace: the code points with the Unicode property
/// `White_Space`.
pub open spec fn char_whitespace(c: char) -> bool {
    let u = c as u32;
    ||| 0x09 <= u <= 0x0d
    ||| u == 0x20
    ||| u == 0x85
    ||| u == 0xa0
    ||| u == 0x1680
    ||| 0x2000 <= u <= 0x200a
    ||| u == 0x2028
    ||| u == 0x2029
    ||| u == 0x202f
    ||| u == 0x205f
    ||| u == 0x3000
}

/// Whether an ASCII character is a letter or a digit.
pub open spec fn ascii_alphanumeric(c: char) -> bool {
    ||| '0' <= c <= '9'
    ||| 'A' <= c <= 'Z'
    ||| 'a' <= c <= 'z'
}

/// `char::is_alphanumeric` beyond ASCII: whether a character has the Unicode
/// `Alphabetic` property or belongs to one of the numeric categories.
pub uninterp spec fn wide_alphanumeric(c: char) -> bool;

/// Whether a character is a letter or a digit.
pub open spec fn char_alphanumeric(c: char) -> bool {
    if (c as u32) < 0x80 {
        ascii_alphanumeric(c)
    } else {
        wide_alphanumeric(c)
    }
}

/// `str::to_lowercase` of a text that is not all ASCII: its lowercase equivalent
/// by the Unicode tables.
pub uninterp spec fn wide_lowercase(s: Seq<char>) -> Seq<char>;

/// Whether all characters of a text are ASCII.
pub open spec fn is_ascii(s: Seq<char>) -> bool {
    forall|i: int| 0 <= i < s.len() ==> (#[trigger] s[i] as u32) < 0x80
}

/// A text with the letters from A to Z in lower case.
pub open spec fn ascii_lowered(s: Seq<char>) -> Seq<char> {
    s.map_values(|c: char| ascii_lower(c))
}

/// A text in lower case.
pub open spec fn lowercase(s: Seq<char>) -> Seq<char> {
    if is_ascii(s) {
        ascii_lowered(s)
    } else {
        wide_lowercase(s)
    }
}

/// `char::is_whitespace` is true of the characters with the Unicode property
/// `White_Space`, which are listed.
pub assume_specification[ char::is_whitespace ](c: char) -> (r: bool)
    ensures
        r == char_whitespace(c),
;

/// `char::is_alphanumeric` is true, within ASCII, of the letters and digits.
/// Beyond, its answer is a function of the character alone, and is named here.
pub assume_specification[ char::is_alphanumeric ](c: char) -> (r: bool)
    ensures
        (c as u32) < 0x80 ==> r == ascii_alphanumeric(c),
        (c as u32) >= 0x80 ==> r == wide_alphanumeric(c),
;

/// `str::to_lowercase` turns, in a text that is all ASCII, the letters from A to
/// Z to lower case and keeps the rest. Of any other text its answer is a function
/// of the text alone, and is named here.
pub assume_specification[ str::to_lowercase ](s: &str) -> (r: String)
    ensures
        is_ascii(s@) ==> r@ == ascii_lowered(s@),
        !is_ascii(s@) ==> r@ == wide_lowercase(s@),
;

/// `String::push` appends one character.
pub assume_specification[ String::push ](s: &mut String, c: char)
    ensures
        final(s)@ == old(s)@.push(c),
;

/// `==` on `str` compares the two texts character by character.
pub assume_specification[ <str as PartialEq>::eq ](a: &str, b: &str) -> (r: bool)
    ensures
        r == (a@ == b@),
;

// ── Conversions ─────────────────────────────────────────────────────────────

/// The characters of a text.
pub fn chars_of(s: &str) -> (r: Vec<char>)
    ensures
        r@ == s@,
{
    let mut out: Vec<char> = Vec::new();
    for c in it: s.chars()
        invariant
            out@ == it.seq().take(it.index()),
            it.seq() == s@,
    {
        proof {
            assert(it.seq().take(it.index() + 1) =~= it.seq().take(it.index()).push(c));
        }
        out.push(c);
    }
    out
}

/// The text made of the given characters.
pub fn string_of(s: &[char]) -> (r: String)
    ensures
        r@ == s@,
{
    let mut out = String::new();
    let mut i: usize = 0;
    while i < s.len()
        invariant
            i <= s@.len(),
            out@ == s@.take(i as int),
        decreases s@.len() - i,
    {
        assert(s@.take(i + 1) =~= s@.take(i as int).push(s@[i as int]));
        out.push(s[i]);
        i += 1;
    }
    assert(s@.take(i as int) =~= s@);
    out
}

/// The empty text.
pub fn empty() -> (r: String)
    ensures
        r@ == Seq::<char>::empty(),
{
    let r = String::new();
    assert(r@ =~= Seq::<char>::empty());
    r
}

/// Whether two texts are the same.
pub fn same(a: &str, b: &str) -> (r: bool)
    ensures
        r == (a@ == b@),
{
    *a == *b
}

/// A letter from A to Z in lower case; any other character as it is.
pub open spec fn ascii_lower(c: char) -> char {
    if 'A' <= c && c <= 'Z' {
        ((c as u32) + 32) as char
    } else {
        c
    }
}

/// Whether two texts are the same but for the case of the letters from A to Z.
pub open spec fn same_but_case(a: Seq<char>, b: Seq<char>) -> bool {
    &&& a.len() == b.len()
    &&& forall|i: int| 0 <= i < a.len() ==> ascii_lower(#[trigger] a[i]) == ascii_lower(b[i])
}

fn lower_code(c: char) -> (r: u32)
    ensures
        r == ascii_lower(c) as u32,
{
    let u = c as u32;
    if 65 <= u && u <= 90 {
        u + 32
    } else {
        u
    }
}

/// Whether two texts are the same but for the case of the letters from A to Z.
pub fn same_ignoring_case(a: &str, b: &str) -> (r: bool)
    ensures
        r == same_but_case(a@, b@),
{
    let x = chars_of(a);
    let y = chars_of(b);
    if x.len() != y.len() {
        return false;
    }
    let mut i: usize = 0;
    while i < x.len()
        invariant
            i <= x@.len(),
            x@.len() == y@.len(),
            x@ == a@,
            y@ == b@,
            forall|k: int| 0 <= k < i ==> ascii_lower(#[trigger] x@[k]) == ascii_lower(y@[k]),
        decreases x@.len() - i,
    {
        if lower_code(x[i]) != lower_code(y[i]) {
            assert(ascii_lower(a@[i as int]) != ascii_lower(b@[i as int]));
            return false;
        }
        i += 1;
    }
    true
}

/// `a` followed by `b`.
pub fn cat2(a: &str, b: &str) -> (r: String)
    ensures
        r@ == a@ + b@,
{
    let mut s = a.to_string();
    s.append(b);
    s
}

/// Three texts in a row.
pub fn cat3(a: &str, b: &str, c: &str) -> (r: String)
    ensures
        r@ == a@ + b@ + c@,
{
    let mut s = cat2(a, b);
    s.append(c);
    s
}

/// Four texts in a row.
pub fn cat4(a: &str, b: &str, c: &str, d: &str) -> (r: String)
    ensures
        r@ == a@ + b@ + c@ + d@,
{
    let mut s = cat3(a, b, c);
    s.append(d);
    s
}

/// Five texts in a row.
pub fn cat5(a: &str, b: &str, c: &str, d: &str, e: &str) -> (r: String)
    ensures
        r@ == a@ + b@ + c@ + d@ + e@,
{
    let mut s = cat4(a, b, c, d);
    s.append(e);
    s
}

/// Six texts in a row.
pub fn cat6(a: &str, b: &str, c: &str, d: &str, e: &str, f: &str) -> (r: String)
    ensures
        r@ == a@ + b@ + c@ + d@ + e@ + f@,
{
    let mut s = cat5(a, b, c, d, e);
    s.append(f);
    s
}

/// Seven texts in a row.
pub fn cat7(a: &str, b: &str, c: &str, d: &str, e: &str, f: &str, g: &str) -> (r: String)
    ensures
        r@ == a@ + b@ + c@ + d@ + e@ + f@ + g@,
{
    let mut s = cat6(a, b, c, d, e, f);
    s.append(g);
    s
}

// ── Character classes ───────────────────────────────────────────────────────

/// A class of characters, by which a text is trimmed or split.
#[derive(Clone, Copy)]
pub enum CharClass<'a> {
    /// Whitespace.
    White,
    /// The characters listed.
    In(&'a str),
    /// Whitespace and the characters listed.
    WhiteOr(&'a str),
    /// Everything that cannot stand in a search term.
    NotWord,
}

/// The predicate "is whitespace".
pub open spec fn white() -> spec_fn(char) -> bool {
    |c: char| char_whitespace(c)
}

/// The predicate "is one of `set`".
pub open spec fn among(set: Seq<char>) -> spec_fn(char) -> bool {
    |c: char| set.contains(c)
}

/// The predicate "is whitespace or one of `set`".
pub open spec fn white_or(set: Seq<char>) -> spec_fn(char) -> bool {
    |c: char| char_whitespace(c) || set.contains(c)
}

/// The predicate "cannot stand in a search term".
pub open spec fn not_word() -> spec_fn(char) -> bool {
    |c: char| !char_alphanumeric(c) && c != '_'
}

/// Whether `c` occurs in `set`.
pub fn has_char(set: &str, c: char) -> (r: bool)
    ensures
        r == set@.contains(c),
{
    let v = chars_of(set);
    let mut i: usize = 0;
    while i < v.len()
        invariant
            i <= v@.len(),
            v@ == set@,
            forall|k: int| 0 <= k < i ==> v@[k] != c,
        decreases v@.len() - i,
    {
        if v[i] == c {
            return true;
        }
        i += 1;
    }
    false
}

impl<'a> CharClass<'a> {
    /// The class as a predicate.
    pub open spec fn pred(self) -> spec_fn(char) -> bool {
        match self {
            CharClass::White => white(),
            CharClass::In(set) => among(set@),
            CharClass::WhiteOr(set) => white_or(set@),
            CharClass::NotWord => not_word(),
        }
    }

    /// Whether `c` belongs to the class.
    pub fn has(&self, c: char) -> (r: bool)
        ensures
            r == (self.pred())(c),
    {
        match *self {
            CharClass::White => c.is_whitespace(),
            CharClass::In(set) => has_char(set, c),
            CharClass::WhiteOr(set) => c.is_whitespace() || has_char(set, c),
            CharClass::NotWord => !c.is_alphanumeric() && c != '_',
        }
    }
}

// ── Trimming ────────────────────────────────────────────────────────────────

/// `s` without its leading characters in `p`.
pub open spec fn left_trimmed(s: Seq<char>, p: spec_fn(char) -> bool) -> Seq<char>
    decreases s.len(),
{
    if s.len() > 0 && p(s[0]) {
        left_trimmed(s.drop_first(), p)
    } else {
        s
    }
}

/// `s` without its trailing characters in `p`.
pub open spec fn right_trimmed(s: Seq<char>, p: spec_fn(char) -> bool) -> Seq<char>
    decreases s.len(),
{
    if s.len() > 0 && p(s.last()) {
        right_trimmed(s.drop_last(), p)
    } else {
        s
    }
}

/// `s` without the characters in `p` at either end.
pub open spec fn both_trimmed(s: Seq<char>, p: spec_fn(char) -> bool) -> Seq<char> {
    right_trimmed(left_trimmed(s, p), p)
}

/// `s` without the whitespace at either end.
pub open spec fn trimmed(s: Seq<char>) -> Seq<char> {
    both_trimmed(s, white())
}

/// Drops the leading characters of class `k`.
pub fn trim_left<'a>(s: &'a [char], k: CharClass) -> (r: &'a [char])
    ensures
        r@ == left_trimmed(s@, k.pred()),
{
    let mut i: usize = 0;
    assert(s@.skip(0) =~= s@);
    while i < s.len() && k.has(s[i])
        invariant
            i <= s@.len(),
            left_trimmed(s@, k.pred()) == left_trimmed(s@.skip(i as int), k.pred()),
        decreases s@.len() - i,
    {
        assert(s@.skip(i as int).drop_first() =~= s@.skip(i + 1));
        i += 1;
    }
    slice_subrange(s, i, s.len())
}

/// Drops the trailing characters of class `k`.
pub fn trim_right<'a>(s: &'a [char], k: CharClass) -> (r: &'a [char])
    ensures
        r@ == right_trimmed(s@, k.pred()),
{
    let mut n: usize = s.len();
    assert(s@.take(n as int) =~= s@);
    while n > 0 && k.has(s[n - 1])
        invariant
            n <= s@.len(),
            right_trimmed(s@, k.pred()) == right_trimmed(s@.take(n as int), k.pred()),
        decreases n,
    {
        assert(s@.take(n as int).drop_last() =~= s@.take(n - 1));
        n -= 1;
    }
    slice_subrange(s, 0, n)
}

/// Drops the characters of class `k` at either end.
pub fn trim_both<'a>(s: &'a [char], k: CharClass) -> (r: &'a [char])
    ensures
        r@ == both_trimmed(s@, k.pred()),
{
    trim_right(trim_left(s, k), k)
}

/// Drops the whitespace at either end.
pub fn trim<'a>(s: &'a [char]) -> (r: &'a [char])
    ensures
        r@ == trimmed(s@),
{
    trim_both(s, CharClass::White)
}

/// The text `s` without the whitespace at either end.
pub fn trim_str(s: &str) -> (r: String)
    ensures
        r@ == trimmed(s@),
{
    let v = chars_of(s);
    string_of(trim(v.as_slice()))
}

// ── Searching ───────────────────────────────────────────────────────────────

/// The place of the first character of `s` in `p`, or `s.len()` if there is
/// none.
pub open spec fn find_first(s: Seq<char>, p: spec_fn(char) -> bool) -> int
    decreases s.len(),
{
    if s.len() == 0 || p(s[0]) {
        0
    } else {
        1 + find_first(s.drop_first(), p)
    }
}

/// The place just after the last character of `s` in `p`, or 0 if there is
/// none.
pub open spec fn after_last(s: Seq<char>, p: spec_fn(char) -> bool) -> int
    decreases s.len(),
{
    if s.len() == 0 || p(s.last()) {
        s.len() as int
    } else {
        after_last(s.drop_last(), p)
    }
}

/// The part of `s` before the first character in `p`.
pub open spec fn until(s: Seq<char>, p: spec_fn(char) -> bool) -> Seq<char> {
    s.take(find_first(s, p))
}

/// What `find_first` finds.
pub proof fn lemma_find_first(s: Seq<char>, p: spec_fn(char) -> bool)
    ensures
        0 <= find_first(s, p) <= s.len(),
        forall|k: int| 0 <= k < find_first(s, p) ==> !p(#[trigger] s[k]),
        find_first(s, p) < s.len() ==> p(s[find_first(s, p)]),
    decreases s.len(),
{
    if s.len() > 0 && !p(s[0]) {
        let t = s.drop_first();
        lemma_find_first(t, p);
        assert forall|k: int| 0 <= k < find_first(s, p) implies !p(#[trigger] s[k]) by {
            if k > 0 {
                assert(s[k] == t[k - 1]);
            }
        }
    }
}

/// What `after_last` finds.
pub proof fn lemma_after_last(s: Seq<char>, p: spec_fn(char) -> bool)
    ensures
        0 <= after_last(s, p) <= s.len(),
        forall|k: int| after_last(s, p) <= k < s.len() ==> !p(#[trigger] s[k]),
        after_last(s, p) > 0 ==> p(s[after_last(s, p) - 1]),
    decreases s.len(),
{
    if s.len() > 0 && !p(s.last()) {
        let t = s.drop_last();
        lemma_after_last(t, p);
        assert forall|k: int| after_last(s, p) <= k < s.len() implies !p(#[trigger] s[k]) by {
            if k < s.len() - 1 {
                assert(s[k] == t[k]);
            }
        }
    }
}

/// The place of the first character of class `k`.
pub fn find(s: &[char], k: CharClass) -> (r: usize)
    ensures
        r == find_first(s@, k.pred()),
        r <= s@.len(),
{
    proof {
        lemma_find_first(s@, k.pred());
    }
    let mut i: usize = 0;
    while i < s.len() && !k.has(s[i])
        invariant
            i <= s@.len(),
            forall|j: int| 0 <= j < i ==> !(k.pred())(#[trigger] s@[j]),
        decreases s@.len() - i,
    {
        i += 1;
    }
    proof {
        let f = find_first(s@, k.pred());
        if f < i {
            assert(!(k.pred())(s@[f]));
        }
    }
    i
}

/// The place just after the last character of class `k`.
pub fn find_after_last(s: &[char], k: CharClass) -> (r: usize)
    ensures
        r == after_last(s@, k.pred()),
        r <= s@.len(),
{
    proof {
        lemma_after_last(s@, k.pred());
    }
    let mut n: usize = s.len();
    while n > 0 && !k.has(s[n - 1])
        invariant
            n <= s@.len(),
            forall|j: int| n <= j < s@.len() ==> !(k.pred())(#[trigger] s@[j]),
        decreases n,
    {
        n -= 1;
    }
    proof {
        let f = after_last(s@, k.pred());
        if f > n {
            assert(!(k.pred())(s@[f - 1]));
        }
    }
    n
}

/// The part before the first character of class `k`.
pub fn take_until<'a>(s: &'a [char], k: CharClass) -> (r: &'a [char])
    ensures
        r@ == until(s@, k.pred()),
{
    let n = find(s, k);
    slice_subrange(s, 0, n)
}

/// Whether `s` begins with `pat`.
pub fn starts(s: &[char], pat: &str) -> (r: bool)
    ensures
        r == pat@.is_prefix_of(s@),
{
    let v = chars_of(pat);
    if v.len() > s.len() {
        return false;
    }
    let mut i: usize = 0;
    while i < v.len()
        invariant
            i <= v@.len() <= s@.len(),
            v@ == pat@,
            forall|k: int| 0 <= k < i ==> #[trigger] v@[k] == s@[k],
        decreases v@.len() - i,
    {
        if v[i] != s[i] {
            assert(s@.subrange(0, v@.len() as int)[i as int] != v@[i as int]);
            return false;
        }
        i += 1;
    }
    assert(v@ =~= s@.subrange(0, v@.len() as int));
    true
}

/// Whether `s` ends with `pat`.
pub fn ends(s: &[char], pat: &str) -> (r: bool)
    ensures
        r == pat@.is_suffix_of(s@),
{
    let v = chars_of(pat);
    if v.len() > s.len() {
        return false;
    }
    let d: usize = s.len() - v.len();
    let mut i: usize = 0;
    while i < v.len()
        invariant
            i <= v@.len() <= s@.len(),
            d == s@.len() - v@.len(),
            s@.len() <= usize::MAX,
            v@ == pat@,
            forall|k: int| 0 <= k < i ==> #[trigger] v@[k] == s@[d + k],
        decreases v@.len() - i,
    {
        if v[i] != s[d + i] {
            assert(s@.subrange(d as int, s@.len() as int)[i as int] != v@[i as int]);
            return false;
        }
        i += 1;
    }
    assert(v@ =~= s@.subrange(d as int, s@.len() as int));
    true
}

/// Whether the text `s` begins with `pat`.
pub fn starts_str(s: &str, pat: &str) -> (r: bool)
    ensures
        r == pat@.is_prefix_of(s@),
{
    let v = chars_of(s);
    starts(v.as_slice(), pat)
}

/// Whether the text `s` ends with `pat`.
pub fn ends_str(s: &str, pat: &str) -> (r: bool)
    ensures
        r == pat@.is_suffix_of(s@),
{
    let v = chars_of(s);
    ends(v.as_slice(), pat)
}

/// What follows `pat` at the front of `s`, if `s` begins with it.
pub open spec fn after_prefix(s: Seq<char>, pat: Seq<char>) -> Option<Seq<char>> {
    if pat.is_prefix_of(s) {
        Some(s.skip(pat.len() as int))
    } else {
        None
    }
}

/// Removes `pat` from the front of `s`, if `s` begins with it.
pub fn strip_front<'a>(s: &'a [char], pat: &str) -> (r: Option<&'a [char]>)
    ensures
        match r {
            Some(t) => after_prefix(s@, pat@) == Some(t@),
            None => after_prefix(s@, pat@) is None,
        },
{
    if starts(s, pat) {
        let v = chars_of(pat);
        Some(slice_subrange(s, v.len(), s.len()))
    } else {
        None
    }
}

/// The place of the first occurrence of `pat` in `s`, or -1.
pub open spec fn find_text(s: Seq<char>, pat: Seq<char>) -> int
    decreases s.len(),
{
    if pat.is_prefix_of(s) {
        0
    } else if s.len() == 0 {
        -1
    } else {
        let r = find_text(s.drop_first(), pat);
        if r < 0 {
            -1
        } else {
            r + 1
        }
    }
}

/// Whether `pat` occurs in `s` at place `i`.
pub open spec fn occurs_at(s: Seq<char>, pat: Seq<char>, i: int) -> bool {
    0 <= i <= s.len() && pat.is_prefix_of(s.skip(i))
}

/// Whether `pat` occurs in `s`.
pub open spec fn occurs(s: Seq<char>, pat: Seq<char>) -> bool {
    exists|i: int| #[trigger] occurs_at(s, pat, i)
}

/// `find_text` finds the first occurrence, and finds one whenever there is one.
pub proof fn lemma_find_text(s: Seq<char>, pat: Seq<char>)
    ensures
        -1 <= find_text(s, pat) <= s.len(),
        find_text(s, pat) >= 0 ==> occurs_at(s, pat, find_text(s, pat)) && find_text(s, pat)
            + pat.len() <= s.len(),
        forall|i: int| #[trigger] occurs_at(s, pat, i) ==> 0 <= find_text(s, pat) <= i,
        occurs(s, pat) == (find_text(s, pat) >= 0),
    decreases s.len(),
{
    assert(s.skip(0) =~= s);
    if pat.is_prefix_of(s) {
        assert(occurs_at(s, pat, 0));
    } else {
        if s.len() > 0 {
            let t = s.drop_first();
            lemma_find_text(t, pat);
            let r = find_text(t, pat);
            if r >= 0 {
                assert(t.skip(r) =~= s.skip(r + 1));
                assert(occurs_at(s, pat, r + 1));
            }
            assert forall|i: int| #[trigger] occurs_at(s, pat, i) implies 0 <= find_text(s, pat)
                <= i by {
                assert(i != 0);
                assert(t.skip(i - 1) =~= s.skip(i));
                assert(occurs_at(t, pat, i - 1));
            }
        } else {
            assert forall|i: int| #[trigger] occurs_at(s, pat, i) implies 0 <= find_text(s, pat)
                <= i by {
                assert(s.skip(i) =~= s);
            }
        }
    }
}

/// The place of the first occurrence of `pat`, if any.
pub fn find_sub(s: &[char], pat: &str) -> (r: Option<usize>)
    ensures
        match r {
            Some(i) => i == find_text(s@, pat@) && i + pat@.len() <= s@.len(),
            None => find_text(s@, pat@) < 0,
        },
        r is Some == occurs(s@, pat@),
{
    proof {
        lemma_find_text(s@, pat@);
    }
    let mut i: usize = 0;
    loop
        invariant
            i <= s@.len(),
            forall|k: int| 0 <= k < i ==> !#[trigger] occurs_at(s@, pat@, k),
        decreases s@.len() - i,
    {
        if starts(slice_subrange(s, i, s.len()), pat) {
            assert(occurs_at(s@, pat@, i as int));
            proof {
                lemma_find_text(s@, pat@);
            }
            return Some(i);
        }
        assert(!occurs_at(s@, pat@, i as int));
        if i == s.len() {
            proof {
                lemma_find_text(s@, pat@);
                if find_text(s@, pat@) >= 0 {
                    assert(occurs_at(s@, pat@, find_text(s@, pat@)));
                }
            }
            return None;
        }
        i += 1;
    }
}

/// Whether the text `s` holds `pat`.
pub fn contains_str(s: &str, pat: &str) -> (r: bool)
    ensures
        r == occurs(s@, pat@),
{
    let v = chars_of(s);
    match find_sub(v.as_slice(), pat) {
        Some(_) => true,
        None => false,
    }
}

// ── Laws of texts ───────────────────────────────────────────────────────────

/// Whether all characters of a text are in `p`.
pub open spec fn all_in(s: Seq<char>, p: spec_fn(char) -> bool) -> bool {
    forall|i: int| 0 <= i < s.len() ==> p(#[trigger] s[i])
}

/// Whether no character of a text is in `p`.
pub open spec fn none_in(s: Seq<char>, p: spec_fn(char) -> bool) -> bool {
    forall|i: int| 0 <= i < s.len() ==> !p(#[trigger] s[i])
}

/// Leading characters in `p` go, whatever follows them, up to the first that is
/// not in `p`.
pub proof fn law_left_trimmed(a: Seq<char>, b: Seq<char>, p: spec_fn(char) -> bool)
    requires
        all_in(a, p),
        b.len() > 0 ==> !p(b[0]),
    ensures
        left_trimmed(a + b, p) == b,
    decreases a.len(),
{
    if a.len() == 0 {
        assert(a + b =~= b);
    } else {
        assert((a + b)[0] == a[0]);
        assert((a + b).drop_first() =~= a.drop_first() + b);
        assert forall|i: int| 0 <= i < a.drop_first().len() implies p(
            #[trigger] a.drop_first()[i],
        ) by {
            assert(a.drop_first()[i] == a[i + 1]);
        }
        law_left_trimmed(a.drop_first(), b, p);
    }
}

/// Trailing characters in `p` go, whatever stands before them, down to the last
/// that is not in `p`.
pub proof fn law_right_trimmed(a: Seq<char>, b: Seq<char>, p: spec_fn(char) -> bool)
    requires
        all_in(b, p),
        a.len() > 0 ==> !p(a.last()),
    ensures
        right_trimmed(a + b, p) == a,
    decreases b.len(),
{
    if b.len() == 0 {
        assert(a + b =~= a);
    } else {
        assert((a + b).last() == b.last());
        assert(p(b[b.len() - 1]));
        assert((a + b).drop_last() =~= a + b.drop_last());
        assert forall|i: int| 0 <= i < b.drop_last().len() implies p(
            #[trigger] b.drop_last()[i],
        ) by {
            assert(b.drop_last()[i] == b[i]);
        }
        law_right_trimmed(a, b.drop_last(), p);
    }
}

/// Trimming takes the characters in `p` at both ends and nothing else: what
/// stands between them comes back, if it neither begins nor ends with one.
pub proof fn law_both_trimmed(a: Seq<char>, m: Seq<char>, b: Seq<char>, p: spec_fn(char) -> bool)
    requires
        all_in(a, p),
        all_in(b, p),
        m.len() > 0 ==> !p(m[0]) && !p(m.last()),
    ensures
        both_trimmed(a + m + b, p) == m,
{
    if m.len() > 0 {
        assert(a + m + b =~= a + (m + b));
        assert((m + b)[0] == m[0]);
        law_left_trimmed(a, m + b, p);
        law_right_trimmed(m, b, p);
    } else {
        let e = Seq::<char>::empty();
        assert forall|i: int| 0 <= i < (a + b).len() implies p(#[trigger] (a + b)[i]) by {
            if i < a.len() {
                assert((a + b)[i] == a[i]);
            } else {
                assert((a + b)[i] == b[i - a.len()]);
            }
        }
        assert(a + m + b =~= (a + b) + e);
        law_left_trimmed(a + b, e, p);
        assert(m =~= e);
    }
}

/// The whitespace at both ends of a text goes and nothing else.
pub proof fn law_trimmed(a: Seq<char>, m: Seq<char>, b: Seq<char>)
    requires
        all_in(a, |c: char| char_whitespace(c)),
        all_in(b, |c: char| char_whitespace(c)),
        m.len() > 0 ==> !char_whitespace(m[0]) && !char_whitespace(m.last()),
    ensures
        trimmed(a + m + b) == m,
{
    law_both_trimmed(a, m, b, white());
}

/// A text without whitespace at either end is its own trimmed form.
pub proof fn law_trimmed_already(m: Seq<char>)
    requires
        m.len() > 0 ==> !char_whitespace(m[0]) && !char_whitespace(m.last()),
    ensures
        trimmed(m) == m,
{
    let e = Seq::<char>::empty();
    assert(e + m + e =~= m);
    law_trimmed(e, m, e);
}

/// Every text has a trimmed form with whitespace around it.
pub proof fn law_trimmed_parts(s: Seq<char>) -> (r: (Seq<char>, Seq<char>))
    ensures
        s == r.0 + trimmed(s) + r.1,
        all_in(r.0, white()),
        all_in(r.1, white()),
        trimmed(s).len() > 0 ==> !char_whitespace(trimmed(s)[0]) && !char_whitespace(
            trimmed(s).last(),
        ),
{
    let a = lemma_left_part(s, white());
    let m = left_trimmed(s, white());
    let b = lemma_right_part(m, white());
    assert(s =~= a + trimmed(s) + b);
    if trimmed(s).len() > 0 {
        assert(m[0] == trimmed(s)[0]);
    }
    (a, b)
}

proof fn lemma_left_part(s: Seq<char>, p: spec_fn(char) -> bool) -> (a: Seq<char>)
    ensures
        s == a + left_trimmed(s, p),
        all_in(a, p),
        left_trimmed(s, p).len() > 0 ==> !p(left_trimmed(s, p)[0]),
    decreases s.len(),
{
    if s.len() > 0 && p(s[0]) {
        let t = lemma_left_part(s.drop_first(), p);
        let a = seq![s[0]] + t;
        let x = left_trimmed(s, p);
        assert(s =~= seq![s[0]] + s.drop_first());
        assert(seq![s[0]] + (t + x) =~= a + x);
        assert forall|i: int| 0 <= i < a.len() implies p(#[trigger] a[i]) by {
            if i > 0 {
                assert(a[i] == t[i - 1]);
            }
        }
        a
    } else {
        assert(s =~= Seq::<char>::empty() + s);
        Seq::empty()
    }
}

pub proof fn lemma_right_part(s: Seq<char>, p: spec_fn(char) -> bool) -> (b: Seq<char>)
    ensures
        s == right_trimmed(s, p) + b,
        all_in(b, p),
        right_trimmed(s, p).len() > 0 ==> !p(right_trimmed(s, p).last()),
    decreases s.len(),
{
    if s.len() > 0 && p(s.last()) {
        let t = lemma_right_part(s.drop_last(), p);
        let b = t.push(s.last());
        let x = right_trimmed(s, p);
        assert(s =~= s.drop_last().push(s.last()));
        assert((x + t).push(s.last()) =~= x + b);
        b
    } else {
        assert(s =~= s + Seq::<char>::empty());
        Seq::empty()
    }
}

/// The part before the first character in `p` is what stands before it.
pub proof fn law_until(a: Seq<char>, b: Seq<char>, p: spec_fn(char) -> bool)
    requires
        none_in(a, p),
        b.len() > 0 ==> p(b[0]),
    ensures
        find_first(a + b, p) == a.len(),
        until(a + b, p) == a,
{
    let s = a + b;
    lemma_find_first(s, p);
    let f = find_first(s, p);
    if f < a.len() {
        assert(s[f] == a[f]);
    }
    if f > a.len() {
        assert(s[a.len() as int] == b[0]);
    }
    assert(until(s, p) =~= a);
}

/// A text occurs exactly where the whole is something, the text and something
/// again.
pub proof fn law_occurs(s: Seq<char>, pat: Seq<char>)
    ensures
        occurs(s, pat) <==> exists|a: Seq<char>, b: Seq<char>| s == #[trigger] (a + pat + b),
{
    if occurs(s, pat) {
        let i = choose|i: int| #[trigger] occurs_at(s, pat, i);
        let a = s.take(i);
        let b = s.skip(i + pat.len());
        assert(s.skip(i).subrange(0, pat.len() as int) =~= pat);
        assert forall|k: int| 0 <= k < s.len() implies s[k] == (a + pat + b)[k] by {
            if i <= k < i + pat.len() {
                assert(s.skip(i).subrange(0, pat.len() as int)[k - i] == pat[k - i]);
            }
        }
        assert(s =~= a + pat + b);
    }
    if exists|a: Seq<char>, b: Seq<char>| s == #[trigger] (a + pat + b) {
        let (a, b) = choose|a: Seq<char>, b: Seq<char>| s == #[trigger] (a + pat + b);
        assert(s.skip(a.len() as int) =~= pat + b);
        assert((pat + b).subrange(0, pat.len() as int) =~= pat);
        assert(occurs_at(s, pat, a.len() as int));
    }
}

/// In a text of ASCII characters the letters from A to Z become small and the
/// others stay.
pub proof fn law_ascii_lowercase(s: Seq<char>, i: int)
    requires
        forall|k: int| 0 <= k < s.len() ==> (#[trigger] s[k] as u32) < 0x80,
        0 <= i < s.len(),
    ensures
        lowercase(s).len() == s.len(),
        'A' <= s[i] <= 'Z' ==> lowercase(s)[i] as u32 == s[i] as u32 + 32,
        !('A' <= s[i] <= 'Z') ==> lowercase(s)[i] == s[i],
{
    assert(is_ascii(s));
}

/// A text in the middle of others occurs in the whole.
pub proof fn law_occurs_in_middle(a: Seq<char>, m: Seq<char>, b: Seq<char>)
    ensures
        occurs(a + m + b, m),
{
    law_occurs(a + m + b, m);
}

/// What occurs in a text occurs in everything that holds the text.
pub proof fn law_occurs_within(a: Seq<char>, s: Seq<char>, b: Seq<char>, m: Seq<char>)
    requires
        occurs(s, m),
    ensures
        occurs(a + s + b, m),
{
    law_occurs(s, m);
    let (x, y) = choose|x: Seq<char>, y: Seq<char>| s == #[trigger] (x + m + y);
    assert(a + s + b =~= (a + x) + m + (y + b));
    law_occurs_in_middle(a + x, m, y + b);
}

/// What stands behind a front is what is left of it, and a text that does not begin
/// with it has nothing behind it.
pub proof fn law_after_prefix(front: Seq<char>, rest: Seq<char>, s: Seq<char>)
    ensures
        after_prefix(front + rest, front) == Some(rest),
        after_prefix(s, front) is Some <==> front.is_prefix_of(s),
        after_prefix(s, front) matches Some(r) ==> s == front + r,
{
    let t = front + rest;
    assert(t.subrange(0, front.len() as int) =~= front);
    assert(t.skip(front.len() as int) =~= rest);
    if front.is_prefix_of(s) {
        assert(s.subrange(0, front.len() as int) =~= front);
        assert(s =~= front + s.skip(front.len() as int)) by {
            assert forall|i: int| 0 <= i < s.len() implies s[i] == (front + s.skip(
                front.len() as int,
            ))[i] by {
                if i < front.len() {
                    assert(s.subrange(0, front.len() as int)[i] == front[i]);
                }
            }
        }
    }
}

/// Names that differ only in the case of ASCII letters are the same, and others are
/// not: two ASCII texts are the same but for case exactly if they are the same in
/// lower case.
pub proof fn law_same_but_case(a: Seq<char>, b: Seq<char>)
    requires
        forall|i: int| 0 <= i < a.len() ==> (#[trigger] a[i] as u32) < 0x80,
        forall|i: int| 0 <= i < b.len() ==> (#[trigger] b[i] as u32) < 0x80,
    ensures
        same_but_case(a, b) <==> lowercase(a) == lowercase(b),
        same_but_case(a, a),
        same_but_case(seq!['A'], seq!['a']),
        !same_but_case(seq!['a'], seq!['b']),
{
    assert(is_ascii(a) && is_ascii(b));
    if lowercase(a) == lowercase(b) {
        assert(lowercase(a).len() == a.len() && lowercase(b).len() == b.len());
        assert forall|i: int| 0 <= i < a.len() implies ascii_lower(#[trigger] a[i]) == ascii_lower(
            b[i],
        ) by {
            assert(lowercase(a)[i] == ascii_lower(a[i]));
            assert(lowercase(b)[i] == ascii_lower(b[i]));
        }
    }
    if same_but_case(a, b) {
        assert(lowercase(a) =~= lowercase(b));
    }
    let x = seq!['a'];
    let y = seq!['b'];
    assert(x[0] == 'a' && y[0] == 'b');
}

} // verus!
