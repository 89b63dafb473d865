//! Numbers as text, padding, and sizes in bytes.

use crate::text::{cat2, chars_of, string_of};
use vstd::prelude::*;
use vstd::slice::slice_subrange;
use vstd::string::*;

verus! {

// ── Decimal ─────────────────────────────────────────────────────────────────

/// The digit for a value below ten.
pub open spec fn digit(d: int) -> char {
    if d <= 0 {
        '0'
    } else if d == 1 {
        '1'
    } else if d == 2 {
        '2'
    } else if d == 3 {
        '3'
    } else if d == 4 {
        '4'
    } else if d == 5 {
        '5'
    } else if d == 6 {
        '6'
    } else if d == 7 {
        '7'
    } else if d == 8 {
        '8'
    } else {
        '9'
    }
}

/// `n` in decimal.
pub open spec fn decimal(n: nat) -> Seq<char>
    decreases n,
{
    if n < 10 {
        seq![digit(n as int)]
    } else {
        decimal(n / 10).push(digit((n % 10) as int))
    }
}

fn digit_char(d: u64) -> (r: char)
    requires
        d < 10,
    ensures
        r == digit(d as int),
{
    if d == 0 {
        '0'
    } else if d == 1 {
        '1'
    } else if d == 2 {
        '2'
    } else if d == 3 {
        '3'
    } else if d == 4 {
        '4'
    } else if d == 5 {
        '5'
    } else if d == 6 {
        '6'
    } else if d == 7 {
        '7'
    } else if d == 8 {
        '8'
    } else {
        '9'
    }
}

/// `n` in decimal.
pub fn show_u64(n: u64) -> (r: String)
    ensures
        r@ == decimal(n as nat),
    decreases n,
{
    if n < 10 {
        let mut s = String::new();
        s.push(digit_char(n));
        assert(s@ =~= seq![digit(n as int)]);
        s
    } else {
        let mut s = show_u64(n / 10);
        s.push(digit_char(n % 10));
        s
    }
}

/// `n` in decimal.
pub fn show(n: usize) -> (r: String)
    ensures
        r@ == decimal(n as nat),
{
    show_u64(n as u64)
}

/// `n` in decimal, with a minus sign in front of a negative value.
pub open spec fn signed_decimal(n: int) -> Seq<char> {
    if n < 0 {
        seq!['-'] + decimal((-n) as nat)
    } else {
        decimal(n as nat)
    }
}

/// `n` in decimal.
pub fn show_i32(n: i32) -> (r: String)
    ensures
        r@ == signed_decimal(n as int),
{
    if n < 0 {
        let m: i64 = -(n as i64);
        let d = show_u64(m as u64);
        let mut s = String::new();
        s.push('-');
        assert(s@ =~= seq!['-']);
        cat2(s.as_str(), d.as_str())
    } else {
        show_u64(n as u64)
    }
}

// ── Reading decimals ────────────────────────────────────────────────────────

/// The value of a digit, or -1.
pub open spec fn digit_value(c: char) -> int {
    if '0' <= c <= '9' {
        c as int - '0' as int
    } else {
        -1
    }
}

/// Whether `s` is made of digits alone.
pub open spec fn all_digits(s: Seq<char>) -> bool {
    forall|i: int| 0 <= i < s.len() ==> digit_value(#[trigger] s[i]) >= 0
}

/// The number that a row of digits stands for.
pub open spec fn digits_value(s: Seq<char>) -> nat
    decreases s.len(),
{
    if s.len() == 0 {
        0
    } else {
        (10 * digits_value(s.drop_last()) + digit_value(s.last())) as nat
    }
}

/// The digits of a number in text: what follows one optional plus sign.
pub open spec fn unsigned_digits(s: Seq<char>) -> Seq<char> {
    if s.len() > 0 && s[0] == '+' {
        s.drop_first()
    } else {
        s
    }
}

/// The number that `s` stands for, if it is a row of digits, with a plus sign
/// in front or not, and is at most `max`.
pub open spec fn parsed(s: Seq<char>, max: nat) -> Option<nat> {
    let d = unsigned_digits(s);
    if d.len() > 0 && all_digits(d) && digits_value(d) <= max {
        Some(digits_value(d))
    } else {
        None
    }
}

proof fn lemma_digits_value_grows(s: Seq<char>, i: int)
    requires
        all_digits(s),
        0 <= i <= s.len(),
    ensures
        digits_value(s.take(i)) <= digits_value(s),
    decreases s.len(),
{
    if i < s.len() {
        let t = s.drop_last();
        assert forall|k: int| 0 <= k < t.len() implies digit_value(#[trigger] t[k]) >= 0 by {
            assert(t[k] == s[k]);
        }
        lemma_digits_value_grows(t, i);
        assert(t.take(i) =~= s.take(i));
        assert(digit_value(s[s.len() - 1]) >= 0);
    } else {
        assert(s.take(i) =~= s);
    }
}

/// Reads a decimal number of at most `max`.
pub fn parse_up_to(s: &str, max: u64) -> (r: Option<u64>)
    ensures
        match r {
            Some(n) => parsed(s@, max as nat) == Some(n as nat),
            None => parsed(s@, max as nat) is None,
        },
{
    let v = chars_of(s);
    let mut i: usize = 0;
    if v.len() > 0 && v[0] == '+' {
        i = 1;
    }
    let from = i;
    let ghost d = unsigned_digits(s@);
    assert(d =~= v@.skip(from as int));
    if i == v.len() {
        return None;
    }
    let mut n: u64 = 0;
    while i < v.len()
        invariant
            from <= i <= v@.len(),
            d == v@.skip(from as int),
            d == unsigned_digits(s@),
            d.len() > 0,
            forall|k: int| 0 <= k < i - from ==> digit_value(#[trigger] d[k]) >= 0,
            n == digits_value(d.take(i - from)),
            n <= max,
        decreases v@.len() - i,
    {
        let c = v[i];
        assert(d[i - from] == c);
        if c < '0' || c > '9' {
            assert(digit_value(d[i - from]) < 0);
            return None;
        }
        let x: u64 = c as u64 - '0' as u64;
        assert(d.take(i - from + 1).drop_last() =~= d.take(i - from));
        assert(digits_value(d.take(i - from + 1)) == 10 * n + x);
        if x > max || n > max / 10 || 10 * n > max - x {
            proof {
                if all_digits(d) {
                    lemma_digits_value_grows(d, i - from + 1);
                }
            }
            return None;
        }
        n = 10 * n + x;
        i += 1;
    }
    assert(d.take(i - from) =~= d);
    Some(n)
}

/// Reads a decimal number that fits in a `usize`.
pub fn parse_usize(s: &str) -> (r: Option<usize>)
    ensures
        match r {
            Some(n) => parsed(s@, usize::MAX as nat) == Some(n as nat),
            None => parsed(s@, usize::MAX as nat) is None,
        },
{
    match parse_up_to(s, usize::MAX as u64) {
        Some(n) => Some(n as usize),
        None => None,
    }
}

// ── Hexadecimal ─────────────────────────────────────────────────────────────

/// The lowercase hexadecimal digit for a value below sixteen.
pub open spec fn hex_digit(d: int) -> char {
    if d < 10 {
        digit(d)
    } else if d == 10 {
        'a'
    } else if d == 11 {
        'b'
    } else if d == 12 {
        'c'
    } else if d == 13 {
        'd'
    } else if d == 14 {
        'e'
    } else {
        'f'
    }
}

/// The last `width` hexadecimal digits of `n`, zeros in front.
pub open spec fn hex(n: nat, width: nat) -> Seq<char>
    decreases width,
{
    if width == 0 {
        Seq::empty()
    } else {
        hex(n / 16, (width - 1) as nat).push(hex_digit((n % 16) as int))
    }
}

/// The last `width` hexadecimal digits of `n`.
pub fn show_hex(n: u64, width: u32) -> (r: String)
    ensures
        r@ == hex(n as nat, width as nat),
    decreases width,
{
    if width == 0 {
        String::new()
    } else {
        let mut s = show_hex(n / 16, width - 1);
        let d = n % 16;
        let c = if d < 10 {
            digit_char(d)
        } else if d == 10 {
            'a'
        } else if d == 11 {
            'b'
        } else if d == 12 {
            'c'
        } else if d == 13 {
            'd'
        } else if d == 14 {
            'e'
        } else {
            'f'
        };
        s.push(c);
        s
    }
}

// ── Padding ─────────────────────────────────────────────────────────────────

/// `n` spaces.
pub open spec fn spaces(n: nat) -> Seq<char> {
    Seq::new(n, |i: int| ' ')
}

/// `s` filled up with spaces to `width` characters.
pub open spec fn padded(s: Seq<char>, width: nat) -> Seq<char> {
    if s.len() >= width {
        s
    } else {
        s + spaces((width - s.len()) as nat)
    }
}

/// `s` with spaces in front of it up to `width` characters.
pub open spec fn padded_front(s: Seq<char>, width: nat) -> Seq<char> {
    if s.len() >= width {
        s
    } else {
        spaces((width - s.len()) as nat) + s
    }
}

/// `n` spaces.
pub fn make_spaces(n: usize) -> (r: String)
    ensures
        r@ == spaces(n as nat),
{
    let mut s = String::new();
    let mut i: usize = 0;
    assert(s@ =~= spaces(0));
    while i < n
        invariant
            i <= n,
            s@ == spaces(i as nat),
        decreases n - i,
    {
        s.push(' ');
        i += 1;
        assert(s@ =~= spaces(i as nat));
    }
    s
}

/// Fills `s` up with spaces to `width` characters.
pub fn pad(s: &str, width: usize) -> (r: String)
    ensures
        r@ == padded(s@, width as nat),
{
    let n = chars_of(s).len();
    if n >= width {
        s.to_string()
    } else {
        let sp = make_spaces(width - n);
        cat2(s, sp.as_str())
    }
}

/// Puts spaces in front of `s` up to `width` characters.
pub fn pad_front(s: &str, width: usize) -> (r: String)
    ensures
        r@ == padded_front(s@, width as nat),
{
    let n = chars_of(s).len();
    if n >= width {
        s.to_string()
    } else {
        let sp = make_spaces(width - n);
        cat2(sp.as_str(), s)
    }
}

// ── Prefixes ────────────────────────────────────────────────────────────────

/// At most the first `n` characters of `s`.
pub open spec fn first_chars(s: Seq<char>, n: nat) -> Seq<char> {
    if s.len() <= n {
        s
    } else {
        s.take(n as int)
    }
}

/// At most the first `n` characters of `s`.
pub fn take_chars(s: &str, n: usize) -> (r: String)
    ensures
        r@ == first_chars(s@, n as nat),
{
    let v = chars_of(s);
    if v.len() <= n {
        s.to_string()
    } else {
        string_of(slice_subrange(v.as_slice(), 0, n))
    }
}

/// How many bytes UTF-8 takes for a character.
pub open spec fn char_size(c: char) -> nat {
    if (c as u32) < 0x80 {
        1
    } else if (c as u32) < 0x800 {
        2
    } else if (c as u32) < 0x10000 {
        3
    } else {
        4
    }
}

/// How many bytes UTF-8 takes for a text.
pub open spec fn byte_len(s: Seq<char>) -> nat
    decreases s.len(),
{
    if s.len() == 0 {
        0
    } else {
        byte_len(s.drop_last()) + char_size(s.last())
    }
}

fn size_of_char(c: char) -> (r: usize)
    ensures
        r == char_size(c),
        1 <= r <= 4,
{
    let u = c as u32;
    if u < 0x80 {
        1
    } else if u < 0x800 {
        2
    } else if u < 0x10000 {
        3
    } else {
        4
    }
}

/// A text takes as many bytes as its parts.
pub proof fn lemma_byte_len_add(a: Seq<char>, b: Seq<char>)
    ensures
        byte_len(a + b) == byte_len(a) + byte_len(b),
    decreases b.len(),
{
    if b.len() == 0 {
        assert(a + b =~= a);
    } else {
        lemma_byte_len_add(a, b.drop_last());
        assert((a + b).drop_last() =~= a + b.drop_last());
    }
}

proof fn lemma_scalar_len(c: char)
    ensures
        vstd::utf8::encode_scalar(c as u32).len() == char_size(c),
{
    let u = c as u32;
    assert(vstd::utf8::is_scalar(u));
}

/// The UTF-8 encoding of a text has `byte_len` bytes.
pub proof fn lemma_utf8_len(s: Seq<char>)
    ensures
        vstd::utf8::encode_utf8(s).len() == byte_len(s),
    decreases s.len(),
{
    if s.len() > 0 {
        lemma_utf8_len(s.drop_first());
        let one = seq![s[0]];
        assert(one + s.drop_first() =~= s);
        lemma_byte_len_add(one, s.drop_first());
        reveal_with_fuel(byte_len, 2);
        assert(byte_len(one) == char_size(s[0]));
        lemma_scalar_len(s[0]);
    }
}

/// How many bytes a string takes.
pub fn byte_size(s: &str) -> (r: usize)
    ensures
        r == byte_len(s@),
{
    proof {
        lemma_utf8_len(s@);
    }
    s.as_bytes().len()
}

/// A prefix takes no more bytes than the whole.
pub proof fn lemma_byte_len_prefix(s: Seq<char>, i: int, j: int)
    requires
        0 <= i <= j <= s.len(),
    ensures
        byte_len(s.take(i)) <= byte_len(s.take(j)),
    decreases j - i,
{
    if i < j {
        lemma_byte_len_prefix(s, i, j - 1);
        assert(s.take(j).drop_last() =~= s.take(j - 1));
    }
}

/// The size of a text in bytes, counted up to `cap`: a larger size comes back
/// as some number above `cap`.
pub fn byte_len_capped(s: &[char], cap: usize) -> (r: usize)
    requires
        cap < usize::MAX - 4,
    ensures
        byte_len(s@) <= cap ==> r == byte_len(s@),
        byte_len(s@) > cap ==> r > cap,
{
    let mut n: usize = 0;
    let mut i: usize = 0;
    while i < s.len()
        invariant
            i <= s@.len(),
            n == byte_len(s@.take(i as int)),
            n <= cap,
            cap < usize::MAX - 4,
        decreases s@.len() - i,
    {
        assert(s@.take(i + 1).drop_last() =~= s@.take(i as int));
        n += size_of_char(s[i]);
        i += 1;
        if n > cap {
            proof {
                lemma_byte_len_prefix(s@, i as int, s@.len() as int);
                assert(s@.take(s@.len() as int) =~= s@);
            }
            return n;
        }
    }
    assert(s@.take(i as int) =~= s@);
    n
}

/// How many characters of `s` fit into `n` bytes.
pub open spec fn fitting(s: Seq<char>, n: nat) -> int
    decreases s.len(),
{
    if byte_len(s) <= n {
        s.len() as int
    } else {
        fitting(s.drop_last(), n)
    }
}

/// The longest prefix of `s` that fits into `n` bytes.
pub open spec fn byte_prefix(s: Seq<char>, n: nat) -> Seq<char> {
    s.take(fitting(s, n))
}

proof fn lemma_fitting(s: Seq<char>, n: nat, k: int)
    requires
        0 <= k <= s.len(),
        byte_len(s.take(k)) <= n,
        k < s.len() ==> byte_len(s.take(k + 1)) > n,
    ensures
        fitting(s, n) == k,
    decreases s.len(),
{
    assert(s.take(s.len() as int) =~= s);
    if k < s.len() {
        lemma_byte_len_prefix(s, k + 1, s.len() as int);
        let t = s.drop_last();
        assert(t.take(k) =~= s.take(k));
        if k + 1 <= t.len() {
            assert(t.take(k + 1) =~= s.take(k + 1));
        }
        lemma_fitting(t, n, k);
    }
}

/// The longest prefix of `s` that fits into `n` bytes.
pub fn take_bytes<'a>(s: &'a [char], n: usize) -> (r: &'a [char])
    requires
        n < usize::MAX - 4,
    ensures
        r@ == byte_prefix(s@, n as nat),
{
    let mut used: usize = 0;
    let mut i: usize = 0;
    while i < s.len()
        invariant
            i <= s@.len(),
            used == byte_len(s@.take(i as int)),
            used <= n,
            n < usize::MAX - 4,
        decreases s@.len() - i,
    {
        assert(s@.take(i + 1).drop_last() =~= s@.take(i as int));
        let w = size_of_char(s[i]);
        if used + w > n {
            proof {
                lemma_fitting(s@, n as nat, i as int);
            }
            return slice_subrange(s, 0, i);
        }
        used += w;
        i += 1;
    }
    proof {
        lemma_fitting(s@, n as nat, i as int);
    }
    slice_subrange(s, 0, i)
}

// ── Laws of numbers and sizes ───────────────────────────────────────────────

proof fn lemma_digit(d: int)
    requires
        0 <= d < 10,
    ensures
        digit(d) as u32 == 48 + d,
        digit_value(digit(d)) == d,
{
}

/// A number in decimal reads back as that number, in digits alone and without a
/// zero in front.
pub proof fn law_decimal_reads_back(n: nat, max: nat)
    ensures
        all_digits(decimal(n)),
        digits_value(decimal(n)) == n,
        decimal(n).len() > 0,
        n > 0 ==> decimal(n)[0] != '0',
        n <= max ==> parsed(decimal(n), max) == Some(n),
        n <= max ==> parsed(seq!['+'] + decimal(n), max) == Some(n),
        n > max ==> parsed(decimal(n), max) is None,
    decreases n,
{
    let s = decimal(n);
    lemma_digit((n % 10) as int);
    if n < 10 {
        reveal_with_fuel(digits_value, 2);
        assert(s.drop_last() =~= Seq::<char>::empty());
        assert(s[0] == digit(n as int));
        lemma_digit(n as int);
    } else {
        law_decimal_reads_back(n / 10, max);
        let t = decimal(n / 10);
        assert(s.drop_last() =~= t);
        assert(s[0] == t[0]);
        assert forall|i: int| 0 <= i < s.len() implies digit_value(#[trigger] s[i]) >= 0 by {
            if i < t.len() {
                assert(s[i] == t[i]);
            }
        }
    }
    assert(digit_value(s[0]) >= 0);
    assert((seq!['+'] + s).drop_first() =~= s);
}

/// A text that is no row of digits is no number.
pub proof fn law_other_texts_are_no_numbers(s: Seq<char>, i: int, max: nat)
    requires
        0 <= i < s.len(),
        !('0' <= s[i] <= '9'),
        i > 0 || s[i] != '+',
    ensures
        parsed(s, max) is None,
{
    let d = unsigned_digits(s);
    if s[0] == '+' {
        assert(d[i - 1] == s[i]);
        assert(digit_value(d[i - 1]) < 0);
    } else {
        assert(digit_value(d[i]) < 0);
    }
}

/// A negative number is its positive with a minus sign in front.
pub proof fn law_signed_decimal(n: nat)
    requires
        n > 0,
    ensures
        signed_decimal(-n) == seq!['-'] + signed_decimal(n as int),
        digits_value(signed_decimal(n as int)) == n,
{
    law_decimal_reads_back(n, n);
}

/// Filling up with spaces keeps the text and comes to the width, or to the length
/// of the text where that is more.
pub proof fn law_padded(s: Seq<char>, width: nat)
    ensures
        padded(s, width).len() == (if s.len() > width {
            s.len()
        } else {
            width
        }),
        padded_front(s, width).len() == padded(s, width).len(),
        padded(s, width).take(s.len() as int) == s,
        padded_front(s, width).skip(padded_front(s, width).len() - s.len()) == s,
        forall|i: int| s.len() <= i < padded(s, width).len() ==> padded(s, width)[i] == ' ',
        forall|i: int|
            0 <= i < padded_front(s, width).len() - s.len() ==> padded_front(s, width)[i] == ' ',
{
    assert(padded(s, width).take(s.len() as int) =~= s);
    assert(padded_front(s, width).skip(padded_front(s, width).len() - s.len()) =~= s);
}

/// The first characters of a text are its front, as many as asked for or as there
/// are.
pub proof fn law_first_chars(a: Seq<char>, b: Seq<char>)
    ensures
        first_chars(a + b, a.len()) == a,
        first_chars(a, a.len() + b.len()) == a,
{
    assert(first_chars(a + b, a.len()) =~= a);
}

/// The prefix of a text that fits into some bytes fits, and one character more
/// does not.
pub proof fn law_byte_prefix(s: Seq<char>, n: nat)
    ensures
        byte_prefix(s, n).is_prefix_of(s),
        byte_len(byte_prefix(s, n)) <= n,
        byte_prefix(s, n).len() < s.len() ==> byte_len(
            s.take(byte_prefix(s, n).len() as int + 1),
        ) > n,
    decreases s.len(),
{
    if byte_len(s) <= n {
        assert(s.take(s.len() as int) =~= s);
    } else {
        if s.len() > 0 {
            let t = s.drop_last();
            law_byte_prefix(t, n);
            let k = fitting(t, n);
            assert(0 <= k <= t.len()) by {
                lemma_fitting_range(t, n);
            }
            assert(s.take(k) =~= t.take(k));
            if k < t.len() {
                assert(t.take(k + 1) =~= s.take(k + 1));
            } else {
                assert(s.take(k + 1) =~= s);
            }
        }
    }
    assert(0 <= fitting(s, n) <= s.len()) by {
        lemma_fitting_range(s, n);
    }
    assert(s.subrange(0, fitting(s, n)) =~= s.take(fitting(s, n)));
}

proof fn lemma_fitting_range(s: Seq<char>, n: nat)
    ensures
        0 <= fitting(s, n) <= s.len(),
    decreases s.len(),
{
    if byte_len(s) > n {
        lemma_fitting_range(s.drop_last(), n);
    }
}

proof fn lemma_hex_digit(d: int)
    requires
        0 <= d < 16,
    ensures
        d < 10 ==> hex_digit(d) as u32 == 48 + d,
        d >= 10 ==> hex_digit(d) as u32 == 87 + d,
{
}

/// Two numbers with the same hexadecimal digits are the same, where the digits
/// suffice for both.
pub proof fn law_hex_tells_apart(m: nat, n: nat, width: nat)
    requires
        m < vstd::arithmetic::power::pow(16, width),
        n < vstd::arithmetic::power::pow(16, width),
        hex(m, width) == hex(n, width),
    ensures
        m == n,
        hex(m, width).len() == width,
    decreases width,
{
    vstd::arithmetic::power::lemma_pow0(16);
    if width > 0 {
        vstd::arithmetic::power::lemma_pow_adds(16, 1, (width - 1) as nat);
        vstd::arithmetic::power::lemma_pow1(16);
        let w = (width - 1) as nat;
        assert(hex(m, width).drop_last() =~= hex(m / 16, w));
        assert(hex(n, width).drop_last() =~= hex(n / 16, w));
        assert(hex(m, width).last() == hex_digit((m % 16) as int));
        assert(hex(n, width).last() == hex_digit((n % 16) as int));
        lemma_hex_digit((m % 16) as int);
        lemma_hex_digit((n % 16) as int);
        assert(m % 16 == n % 16);
        law_hex_tells_apart(m / 16, n / 16, w);
        assert(m == 16 * (m / 16) + m % 16);
        assert(n == 16 * (n / 16) + n % 16);
    }
}

/// The length of a text in bytes is that of its UTF-8 form; those of two texts one
/// behind the other add up, and an ASCII text has a byte for each character.
pub proof fn law_byte_len(a: Seq<char>, b: Seq<char>)
    ensures
        byte_len(a) == vstd::utf8::encode_utf8(a).len(),
        byte_len(a + b) == byte_len(a) + byte_len(b),
        (forall|i: int| 0 <= i < a.len() ==> (#[trigger] a[i] as u32) < 0x80) ==> byte_len(a)
            == a.len(),
    decreases a.len() + b.len(),
{
    lemma_utf8_len(a);
    if b.len() == 0 {
        assert(a + b =~= a);
    } else {
        law_byte_len(a, b.drop_last());
        assert((a + b).drop_last() =~= a + b.drop_last());
    }
    if forall|i: int| 0 <= i < a.len() ==> (#[trigger] a[i] as u32) < 0x80 {
        if a.len() > 0 {
            let init = a.drop_last();
            assert forall|i: int| 0 <= i < init.len() implies (#[trigger] init[i] as u32)
                < 0x80 by {
                assert(init[i] == a[i]);
            }
            law_byte_len(init, Seq::empty());
            assert((a[a.len() - 1] as u32) < 0x80);
        }
    }
}

} // verus!
