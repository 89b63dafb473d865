//! A line scan that finds the names a source file declares.
//!
//! Not a parser: each line is looked at on its own, by the rules of the
//! language that the file's extension stands for.

use crate::split::{self, split_lines, split_words};
use crate::text::{
    self, chars_of, ends, find, find_sub, same, starts, string_of, strip_front, take_until, trim,
    trim_both, trim_left, trim_right, CharClass,
};
use vstd::prelude::*;
use vstd::slice::slice_subrange;

verus! {

broadcast use split::lemma_texts_push;

// ── Keywords ────────────────────────────────────────────────────────────────

/// Whether a keyword may end where `rest` follows it: at whitespace, `(`, `<` or
/// the end, and not within a longer word, as in "fnord" or "fn_ptr".
pub open spec fn ends_keyword(rest: Seq<char>) -> bool {
    rest.len() == 0 || text::char_whitespace(rest[0]) || rest[0] == '(' || rest[0] == '<'
}

/// What follows the keyword `kw` at the front of `line`, without the
/// whitespace between the two. None if the line does not start with it, or if
/// the word only begins with it.
pub open spec fn keyword_rest(line: Seq<char>, kw: Seq<char>) -> Option<Seq<char>> {
    match text::after_prefix(line, kw) {
        Some(rest) => if ends_keyword(rest) {
            Some(text::left_trimmed(rest, text::white()))
        } else {
            None
        },
        None => None,
    }
}

/// What follows the first of two keywords that stands at the front of `line`.
pub open spec fn either_rest(line: Seq<char>, a: Seq<char>, b: Seq<char>) -> Option<Seq<char>> {
    match keyword_rest(line, a) {
        Some(rest) => Some(rest),
        None => keyword_rest(line, b),
    }
}

/// Strips a leading keyword and the whitespace that follows it.
pub fn strip_keyword<'a>(line: &'a [char], kw: &str) -> (r: Option<&'a [char]>)
    ensures
        match r {
            Some(t) => keyword_rest(line@, kw@) == Some(t@),
            None => keyword_rest(line@, kw@) is None,
        },
{
    match strip_front(line, kw) {
        Some(rest) => {
            if rest.len() > 0 {
                let next = rest[0];
                if !next.is_whitespace() && next != '(' && next != '<' {
                    return None;
                }
            }
            Some(trim_left(rest, CharClass::White))
        },
        None => None,
    }
}

fn strip_either<'a>(line: &'a [char], a: &str, b: &str) -> (r: Option<&'a [char]>)
    ensures
        match r {
            Some(t) => either_rest(line@, a@, b@) == Some(t@),
            None => either_rest(line@, a@, b@) is None,
        },
{
    match strip_keyword(line, a) {
        Some(t) => Some(t),
        None => strip_keyword(line, b),
    }
}

// ── Names ───────────────────────────────────────────────────────────────────

/// The characters that end a name, besides whitespace.
pub open spec fn name_ends() -> Seq<char> {
    "{(=<:;"@
}

/// The identifier that `rest` begins with: up to whitespace or one of
/// `{ ( = < : ;`, without the pointer and quote marks around it.
pub open spec fn name_in(rest: Seq<char>) -> Seq<char> {
    text::both_trimmed(
        text::until(text::trimmed(rest), text::white_or(name_ends())),
        text::among("*&\"'"@),
    )
}

/// Takes the identifier that follows a keyword.
pub fn symbol_name(rest: &[char]) -> (r: String)
    ensures
        r@ == name_in(rest@),
{
    let head = take_until(trim(rest), CharClass::WhiteOr("{(=<:;"));
    string_of(trim_both(head, CharClass::In("*&\"'")))
}

/// The name in front of an argument list, without the type parameters that may
/// stand between the two.
pub open spec fn name_before_parens(rest: Seq<char>) -> Seq<char> {
    text::trimmed(text::until(text::left_trimmed(rest, text::white()), text::among("(<"@)))
}

/// Takes the identifier in front of an argument list.
pub fn ident_after_parens(rest: &[char]) -> (r: Option<String>)
    ensures
        r matches Some(s) && s@ == name_before_parens(rest@),
{
    let r = trim_left(rest, CharClass::White);
    Some(string_of(trim(take_until(r, CharClass::In("(<")))))
}

/// Whether the character at `i` closes a bracket of type parameters: a `>` that
/// is not part of an arrow.
pub open spec fn closes_angle(s: Seq<char>, i: int) -> bool {
    s[i] == '>' && !(i > 0 && s[i - 1] == '-')
}

/// How many brackets of type parameters are open behind the first `n`
/// characters.
pub open spec fn angle_depth(s: Seq<char>, n: int) -> int
    decreases n,
{
    if n <= 0 {
        0
    } else {
        angle_depth(s, n - 1) + (if s[n - 1] == '<' {
            1int
        } else if closes_angle(s, n - 1) {
            -1
        } else {
            0
        })
    }
}

/// The first place from `n` on, but not before the first character, behind which
/// no bracket is open; the end of the text if there is none.
pub open spec fn angle_end(s: Seq<char>, n: int) -> int
    decreases s.len() - n,
{
    if n >= s.len() {
        s.len() as int
    } else if n > 0 && angle_depth(s, n) == 0 {
        n
    } else {
        angle_end(s, n + 1)
    }
}

/// What follows the type parameters at the front of `r`, up to the `>` that
/// matches the leading `<`; `r` itself if there is no such bracket.
pub open spec fn after_generics(r: Seq<char>) -> Seq<char> {
    if r.len() > 0 && r[0] == '<' && angle_depth(r, angle_end(r, 0)) == 0 {
        r.skip(angle_end(r, 0))
    } else {
        r
    }
}

/// Skips the type parameters at the front of a text.
fn skip_generics<'a>(r: &'a [char]) -> (t: &'a [char])
    ensures
        t@ == after_generics(r@),
{
    if r.len() == 0 || r[0] != '<' {
        return r;
    }
    let mut n: usize = 1;
    let mut open: usize = 1;
    assert(angle_depth(r@, 0) == 0);
    assert(angle_end(r@, 0) == angle_end(r@, 1));
    while n < r.len() && open > 0
        invariant
            1 <= n <= r@.len(),
            open <= n,
            open == angle_depth(r@, n as int),
            angle_end(r@, 0) == angle_end(r@, n as int),
        decreases r@.len() - n,
    {
        let c = r[n];
        if c == '<' {
            open += 1;
        } else if c == '>' && r[n - 1] != '-' {
            open -= 1;
        }
        n += 1;
    }
    if open > 0 {
        return r;
    }
    slice_subrange(r, n, r.len())
}

/// The name that follows `impl`: behind its type parameters and without the
/// brackets at its front.
pub open spec fn implemented_in(r: Seq<char>) -> Seq<char> {
    name_in(text::left_trimmed(after_generics(r), text::among("<("@)))
}

// ── Languages ───────────────────────────────────────────────────────────────

/// The name that a line of Rust declares.
pub open spec fn rust_symbol(t: Seq<char>) -> Option<Seq<char>> {
    if let Some(r) = either_rest(t, "pub fn"@, "fn"@) {
        Some(name_before_parens(r))
    } else if let Some(r) = either_rest(t, "pub struct"@, "struct"@) {
        Some(name_in(r))
    } else if let Some(r) = either_rest(t, "pub enum"@, "enum"@) {
        Some(name_in(r))
    } else if let Some(r) = either_rest(t, "pub trait"@, "trait"@) {
        Some(name_in(r))
    } else if let Some(r) = keyword_rest(t, "impl"@) {
        Some(implemented_in(r))
    } else if let Some(r) = either_rest(t, "pub type"@, "type"@) {
        Some(name_in(r))
    } else if let Some(r) = either_rest(t, "const"@, "static"@) {
        Some(name_in(r))
    } else {
        None
    }
}

fn scan_rust(t: &[char]) -> (r: Option<String>)
    ensures
        split::opt_text(r) == rust_symbol(t@),
{
    if let Some(r) = strip_either(t, "pub fn", "fn") {
        ident_after_parens(r)
    } else if let Some(r) = strip_either(t, "pub struct", "struct") {
        Some(symbol_name(r))
    } else if let Some(r) = strip_either(t, "pub enum", "enum") {
        Some(symbol_name(r))
    } else if let Some(r) = strip_either(t, "pub trait", "trait") {
        Some(symbol_name(r))
    } else if let Some(r) = strip_keyword(t, "impl") {
        Some(symbol_name(trim_left(skip_generics(r), CharClass::In("<("))))
    } else if let Some(r) = strip_either(t, "pub type", "type") {
        Some(symbol_name(r))
    } else if let Some(r) = strip_either(t, "const", "static") {
        Some(symbol_name(r))
    } else {
        None
    }
}

/// What follows the first `)` of a text; nothing if there is none.
pub open spec fn after_receiver(r: Seq<char>) -> Seq<char> {
    let i = text::find_first(r, text::among(")"@));
    if i < r.len() {
        r.skip(i + 1)
    } else {
        Seq::empty()
    }
}

/// The name that a line of Go declares. A method's name follows its receiver.
pub open spec fn go_symbol(t: Seq<char>) -> Option<Seq<char>> {
    if let Some(r) = keyword_rest(t, "func"@) {
        if "("@.is_prefix_of(r) {
            Some(name_in(text::trimmed(after_receiver(r))))
        } else {
            Some(text::trimmed(text::until(r, text::among("("@))))
        }
    } else if let Some(r) = keyword_rest(t, "type"@) {
        Some(name_in(r))
    } else if let Some(r) = either_rest(t, "const"@, "var"@) {
        Some(name_in(r))
    } else {
        None
    }
}

fn scan_go(t: &[char]) -> (r: Option<String>)
    ensures
        split::opt_text(r) == go_symbol(t@),
{
    if let Some(r) = strip_keyword(t, "func") {
        if starts(r, "(") {
            let i = find(r, CharClass::In(")"));
            let after = if i < r.len() {
                slice_subrange(r, i + 1, r.len())
            } else {
                assert(r@.subrange(0, 0) =~= Seq::<char>::empty());
                slice_subrange(r, 0, 0)
            };
            Some(symbol_name(trim(after)))
        } else {
            Some(string_of(trim(take_until(r, CharClass::In("(")))))
        }
    } else if let Some(r) = strip_keyword(t, "type") {
        Some(symbol_name(r))
    } else if let Some(r) = strip_either(t, "const", "var") {
        Some(symbol_name(r))
    } else {
        None
    }
}

/// The name that a line of Python declares.
pub open spec fn python_symbol(t: Seq<char>) -> Option<Seq<char>> {
    if let Some(r) = either_rest(t, "async def"@, "def"@) {
        Some(name_in(r))
    } else if let Some(r) = keyword_rest(t, "class"@) {
        Some(name_in(r))
    } else {
        None
    }
}

fn scan_python(t: &[char]) -> (r: Option<String>)
    ensures
        split::opt_text(r) == python_symbol(t@),
{
    if let Some(r) = strip_either(t, "async def", "def") {
        Some(symbol_name(r))
    } else if let Some(r) = strip_keyword(t, "class") {
        Some(symbol_name(r))
    } else {
        None
    }
}

/// The name that a line of JavaScript or TypeScript declares.
pub open spec fn script_symbol(t: Seq<char>) -> Option<Seq<char>> {
    if let Some(r) = either_rest(t, "export function"@, "function"@) {
        Some(name_in(r))
    } else if let Some(r) = either_rest(t, "export class"@, "class"@) {
        Some(name_in(r))
    } else if let Some(r) = either_rest(t, "export interface"@, "interface"@) {
        Some(name_in(r))
    } else if let Some(r) = either_rest(t, "export const"@, "const"@) {
        Some(name_in(r))
    } else {
        None
    }
}

fn scan_script(t: &[char]) -> (r: Option<String>)
    ensures
        split::opt_text(r) == script_symbol(t@),
{
    if let Some(r) = strip_either(t, "export function", "function") {
        Some(symbol_name(r))
    } else if let Some(r) = strip_either(t, "export class", "class") {
        Some(symbol_name(r))
    } else if let Some(r) = strip_either(t, "export interface", "interface") {
        Some(symbol_name(r))
    } else if let Some(r) = strip_either(t, "export const", "const") {
        Some(symbol_name(r))
    } else {
        None
    }
}

/// Whether a line of C reads as a call or a control statement rather than a
/// declaration.
pub open spec fn is_control_line(lower: Seq<char>) -> bool {
    ||| "if "@.is_prefix_of(lower)
    ||| "for "@.is_prefix_of(lower)
    ||| "while "@.is_prefix_of(lower)
    ||| "switch "@.is_prefix_of(lower)
}

/// The part of `s` before the first `->`.
pub open spec fn before_arrow(s: Seq<char>) -> Seq<char> {
    let i = text::find_text(s, "->"@);
    if i < 0 {
        s
    } else {
        s.take(i)
    }
}

/// The words of a line of C in front of its first parenthesis.
pub open spec fn declaration_words(t: Seq<char>) -> Seq<Seq<char>> {
    split::words(text::trimmed(before_arrow(text::trimmed(text::until(t, text::among("("@))))))
}

/// The name that a line of C or C++ declares: for a function, the last of the
/// two or more words in front of its parenthesis.
pub open spec fn c_symbol(t: Seq<char>) -> Option<Seq<char>> {
    let lower = text::lowercase(t);
    let parts = declaration_words(t);
    if let Some(r) = keyword_rest(t, "typedef"@) {
        Some(name_in(r))
    } else if let Some(r) = either_rest(t, "static inline"@, "inline"@) {
        Some(name_in(r))
    } else if text::occurs(lower, "("@) && !is_control_line(lower) && parts.len() >= 2 {
        Some(
            text::right_trimmed(
                text::right_trimmed(parts.last(), text::among("*"@)),
                text::among("&"@),
            ),
        )
    } else {
        None
    }
}

fn scan_c(t: &[char]) -> (r: Option<String>)
    ensures
        split::opt_text(r) == c_symbol(t@),
{
    if let Some(r) = strip_keyword(t, "typedef") {
        Some(symbol_name(r))
    } else if let Some(r) = strip_either(t, "static inline", "inline") {
        Some(symbol_name(r))
    } else {
        let line = string_of(t);
        let low = chars_of(line.as_str().to_lowercase().as_str());
        let lower = low.as_slice();
        if find_sub(lower, "(").is_some() && !starts(lower, "if ") && !starts(lower, "for ")
            && !starts(lower, "while ") && !starts(lower, "switch ") {
            let before = trim(take_until(t, CharClass::In("(")));
            let before = match find_sub(before, "->") {
                Some(i) => slice_subrange(before, 0, i),
                None => before,
            };
            let joined = string_of(trim(before));
            let parts = split_words(joined.as_str());
            assert(split::texts(parts@).len() == parts@.len());
            if parts.len() >= 2 {
                let last = chars_of(parts[parts.len() - 1].as_str());
                let a = trim_right(last.as_slice(), CharClass::In("*"));
                Some(string_of(trim_right(a, CharClass::In("&"))))
            } else {
                None
            }
        } else {
            None
        }
    }
}

/// The name that a line of Ruby declares.
pub open spec fn ruby_symbol(t: Seq<char>) -> Option<Seq<char>> {
    if let Some(r) = keyword_rest(t, "def"@) {
        Some(name_in(r))
    } else if let Some(r) = keyword_rest(t, "class"@) {
        Some(name_in(r))
    } else if let Some(r) = keyword_rest(t, "module"@) {
        Some(name_in(r))
    } else {
        None
    }
}

fn scan_ruby(t: &[char]) -> (r: Option<String>)
    ensures
        split::opt_text(r) == ruby_symbol(t@),
{
    if let Some(r) = strip_keyword(t, "def") {
        Some(symbol_name(r))
    } else if let Some(r) = strip_keyword(t, "class") {
        Some(symbol_name(r))
    } else if let Some(r) = strip_keyword(t, "module") {
        Some(symbol_name(r))
    } else {
        None
    }
}

/// The name that a line of a shell script declares.
pub open spec fn shell_symbol(t: Seq<char>) -> Option<Seq<char>> {
    if let Some(r) = keyword_rest(t, "function"@) {
        Some(name_in(r))
    } else if let Some(r) = keyword_rest(t, "export"@) {
        Some(name_in(r))
    } else if "()"@.is_suffix_of(t) || "() {"@.is_suffix_of(t) {
        Some(name_in(t))
    } else {
        None
    }
}

fn scan_shell(t: &[char]) -> (r: Option<String>)
    ensures
        split::opt_text(r) == shell_symbol(t@),
{
    if let Some(r) = strip_keyword(t, "function") {
        Some(symbol_name(r))
    } else if let Some(r) = strip_keyword(t, "export") {
        Some(symbol_name(r))
    } else if ends(t, "()") || ends(t, "() {") {
        Some(symbol_name(t))
    } else {
        None
    }
}

// ── Lines and files ─────────────────────────────────────────────────────────

/// Whether a line is empty or reads as a comment.
pub open spec fn is_comment(t: Seq<char>) -> bool {
    ||| t.len() == 0
    ||| "//"@.is_prefix_of(t)
    ||| "#"@.is_prefix_of(t)
    ||| "*"@.is_prefix_of(t)
    ||| "/*"@.is_prefix_of(t)
    ||| "<!--"@.is_prefix_of(t)
}

/// The name that the trimmed line `t` of a file with extension `ext` declares.
pub open spec fn declared(ext: Seq<char>, t: Seq<char>) -> Option<Seq<char>> {
    if is_comment(t) {
        None
    } else if ext == "rs"@ {
        rust_symbol(t)
    } else if ext == "go"@ {
        go_symbol(t)
    } else if ext == "py"@ {
        python_symbol(t)
    } else if ext == "js"@ || ext == "jsx"@ || ext == "ts"@ || ext == "tsx"@ || ext == "mjs"@ || ext
        == "cjs"@ {
        script_symbol(t)
    } else if ext == "c"@ || ext == "h"@ || ext == "cpp"@ || ext == "hpp"@ || ext == "cc"@ || ext
        == "cxx"@ || ext == "hh"@ {
        c_symbol(t)
    } else if ext == "rb"@ {
        ruby_symbol(t)
    } else if ext == "sh"@ || ext == "bash"@ || ext == "zsh"@ {
        shell_symbol(t)
    } else {
        None
    }
}

fn scan_line(ext: &str, t: &[char]) -> (r: Option<String>)
    ensures
        split::opt_text(r) == declared(ext@, t@),
{
    if t.len() == 0 || starts(t, "//") || starts(t, "#") || starts(t, "*") || starts(t, "/*")
        || starts(t, "<!--") {
        None
    } else if same(ext, "rs") {
        scan_rust(t)
    } else if same(ext, "go") {
        scan_go(t)
    } else if same(ext, "py") {
        scan_python(t)
    } else if same(ext, "js") || same(ext, "jsx") || same(ext, "ts") || same(ext, "tsx") || same(
        ext,
        "mjs",
    ) || same(ext, "cjs") {
        scan_script(t)
    } else if same(ext, "c") || same(ext, "h") || same(ext, "cpp") || same(ext, "hpp") || same(
        ext,
        "cc",
    ) || same(ext, "cxx") || same(ext, "hh") {
        scan_c(t)
    } else if same(ext, "rb") {
        scan_ruby(t)
    } else if same(ext, "sh") || same(ext, "bash") || same(ext, "zsh") {
        scan_shell(t)
    } else {
        None
    }
}

/// The nonempty names that a list of lines declares, in order.
pub open spec fn declared_in(ext: Seq<char>, ls: Seq<Seq<char>>) -> Seq<Seq<char>>
    decreases ls.len(),
{
    if ls.len() == 0 {
        Seq::empty()
    } else {
        let before = declared_in(ext, ls.drop_last());
        match declared(ext, text::trimmed(ls.last())) {
            Some(s) => if s.len() > 0 {
                before.push(s)
            } else {
                before
            },
            None => before,
        }
    }
}

/// The names that a file with extension `ext` and content `content` declares.
pub open spec fn symbols_of(ext: Seq<char>, content: Seq<char>) -> Seq<Seq<char>> {
    declared_in(ext, split::lines(content))
}

proof fn lemma_declared_len(ext: Seq<char>, ls: Seq<Seq<char>>)
    ensures
        declared_in(ext, ls).len() <= ls.len(),
    decreases ls.len(),
{
    if ls.len() > 0 {
        lemma_declared_len(ext, ls.drop_last());
    }
}

/// A file declares at most as many names as it has characters.
pub proof fn lemma_symbols_len(ext: Seq<char>, content: Seq<char>)
    ensures
        symbols_of(ext, content).len() <= content.len(),
{
    lemma_declared_len(ext, split::lines(content));
    split::lemma_lines_len(content);
}

proof fn lemma_declared_join(ext: Seq<char>, a: Seq<Seq<char>>, b: Seq<Seq<char>>)
    ensures
        declared_in(ext, a + b) == declared_in(ext, a) + declared_in(ext, b),
    decreases b.len(),
{
    if b.len() == 0 {
        assert(a + b =~= a);
        assert(declared_in(ext, a + b) =~= declared_in(ext, a) + declared_in(ext, b));
    } else {
        lemma_declared_join(ext, a, b.drop_last());
        assert((a + b).drop_last() =~= a + b.drop_last());
        assert(declared_in(ext, a + b) =~= declared_in(ext, a) + declared_in(ext, b));
    }
}

/// A carriage return at the end of a line is trimmed with it.
proof fn lemma_cr_is_trimmed(s: Seq<char>)
    ensures
        text::trimmed(split::without_cr(s)) == text::trimmed(s),
{
    if s.len() > 0 && s.last() == '\r' {
        let t = s.drop_last();
        assert(s =~= t.push('\r'));
        lemma_trimmed_push(t, '\r');
    }
}

proof fn lemma_trimmed_push(t: Seq<char>, c: char)
    requires
        text::char_whitespace(c),
    ensures
        text::trimmed(t.push(c)) == text::trimmed(t),
    decreases t.len(),
{
    let w = text::white();
    if t.len() > 0 && w(t[0]) {
        assert(t.push(c)[0] == t[0]);
        assert(t.push(c).drop_first() =~= t.drop_first().push(c));
        lemma_trimmed_push(t.drop_first(), c);
    } else if t.len() == 0 {
        assert(t.push(c).drop_first() =~= t);
    } else {
        assert(t.push(c)[0] == t[0]);
        assert(text::left_trimmed(t.push(c), w) == t.push(c));
        assert(t.push(c).drop_last() =~= t);
    }
}

/// The names that the pieces between line feeds declare.
proof fn lemma_symbols_of_pieces(ext: Seq<char>, s: Seq<char>)
    ensures
        symbols_of(ext, s) == declared_in(ext, split::pieces(s, split::line_feed())),
{
    let ps = split::pieces(s, split::line_feed());
    let ended = ps.drop_last().map_values(|t: Seq<char>| split::without_cr(t));
    split::lemma_pieces_nonempty(s, split::line_feed());
    lemma_declared_ended(ext, ps.drop_last());
    assert(text::trimmed(Seq::<char>::empty()) =~= Seq::<char>::empty());
    if ps.last().len() == 0 {
        assert(ps.last() =~= Seq::<char>::empty());
    } else {
        assert(ended.push(ps.last()).drop_last() =~= ended);
    }
}

proof fn lemma_declared_ended(ext: Seq<char>, ls: Seq<Seq<char>>)
    ensures
        declared_in(ext, ls.map_values(|t: Seq<char>| split::without_cr(t))) == declared_in(
            ext,
            ls,
        ),
    decreases ls.len(),
{
    if ls.len() > 0 {
        let f = |t: Seq<char>| split::without_cr(t);
        lemma_declared_ended(ext, ls.drop_last());
        assert(ls.map_values(f).drop_last() =~= ls.drop_last().map_values(f));
        lemma_cr_is_trimmed(ls.last());
    }
}

/// The names that two texts with a line feed between them declare are those of
/// the first and then those of the second.
pub proof fn law_symbols_of_two_texts(ext: Seq<char>, a: Seq<char>, b: Seq<char>)
    ensures
        symbols_of(ext, a + "\n"@ + b) == symbols_of(ext, a) + symbols_of(ext, b),
{
    reveal_strlit("\n");
    let p = split::line_feed();
    assert("\n"@[0] == '\n');
    assert(p('\n'));
    assert(a + "\n"@ + b =~= a.push('\n') + b);
    split::lemma_pieces_join(a, '\n', b, p);
    lemma_symbols_of_pieces(ext, a + "\n"@ + b);
    lemma_symbols_of_pieces(ext, a);
    lemma_symbols_of_pieces(ext, b);
    lemma_declared_join(ext, split::pieces(a, p), split::pieces(b, p));
}

/// A line declares at most one name, and none of them is empty.
pub proof fn law_one_name_a_line(ext: Seq<char>, content: Seq<char>)
    ensures
        symbols_of(ext, content).len() <= split::lines(content).len(),
        forall|i: int|
            0 <= i < symbols_of(ext, content).len() ==> (#[trigger] symbols_of(
                ext,
                content,
            )[i]).len() > 0,
{
    lemma_declared_len(ext, split::lines(content));
    lemma_declared_nonempty(ext, split::lines(content));
}

proof fn lemma_declared_nonempty(ext: Seq<char>, ls: Seq<Seq<char>>)
    ensures
        forall|i: int|
            0 <= i < declared_in(ext, ls).len() ==> (#[trigger] declared_in(ext, ls)[i]).len() > 0,
    decreases ls.len(),
{
    if ls.len() > 0 {
        lemma_declared_nonempty(ext, ls.drop_last());
        let before = declared_in(ext, ls.drop_last());
        assert forall|i: int| 0 <= i < declared_in(ext, ls).len() implies (#[trigger] declared_in(
            ext,
            ls,
        )[i]).len() > 0 by {
            if i < before.len() {
                assert(declared_in(ext, ls)[i] == before[i]);
            }
        }
    }
}

/// Pulls the declared names out of a source file.
pub fn extract_symbols(ext: &str, content: &str) -> (r: Vec<String>)
    ensures
        split::texts(r@) == symbols_of(ext@, content@),
{
    let v = chars_of(content);
    let ls = split_lines(v.as_slice());
    let ghost all = split::lines(content@);
    let mut out: Vec<String> = Vec::new();
    let mut i: usize = 0;
    assert(split::texts(out@) =~= declared_in(ext@, all.take(0)));
    while i < ls.len()
        invariant
            i <= ls@.len(),
            all == split::char_slices(ls@),
            split::texts(out@) == declared_in(ext@, all.take(i as int)),
        decreases ls@.len() - i,
    {
        assert(all.take(i + 1).drop_last() =~= all.take(i as int));
        assert(all[i as int] == ls@[i as int]@);
        if let Some(s) = scan_line(ext, trim(ls[i])) {
            if !s.as_str().is_empty() {
                out.push(s);
            }
        }
        i += 1;
    }
    assert(all.take(i as int) =~= all);
    out
}

} // verus!
