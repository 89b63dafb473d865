//! Laws of the line scan: what each language's declarations give.

use crate::split;
use crate::symbols::{self, symbols_of};
use crate::text;
use vstd::prelude::*;

verus! {

// ── Lines ───────────────────────────────────────────────────────────────────

/// Whether a text can be the name of a declaration as it stands: no whitespace and
/// none of the signs that end a name or stand around it.
pub open spec fn is_name(n: Seq<char>) -> bool {
    &&& n.len() > 0
    &&& forall|i: int| 0 <= i < n.len() ==> is_name_char(#[trigger] n[i])
}

/// Whether a character can stand in a name.
pub open spec fn is_name_char(c: char) -> bool {
    !text::char_whitespace(c) && !ends_name(c) && c != '*' && c != '&' && c != '"' && c != '\''
}

/// Whether a character ends a name, besides whitespace.
pub open spec fn ends_name(c: char) -> bool {
    c == '{' || c == '(' || c == '=' || c == '<' || c == ':' || c == ';'
}

/// Whether a name may be followed by `tail`.
pub open spec fn may_follow(tail: Seq<char>) -> bool {
    tail.len() == 0 || text::char_whitespace(tail[0]) || ends_name(tail[0])
}

/// Whether a text is part of one line.
pub open spec fn on_one_line(s: Seq<char>) -> bool {
    forall|i: int| 0 <= i < s.len() ==> #[trigger] s[i] != '\n'
}

proof fn lemma_name_ends(c: char)
    ensures
        symbols::name_ends().contains(c) <==> ends_name(c),
        "*&\"'"@.contains(c) <==> c == '*' || c == '&' || c == '"' || c == '\'',
        "(<"@.contains(c) <==> c == '(' || c == '<',
        "<("@.contains(c) <==> c == '(' || c == '<',
        "("@.contains(c) <==> c == '(',
        ")"@.contains(c) <==> c == ')',
        "*"@.contains(c) <==> c == '*',
        "&"@.contains(c) <==> c == '&',
        "\n"@.contains(c) <==> c == '\n',
{
    reveal_strlit("{(=<:;");
    reveal_strlit("*&\"'");
    reveal_strlit("(<");
    reveal_strlit("<(");
    reveal_strlit("(");
    reveal_strlit(")");
    reveal_strlit("*");
    reveal_strlit("&");
    reveal_strlit("\n");
    let a = "{(=<:;"@;
    assert(a[0] == '{' && a[1] == '(' && a[2] == '=' && a[3] == '<' && a[4] == ':' && a[5] == ';');
    let b = "*&\"'"@;
    assert(b[0] == '*' && b[1] == '&' && b[2] == '"' && b[3] == '\'');
    let d = "(<"@;
    assert(d[0] == '(' && d[1] == '<');
    let e = "<("@;
    assert(e[0] == '<' && e[1] == '(');
    assert("("@[0] == '(' && ")"@[0] == ')' && "*"@[0] == '*' && "&"@[0] == '&' && "\n"@[0]
        == '\n');
}

/// Trimming at the end keeps what stands before, if it ends in no whitespace.
proof fn lemma_trimmed_tail(h: Seq<char>, a: Seq<char>) -> (x: Seq<char>)
    requires
        h.len() > 0,
        !text::char_whitespace(h[0]),
        !text::char_whitespace(h.last()),
    ensures
        text::trimmed(h + a) == h + x,
        x == text::right_trimmed(a, text::white()),
        x.len() <= a.len(),
        forall|i: int| 0 <= i < x.len() ==> x[i] == #[trigger] a[i],
{
    let w = text::white();
    let x = text::right_trimmed(a, w);
    let b = text::lemma_right_part(a, w);
    let none = Seq::<char>::empty();
    assert(h + a =~= (h + x) + b);
    assert((h + x)[0] == h[0]);
    if x.len() > 0 {
        assert((h + x).last() == x.last());
    } else {
        assert((h + x).last() == h.last());
    }
    assert((h + x) + b =~= none + (h + x) + b);
    text::law_both_trimmed(none, h + x, b, w);
    x
}

/// A line that begins with a sign of its own declares what its trimmed form does.
proof fn lemma_one_line(ext: Seq<char>, line: Seq<char>)
    requires
        on_one_line(line),
        line.len() > 0,
    ensures
        symbols_of(ext, line) == (match symbols::declared(ext, text::trimmed(line)) {
            Some(s) => if s.len() > 0 {
                seq![s]
            } else {
                Seq::empty()
            },
            None => Seq::empty(),
        }),
{
    let p = split::line_feed();
    assert forall|i: int| 0 <= i < line.len() implies !p(#[trigger] line[i]) by {
        lemma_name_ends(line[i]);
    }
    split::law_one_piece(line, p);
    let none = Seq::<Seq<char>>::empty();
    let f = |t: Seq<char>| split::without_cr(t);
    assert(seq![line].drop_last().map_values(f) =~= none);
    assert(split::lines(line) =~= seq![line]);
    assert(seq![line].drop_last() =~= none);
    assert(symbols::declared_in(ext, none) =~= none);
    assert(symbols_of(ext, line) =~= match symbols::declared(ext, text::trimmed(line)) {
        Some(s) => if s.len() > 0 {
            none.push(s)
        } else {
            none
        },
        None => none,
    });
}

// ── Keywords and names ──────────────────────────────────────────────────────

proof fn lemma_keyword(kw: Seq<char>, r: Seq<char>)
    requires
        r.len() > 0,
        !text::char_whitespace(r[0]),
    ensures
        symbols::keyword_rest(kw + seq![' '] + r, kw) == Some(r),
{
    let line = kw + seq![' '] + r;
    assert(line.subrange(0, kw.len() as int) =~= kw);
    assert(line.skip(kw.len() as int) =~= seq![' '] + r);
    text::law_left_trimmed(seq![' '], r, text::white());
}

proof fn lemma_other_keyword(line: Seq<char>, kw: Seq<char>, other: Seq<char>, i: int)
    requires
        kw.is_prefix_of(line),
        0 <= i < kw.len(),
        i < other.len(),
        kw[i] != other[i],
    ensures
        symbols::keyword_rest(line, other) is None,
{
    if other.is_prefix_of(line) {
        assert(line.subrange(0, other.len() as int)[i] == other[i]);
        assert(line.subrange(0, kw.len() as int)[i] == kw[i]);
    }
}

proof fn lemma_name_in(n: Seq<char>, tail: Seq<char>)
    requires
        is_name(n),
        may_follow(tail),
    ensures
        symbols::name_in(n + tail) == n,
{
    let x = lemma_trimmed_tail(n, tail);
    let p = text::white_or(symbols::name_ends());
    assert forall|i: int| 0 <= i < n.len() implies !p(#[trigger] n[i]) by {
        lemma_name_ends(n[i]);
    }
    if x.len() > 0 {
        assert(x[0] == tail[0]);
        lemma_name_ends(x[0]);
    }
    text::law_until(n, x, p);
    let none = Seq::<char>::empty();
    lemma_name_ends(n[0]);
    lemma_name_ends(n[n.len() - 1]);
    assert(none + n + none =~= n);
    text::law_both_trimmed(none, n, none, text::among("*&\"'"@));
}

proof fn lemma_no_comment(t: Seq<char>)
    requires
        t.len() > 0,
        t[0] != '/' && t[0] != '#' && t[0] != '*' && t[0] != '<',
    ensures
        !symbols::is_comment(t),
{
    reveal_strlit("//");
    reveal_strlit("#");
    reveal_strlit("*");
    reveal_strlit("/*");
    reveal_strlit("<!--");
    assert("//"@[0] == '/' && "#"@[0] == '#' && "*"@[0] == '*' && "/*"@[0] == '/' && "<!--"@[0]
        == '<');
    if "//"@.is_prefix_of(t) {
        assert(t.subrange(0, 2)[0] == '/');
    }
    if "#"@.is_prefix_of(t) {
        assert(t.subrange(0, 1)[0] == '#');
    }
    if "*"@.is_prefix_of(t) {
        assert(t.subrange(0, 1)[0] == '*');
    }
    if "/*"@.is_prefix_of(t) {
        assert(t.subrange(0, 2)[0] == '/');
    }
    if "<!--"@.is_prefix_of(t) {
        assert(t.subrange(0, 4)[0] == '<');
    }
}

/// A comment declares nothing, in any language.
pub proof fn law_comments_declare_nothing(ext: Seq<char>, mark: Seq<char>, x: Seq<char>)
    requires
        mark == "//"@ || mark == "#"@ || mark == "*"@ || mark == "/*"@ || mark == "<!--"@,
        on_one_line(x),
    ensures
        symbols_of(ext, mark + x).len() == 0,
{
    reveal_strlit("//");
    reveal_strlit("#");
    reveal_strlit("*");
    reveal_strlit("/*");
    reveal_strlit("<!--");
    let line = mark + x;
    assert(mark.len() > 0 && !text::char_whitespace(mark[0]));
    assert(!text::char_whitespace(mark.last()));
    assert forall|i: int| 0 <= i < line.len() implies #[trigger] line[i] != '\n' by {
        if i < mark.len() {
            assert(line[i] == mark[i]);
        } else {
            assert(line[i] == x[i - mark.len()]);
        }
    }
    lemma_one_line(ext, line);
    let y = lemma_trimmed_tail(mark, x);
    assert((mark + y).subrange(0, mark.len() as int) =~= mark);
}

proof fn lemma_ext_go(ext: Seq<char>)
    requires
        ext == "go"@,
    ensures
        ext != "rs"@,
{
    reveal_strlit("rs");
    reveal_strlit("go");
    assert("rs"@[0] != "go"@[0]);
}

proof fn lemma_ext_python(ext: Seq<char>)
    requires
        ext == "py"@,
    ensures
        ext != "rs"@,
        ext != "go"@,
{
    reveal_strlit("rs");
    reveal_strlit("go");
    reveal_strlit("py");
    assert("rs"@[0] != "py"@[0]);
    assert("go"@[0] != "py"@[0]);
}

proof fn lemma_ext_script(ext: Seq<char>)
    requires
        ext == "js"@ || ext == "jsx"@ || ext == "ts"@ || ext == "tsx"@ || ext == "mjs"@ || ext == "cjs"@,
    ensures
        ext != "rs"@,
        ext != "go"@,
        ext != "py"@,
{
    reveal_strlit("rs");
    reveal_strlit("go");
    reveal_strlit("py");
    reveal_strlit("js");
    reveal_strlit("jsx");
    reveal_strlit("ts");
    reveal_strlit("tsx");
    reveal_strlit("mjs");
    reveal_strlit("cjs");
    assert("rs"@[0] != "js"@[0]);
    assert("rs"@.len() != "jsx"@.len());
    assert("rs"@[0] != "ts"@[0]);
    assert("rs"@.len() != "tsx"@.len());
    assert("rs"@.len() != "mjs"@.len());
    assert("rs"@.len() != "cjs"@.len());
    assert("go"@[0] != "js"@[0]);
    assert("go"@.len() != "jsx"@.len());
    assert("go"@[0] != "ts"@[0]);
    assert("go"@.len() != "tsx"@.len());
    assert("go"@.len() != "mjs"@.len());
    assert("go"@.len() != "cjs"@.len());
    assert("py"@[0] != "js"@[0]);
    assert("py"@.len() != "jsx"@.len());
    assert("py"@[0] != "ts"@[0]);
    assert("py"@.len() != "tsx"@.len());
    assert("py"@.len() != "mjs"@.len());
    assert("py"@.len() != "cjs"@.len());
}

proof fn lemma_ext_c(ext: Seq<char>)
    requires
        ext == "c"@ || ext == "h"@ || ext == "cpp"@ || ext == "hpp"@ || ext == "cc"@ || ext == "cxx"@ || ext == "hh"@,
    ensures
        ext != "rs"@,
        ext != "go"@,
        ext != "py"@,
        ext != "js"@,
        ext != "jsx"@,
        ext != "ts"@,
        ext != "tsx"@,
        ext != "mjs"@,
        ext != "cjs"@,
{
    reveal_strlit("rs");
    reveal_strlit("go");
    reveal_strlit("py");
    reveal_strlit("js");
    reveal_strlit("jsx");
    reveal_strlit("ts");
    reveal_strlit("tsx");
    reveal_strlit("mjs");
    reveal_strlit("cjs");
    reveal_strlit("c");
    reveal_strlit("h");
    reveal_strlit("cpp");
    reveal_strlit("hpp");
    reveal_strlit("cc");
    reveal_strlit("cxx");
    reveal_strlit("hh");
    assert("rs"@.len() != "c"@.len());
    assert("rs"@.len() != "h"@.len());
    assert("rs"@.len() != "cpp"@.len());
    assert("rs"@.len() != "hpp"@.len());
    assert("rs"@[0] != "cc"@[0]);
    assert("rs"@.len() != "cxx"@.len());
    assert("rs"@[0] != "hh"@[0]);
    assert("go"@.len() != "c"@.len());
    assert("go"@.len() != "h"@.len());
    assert("go"@.len() != "cpp"@.len());
    assert("go"@.len() != "hpp"@.len());
    assert("go"@[0] != "cc"@[0]);
    assert("go"@.len() != "cxx"@.len());
    assert("go"@[0] != "hh"@[0]);
    assert("py"@.len() != "c"@.len());
    assert("py"@.len() != "h"@.len());
    assert("py"@.len() != "cpp"@.len());
    assert("py"@.len() != "hpp"@.len());
    assert("py"@[0] != "cc"@[0]);
    assert("py"@.len() != "cxx"@.len());
    assert("py"@[0] != "hh"@[0]);
    assert("js"@.len() != "c"@.len());
    assert("js"@.len() != "h"@.len());
    assert("js"@.len() != "cpp"@.len());
    assert("js"@.len() != "hpp"@.len());
    assert("js"@[0] != "cc"@[0]);
    assert("js"@.len() != "cxx"@.len());
    assert("js"@[0] != "hh"@[0]);
    assert("jsx"@.len() != "c"@.len());
    assert("jsx"@.len() != "h"@.len());
    assert("jsx"@[0] != "cpp"@[0]);
    assert("jsx"@[0] != "hpp"@[0]);
    assert("jsx"@.len() != "cc"@.len());
    assert("jsx"@[0] != "cxx"@[0]);
    assert("jsx"@.len() != "hh"@.len());
    assert("ts"@.len() != "c"@.len());
    assert("ts"@.len() != "h"@.len());
    assert("ts"@.len() != "cpp"@.len());
    assert("ts"@.len() != "hpp"@.len());
    assert("ts"@[0] != "cc"@[0]);
    assert("ts"@.len() != "cxx"@.len());
    assert("ts"@[0] != "hh"@[0]);
    assert("tsx"@.len() != "c"@.len());
    assert("tsx"@.len() != "h"@.len());
    assert("tsx"@[0] != "cpp"@[0]);
    assert("tsx"@[0] != "hpp"@[0]);
    assert("tsx"@.len() != "cc"@.len());
    assert("tsx"@[0] != "cxx"@[0]);
    assert("tsx"@.len() != "hh"@.len());
    assert("mjs"@.len() != "c"@.len());
    assert("mjs"@.len() != "h"@.len());
    assert("mjs"@[0] != "cpp"@[0]);
    assert("mjs"@[0] != "hpp"@[0]);
    assert("mjs"@.len() != "cc"@.len());
    assert("mjs"@[0] != "cxx"@[0]);
    assert("mjs"@.len() != "hh"@.len());
    assert("cjs"@.len() != "c"@.len());
    assert("cjs"@.len() != "h"@.len());
    assert("cjs"@[1] != "cpp"@[1]);
    assert("cjs"@[0] != "hpp"@[0]);
    assert("cjs"@.len() != "cc"@.len());
    assert("cjs"@[1] != "cxx"@[1]);
    assert("cjs"@.len() != "hh"@.len());
}

proof fn lemma_ext_ruby(ext: Seq<char>)
    requires
        ext == "rb"@,
    ensures
        ext != "rs"@,
        ext != "go"@,
        ext != "py"@,
        ext != "js"@,
        ext != "jsx"@,
        ext != "ts"@,
        ext != "tsx"@,
        ext != "mjs"@,
        ext != "cjs"@,
        ext != "c"@,
        ext != "h"@,
        ext != "cpp"@,
        ext != "hpp"@,
        ext != "cc"@,
        ext != "cxx"@,
        ext != "hh"@,
{
    reveal_strlit("rs");
    reveal_strlit("go");
    reveal_strlit("py");
    reveal_strlit("js");
    reveal_strlit("jsx");
    reveal_strlit("ts");
    reveal_strlit("tsx");
    reveal_strlit("mjs");
    reveal_strlit("cjs");
    reveal_strlit("c");
    reveal_strlit("h");
    reveal_strlit("cpp");
    reveal_strlit("hpp");
    reveal_strlit("cc");
    reveal_strlit("cxx");
    reveal_strlit("hh");
    reveal_strlit("rb");
    assert("rs"@[1] != "rb"@[1]);
    assert("go"@[0] != "rb"@[0]);
    assert("py"@[0] != "rb"@[0]);
    assert("js"@[0] != "rb"@[0]);
    assert("jsx"@.len() != "rb"@.len());
    assert("ts"@[0] != "rb"@[0]);
    assert("tsx"@.len() != "rb"@.len());
    assert("mjs"@.len() != "rb"@.len());
    assert("cjs"@.len() != "rb"@.len());
    assert("c"@.len() != "rb"@.len());
    assert("h"@.len() != "rb"@.len());
    assert("cpp"@.len() != "rb"@.len());
    assert("hpp"@.len() != "rb"@.len());
    assert("cc"@[0] != "rb"@[0]);
    assert("cxx"@.len() != "rb"@.len());
    assert("hh"@[0] != "rb"@[0]);
}

proof fn lemma_ext_shell(ext: Seq<char>)
    requires
        ext == "sh"@ || ext == "bash"@ || ext == "zsh"@,
    ensures
        ext != "rs"@,
        ext != "go"@,
        ext != "py"@,
        ext != "js"@,
        ext != "jsx"@,
        ext != "ts"@,
        ext != "tsx"@,
        ext != "mjs"@,
        ext != "cjs"@,
        ext != "c"@,
        ext != "h"@,
        ext != "cpp"@,
        ext != "hpp"@,
        ext != "cc"@,
        ext != "cxx"@,
        ext != "hh"@,
        ext != "rb"@,
{
    reveal_strlit("rs");
    reveal_strlit("go");
    reveal_strlit("py");
    reveal_strlit("js");
    reveal_strlit("jsx");
    reveal_strlit("ts");
    reveal_strlit("tsx");
    reveal_strlit("mjs");
    reveal_strlit("cjs");
    reveal_strlit("c");
    reveal_strlit("h");
    reveal_strlit("cpp");
    reveal_strlit("hpp");
    reveal_strlit("cc");
    reveal_strlit("cxx");
    reveal_strlit("hh");
    reveal_strlit("rb");
    reveal_strlit("sh");
    reveal_strlit("bash");
    reveal_strlit("zsh");
    assert("rs"@[0] != "sh"@[0]);
    assert("rs"@.len() != "bash"@.len());
    assert("rs"@.len() != "zsh"@.len());
    assert("go"@[0] != "sh"@[0]);
    assert("go"@.len() != "bash"@.len());
    assert("go"@.len() != "zsh"@.len());
    assert("py"@[0] != "sh"@[0]);
    assert("py"@.len() != "bash"@.len());
    assert("py"@.len() != "zsh"@.len());
    assert("js"@[0] != "sh"@[0]);
    assert("js"@.len() != "bash"@.len());
    assert("js"@.len() != "zsh"@.len());
    assert("jsx"@.len() != "sh"@.len());
    assert("jsx"@.len() != "bash"@.len());
    assert("jsx"@[0] != "zsh"@[0]);
    assert("ts"@[0] != "sh"@[0]);
    assert("ts"@.len() != "bash"@.len());
    assert("ts"@.len() != "zsh"@.len());
    assert("tsx"@.len() != "sh"@.len());
    assert("tsx"@.len() != "bash"@.len());
    assert("tsx"@[0] != "zsh"@[0]);
    assert("mjs"@.len() != "sh"@.len());
    assert("mjs"@.len() != "bash"@.len());
    assert("mjs"@[0] != "zsh"@[0]);
    assert("cjs"@.len() != "sh"@.len());
    assert("cjs"@.len() != "bash"@.len());
    assert("cjs"@[0] != "zsh"@[0]);
    assert("c"@.len() != "sh"@.len());
    assert("c"@.len() != "bash"@.len());
    assert("c"@.len() != "zsh"@.len());
    assert("h"@.len() != "sh"@.len());
    assert("h"@.len() != "bash"@.len());
    assert("h"@.len() != "zsh"@.len());
    assert("cpp"@.len() != "sh"@.len());
    assert("cpp"@.len() != "bash"@.len());
    assert("cpp"@[0] != "zsh"@[0]);
    assert("hpp"@.len() != "sh"@.len());
    assert("hpp"@.len() != "bash"@.len());
    assert("hpp"@[0] != "zsh"@[0]);
    assert("cc"@[0] != "sh"@[0]);
    assert("cc"@.len() != "bash"@.len());
    assert("cc"@.len() != "zsh"@.len());
    assert("cxx"@.len() != "sh"@.len());
    assert("cxx"@.len() != "bash"@.len());
    assert("cxx"@[0] != "zsh"@[0]);
    assert("hh"@[0] != "sh"@[0]);
    assert("hh"@.len() != "bash"@.len());
    assert("hh"@.len() != "zsh"@.len());
    assert("rb"@[0] != "sh"@[0]);
    assert("rb"@.len() != "bash"@.len());
    assert("rb"@.len() != "zsh"@.len());
}

proof fn lemma_line_of(kw: Seq<char>, name: Seq<char>, tail: Seq<char>)
    requires
        on_one_line(kw),
        on_one_line(name),
        on_one_line(tail),
    ensures
        on_one_line(kw + seq![' '] + name + tail),
{
    let line = kw + seq![' '] + name + tail;
    assert forall|i: int| 0 <= i < line.len() implies #[trigger] line[i] != '\n' by {
        if i < kw.len() {
            assert(line[i] == kw[i]);
        } else if i == kw.len() {
        } else if i < kw.len() + 1 + name.len() {
            assert(line[i] == name[i - kw.len() - 1]);
        } else {
            assert(line[i] == tail[i - kw.len() - 1 - name.len()]);
        }
    }
}

/// What is common to the lines that begin with a keyword.
proof fn lemma_item(ext: Seq<char>, kw: Seq<char>, name: Seq<char>, tail: Seq<char>) -> (x: Seq<
    char,
>)
    requires
        kw.len() > 0,
        on_one_line(kw),
        !text::char_whitespace(kw[0]),
        kw[0] != '/' && kw[0] != '#' && kw[0] != '*' && kw[0] != '<',
        is_name(name),
        may_follow(tail),
        on_one_line(tail),
    ensures
        ({
            let t = kw + seq![' '] + name + x;
            &&& symbols_of(ext, kw + seq![' '] + name + tail) == (match symbols::declared(ext, t) {
                Some(s) => if s.len() > 0 {
                    seq![s]
                } else {
                    Seq::empty()
                },
                None => Seq::empty(),
            })
            &&& !symbols::is_comment(t)
            &&& kw.is_prefix_of(t)
            &&& symbols::keyword_rest(t, kw) == Some(name + x)
            &&& symbols::name_in(name + x) == name
            &&& may_follow(x)
        }),
        x == text::right_trimmed(tail, text::white()),
        x.len() > 0 ==> tail.len() > 0 && x[0] == tail[0],
{
    let h = kw + seq![' '] + name;
    let line = h + tail;
    assert(h[0] == kw[0]);
    assert(is_name_char(name[name.len() - 1]));
    assert(h.last() == name.last());
    assert forall|i: int| 0 <= i < name.len() implies #[trigger] name[i] != '\n' by {
        assert(is_name_char(name[i]));
    }
    lemma_line_of(kw, name, tail);
    lemma_one_line(ext, line);
    let x = lemma_trimmed_tail(h, tail);
    let t = h + x;
    if x.len() > 0 {
        assert(x[0] == tail[0]);
    }
    assert(t[0] == kw[0]);
    lemma_no_comment(t);
    assert(t =~= kw + seq![' '] + (name + x));
    assert(is_name_char(name[0]));
    assert((name + x)[0] == name[0]);
    lemma_keyword(kw, name + x);
    lemma_name_in(name, x);
    assert(t.subrange(0, kw.len() as int) =~= kw);
    x
}

// ── Declarations by language ────────────────────────────────────────────────

#[verifier::rlimit(40)]
proof fn lemma_rust_0(ext: Seq<char>, name: Seq<char>, tail: Seq<char>)
    requires
        ext == "rs"@,
        is_name(name),
        may_follow(tail),
        on_one_line(tail),
    ensures
        symbols_of(ext, "pub struct"@ + seq![' '] + name + tail) == seq![name],
{
    reveal_strlit("pub fn");
    reveal_strlit("fn");
    reveal_strlit("pub struct");
    let kw = "pub struct"@;
    let x = lemma_item(ext, kw, name, tail);
    let t = kw + seq![' '] + name + x;
    lemma_other_keyword(t, kw, "pub fn"@, 4);
    lemma_other_keyword(t, kw, "fn"@, 0);
}

#[verifier::rlimit(40)]
proof fn lemma_rust_1(ext: Seq<char>, name: Seq<char>, tail: Seq<char>)
    requires
        ext == "rs"@,
        is_name(name),
        may_follow(tail),
        on_one_line(tail),
    ensures
        symbols_of(ext, "struct"@ + seq![' '] + name + tail) == seq![name],
{
    reveal_strlit("pub fn");
    reveal_strlit("fn");
    reveal_strlit("pub struct");
    reveal_strlit("struct");
    let kw = "struct"@;
    let x = lemma_item(ext, kw, name, tail);
    let t = kw + seq![' '] + name + x;
    lemma_other_keyword(t, kw, "pub fn"@, 0);
    lemma_other_keyword(t, kw, "fn"@, 0);
    lemma_other_keyword(t, kw, "pub struct"@, 0);
}

#[verifier::rlimit(40)]
proof fn lemma_rust_2(ext: Seq<char>, name: Seq<char>, tail: Seq<char>)
    requires
        ext == "rs"@,
        is_name(name),
        may_follow(tail),
        on_one_line(tail),
    ensures
        symbols_of(ext, "pub enum"@ + seq![' '] + name + tail) == seq![name],
{
    reveal_strlit("pub fn");
    reveal_strlit("fn");
    reveal_strlit("pub struct");
    reveal_strlit("struct");
    reveal_strlit("pub enum");
    let kw = "pub enum"@;
    let x = lemma_item(ext, kw, name, tail);
    let t = kw + seq![' '] + name + x;
    lemma_other_keyword(t, kw, "pub fn"@, 4);
    lemma_other_keyword(t, kw, "fn"@, 0);
    lemma_other_keyword(t, kw, "pub struct"@, 4);
    lemma_other_keyword(t, kw, "struct"@, 0);
}

#[verifier::rlimit(40)]
proof fn lemma_rust_3(ext: Seq<char>, name: Seq<char>, tail: Seq<char>)
    requires
        ext == "rs"@,
        is_name(name),
        may_follow(tail),
        on_one_line(tail),
    ensures
        symbols_of(ext, "enum"@ + seq![' '] + name + tail) == seq![name],
{
    reveal_strlit("pub fn");
    reveal_strlit("fn");
    reveal_strlit("pub struct");
    reveal_strlit("struct");
    reveal_strlit("pub enum");
    reveal_strlit("enum");
    let kw = "enum"@;
    let x = lemma_item(ext, kw, name, tail);
    let t = kw + seq![' '] + name + x;
    lemma_other_keyword(t, kw, "pub fn"@, 0);
    lemma_other_keyword(t, kw, "fn"@, 0);
    lemma_other_keyword(t, kw, "pub struct"@, 0);
    lemma_other_keyword(t, kw, "struct"@, 0);
    lemma_other_keyword(t, kw, "pub enum"@, 0);
}

#[verifier::rlimit(40)]
proof fn lemma_rust_4(ext: Seq<char>, name: Seq<char>, tail: Seq<char>)
    requires
        ext == "rs"@,
        is_name(name),
        may_follow(tail),
        on_one_line(tail),
    ensures
        symbols_of(ext, "pub trait"@ + seq![' '] + name + tail) == seq![name],
{
    reveal_strlit("pub fn");
    reveal_strlit("fn");
    reveal_strlit("pub struct");
    reveal_strlit("struct");
    reveal_strlit("pub enum");
    reveal_strlit("enum");
    reveal_strlit("pub trait");
    let kw = "pub trait"@;
    let x = lemma_item(ext, kw, name, tail);
    let t = kw + seq![' '] + name + x;
    lemma_other_keyword(t, kw, "pub fn"@, 4);
    lemma_other_keyword(t, kw, "fn"@, 0);
    lemma_other_keyword(t, kw, "pub struct"@, 4);
    lemma_other_keyword(t, kw, "struct"@, 0);
    lemma_other_keyword(t, kw, "pub enum"@, 4);
    lemma_other_keyword(t, kw, "enum"@, 0);
}

#[verifier::rlimit(40)]
proof fn lemma_rust_5(ext: Seq<char>, name: Seq<char>, tail: Seq<char>)
    requires
        ext == "rs"@,
        is_name(name),
        may_follow(tail),
        on_one_line(tail),
    ensures
        symbols_of(ext, "trait"@ + seq![' '] + name + tail) == seq![name],
{
    reveal_strlit("pub fn");
    reveal_strlit("fn");
    reveal_strlit("pub struct");
    reveal_strlit("struct");
    reveal_strlit("pub enum");
    reveal_strlit("enum");
    reveal_strlit("pub trait");
    reveal_strlit("trait");
    let kw = "trait"@;
    let x = lemma_item(ext, kw, name, tail);
    let t = kw + seq![' '] + name + x;
    lemma_other_keyword(t, kw, "pub fn"@, 0);
    lemma_other_keyword(t, kw, "fn"@, 0);
    lemma_other_keyword(t, kw, "pub struct"@, 0);
    lemma_other_keyword(t, kw, "struct"@, 0);
    lemma_other_keyword(t, kw, "pub enum"@, 0);
    lemma_other_keyword(t, kw, "enum"@, 0);
    lemma_other_keyword(t, kw, "pub trait"@, 0);
}

#[verifier::rlimit(40)]
proof fn lemma_rust_6(ext: Seq<char>, name: Seq<char>, tail: Seq<char>)
    requires
        ext == "rs"@,
        is_name(name),
        may_follow(tail),
        on_one_line(tail),
    ensures
        symbols_of(ext, "impl"@ + seq![' '] + name + tail) == seq![name],
{
    reveal_strlit("pub fn");
    reveal_strlit("fn");
    reveal_strlit("pub struct");
    reveal_strlit("struct");
    reveal_strlit("pub enum");
    reveal_strlit("enum");
    reveal_strlit("pub trait");
    reveal_strlit("trait");
    reveal_strlit("impl");
    let kw = "impl"@;
    let x = lemma_item(ext, kw, name, tail);
    let t = kw + seq![' '] + name + x;
    lemma_name_ends(name[0]);
    assert(is_name_char(name[0]));
    assert((name + x)[0] == name[0]);
    lemma_other_keyword(t, kw, "pub fn"@, 0);
    lemma_other_keyword(t, kw, "fn"@, 0);
    lemma_other_keyword(t, kw, "pub struct"@, 0);
    lemma_other_keyword(t, kw, "struct"@, 0);
    lemma_other_keyword(t, kw, "pub enum"@, 0);
    lemma_other_keyword(t, kw, "enum"@, 0);
    lemma_other_keyword(t, kw, "pub trait"@, 0);
    lemma_other_keyword(t, kw, "trait"@, 0);
}

#[verifier::rlimit(40)]
proof fn lemma_rust_7(ext: Seq<char>, name: Seq<char>, tail: Seq<char>)
    requires
        ext == "rs"@,
        is_name(name),
        may_follow(tail),
        on_one_line(tail),
    ensures
        symbols_of(ext, "pub type"@ + seq![' '] + name + tail) == seq![name],
{
    reveal_strlit("pub fn");
    reveal_strlit("fn");
    reveal_strlit("pub struct");
    reveal_strlit("struct");
    reveal_strlit("pub enum");
    reveal_strlit("enum");
    reveal_strlit("pub trait");
    reveal_strlit("trait");
    reveal_strlit("impl");
    reveal_strlit("pub type");
    let kw = "pub type"@;
    let x = lemma_item(ext, kw, name, tail);
    let t = kw + seq![' '] + name + x;
    lemma_other_keyword(t, kw, "pub fn"@, 4);
    lemma_other_keyword(t, kw, "fn"@, 0);
    lemma_other_keyword(t, kw, "pub struct"@, 4);
    lemma_other_keyword(t, kw, "struct"@, 0);
    lemma_other_keyword(t, kw, "pub enum"@, 4);
    lemma_other_keyword(t, kw, "enum"@, 0);
    lemma_other_keyword(t, kw, "pub trait"@, 5);
    lemma_other_keyword(t, kw, "trait"@, 0);
    lemma_other_keyword(t, kw, "impl"@, 0);
}

#[verifier::rlimit(40)]
proof fn lemma_rust_8(ext: Seq<char>, name: Seq<char>, tail: Seq<char>)
    requires
        ext == "rs"@,
        is_name(name),
        may_follow(tail),
        on_one_line(tail),
    ensures
        symbols_of(ext, "type"@ + seq![' '] + name + tail) == seq![name],
{
    reveal_strlit("pub fn");
    reveal_strlit("fn");
    reveal_strlit("pub struct");
    reveal_strlit("struct");
    reveal_strlit("pub enum");
    reveal_strlit("enum");
    reveal_strlit("pub trait");
    reveal_strlit("trait");
    reveal_strlit("impl");
    reveal_strlit("pub type");
    reveal_strlit("type");
    let kw = "type"@;
    let x = lemma_item(ext, kw, name, tail);
    let t = kw + seq![' '] + name + x;
    lemma_other_keyword(t, kw, "pub fn"@, 0);
    lemma_other_keyword(t, kw, "fn"@, 0);
    lemma_other_keyword(t, kw, "pub struct"@, 0);
    lemma_other_keyword(t, kw, "struct"@, 0);
    lemma_other_keyword(t, kw, "pub enum"@, 0);
    lemma_other_keyword(t, kw, "enum"@, 0);
    lemma_other_keyword(t, kw, "pub trait"@, 0);
    lemma_other_keyword(t, kw, "trait"@, 1);
    lemma_other_keyword(t, kw, "impl"@, 0);
    lemma_other_keyword(t, kw, "pub type"@, 0);
}

#[verifier::rlimit(40)]
proof fn lemma_rust_9(ext: Seq<char>, name: Seq<char>, tail: Seq<char>)
    requires
        ext == "rs"@,
        is_name(name),
        may_follow(tail),
        on_one_line(tail),
    ensures
        symbols_of(ext, "const"@ + seq![' '] + name + tail) == seq![name],
{
    reveal_strlit("pub fn");
    reveal_strlit("fn");
    reveal_strlit("pub struct");
    reveal_strlit("struct");
    reveal_strlit("pub enum");
    reveal_strlit("enum");
    reveal_strlit("pub trait");
    reveal_strlit("trait");
    reveal_strlit("impl");
    reveal_strlit("pub type");
    reveal_strlit("type");
    reveal_strlit("const");
    let kw = "const"@;
    let x = lemma_item(ext, kw, name, tail);
    let t = kw + seq![' '] + name + x;
    lemma_other_keyword(t, kw, "pub fn"@, 0);
    lemma_other_keyword(t, kw, "fn"@, 0);
    lemma_other_keyword(t, kw, "pub struct"@, 0);
    lemma_other_keyword(t, kw, "struct"@, 0);
    lemma_other_keyword(t, kw, "pub enum"@, 0);
    lemma_other_keyword(t, kw, "enum"@, 0);
    lemma_other_keyword(t, kw, "pub trait"@, 0);
    lemma_other_keyword(t, kw, "trait"@, 0);
    lemma_other_keyword(t, kw, "impl"@, 0);
    lemma_other_keyword(t, kw, "pub type"@, 0);
    lemma_other_keyword(t, kw, "type"@, 0);
}

#[verifier::rlimit(40)]
proof fn lemma_rust_10(ext: Seq<char>, name: Seq<char>, tail: Seq<char>)
    requires
        ext == "rs"@,
        is_name(name),
        may_follow(tail),
        on_one_line(tail),
    ensures
        symbols_of(ext, "static"@ + seq![' '] + name + tail) == seq![name],
{
    reveal_strlit("pub fn");
    reveal_strlit("fn");
    reveal_strlit("pub struct");
    reveal_strlit("struct");
    reveal_strlit("pub enum");
    reveal_strlit("enum");
    reveal_strlit("pub trait");
    reveal_strlit("trait");
    reveal_strlit("impl");
    reveal_strlit("pub type");
    reveal_strlit("type");
    reveal_strlit("const");
    reveal_strlit("static");
    let kw = "static"@;
    let x = lemma_item(ext, kw, name, tail);
    let t = kw + seq![' '] + name + x;
    lemma_other_keyword(t, kw, "pub fn"@, 0);
    lemma_other_keyword(t, kw, "fn"@, 0);
    lemma_other_keyword(t, kw, "pub struct"@, 0);
    lemma_other_keyword(t, kw, "struct"@, 2);
    lemma_other_keyword(t, kw, "pub enum"@, 0);
    lemma_other_keyword(t, kw, "enum"@, 0);
    lemma_other_keyword(t, kw, "pub trait"@, 0);
    lemma_other_keyword(t, kw, "trait"@, 0);
    lemma_other_keyword(t, kw, "impl"@, 0);
    lemma_other_keyword(t, kw, "pub type"@, 0);
    lemma_other_keyword(t, kw, "type"@, 0);
    lemma_other_keyword(t, kw, "const"@, 0);
}

/// A line of Rust that begins with the keyword of an item names what follows it.
pub proof fn law_rust_items(ext: Seq<char>, kw: Seq<char>, name: Seq<char>, tail: Seq<char>)
    requires
        ext == "rs"@,
        kw == "pub struct"@ || kw == "struct"@ || kw == "pub enum"@ || kw == "enum"@ || kw == "pub trait"@ || kw == "trait"@ || kw == "impl"@ || kw == "pub type"@ || kw == "type"@ || kw == "const"@ || kw == "static"@,
        is_name(name),
        may_follow(tail),
        on_one_line(tail),
    ensures
        symbols_of(ext, kw + seq![' '] + name + tail) == seq![name],
{
    if kw == "pub struct"@ {
        lemma_rust_0(ext, name, tail);
    } else if kw == "struct"@ {
        lemma_rust_1(ext, name, tail);
    } else if kw == "pub enum"@ {
        lemma_rust_2(ext, name, tail);
    } else if kw == "enum"@ {
        lemma_rust_3(ext, name, tail);
    } else if kw == "pub trait"@ {
        lemma_rust_4(ext, name, tail);
    } else if kw == "trait"@ {
        lemma_rust_5(ext, name, tail);
    } else if kw == "impl"@ {
        lemma_rust_6(ext, name, tail);
    } else if kw == "pub type"@ {
        lemma_rust_7(ext, name, tail);
    } else if kw == "type"@ {
        lemma_rust_8(ext, name, tail);
    } else if kw == "const"@ {
        lemma_rust_9(ext, name, tail);
    } else if kw == "static"@ {
        lemma_rust_10(ext, name, tail);
    }
}

#[verifier::rlimit(40)]
proof fn lemma_go_0(ext: Seq<char>, name: Seq<char>, tail: Seq<char>)
    requires
        ext == "go"@,
        is_name(name),
        may_follow(tail),
        on_one_line(tail),
    ensures
        symbols_of(ext, "type"@ + seq![' '] + name + tail) == seq![name],
{
    reveal_strlit("func");
    reveal_strlit("type");
    lemma_ext_go(ext);
    let kw = "type"@;
    let x = lemma_item(ext, kw, name, tail);
    let t = kw + seq![' '] + name + x;
    lemma_other_keyword(t, kw, "func"@, 0);
}

#[verifier::rlimit(40)]
proof fn lemma_go_1(ext: Seq<char>, name: Seq<char>, tail: Seq<char>)
    requires
        ext == "go"@,
        is_name(name),
        may_follow(tail),
        on_one_line(tail),
    ensures
        symbols_of(ext, "const"@ + seq![' '] + name + tail) == seq![name],
{
    reveal_strlit("func");
    reveal_strlit("type");
    reveal_strlit("const");
    lemma_ext_go(ext);
    let kw = "const"@;
    let x = lemma_item(ext, kw, name, tail);
    let t = kw + seq![' '] + name + x;
    lemma_other_keyword(t, kw, "func"@, 0);
    lemma_other_keyword(t, kw, "type"@, 0);
}

#[verifier::rlimit(40)]
proof fn lemma_go_2(ext: Seq<char>, name: Seq<char>, tail: Seq<char>)
    requires
        ext == "go"@,
        is_name(name),
        may_follow(tail),
        on_one_line(tail),
    ensures
        symbols_of(ext, "var"@ + seq![' '] + name + tail) == seq![name],
{
    reveal_strlit("func");
    reveal_strlit("type");
    reveal_strlit("const");
    reveal_strlit("var");
    lemma_ext_go(ext);
    let kw = "var"@;
    let x = lemma_item(ext, kw, name, tail);
    let t = kw + seq![' '] + name + x;
    lemma_other_keyword(t, kw, "func"@, 0);
    lemma_other_keyword(t, kw, "type"@, 0);
    lemma_other_keyword(t, kw, "const"@, 0);
}

/// A line of Go that declares a type, a constant or a variable names it.
pub proof fn law_go_items(ext: Seq<char>, kw: Seq<char>, name: Seq<char>, tail: Seq<char>)
    requires
        ext == "go"@,
        kw == "type"@ || kw == "const"@ || kw == "var"@,
        is_name(name),
        may_follow(tail),
        on_one_line(tail),
    ensures
        symbols_of(ext, kw + seq![' '] + name + tail) == seq![name],
{
    if kw == "type"@ {
        lemma_go_0(ext, name, tail);
    } else if kw == "const"@ {
        lemma_go_1(ext, name, tail);
    } else if kw == "var"@ {
        lemma_go_2(ext, name, tail);
    }
}

#[verifier::rlimit(40)]
proof fn lemma_python_0(ext: Seq<char>, name: Seq<char>, tail: Seq<char>)
    requires
        ext == "py"@,
        is_name(name),
        may_follow(tail),
        on_one_line(tail),
    ensures
        symbols_of(ext, "async def"@ + seq![' '] + name + tail) == seq![name],
{
    reveal_strlit("async def");
    lemma_ext_python(ext);
    let kw = "async def"@;
    let x = lemma_item(ext, kw, name, tail);
    let t = kw + seq![' '] + name + x;
}

#[verifier::rlimit(40)]
proof fn lemma_python_1(ext: Seq<char>, name: Seq<char>, tail: Seq<char>)
    requires
        ext == "py"@,
        is_name(name),
        may_follow(tail),
        on_one_line(tail),
    ensures
        symbols_of(ext, "def"@ + seq![' '] + name + tail) == seq![name],
{
    reveal_strlit("async def");
    reveal_strlit("def");
    lemma_ext_python(ext);
    let kw = "def"@;
    let x = lemma_item(ext, kw, name, tail);
    let t = kw + seq![' '] + name + x;
    lemma_other_keyword(t, kw, "async def"@, 0);
}

#[verifier::rlimit(40)]
proof fn lemma_python_2(ext: Seq<char>, name: Seq<char>, tail: Seq<char>)
    requires
        ext == "py"@,
        is_name(name),
        may_follow(tail),
        on_one_line(tail),
    ensures
        symbols_of(ext, "class"@ + seq![' '] + name + tail) == seq![name],
{
    reveal_strlit("async def");
    reveal_strlit("def");
    reveal_strlit("class");
    lemma_ext_python(ext);
    let kw = "class"@;
    let x = lemma_item(ext, kw, name, tail);
    let t = kw + seq![' '] + name + x;
    lemma_other_keyword(t, kw, "async def"@, 0);
    lemma_other_keyword(t, kw, "def"@, 0);
}

/// A line of Python that defines a function or a class names it.
pub proof fn law_python_items(ext: Seq<char>, kw: Seq<char>, name: Seq<char>, tail: Seq<char>)
    requires
        ext == "py"@,
        kw == "async def"@ || kw == "def"@ || kw == "class"@,
        is_name(name),
        may_follow(tail),
        on_one_line(tail),
    ensures
        symbols_of(ext, kw + seq![' '] + name + tail) == seq![name],
{
    if kw == "async def"@ {
        lemma_python_0(ext, name, tail);
    } else if kw == "def"@ {
        lemma_python_1(ext, name, tail);
    } else if kw == "class"@ {
        lemma_python_2(ext, name, tail);
    }
}

#[verifier::rlimit(40)]
proof fn lemma_script_0(ext: Seq<char>, name: Seq<char>, tail: Seq<char>)
    requires
        ext == "js"@ || ext == "jsx"@ || ext == "ts"@ || ext == "tsx"@ || ext == "mjs"@ || ext == "cjs"@,
        is_name(name),
        may_follow(tail),
        on_one_line(tail),
    ensures
        symbols_of(ext, "export function"@ + seq![' '] + name + tail) == seq![name],
{
    reveal_strlit("export function");
    lemma_ext_script(ext);
    let kw = "export function"@;
    let x = lemma_item(ext, kw, name, tail);
    let t = kw + seq![' '] + name + x;
}

#[verifier::rlimit(40)]
proof fn lemma_script_1(ext: Seq<char>, name: Seq<char>, tail: Seq<char>)
    requires
        ext == "js"@ || ext == "jsx"@ || ext == "ts"@ || ext == "tsx"@ || ext == "mjs"@ || ext == "cjs"@,
        is_name(name),
        may_follow(tail),
        on_one_line(tail),
    ensures
        symbols_of(ext, "function"@ + seq![' '] + name + tail) == seq![name],
{
    reveal_strlit("export function");
    reveal_strlit("function");
    lemma_ext_script(ext);
    let kw = "function"@;
    let x = lemma_item(ext, kw, name, tail);
    let t = kw + seq![' '] + name + x;
    lemma_other_keyword(t, kw, "export function"@, 0);
}

#[verifier::rlimit(40)]
proof fn lemma_script_2(ext: Seq<char>, name: Seq<char>, tail: Seq<char>)
    requires
        ext == "js"@ || ext == "jsx"@ || ext == "ts"@ || ext == "tsx"@ || ext == "mjs"@ || ext == "cjs"@,
        is_name(name),
        may_follow(tail),
        on_one_line(tail),
    ensures
        symbols_of(ext, "export class"@ + seq![' '] + name + tail) == seq![name],
{
    reveal_strlit("export function");
    reveal_strlit("function");
    reveal_strlit("export class");
    lemma_ext_script(ext);
    let kw = "export class"@;
    let x = lemma_item(ext, kw, name, tail);
    let t = kw + seq![' '] + name + x;
    lemma_other_keyword(t, kw, "export function"@, 7);
    lemma_other_keyword(t, kw, "function"@, 0);
}

#[verifier::rlimit(40)]
proof fn lemma_script_3(ext: Seq<char>, name: Seq<char>, tail: Seq<char>)
    requires
        ext == "js"@ || ext == "jsx"@ || ext == "ts"@ || ext == "tsx"@ || ext == "mjs"@ || ext == "cjs"@,
        is_name(name),
        may_follow(tail),
        on_one_line(tail),
    ensures
        symbols_of(ext, "class"@ + seq![' '] + name + tail) == seq![name],
{
    reveal_strlit("export function");
    reveal_strlit("function");
    reveal_strlit("export class");
    reveal_strlit("class");
    lemma_ext_script(ext);
    let kw = "class"@;
    let x = lemma_item(ext, kw, name, tail);
    let t = kw + seq![' '] + name + x;
    lemma_other_keyword(t, kw, "export function"@, 0);
    lemma_other_keyword(t, kw, "function"@, 0);
    lemma_other_keyword(t, kw, "export class"@, 0);
}

#[verifier::rlimit(40)]
proof fn lemma_script_4(ext: Seq<char>, name: Seq<char>, tail: Seq<char>)
    requires
        ext == "js"@ || ext == "jsx"@ || ext == "ts"@ || ext == "tsx"@ || ext == "mjs"@ || ext == "cjs"@,
        is_name(name),
        may_follow(tail),
        on_one_line(tail),
    ensures
        symbols_of(ext, "export interface"@ + seq![' '] + name + tail) == seq![name],
{
    reveal_strlit("export function");
    reveal_strlit("function");
    reveal_strlit("export class");
    reveal_strlit("class");
    reveal_strlit("export interface");
    lemma_ext_script(ext);
    let kw = "export interface"@;
    let x = lemma_item(ext, kw, name, tail);
    let t = kw + seq![' '] + name + x;
    lemma_other_keyword(t, kw, "export function"@, 7);
    lemma_other_keyword(t, kw, "function"@, 0);
    lemma_other_keyword(t, kw, "export class"@, 7);
    lemma_other_keyword(t, kw, "class"@, 0);
}

#[verifier::rlimit(40)]
proof fn lemma_script_5(ext: Seq<char>, name: Seq<char>, tail: Seq<char>)
    requires
        ext == "js"@ || ext == "jsx"@ || ext == "ts"@ || ext == "tsx"@ || ext == "mjs"@ || ext == "cjs"@,
        is_name(name),
        may_follow(tail),
        on_one_line(tail),
    ensures
        symbols_of(ext, "interface"@ + seq![' '] + name + tail) == seq![name],
{
    reveal_strlit("export function");
    reveal_strlit("function");
    reveal_strlit("export class");
    reveal_strlit("class");
    reveal_strlit("export interface");
    reveal_strlit("interface");
    lemma_ext_script(ext);
    let kw = "interface"@;
    let x = lemma_item(ext, kw, name, tail);
    let t = kw + seq![' '] + name + x;
    lemma_other_keyword(t, kw, "export function"@, 0);
    lemma_other_keyword(t, kw, "function"@, 0);
    lemma_other_keyword(t, kw, "export class"@, 0);
    lemma_other_keyword(t, kw, "class"@, 0);
    lemma_other_keyword(t, kw, "export interface"@, 0);
}

#[verifier::rlimit(40)]
proof fn lemma_script_6(ext: Seq<char>, name: Seq<char>, tail: Seq<char>)
    requires
        ext == "js"@ || ext == "jsx"@ || ext == "ts"@ || ext == "tsx"@ || ext == "mjs"@ || ext == "cjs"@,
        is_name(name),
        may_follow(tail),
        on_one_line(tail),
    ensures
        symbols_of(ext, "export const"@ + seq![' '] + name + tail) == seq![name],
{
    reveal_strlit("export function");
    reveal_strlit("function");
    reveal_strlit("export class");
    reveal_strlit("class");
    reveal_strlit("export interface");
    reveal_strlit("interface");
    reveal_strlit("export const");
    lemma_ext_script(ext);
    let kw = "export const"@;
    let x = lemma_item(ext, kw, name, tail);
    let t = kw + seq![' '] + name + x;
    lemma_other_keyword(t, kw, "export function"@, 7);
    lemma_other_keyword(t, kw, "function"@, 0);
    lemma_other_keyword(t, kw, "export class"@, 8);
    lemma_other_keyword(t, kw, "class"@, 0);
    lemma_other_keyword(t, kw, "export interface"@, 7);
    lemma_other_keyword(t, kw, "interface"@, 0);
}

#[verifier::rlimit(40)]
proof fn lemma_script_7(ext: Seq<char>, name: Seq<char>, tail: Seq<char>)
    requires
        ext == "js"@ || ext == "jsx"@ || ext == "ts"@ || ext == "tsx"@ || ext == "mjs"@ || ext == "cjs"@,
        is_name(name),
        may_follow(tail),
        on_one_line(tail),
    ensures
        symbols_of(ext, "const"@ + seq![' '] + name + tail) == seq![name],
{
    reveal_strlit("export function");
    reveal_strlit("function");
    reveal_strlit("export class");
    reveal_strlit("class");
    reveal_strlit("export interface");
    reveal_strlit("interface");
    reveal_strlit("export const");
    reveal_strlit("const");
    lemma_ext_script(ext);
    let kw = "const"@;
    let x = lemma_item(ext, kw, name, tail);
    let t = kw + seq![' '] + name + x;
    lemma_other_keyword(t, kw, "export function"@, 0);
    lemma_other_keyword(t, kw, "function"@, 0);
    lemma_other_keyword(t, kw, "export class"@, 0);
    lemma_other_keyword(t, kw, "class"@, 1);
    lemma_other_keyword(t, kw, "export interface"@, 0);
    lemma_other_keyword(t, kw, "interface"@, 0);
    lemma_other_keyword(t, kw, "export const"@, 0);
}

/// A line of JavaScript or TypeScript that declares a function, a class, an interface
/// or a constant, exported or not, names it.
pub proof fn law_script_items(ext: Seq<char>, kw: Seq<char>, name: Seq<char>, tail: Seq<char>)
    requires
        ext == "js"@ || ext == "jsx"@ || ext == "ts"@ || ext == "tsx"@ || ext == "mjs"@ || ext == "cjs"@,
        kw == "export function"@ || kw == "function"@ || kw == "export class"@ || kw == "class"@ || kw == "export interface"@ || kw == "interface"@ || kw == "export const"@ || kw == "const"@,
        is_name(name),
        may_follow(tail),
        on_one_line(tail),
    ensures
        symbols_of(ext, kw + seq![' '] + name + tail) == seq![name],
{
    if kw == "export function"@ {
        lemma_script_0(ext, name, tail);
    } else if kw == "function"@ {
        lemma_script_1(ext, name, tail);
    } else if kw == "export class"@ {
        lemma_script_2(ext, name, tail);
    } else if kw == "class"@ {
        lemma_script_3(ext, name, tail);
    } else if kw == "export interface"@ {
        lemma_script_4(ext, name, tail);
    } else if kw == "interface"@ {
        lemma_script_5(ext, name, tail);
    } else if kw == "export const"@ {
        lemma_script_6(ext, name, tail);
    } else if kw == "const"@ {
        lemma_script_7(ext, name, tail);
    }
}

#[verifier::rlimit(40)]
proof fn lemma_c_0(ext: Seq<char>, name: Seq<char>, tail: Seq<char>)
    requires
        ext == "c"@ || ext == "h"@ || ext == "cpp"@ || ext == "hpp"@ || ext == "cc"@ || ext == "cxx"@ || ext == "hh"@,
        is_name(name),
        may_follow(tail),
        on_one_line(tail),
    ensures
        symbols_of(ext, "typedef"@ + seq![' '] + name + tail) == seq![name],
{
    reveal_strlit("typedef");
    lemma_ext_c(ext);
    let kw = "typedef"@;
    let x = lemma_item(ext, kw, name, tail);
    let t = kw + seq![' '] + name + x;
}

#[verifier::rlimit(40)]
proof fn lemma_c_1(ext: Seq<char>, name: Seq<char>, tail: Seq<char>)
    requires
        ext == "c"@ || ext == "h"@ || ext == "cpp"@ || ext == "hpp"@ || ext == "cc"@ || ext == "cxx"@ || ext == "hh"@,
        is_name(name),
        may_follow(tail),
        on_one_line(tail),
    ensures
        symbols_of(ext, "static inline"@ + seq![' '] + name + tail) == seq![name],
{
    reveal_strlit("typedef");
    reveal_strlit("static inline");
    lemma_ext_c(ext);
    let kw = "static inline"@;
    let x = lemma_item(ext, kw, name, tail);
    let t = kw + seq![' '] + name + x;
    lemma_other_keyword(t, kw, "typedef"@, 0);
}

#[verifier::rlimit(40)]
proof fn lemma_c_2(ext: Seq<char>, name: Seq<char>, tail: Seq<char>)
    requires
        ext == "c"@ || ext == "h"@ || ext == "cpp"@ || ext == "hpp"@ || ext == "cc"@ || ext == "cxx"@ || ext == "hh"@,
        is_name(name),
        may_follow(tail),
        on_one_line(tail),
    ensures
        symbols_of(ext, "inline"@ + seq![' '] + name + tail) == seq![name],
{
    reveal_strlit("typedef");
    reveal_strlit("static inline");
    reveal_strlit("inline");
    lemma_ext_c(ext);
    let kw = "inline"@;
    let x = lemma_item(ext, kw, name, tail);
    let t = kw + seq![' '] + name + x;
    lemma_other_keyword(t, kw, "typedef"@, 0);
    lemma_other_keyword(t, kw, "static inline"@, 0);
}

/// A line of C with the keyword of a definition names what follows it.
pub proof fn law_c_items(ext: Seq<char>, kw: Seq<char>, name: Seq<char>, tail: Seq<char>)
    requires
        ext == "c"@ || ext == "h"@ || ext == "cpp"@ || ext == "hpp"@ || ext == "cc"@ || ext == "cxx"@ || ext == "hh"@,
        kw == "typedef"@ || kw == "static inline"@ || kw == "inline"@,
        is_name(name),
        may_follow(tail),
        on_one_line(tail),
    ensures
        symbols_of(ext, kw + seq![' '] + name + tail) == seq![name],
{
    if kw == "typedef"@ {
        lemma_c_0(ext, name, tail);
    } else if kw == "static inline"@ {
        lemma_c_1(ext, name, tail);
    } else if kw == "inline"@ {
        lemma_c_2(ext, name, tail);
    }
}

#[verifier::rlimit(40)]
proof fn lemma_ruby_0(ext: Seq<char>, name: Seq<char>, tail: Seq<char>)
    requires
        ext == "rb"@,
        is_name(name),
        may_follow(tail),
        on_one_line(tail),
    ensures
        symbols_of(ext, "def"@ + seq![' '] + name + tail) == seq![name],
{
    reveal_strlit("def");
    lemma_ext_ruby(ext);
    let kw = "def"@;
    let x = lemma_item(ext, kw, name, tail);
    let t = kw + seq![' '] + name + x;
}

#[verifier::rlimit(40)]
proof fn lemma_ruby_1(ext: Seq<char>, name: Seq<char>, tail: Seq<char>)
    requires
        ext == "rb"@,
        is_name(name),
        may_follow(tail),
        on_one_line(tail),
    ensures
        symbols_of(ext, "class"@ + seq![' '] + name + tail) == seq![name],
{
    reveal_strlit("def");
    reveal_strlit("class");
    lemma_ext_ruby(ext);
    let kw = "class"@;
    let x = lemma_item(ext, kw, name, tail);
    let t = kw + seq![' '] + name + x;
    lemma_other_keyword(t, kw, "def"@, 0);
}

#[verifier::rlimit(40)]
proof fn lemma_ruby_2(ext: Seq<char>, name: Seq<char>, tail: Seq<char>)
    requires
        ext == "rb"@,
        is_name(name),
        may_follow(tail),
        on_one_line(tail),
    ensures
        symbols_of(ext, "module"@ + seq![' '] + name + tail) == seq![name],
{
    reveal_strlit("def");
    reveal_strlit("class");
    reveal_strlit("module");
    lemma_ext_ruby(ext);
    let kw = "module"@;
    let x = lemma_item(ext, kw, name, tail);
    let t = kw + seq![' '] + name + x;
    lemma_other_keyword(t, kw, "def"@, 0);
    lemma_other_keyword(t, kw, "class"@, 0);
}

/// A line of Ruby that defines a method, a class or a module names it.
pub proof fn law_ruby_items(ext: Seq<char>, kw: Seq<char>, name: Seq<char>, tail: Seq<char>)
    requires
        ext == "rb"@,
        kw == "def"@ || kw == "class"@ || kw == "module"@,
        is_name(name),
        may_follow(tail),
        on_one_line(tail),
    ensures
        symbols_of(ext, kw + seq![' '] + name + tail) == seq![name],
{
    if kw == "def"@ {
        lemma_ruby_0(ext, name, tail);
    } else if kw == "class"@ {
        lemma_ruby_1(ext, name, tail);
    } else if kw == "module"@ {
        lemma_ruby_2(ext, name, tail);
    }
}

#[verifier::rlimit(40)]
proof fn lemma_shell_0(ext: Seq<char>, name: Seq<char>, tail: Seq<char>)
    requires
        ext == "sh"@ || ext == "bash"@ || ext == "zsh"@,
        is_name(name),
        may_follow(tail),
        on_one_line(tail),
    ensures
        symbols_of(ext, "function"@ + seq![' '] + name + tail) == seq![name],
{
    reveal_strlit("function");
    lemma_ext_shell(ext);
    let kw = "function"@;
    let x = lemma_item(ext, kw, name, tail);
    let t = kw + seq![' '] + name + x;
}

#[verifier::rlimit(40)]
proof fn lemma_shell_1(ext: Seq<char>, name: Seq<char>, tail: Seq<char>)
    requires
        ext == "sh"@ || ext == "bash"@ || ext == "zsh"@,
        is_name(name),
        may_follow(tail),
        on_one_line(tail),
    ensures
        symbols_of(ext, "export"@ + seq![' '] + name + tail) == seq![name],
{
    reveal_strlit("function");
    reveal_strlit("export");
    lemma_ext_shell(ext);
    let kw = "export"@;
    let x = lemma_item(ext, kw, name, tail);
    let t = kw + seq![' '] + name + x;
    lemma_other_keyword(t, kw, "function"@, 0);
}

/// A line of a shell script that defines a function or exports a variable names it.
pub proof fn law_shell_items(ext: Seq<char>, kw: Seq<char>, name: Seq<char>, tail: Seq<char>)
    requires
        ext == "sh"@ || ext == "bash"@ || ext == "zsh"@,
        kw == "function"@ || kw == "export"@,
        is_name(name),
        may_follow(tail),
        on_one_line(tail),
    ensures
        symbols_of(ext, kw + seq![' '] + name + tail) == seq![name],
{
    if kw == "function"@ {
        lemma_shell_0(ext, name, tail);
    } else if kw == "export"@ {
        lemma_shell_1(ext, name, tail);
    }
}

// ── Functions and methods ───────────────────────────────────────────────────

/// A function of Rust is named by what stands before its parameters, those of types
/// as well as those of values.
#[verifier::rlimit(40)]
pub proof fn law_rust_functions(kw: Seq<char>, name: Seq<char>, tail: Seq<char>)
    requires
        kw == "pub fn"@ || kw == "fn"@,
        is_name(name),
        tail.len() > 0,
        tail[0] == '(' || tail[0] == '<',
        on_one_line(tail),
    ensures
        symbols_of("rs"@, kw + seq![' '] + name + tail) == seq![name],
{
    reveal_strlit("pub fn");
    reveal_strlit("fn");
    let x = lemma_item("rs"@, kw, name, tail);
    let t = kw + seq![' '] + name + x;
    if kw == "fn"@ {
        lemma_other_keyword(t, kw, "pub fn"@, 0);
    }
    lemma_before_parens(name, x);
}

/// The name before a parenthesis or a bracket of type parameters.
proof fn lemma_before_parens(name: Seq<char>, x: Seq<char>)
    requires
        is_name(name),
        x.len() > 0 ==> x[0] == '(' || x[0] == '<',
    ensures
        symbols::name_before_parens(name + x) == name,
{
    let p = text::among("(<"@);
    assert(is_name_char(name[0]));
    assert(is_name_char(name[name.len() - 1]));
    let none = Seq::<char>::empty();
    assert(none + (name + x) =~= name + x);
    assert((name + x)[0] == name[0]);
    text::law_left_trimmed(none, name + x, text::white());
    assert forall|i: int| 0 <= i < name.len() implies !p(#[trigger] name[i]) by {
        lemma_name_ends(name[i]);
        assert(is_name_char(name[i]));
    }
    if x.len() > 0 {
        lemma_name_ends(x[0]);
    }
    text::law_until(name, x, p);
    text::law_trimmed_already(name);
}

/// The implementation of a type with parameters names the type, not the parameters.
#[verifier::rlimit(60)]
pub proof fn law_rust_generic_impls(inner: Seq<char>, name: Seq<char>, tail: Seq<char>)
    requires
        forall|i: int| 0 <= i < inner.len() ==> #[trigger] inner[i] != '<' && inner[i] != '>',
        inner.len() > 0 ==> inner.last() != '-',
        on_one_line(inner),
        is_name(name),
        may_follow(tail),
        on_one_line(tail),
    ensures
        symbols_of("rs"@, "impl<"@ + inner + "> "@ + name + tail) == seq![name],
{
    reveal_strlit("impl<");
    reveal_strlit("impl");
    reveal_strlit("> ");
    let h = "impl<"@ + inner + "> "@ + name;
    let line = h + tail;
    assert(h[0] == 'i');
    assert(is_name_char(name[name.len() - 1]));
    assert(h.last() == name.last());
    assert forall|i: int| 0 <= i < line.len() implies #[trigger] line[i] != '\n' by {
        let k = 5 + inner.len();
        if i < 5 {
            assert(line[i] == "impl<"@[i]);
        } else if i < k {
            assert(line[i] == inner[i - 5]);
        } else if i < k + 2 {
            assert(line[i] == "> "@[i - k]);
        } else if i < k + 2 + name.len() {
            assert(line[i] == name[i - k - 2]);
            assert(is_name_char(name[i - k - 2]));
        } else {
            assert(line[i] == tail[i - k - 2 - name.len()]);
        }
    }
    lemma_one_line("rs"@, line);
    let x = lemma_trimmed_tail(h, tail);
    if x.len() > 0 {
        assert(x[0] == tail[0]);
    }
    let t = h + x;
    assert(t[0] == 'i');
    lemma_no_comment(t);
    let kw = "impl"@;
    assert(t.subrange(0, 4) =~= kw);
    lemma_before_impl(t);
    let r = seq!['<'] + inner + seq!['>', ' '] + name + x;
    assert(t.skip(4) =~= r);
    let none = Seq::<char>::empty();
    assert(none + r =~= r);
    text::law_left_trimmed(none, r, text::white());
    lemma_generics_end(inner, seq![' '] + name + x);
    let rest = seq![' '] + name + x;
    assert(r =~= seq!['<'] + inner + seq!['>'] + rest);
    assert(none + rest =~= rest);
    lemma_name_ends(' ');
    text::law_left_trimmed(none, rest, text::among("<("@));
    lemma_name_in(name, x);
    assert(is_name_char(name[0]));
    lemma_name_in_shifted(name, x);
}

proof fn lemma_name_in_shifted(name: Seq<char>, x: Seq<char>)
    requires
        is_name(name),
        may_follow(x),
    ensures
        symbols::name_in(seq![' '] + name + x) == symbols::name_in(name + x),
{
    let w = text::white();
    assert(is_name_char(name[0]));
    assert((name + x)[0] == name[0]);
    let none = Seq::<char>::empty();
    text::law_left_trimmed(seq![' '], name + x, w);
    text::law_left_trimmed(none, name + x, w);
    assert(seq![' '] + name + x =~= seq![' '] + (name + x));
    assert(none + (name + x) =~= name + x);
}

proof fn lemma_before_impl(t: Seq<char>)
    requires
        "impl"@.is_prefix_of(t),
    ensures
        symbols::either_rest(t, "pub fn"@, "fn"@) is None,
        symbols::either_rest(t, "pub struct"@, "struct"@) is None,
        symbols::either_rest(t, "pub enum"@, "enum"@) is None,
        symbols::either_rest(t, "pub trait"@, "trait"@) is None,
{
    reveal_strlit("impl");
    reveal_strlit("pub fn");
    reveal_strlit("fn");
    reveal_strlit("pub struct");
    reveal_strlit("struct");
    reveal_strlit("pub enum");
    reveal_strlit("enum");
    reveal_strlit("pub trait");
    reveal_strlit("trait");
    let kw = "impl"@;
    lemma_other_keyword(t, kw, "pub fn"@, 0);
    lemma_other_keyword(t, kw, "fn"@, 0);
    lemma_other_keyword(t, kw, "pub struct"@, 0);
    lemma_other_keyword(t, kw, "struct"@, 0);
    lemma_other_keyword(t, kw, "pub enum"@, 0);
    lemma_other_keyword(t, kw, "enum"@, 0);
    lemma_other_keyword(t, kw, "pub trait"@, 0);
    lemma_other_keyword(t, kw, "trait"@, 0);
}

proof fn lemma_generics_end(inner: Seq<char>, rest: Seq<char>)
    requires
        forall|i: int| 0 <= i < inner.len() ==> #[trigger] inner[i] != '<' && inner[i] != '>',
        inner.len() > 0 ==> inner.last() != '-',
    ensures
        symbols::after_generics(seq!['<'] + inner + seq!['>'] + rest) == rest,
{
    let r = seq!['<'] + inner + seq!['>'] + rest;
    let n = inner.len() as int;
    lemma_depth_inside(inner, rest, n + 1);
    assert(r[n + 1] == '>');
    if n > 0 {
        assert(r[n] == inner.last());
    } else {
        assert(r[n] == '<');
    }
    assert(symbols::closes_angle(r, n + 1));
    assert(symbols::angle_depth(r, n + 2) == 0);
    lemma_end_inside(inner, rest, 1);
    assert(symbols::angle_end(r, 0) == symbols::angle_end(r, 1));
    assert(symbols::angle_end(r, n + 2) == n + 2);
    assert(r.skip(n + 2) =~= rest);
}

proof fn lemma_depth_inside(inner: Seq<char>, rest: Seq<char>, k: int)
    requires
        forall|i: int| 0 <= i < inner.len() ==> #[trigger] inner[i] != '<' && inner[i] != '>',
        1 <= k <= inner.len() + 1,
    ensures
        symbols::angle_depth(seq!['<'] + inner + seq!['>'] + rest, k) == 1,
    decreases k,
{
    let r = seq!['<'] + inner + seq!['>'] + rest;
    if k == 1 {
        assert(r[0] == '<');
        assert(symbols::angle_depth(r, 0) == 0);
    } else {
        lemma_depth_inside(inner, rest, k - 1);
        assert(r[k - 1] == inner[k - 2]);
    }
}

proof fn lemma_end_inside(inner: Seq<char>, rest: Seq<char>, k: int)
    requires
        forall|i: int| 0 <= i < inner.len() ==> #[trigger] inner[i] != '<' && inner[i] != '>',
        1 <= k <= inner.len() + 2,
    ensures
        ({
            let r = seq!['<'] + inner + seq!['>'] + rest;
            symbols::angle_end(r, k) == symbols::angle_end(r, inner.len() as int + 2)
        }),
    decreases inner.len() + 2 - k,
{
    if k < inner.len() + 2 {
        lemma_depth_inside(inner, rest, k);
        lemma_end_inside(inner, rest, k + 1);
    }
}

/// A function of Go is named by what stands before its parameters.
#[verifier::rlimit(40)]
pub proof fn law_go_functions(name: Seq<char>, args: Seq<char>)
    requires
        is_name(name),
        on_one_line(args),
    ensures
        symbols_of("go"@, "func "@ + name + "("@ + args) == seq![name],
{
    reveal_strlit("func ");
    reveal_strlit("func");
    reveal_strlit("(");
    lemma_ext_go("go"@);
    let kw = "func"@;
    let tail = "("@ + args;
    assert(tail[0] == '(');
    assert forall|i: int| 0 <= i < tail.len() implies #[trigger] tail[i] != '\n' by {
        if i > 0 {
            assert(tail[i] == args[i - 1]);
        }
    }
    let x = lemma_item("go"@, kw, name, tail);
    assert("func "@ + name + "("@ + args =~= kw + seq![' '] + name + tail);
    let r = name + x;
    assert(is_name_char(name[0]));
    assert(r[0] == name[0]);
    lemma_name_ends(name[0]);
    if "("@.is_prefix_of(r) {
        assert(r.subrange(0, 1)[0] == '(');
    }
    let p = text::among("("@);
    assert forall|i: int| 0 <= i < name.len() implies !p(#[trigger] name[i]) by {
        lemma_name_ends(name[i]);
        assert(is_name_char(name[i]));
    }
    if x.len() > 0 {
        lemma_name_ends(x[0]);
    }
    text::law_until(name, x, p);
    assert(is_name_char(name[name.len() - 1]));
    text::law_trimmed_already(name);
}

/// A method of Go is named by what follows its receiver.
#[verifier::rlimit(60)]
pub proof fn law_go_methods(receiver: Seq<char>, name: Seq<char>, tail: Seq<char>)
    requires
        forall|i: int| 0 <= i < receiver.len() ==> #[trigger] receiver[i] != ')',
        on_one_line(receiver),
        is_name(name),
        may_follow(tail),
        on_one_line(tail),
    ensures
        symbols_of("go"@, "func ("@ + receiver + ") "@ + name + tail) == seq![name],
{
    reveal_strlit("func (");
    reveal_strlit("func");
    reveal_strlit("(");
    reveal_strlit(") ");
    lemma_ext_go("go"@);
    let kw = "func"@;
    let h = "func ("@ + receiver + ") "@ + name;
    let line = h + tail;
    assert(h[0] == 'f');
    assert(is_name_char(name[name.len() - 1]));
    assert(is_name_char(name[0]));
    assert(h.last() == name.last());
    assert forall|i: int| 0 <= i < line.len() implies #[trigger] line[i] != '\n' by {
        let k = 6 + receiver.len();
        if i < 6 {
            assert(line[i] == "func ("@[i]);
        } else if i < k {
            assert(line[i] == receiver[i - 6]);
        } else if i < k + 2 {
            assert(line[i] == ") "@[i - k]);
        } else if i < k + 2 + name.len() {
            assert(line[i] == name[i - k - 2]);
            assert(is_name_char(name[i - k - 2]));
        } else {
            assert(line[i] == tail[i - k - 2 - name.len()]);
        }
    }
    lemma_one_line("go"@, line);
    let x = lemma_trimmed_tail(h, tail);
    if x.len() > 0 {
        assert(x[0] == tail[0]);
    }
    let t = h + x;
    assert(t[0] == 'f');
    lemma_no_comment(t);
    let a = seq!['('] + receiver;
    let b = seq![')', ' '] + name + x;
    let r = a + b;
    assert(t =~= kw + seq![' '] + r);
    assert(r[0] == '(');
    lemma_keyword(kw, r);
    assert(r.subrange(0, 1) =~= "("@);
    let p = text::among(")"@);
    assert forall|i: int| 0 <= i < a.len() implies !p(#[trigger] a[i]) by {
        lemma_name_ends(a[i]);
        if i > 0 {
            assert(a[i] == receiver[i - 1]);
        }
    }
    lemma_name_ends(')');
    assert(b[0] == ')');
    text::law_until(a, b, p);
    let rest = seq![' '] + name + x;
    assert(r.skip(a.len() as int + 1) =~= rest);
    assert(symbols::after_receiver(r) == rest);
    let y = lemma_trimmed_tail(name, x);
    let w = text::white();
    assert((name + x)[0] == name[0]);
    text::law_left_trimmed(seq![' '], name + x, w);
    let none = Seq::<char>::empty();
    text::law_left_trimmed(none, name + x, w);
    assert(rest =~= seq![' '] + (name + x));
    assert(none + (name + x) =~= name + x);
    assert(text::trimmed(rest) == name + y);
    if y.len() > 0 {
        assert(y[0] == x[0]);
    }
    lemma_name_in(name, y);
}

// ── Functions of C ──────────────────────────────────────────────────────────

/// Whether a text is a word of a declaration in C: ASCII, and without whitespace,
/// parentheses, the signs of pointers and references, and arrows.
pub open spec fn is_c_word(w: Seq<char>) -> bool {
    &&& w.len() > 0
    &&& forall|i: int| 0 <= i < w.len() ==> is_c_char(#[trigger] w[i])
}

/// Whether a character can stand in a word of a declaration in C.
pub open spec fn is_c_char(c: char) -> bool {
    &&& (c as u32) < 0x80
    &&& !text::char_whitespace(c)
    &&& c != '(' && c != '*' && c != '&' && c != '-'
}

/// Whether a word is the keyword `kw`, or begins with it and a bracket.
pub open spec fn is_keyword_like(w: Seq<char>, kw: Seq<char>) -> bool {
    kw.is_prefix_of(w) && (w.len() == kw.len() || w[kw.len() as int] == '<')
}

proof fn lemma_c_keyword(ty: Seq<char>, rest: Seq<char>, kw: Seq<char>)
    requires
        is_c_word(ty),
        !is_keyword_like(ty, kw),
        forall|i: int| 0 <= i < kw.len() ==> #[trigger] kw[i] != ' ',
    ensures
        symbols::keyword_rest(ty + seq![' '] + rest, kw) is None,
{
    let t = ty + seq![' '] + rest;
    if kw.is_prefix_of(t) {
        let n = kw.len() as int;
        assert(t.subrange(0, n) =~= kw);
        if ty.len() < n {
            assert(t.subrange(0, n)[ty.len() as int] == ' ');
        } else {
            assert(ty.subrange(0, n) =~= kw) by {
                assert forall|i: int| 0 <= i < n implies ty.subrange(0, n)[i] == kw[i] by {
                    assert(t.subrange(0, n)[i] == ty[i]);
                }
            }
            if ty.len() > n {
                assert(t.skip(n)[0] == ty[n]);
                assert(is_c_char(ty[n]));
            }
        }
    }
}

proof fn lemma_c_control(ty: Seq<char>, rest: Seq<char>, word: Seq<char>)
    requires
        is_c_word(ty),
        text::is_ascii(ty + seq![' '] + rest),
        text::ascii_lowered(ty) != word,
        forall|i: int| 0 <= i < word.len() ==> #[trigger] word[i] != ' ',
    ensures
        !(word + seq![' ']).is_prefix_of(text::lowercase(ty + seq![' '] + rest)),
{
    let t = ty + seq![' '] + rest;
    let low = text::lowercase(t);
    let w = word + seq![' '];
    if w.is_prefix_of(low) {
        let n = word.len() as int;
        assert(low.subrange(0, n + 1) =~= w);
        assert(low.subrange(0, n + 1)[n] == ' ');
        assert(low[n] == text::ascii_lower(t[n]));
        if ty.len() < n {
            assert(low.subrange(0, n + 1)[ty.len() as int] == word[ty.len() as int]);
            assert(low[ty.len() as int] == text::ascii_lower(t[ty.len() as int]));
        } else if ty.len() > n {
            assert(t[n] == ty[n]);
            assert(is_c_char(ty[n]));
        } else {
            assert forall|i: int| 0 <= i < n implies text::ascii_lowered(ty)[i] == word[i] by {
                assert(low.subrange(0, n + 1)[i] == word[i]);
                assert(low[i] == text::ascii_lower(t[i]));
            }
            assert(text::ascii_lowered(ty) =~= word);
        }
    }
}

proof fn lemma_c_words(ty: Seq<char>, name: Seq<char>, args: Seq<char>)
    requires
        is_c_word(ty),
        is_c_word(name),
    ensures
        symbols::declaration_words(ty + seq![' '] + name + seq!['('] + args) == seq![ty, name],
{
    let a = ty + seq![' '] + name;
    let b = seq!['('] + args;
    let p = text::among("("@);
    assert forall|i: int| 0 <= i < a.len() implies !p(#[trigger] a[i]) by {
        lemma_name_ends(a[i]);
        if i < ty.len() {
            assert(a[i] == ty[i]);
        } else if i > ty.len() {
            assert(a[i] == name[i - ty.len() - 1]);
        }
    }
    lemma_name_ends('(');
    text::law_until(a, b, p);
    assert(ty + seq![' '] + name + seq!['('] + args =~= a + b);
    assert(is_c_char(ty[0]));
    assert(is_c_char(name[name.len() - 1]));
    assert(a[0] == ty[0] && a.last() == name.last());
    text::law_trimmed_already(a);
    text::lemma_find_text(a, "->"@);
    let f = text::find_text(a, "->"@);
    if f >= 0 {
        reveal_strlit("->");
        assert(a.skip(f).subrange(0, 2)[0] == '-');
        assert(a[f] == '-');
        if f < ty.len() {
            assert(is_c_char(ty[f]));
        } else if f > ty.len() {
            assert(is_c_char(name[f - ty.len() - 1]));
        }
    }
    assert(symbols::before_arrow(a) == a);
    split::law_words_of_two_texts(ty, ' ', name);
    assert(a =~= ty.push(' ') + name);
    assert forall|i: int| 0 <= i < ty.len() implies !text::char_whitespace(#[trigger] ty[i]) by {
        assert(is_c_char(ty[i]));
    }
    assert forall|i: int| 0 <= i < name.len() implies !text::char_whitespace(
        #[trigger] name[i],
    ) by {
        assert(is_c_char(name[i]));
    }
    split::law_one_word(ty);
    split::law_one_word(name);
    assert(split::words(a) =~= seq![ty, name]);
}

/// A function of C or C++ is named by the word in front of its parameters, not by
/// its type: a line of a type, a name and parameters gives the name alone.
#[verifier::rlimit(60)]
pub proof fn law_c_functions(ext: Seq<char>, ty: Seq<char>, name: Seq<char>, args: Seq<char>)
    requires
        ext == "c"@ || ext == "h"@ || ext == "cpp"@ || ext == "hpp"@ || ext == "cc"@ || ext
            == "cxx"@ || ext == "hh"@,
        is_c_word(ty),
        is_c_word(name),
        text::is_ascii(args),
        on_one_line(args),
        ty[0] != '/' && ty[0] != '#' && ty[0] != '<',
        !is_keyword_like(ty, "typedef"@),
        !is_keyword_like(ty, "inline"@),
        ty != "static"@,
        text::ascii_lowered(ty) != "if"@,
        text::ascii_lowered(ty) != "for"@,
        text::ascii_lowered(ty) != "while"@,
        text::ascii_lowered(ty) != "switch"@,
    ensures
        symbols_of(ext, ty + seq![' '] + name + seq!['('] + args) == seq![name],
{
    lemma_ext_c(ext);
    let h = ty + seq![' '] + name + seq!['('];
    let line = h + args;
    assert(is_c_char(ty[0]));
    assert(h[0] == ty[0]);
    assert(h.last() == '(');
    assert forall|i: int| 0 <= i < line.len() implies #[trigger] line[i] != '\n' && (line[i] as u32)
        < 0x80 by {
        let k = ty.len() as int;
        let m = name.len() as int;
        if i < k {
            assert(line[i] == ty[i]);
        } else if i == k {
        } else if i < k + 1 + m {
            assert(line[i] == name[i - k - 1]);
            assert(is_c_char(name[i - k - 1]));
        } else if i > k + 1 + m {
            assert(line[i] == args[i - k - 2 - m]);
        }
    }
    lemma_one_line(ext, line);
    let x = lemma_trimmed_tail(h, args);
    let t = h + x;
    let rest = name + seq!['('] + x;
    assert(t =~= ty + seq![' '] + rest);
    assert forall|i: int| 0 <= i < t.len() implies (#[trigger] t[i] as u32) < 0x80 by {
        if i < h.len() {
            assert(t[i] == line[i]);
        } else {
            assert(x[i - h.len()] == args[i - h.len()]);
            assert(t[i] == line[i]);
        }
    }
    assert(t[0] == ty[0]);
    assert(ty[0] != '*');
    lemma_no_comment(t);
    lemma_c_checks(ty, rest);
    lemma_c_words(ty, name, x);
    assert(t =~= ty + seq![' '] + name + seq!['('] + x);
    let low = text::lowercase(t);
    let q = h.len() - 1;
    reveal_strlit("(");
    assert(low[q] == text::ascii_lower(t[q]));
    assert(t[q] == '(');
    assert(low.skip(q).subrange(0, 1) =~= "("@);
    assert(text::occurs_at(low, "("@, q));
    let ws = symbols::declaration_words(t);
    assert(ws =~= seq![ty, name]);
    assert(ws.last() == name);
    let none = Seq::<char>::empty();
    assert(is_c_char(name[name.len() - 1]));
    lemma_name_ends(name[name.len() - 1]);
    assert(name + none =~= name);
    text::law_right_trimmed(name, none, text::among("*"@));
    text::law_right_trimmed(name, none, text::among("&"@));
}

proof fn lemma_c_checks(ty: Seq<char>, rest: Seq<char>)
    requires
        is_c_word(ty),
        text::is_ascii(ty + seq![' '] + rest),
        !is_keyword_like(ty, "typedef"@),
        !is_keyword_like(ty, "inline"@),
        ty != "static"@,
        text::ascii_lowered(ty) != "if"@,
        text::ascii_lowered(ty) != "for"@,
        text::ascii_lowered(ty) != "while"@,
        text::ascii_lowered(ty) != "switch"@,
    ensures
        symbols::keyword_rest(ty + seq![' '] + rest, "typedef"@) is None,
        symbols::either_rest(ty + seq![' '] + rest, "static inline"@, "inline"@) is None,
        !symbols::is_control_line(text::lowercase(ty + seq![' '] + rest)),
{
    reveal_strlit("typedef");
    reveal_strlit("inline");
    reveal_strlit("static");
    reveal_strlit("static inline");
    reveal_strlit("if");
    reveal_strlit("for");
    reveal_strlit("while");
    reveal_strlit("switch");
    reveal_strlit("if ");
    reveal_strlit("for ");
    reveal_strlit("while ");
    reveal_strlit("switch ");
    let t = ty + seq![' '] + rest;
    lemma_c_keyword(ty, rest, "typedef"@);
    lemma_c_keyword(ty, rest, "inline"@);
    let s = "static inline"@;
    if s.is_prefix_of(t) {
        assert(t.subrange(0, 13) =~= s);
        assert(t.subrange(0, 13)[6] == ' ');
        if ty.len() < 6 {
            assert(t.subrange(0, 13)[ty.len() as int] == ' ');
            assert(s[ty.len() as int] != ' ');
        } else if ty.len() > 6 {
            assert(is_c_char(ty[6]));
            assert(t[6] == ty[6]);
        } else {
            assert forall|i: int| 0 <= i < 6 implies ty[i] == "static"@[i] by {
                assert(t.subrange(0, 13)[i] == s[i]);
            }
            assert(ty =~= "static"@);
        }
    }
    lemma_c_control(ty, rest, "if"@);
    lemma_c_control(ty, rest, "for"@);
    lemma_c_control(ty, rest, "while"@);
    lemma_c_control(ty, rest, "switch"@);
    assert("if"@ + seq![' '] =~= "if "@);
    assert("for"@ + seq![' '] =~= "for "@);
    assert("while"@ + seq![' '] =~= "while "@);
    assert("switch"@ + seq![' '] =~= "switch "@);
}

/// A function of a shell script is named by what stands before its parentheses.
#[verifier::rlimit(40)]
pub proof fn law_shell_functions(ext: Seq<char>, name: Seq<char>)
    requires
        ext == "sh"@ || ext == "bash"@ || ext == "zsh"@,
        is_name(name),
        name[0] != '/' && name[0] != '#',
        name != "function"@,
        name != "export"@,
    ensures
        symbols_of(ext, name + "()"@) == seq![name],
        symbols_of(ext, name + "() {"@) == seq![name],
{
    reveal_strlit("()");
    reveal_strlit("() {");
    lemma_shell_function(ext, name, "()"@);
    lemma_shell_function(ext, name, "() {"@);
}

proof fn lemma_shell_function(ext: Seq<char>, name: Seq<char>, tail: Seq<char>)
    requires
        ext == "sh"@ || ext == "bash"@ || ext == "zsh"@,
        is_name(name),
        name[0] != '/' && name[0] != '#',
        name != "function"@,
        name != "export"@,
        tail == "()"@ || tail == "() {"@,
    ensures
        symbols_of(ext, name + tail) == seq![name],
{
    reveal_strlit("()");
    reveal_strlit("() {");
    lemma_ext_shell(ext);
    let t = name + tail;
    assert(is_name_char(name[0]));
    assert forall|i: int| 0 <= i < t.len() implies #[trigger] t[i] != '\n' by {
        if i < name.len() {
            assert(is_name_char(name[i]));
            assert(t[i] == name[i]);
        } else {
            assert(t[i] == tail[i - name.len()]);
        }
    }
    lemma_one_line(ext, t);
    assert(t[0] == name[0]);
    assert(t.last() == tail.last());
    text::law_trimmed_already(t);
    lemma_no_comment(t);
    reveal_strlit("function");
    reveal_strlit("export");
    lemma_shell_keyword(name, tail, "function"@);
    lemma_shell_keyword(name, tail, "export"@);
    assert(t.subrange(t.len() - tail.len(), t.len() as int) =~= tail);
    lemma_name_in(name, tail);
}

proof fn lemma_shell_keyword(name: Seq<char>, tail: Seq<char>, kw: Seq<char>)
    requires
        is_name(name),
        tail.len() > 0,
        tail[0] == '(',
        name != kw,
        forall|i: int| 0 <= i < kw.len() ==> #[trigger] kw[i] != '(',
    ensures
        symbols::keyword_rest(name + tail, kw) is None,
{
    let t = name + tail;
    let n = kw.len() as int;
    if kw.is_prefix_of(t) {
        assert(t.subrange(0, n) =~= kw);
        if name.len() < n {
            assert(t.subrange(0, n)[name.len() as int] == '(');
        } else if name.len() > n {
            assert(t.skip(n)[0] == name[n]);
            assert(is_name_char(name[n]));
        } else {
            assert(name =~= kw) by {
                assert forall|i: int| 0 <= i < n implies name[i] == kw[i] by {
                    assert(t.subrange(0, n)[i] == name[i]);
                }
            }
        }
    }
}

// ── Lines that declare nothing ──────────────────────────────────────────────

/// Whether a line begins with a word: it stands alone or before whitespace, a
/// parenthesis or a bracket.
pub open spec fn begins_with(t: Seq<char>, w: Seq<char>) -> bool {
    &&& w.is_prefix_of(t)
    &&& t.len() == w.len() || text::char_whitespace(t[w.len() as int]) || t[w.len() as int] == '('
        || t[w.len() as int] == '<'
}

proof fn lemma_begins(t: Seq<char>, w: Seq<char>)
    ensures
        symbols::keyword_rest(t, w) is Some <==> begins_with(t, w),
{
    if w.is_prefix_of(t) && t.len() > w.len() {
        assert(t.skip(w.len() as int)[0] == t[w.len() as int]);
    }
}

/// A line of Rust or Go that does not begin with the word of a declaration declares
/// nothing.
pub proof fn law_other_lines_of_rust_and_go(line: Seq<char>)
    requires
        on_one_line(line),
        line.len() > 0,
    ensures
        ({
            let t = text::trimmed(line);
            &&& !begins_with(t, "pub fn"@) && !begins_with(t, "fn"@) && !begins_with(
                t,
                "pub struct"@,
            ) && !begins_with(t, "struct"@) && !begins_with(t, "pub enum"@) && !begins_with(
                t,
                "enum"@,
            ) && !begins_with(t, "pub trait"@) && !begins_with(t, "trait"@) && !begins_with(
                t,
                "impl"@,
            ) && !begins_with(t, "pub type"@) && !begins_with(t, "type"@) && !begins_with(
                t,
                "const"@,
            ) && !begins_with(t, "static"@) ==> symbols_of("rs"@, line).len() == 0
            &&& !begins_with(t, "func"@) && !begins_with(t, "type"@) && !begins_with(
                t,
                "const"@,
            ) && !begins_with(t, "var"@) ==> symbols_of("go"@, line).len() == 0
        }),
{
    let t = text::trimmed(line);
    lemma_one_line("rs"@, line);
    lemma_one_line("go"@, line);
    lemma_ext_go("go"@);
    lemma_begins(t, "pub fn"@);
    lemma_begins(t, "fn"@);
    lemma_begins(t, "pub struct"@);
    lemma_begins(t, "struct"@);
    lemma_begins(t, "pub enum"@);
    lemma_begins(t, "enum"@);
    lemma_begins(t, "pub trait"@);
    lemma_begins(t, "trait"@);
    lemma_begins(t, "impl"@);
    lemma_begins(t, "pub type"@);
    lemma_begins(t, "type"@);
    lemma_begins(t, "const"@);
    lemma_begins(t, "static"@);
    lemma_begins(t, "func"@);
    lemma_begins(t, "var"@);
}

/// A line of Python, Ruby or a script that does not begin with the word of a
/// declaration declares nothing.
pub proof fn law_other_lines_of_scripts(ext: Seq<char>, line: Seq<char>)
    requires
        on_one_line(line),
        line.len() > 0,
        ext == "js"@ || ext == "jsx"@ || ext == "ts"@ || ext == "tsx"@ || ext == "mjs"@ || ext
            == "cjs"@,
    ensures
        ({
            let t = text::trimmed(line);
            &&& !begins_with(t, "async def"@) && !begins_with(t, "def"@) && !begins_with(
                t,
                "class"@,
            ) ==> symbols_of("py"@, line).len() == 0
            &&& !begins_with(t, "def"@) && !begins_with(t, "class"@) && !begins_with(
                t,
                "module"@,
            ) ==> symbols_of("rb"@, line).len() == 0
            &&& !begins_with(t, "export function"@) && !begins_with(t, "function"@)
                && !begins_with(t, "export class"@) && !begins_with(t, "class"@) && !begins_with(
                t,
                "export interface"@,
            ) && !begins_with(t, "interface"@) && !begins_with(t, "export const"@)
                && !begins_with(t, "const"@) ==> symbols_of(ext, line).len() == 0
        }),
{
    let t = text::trimmed(line);
    lemma_one_line("py"@, line);
    lemma_one_line("rb"@, line);
    lemma_one_line(ext, line);
    lemma_ext_python("py"@);
    lemma_ext_ruby("rb"@);
    lemma_ext_script(ext);
    lemma_begins(t, "async def"@);
    lemma_begins(t, "def"@);
    lemma_begins(t, "class"@);
    lemma_begins(t, "module"@);
    lemma_begins(t, "export function"@);
    lemma_begins(t, "function"@);
    lemma_begins(t, "export class"@);
    lemma_begins(t, "export interface"@);
    lemma_begins(t, "interface"@);
    lemma_begins(t, "export const"@);
    lemma_begins(t, "const"@);
}

/// Files of other kinds declare nothing.
pub proof fn law_other_files_declare_nothing(ext: Seq<char>, line: Seq<char>)
    requires
        on_one_line(line),
        line.len() > 0,
        ext != "rs"@ && ext != "go"@ && ext != "py"@ && ext != "js"@ && ext != "jsx"@ && ext
            != "ts"@ && ext != "tsx"@ && ext != "mjs"@ && ext != "cjs"@ && ext != "c"@ && ext
            != "h"@ && ext != "cpp"@ && ext != "hpp"@ && ext != "cc"@ && ext != "cxx"@ && ext
            != "hh"@ && ext != "rb"@ && ext != "sh"@ && ext != "bash"@ && ext != "zsh"@,
    ensures
        symbols_of(ext, line).len() == 0,
{
    lemma_one_line(ext, line);
}

/// A condition or a loop of C declares nothing, though it has parentheses.
#[verifier::rlimit(40)]
pub proof fn law_c_control_lines(ext: Seq<char>, word: Seq<char>, rest: Seq<char>)
    requires
        ext == "c"@ || ext == "h"@ || ext == "cpp"@ || ext == "hpp"@ || ext == "cc"@ || ext
            == "cxx"@ || ext == "hh"@,
        word == "if"@ || word == "for"@ || word == "while"@ || word == "switch"@,
        rest.len() > 0,
        !text::char_whitespace(rest[0]),
        text::is_ascii(rest),
        on_one_line(rest),
    ensures
        symbols_of(ext, word + seq![' '] + rest).len() == 0,
{
    lemma_ext_c(ext);
    reveal_strlit("if");
    reveal_strlit("for");
    reveal_strlit("while");
    reveal_strlit("switch");
    reveal_strlit("if ");
    reveal_strlit("for ");
    reveal_strlit("while ");
    reveal_strlit("switch ");
    reveal_strlit("typedef");
    reveal_strlit("inline");
    reveal_strlit("static inline");
    let h = word + seq![' '] + rest.take(1);
    let tail = rest.skip(1);
    let line = word + seq![' '] + rest;
    assert(line =~= h + tail);
    assert(h[0] == word[0] && h.last() == rest[0]);
    assert forall|i: int| 0 <= i < line.len() implies #[trigger] line[i] != '\n' by {
        if i > word.len() {
            assert(line[i] == rest[i - word.len() - 1]);
        }
    }
    lemma_one_line(ext, line);
    let x = lemma_trimmed_tail(h, tail);
    let t = h + x;
    let r = rest.take(1) + x;
    assert(t =~= word + seq![' '] + r);
    assert forall|i: int| 0 <= i < r.len() implies (#[trigger] r[i] as u32) < 0x80 by {
        if i > 0 {
            assert(r[i] == x[i - 1]);
            assert(x[i - 1] == tail[i - 1]);
            assert(tail[i - 1] == rest[i]);
        } else {
            assert(r[0] == rest[0]);
        }
    }
    assert forall|i: int| 0 <= i < word.len() implies is_c_char(#[trigger] word[i])
        && text::ascii_lower(word[i]) == word[i] by {}
    assert(!is_keyword_like(word, "typedef"@));
    assert(!is_keyword_like(word, "inline"@)) by {
        if "inline"@.is_prefix_of(word) {
            assert(word.subrange(0, 6)[0] == 'i');
        }
    }
    lemma_c_keyword(word, r, "typedef"@);
    lemma_c_keyword(word, r, "inline"@);
    lemma_other_keyword_at(t, "static inline"@, word);
    let low = text::lowercase(t);
    assert(text::is_ascii(t));
    let w = word + seq![' '];
    assert(low.subrange(0, w.len() as int) =~= w) by {
        assert forall|i: int| 0 <= i < w.len() implies low[i] == w[i] by {
            assert(low[i] == text::ascii_lower(t[i]));
            if i < word.len() {
                assert(t[i] == word[i]);
            }
        }
    }
    assert("if"@ + seq![' '] =~= "if "@);
    assert("for"@ + seq![' '] =~= "for "@);
    assert("while"@ + seq![' '] =~= "while "@);
    assert("switch"@ + seq![' '] =~= "switch "@);
    assert(symbols::is_control_line(low));
}

proof fn lemma_other_keyword_at(t: Seq<char>, kw: Seq<char>, word: Seq<char>)
    requires
        word.is_prefix_of(t),
        word.len() >= 2,
        kw.len() >= 2,
        word[0] != kw[0] || word[1] != kw[1],
    ensures
        symbols::keyword_rest(t, kw) is None,
{
    if kw.is_prefix_of(t) {
        assert(t.subrange(0, kw.len() as int)[0] == kw[0]);
        assert(t.subrange(0, kw.len() as int)[1] == kw[1]);
        assert(t.subrange(0, word.len() as int)[0] == word[0]);
        assert(t.subrange(0, word.len() as int)[1] == word[1]);
    }
}

/// A call, which has no type in front of its name, declares nothing in C.
#[verifier::rlimit(40)]
pub proof fn law_c_calls(ext: Seq<char>, name: Seq<char>, args: Seq<char>)
    requires
        ext == "c"@ || ext == "h"@ || ext == "cpp"@ || ext == "hpp"@ || ext == "cc"@ || ext
            == "cxx"@ || ext == "hh"@,
        is_c_word(name),
        is_name(name),
        name[0] != '/' && name[0] != '#',
        name != "typedef"@,
        name != "inline"@,
        on_one_line(args),
    ensures
        symbols_of(ext, name + seq!['('] + args).len() == 0,
{
    lemma_ext_c(ext);
    let h = name + seq!['('];
    let line = h + args;
    assert(is_c_char(name[0]));
    assert(h[0] == name[0] && h.last() == '(');
    assert forall|i: int| 0 <= i < line.len() implies #[trigger] line[i] != '\n' by {
        if i < name.len() {
            assert(line[i] == name[i]);
            assert(is_c_char(name[i]));
        } else if i > name.len() {
            assert(line[i] == args[i - name.len() - 1]);
        }
    }
    lemma_one_line(ext, line);
    let x = lemma_trimmed_tail(h, args);
    let t = h + x;
    let tail = seq!['('] + x;
    assert(t =~= name + tail);
    reveal_strlit("typedef");
    reveal_strlit("inline");
    reveal_strlit("static inline");
    lemma_shell_keyword(name, tail, "typedef"@);
    lemma_shell_keyword(name, tail, "inline"@);
    if name == "static inline"@ {
        assert(is_c_char(name[6]));
    }
    lemma_shell_keyword(name, tail, "static inline"@);
    let p = text::among("("@);
    assert forall|i: int| 0 <= i < name.len() implies !p(#[trigger] name[i]) by {
        lemma_name_ends(name[i]);
        assert(is_c_char(name[i]));
    }
    lemma_name_ends('(');
    text::law_until(name, tail, p);
    assert(is_c_char(name[name.len() - 1]));
    text::law_trimmed_already(name);
    text::lemma_find_text(name, "->"@);
    let f = text::find_text(name, "->"@);
    if f >= 0 {
        reveal_strlit("->");
        assert(name.skip(f).subrange(0, 2)[0] == '-');
        assert(name[f] == '-');
        assert(is_c_char(name[f]));
    }
    assert forall|i: int| 0 <= i < name.len() implies !text::char_whitespace(
        #[trigger] name[i],
    ) by {
        assert(is_c_char(name[i]));
    }
    split::law_one_word(name);
    assert(symbols::declaration_words(t) =~= seq![name]);
}

/// The signs of pointers and references behind the name of a function of C do not
/// belong to it.
pub proof fn law_c_marks_are_dropped(
    t: Seq<char>,
    name: Seq<char>,
    refs: Seq<char>,
    stars: Seq<char>,
)
    requires
        symbols::keyword_rest(t, "typedef"@) is None,
        symbols::either_rest(t, "static inline"@, "inline"@) is None,
        text::occurs(text::lowercase(t), "("@),
        !symbols::is_control_line(text::lowercase(t)),
        symbols::declaration_words(t).len() >= 2,
        symbols::declaration_words(t).last() == name + refs + stars,
        name.len() > 0,
        name.last() != '*' && name.last() != '&',
        forall|i: int| 0 <= i < refs.len() ==> #[trigger] refs[i] == '&',
        forall|i: int| 0 <= i < stars.len() ==> #[trigger] stars[i] == '*',
    ensures
        symbols::c_symbol(t) == Some(name),
{
    lemma_name_ends('*');
    lemma_name_ends('&');
    lemma_name_ends(name.last());
    let a = name + refs;
    if refs.len() > 0 {
        assert(a.last() == refs.last());
        assert(refs[refs.len() - 1] == '&');
    } else {
        assert(a =~= name);
    }
    text::law_right_trimmed(a, stars, text::among("*"@));
    text::law_right_trimmed(name, refs, text::among("&"@));
}

} // verus!
