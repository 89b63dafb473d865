//! File names and extensions of slash-separated paths.

use crate::split::{self, split};
use crate::text::{self, chars_of, find_after_last, string_of, CharClass};
use vstd::prelude::*;
use vstd::slice::slice_subrange;

verus! {

/// The separator of path components.
pub open spec fn slash() -> spec_fn(char) -> bool {
    text::among("/"@)
}

/// The last component of a path that is neither empty nor ".".
pub open spec fn last_component(parts: Seq<Seq<char>>) -> Option<Seq<char>>
    decreases parts.len(),
{
    if parts.len() == 0 {
        None
    } else if parts.last().len() == 0 || parts.last() == "."@ {
        last_component(parts.drop_last())
    } else {
        Some(parts.last())
    }
}

/// The final component of a path; None if the path ends in ".." or has no
/// component.
pub open spec fn name_of(path: Seq<char>) -> Option<Seq<char>> {
    match last_component(split::pieces(path, slash())) {
        Some(c) => if c == ".."@ {
            None
        } else {
            Some(c)
        },
        None => None,
    }
}

/// The part of a file name after its last dot; None without a dot, or where
/// the only dot is the first character.
pub open spec fn extension_of(name: Seq<char>) -> Option<Seq<char>> {
    let i = text::after_last(name, text::among("."@));
    if i <= 1 {
        None
    } else {
        Some(name.skip(i))
    }
}

/// The extension of a path; empty if it has none.
pub open spec fn path_extension(path: Seq<char>) -> Seq<char> {
    match name_of(path) {
        Some(n) => match extension_of(n) {
            Some(e) => e,
            None => Seq::empty(),
        },
        None => Seq::empty(),
    }
}

fn is_text(s: &[char], t: &str) -> (r: bool)
    ensures
        r == (s@ == t@),
{
    let a = string_of(s);
    text::same(a.as_str(), t)
}

/// The final component of a path.
pub fn file_name(path: &str) -> (r: Option<String>)
    ensures
        split::opt_text(r) == name_of(path@),
{
    let v = chars_of(path);
    let parts = split(v.as_slice(), CharClass::In("/"));
    let ghost all = split::pieces(path@, slash());
    let mut i: usize = parts.len();
    assert(all.take(i as int) =~= all);
    while i > 0
        invariant
            i <= parts@.len(),
            all == split::char_slices(parts@),
            all == split::pieces(path@, slash()),
            last_component(all) == last_component(all.take(i as int)),
        decreases i,
    {
        let c = parts[i - 1];
        assert(all[i - 1] == c@);
        assert(all.take(i as int).drop_last() =~= all.take(i - 1));
        if c.len() == 0 || is_text(c, ".") {
            i -= 1;
        } else if is_text(c, "..") {
            return None;
        } else {
            return Some(string_of(c));
        }
    }
    None
}

/// The extension of a path; empty if it has none.
pub fn extension(path: &str) -> (r: String)
    ensures
        r@ == path_extension(path@),
{
    match file_name(path) {
        Some(n) => {
            let v = chars_of(n.as_str());
            let i = find_after_last(v.as_slice(), CharClass::In("."));
            if i <= 1 {
                assert(v@.subrange(0, 0) =~= Seq::<char>::empty());
                string_of(slice_subrange(v.as_slice(), 0, 0))
            } else {
                assert(v@.subrange(i as int, v@.len() as int) =~= v@.skip(i as int));
                string_of(slice_subrange(v.as_slice(), i, v.len()))
            }
        },
        None => {
            let none: Vec<char> = Vec::new();
            string_of(none.as_slice())
        },
    }
}

// ── Laws of paths ───────────────────────────────────────────────────────────

proof fn lemma_slash(c: char)
    ensures
        slash()(c) <==> c == '/',
        text::among("."@)(c) <==> c == '.',
{
    reveal_strlit("/");
    reveal_strlit(".");
    assert("/"@[0] == '/');
    assert("."@[0] == '.');
}

/// The name of a file in a directory is what follows the last slash.
pub proof fn law_name_in_directory(dir: Seq<char>, name: Seq<char>)
    requires
        name.len() > 0,
        forall|i: int| 0 <= i < name.len() ==> #[trigger] name[i] != '/',
        name != "."@,
        name != ".."@,
    ensures
        name_of(dir + "/"@ + name) == Some(name),
        name_of(name) == Some(name),
{
    reveal_strlit("/");
    lemma_slash('/');
    assert forall|i: int| 0 <= i < name.len() implies !slash()(#[trigger] name[i]) by {
        lemma_slash(name[i]);
    }
    split::law_one_piece(name, slash());
    assert(dir + "/"@ + name =~= dir.push('/') + name);
    split::lemma_pieces_join(dir, '/', name, slash());
    let ps = split::pieces(dir + "/"@ + name, slash());
    assert(ps.last() == name);
    assert(seq![name].last() == name);
}

/// The extension of a file is what follows the last dot of its name, wherever the
/// file lies; a name without a dot has none, and neither has one whose only dot
/// is in front.
pub proof fn law_extension(dir: Seq<char>, stem: Seq<char>, ext: Seq<char>)
    requires
        stem.len() > 0,
        forall|i: int| 0 <= i < stem.len() ==> #[trigger] stem[i] != '/',
        forall|i: int| 0 <= i < ext.len() ==> #[trigger] ext[i] != '/' && ext[i] != '.',
        stem != "."@ || ext.len() > 0,
    ensures
        path_extension(dir + "/"@ + (stem + "."@ + ext)) == ext,
        path_extension(stem + "."@ + ext) == ext,
        ext.len() > 0 ==> path_extension(dir + "/"@ + ext).len() == 0,
        ext.len() > 0 ==> path_extension(dir + "/"@ + ("."@ + ext)).len() == 0,
{
    reveal_strlit(".");
    reveal_strlit("..");
    let dot = text::among("."@);
    let n = stem + "."@ + ext;
    assert(n =~= stem.push('.') + ext);
    assert(n[stem.len() as int] == '.');
    if n == "."@ || n == ".."@ {
        assert(n.len() <= 2);
        assert(stem.len() == 1 && ext.len() == 0);
        assert(stem[0] == n[0]);
        assert(stem =~= "."@);
    }
    law_name_in_directory(dir, n);
    lemma_slash('.');
    text::lemma_after_last(n, dot);
    let i = text::after_last(n, dot);
    if i < stem.len() + 1 {
        assert(!dot(n[stem.len() as int]));
    }
    if i > stem.len() + 1 {
        lemma_slash(n[i - 1]);
        assert(n[i - 1] == ext[i - 1 - (stem.len() + 1)]);
    }
    assert(n.skip(i) =~= ext);
    if ext.len() > 0 {
        assert(ext[0] != '.');
        law_name_in_directory(dir, ext);
        text::lemma_after_last(ext, dot);
        let k = text::after_last(ext, dot);
        if k > 0 {
            lemma_slash(ext[k - 1]);
        }
        let h = "."@ + ext;
        assert(h[0] == '.');
        assert(h[1] == ext[0]);
        assert forall|i: int| 0 <= i < h.len() implies #[trigger] h[i] != '/' by {
            if i > 0 {
                assert(h[i] == ext[i - 1]);
            }
        }
        law_name_in_directory(dir, h);
        text::lemma_after_last(h, dot);
        let m = text::after_last(h, dot);
        if m > 1 {
            lemma_slash(h[m - 1]);
            assert(h[m - 1] == ext[m - 2]);
        }
    }
}

/// Slashes and dots behind a path do not count for its name.
pub proof fn law_name_before_slashes(dir: Seq<char>, name: Seq<char>)
    requires
        name.len() > 0,
        forall|i: int| 0 <= i < name.len() ==> #[trigger] name[i] != '/',
        name != "."@,
        name != ".."@,
    ensures
        name_of(dir + "/"@ + name + "/"@) == Some(name),
        name_of(dir + "/"@ + name + "/."@) == Some(name),
        name_of(dir + "/"@ + ".."@) is None,
{
    reveal_strlit("/");
    reveal_strlit("/.");
    reveal_strlit(".");
    reveal_strlit("..");
    lemma_slash('/');
    lemma_slash('.');
    let none = Seq::<char>::empty();
    let dot = seq!['.'];
    assert("."@ =~= dot);
    assert forall|i: int| 0 <= i < name.len() implies !slash()(#[trigger] name[i]) by {
        lemma_slash(name[i]);
    }
    split::law_one_piece(name, slash());
    split::law_one_piece(none, slash());
    split::law_one_piece(dot, slash());
    assert forall|i: int| 0 <= i < ".."@.len() implies !slash()(#[trigger] ".."@[i]) by {
        lemma_slash(".."@[i]);
    }
    split::law_one_piece(".."@, slash());
    let p = dir + "/"@ + name;
    assert(p =~= dir.push('/') + name);
    split::lemma_pieces_join(dir, '/', name, slash());
    let ps = split::pieces(dir, slash()) + seq![name];
    assert(p + "/"@ =~= p.push('/') + none);
    split::lemma_pieces_join(p, '/', none, slash());
    let qs = ps + seq![none];
    assert(qs.drop_last() =~= ps);
    assert(p + "/."@ =~= p.push('/') + dot);
    split::lemma_pieces_join(p, '/', dot, slash());
    let rs = ps + seq![dot];
    assert(rs.drop_last() =~= ps);
    assert(ps.last() == name);
    assert(last_component(ps) == Some(name));
    assert(qs.last() == none && rs.last() == "."@);
    assert(last_component(qs) == last_component(qs.drop_last()));
    assert(last_component(rs) == last_component(rs.drop_last()));
    assert(split::pieces(p + "/"@, slash()) =~= qs);
    assert(split::pieces(p + "/."@, slash()) =~= rs);
    assert(dir + "/"@ + ".."@ =~= dir.push('/') + ".."@);
    split::lemma_pieces_join(dir, '/', ".."@, slash());
    assert((split::pieces(dir, slash()) + seq![".."@]).last() == ".."@);
    assert(".."@.len() == 2 && "."@.len() == 1);
}

} // verus!
