//! Copies of values that hold texts.

use crate::split;
use vstd::prelude::*;

verus! {

broadcast use {split::lemma_texts_push, split::lemma_views_push};

/// A value that can be copied.
pub trait Dup: View + Sized {
    /// A copy of the value.
    fn dup(&self) -> (r: Self)
        ensures
            r.view() == self.view(),
    ;
}

/// The view of an optional value.
pub open spec fn opt_view<T: View>(x: Option<T>) -> Option<T::V> {
    match x {
        Some(x) => Some(x.view()),
        None => None,
    }
}

/// A copy of a list.
pub fn dup_all<T: Dup>(v: &Vec<T>) -> (r: Vec<T>)
    ensures
        split::views(r@) == split::views(v@),
{
    let ghost all = split::views(v@);
    let mut out: Vec<T> = Vec::new();
    let mut i: usize = 0;
    while i < v.len()
        invariant
            i <= v@.len(),
            all == split::views(v@),
            split::views(out@) =~= all.take(i as int),
        decreases v@.len() - i,
    {
        assert(all[i as int] == v@[i as int].view());
        out.push(v[i].dup());
        i += 1;
    }
    out
}

/// A copy of an optional value.
pub fn dup_opt<T: Dup>(x: &Option<T>) -> (r: Option<T>)
    ensures
        opt_view(r) == opt_view(*x),
{
    match x {
        Some(x) => Some(x.dup()),
        None => None,
    }
}

/// A copy of a list of strings.
pub fn copy_texts(v: &Vec<String>) -> (r: Vec<String>)
    ensures
        split::texts(r@) == split::texts(v@),
{
    let ghost all = split::texts(v@);
    let mut out: Vec<String> = Vec::new();
    let mut i: usize = 0;
    while i < v.len()
        invariant
            i <= v@.len(),
            all == split::texts(v@),
            split::texts(out@) =~= all.take(i as int),
        decreases v@.len() - i,
    {
        assert(all[i as int] == v@[i as int]@);
        out.push(v[i].as_str().to_string());
        i += 1;
    }
    out
}

/// A copy of an optional string.
pub fn copy_opt(x: &Option<String>) -> (r: Option<String>)
    ensures
        split::opt_text(r) == split::opt_text(*x),
{
    match x {
        Some(x) => Some(x.as_str().to_string()),
        None => None,
    }
}

} // verus!
