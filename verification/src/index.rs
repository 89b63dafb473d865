//! A term index over the files of a work directory.
//!
//! Files are cut into terms and scanned for the names that they declare. The
//! index keeps, for each term, in how many files it occurs.

use crate::number::{self, byte_len_capped};
use crate::paths::{self, extension};
use crate::split::{self, split};
use crate::symbols::{self, extract_symbols};
use crate::terms::{self, count_terms, TermTable};
use crate::text::{self, chars_of, same, string_of, strip_front, trim_left, CharClass};
use vstd::prelude::*;

verus! {

broadcast use {split::lemma_texts_push, split::lemma_views_push};

// ── Data ────────────────────────────────────────────────────────────────────

/// An indexed file.
pub struct FileEntry {
    /// Relative to the work directory.
    pub path: String,
    /// How often each term occurs in the file.
    pub tf: TermTable,
    /// How many terms the file has.
    pub total: usize,
    /// The names that the file declares.
    pub symbols: Vec<String>,
}

/// The model of an indexed file.
#[verifier::ext_equal]
pub struct FileEntryView {
    pub path: Seq<char>,
    pub tf: Map<Seq<char>, usize>,
    pub total: nat,
    pub symbols: Seq<Seq<char>>,
}

impl View for FileEntry {
    type V = FileEntryView;

    open spec fn view(&self) -> FileEntryView {
        FileEntryView {
            path: self.path@,
            tf: self.tf@,
            total: self.total as nat,
            symbols: split::texts(self.symbols@),
        }
    }
}

/// A moment, in seconds and nanoseconds since the epoch.
#[derive(Clone, Copy, Debug, PartialEq, Eq, Structural)]
pub struct Timestamp {
    pub secs: i64,
    pub nanos: u32,
}

/// A span of time, in whole seconds and the nanoseconds beyond them.
#[derive(Clone, Copy, Debug, PartialEq, Eq, Structural)]
pub struct Elapsed {
    pub secs: u64,
    pub nanos: u32,
}

/// The index.
pub struct Index {
    pub files: Vec<FileEntry>,
    /// In how many files each term occurs.
    pub df: TermTable,
    pub file_count: usize,
    pub term_count: usize,
    pub built_at: Timestamp,
    pub work_dir: String,
}

/// The model of the index.
#[verifier::ext_equal]
pub struct IndexView {
    pub files: Seq<FileEntryView>,
    pub df: Map<Seq<char>, usize>,
    pub file_count: nat,
    pub term_count: nat,
    pub built_at: Timestamp,
    pub work_dir: Seq<char>,
}

impl View for Index {
    type V = IndexView;

    open spec fn view(&self) -> IndexView {
        IndexView {
            files: split::views(self.files@),
            df: self.df@,
            file_count: self.file_count as nat,
            term_count: self.term_count as nat,
            built_at: self.built_at,
            work_dir: self.work_dir@,
        }
    }
}

impl Index {
    /// The tables of the index are well formed.
    pub open spec fn wf(&self) -> bool {
        &&& self.df.wf()
        &&& forall|i: int| 0 <= i < self.files@.len() ==> (#[trigger] self.files@[i]).tf.wf()
    }
}

/// What building an index came to.
#[derive(Debug)]
pub struct BuildStats {
    pub files: usize,
    pub terms: usize,
    pub symbols: usize,
    pub elapsed: Elapsed,
}

/// A file found under the work directory; no text if it could not be read.
pub struct SourceFile {
    pub path: String,
    pub text: Option<String>,
}

/// The model of a found file.
#[verifier::ext_equal]
pub struct SourceFileView {
    pub path: Seq<char>,
    pub text: Option<Seq<char>>,
}

impl View for SourceFile {
    type V = SourceFileView;

    open spec fn view(&self) -> SourceFileView {
        SourceFileView { path: self.path@, text: split::opt_text(self.text) }
    }
}

// ── What is left out ────────────────────────────────────────────────────────

/// The directories that are not entered.
pub open spec fn is_skipped_dir(name: Seq<char>) -> bool {
    ||| name == ".git"@
    ||| name == "node_modules"@
    ||| name == "target"@
    ||| name == "dist"@
    ||| name == ".next"@
    ||| name == "vendor"@
    ||| name == "__pycache__"@
    ||| name == ".venv"@
    ||| name == "venv"@
    ||| name == "build"@
    ||| name == "out"@
    ||| name == ".cargo"@
    ||| name == "bin"@
    ||| name == "obj"@
}

/// The extensions of files that are not read.
pub open spec fn is_skipped_ext(ext: Seq<char>) -> bool {
    ||| ext == "exe"@
    ||| ext == "dll"@
    ||| ext == "so"@
    ||| ext == "dylib"@
    ||| ext == "png"@
    ||| ext == "jpg"@
    ||| ext == "jpeg"@
    ||| ext == "gif"@
    ||| ext == "webp"@
    ||| ext == "ico"@
    ||| ext == "pdf"@
    ||| ext == "zip"@
    ||| ext == "tar"@
    ||| ext == "gz"@
    ||| ext == "wasm"@
    ||| ext == "bin"@
    ||| ext == "lock"@
}

/// Whether a directory is left out of the index.
pub fn skip_dir(name: &str) -> (r: bool)
    ensures
        r == is_skipped_dir(name@),
{
    same(name, ".git") || same(name, "node_modules") || same(name, "target") || same(name, "dist")
        || same(name, ".next") || same(name, "vendor") || same(name, "__pycache__") || same(
        name,
        ".venv",
    ) || same(name, "venv") || same(name, "build") || same(name, "out") || same(name, ".cargo")
        || same(name, "bin") || same(name, "obj")
}

fn skip_ext(ext: &str) -> (r: bool)
    ensures
        r == is_skipped_ext(ext@),
{
    same(ext, "exe") || same(ext, "dll") || same(ext, "so") || same(ext, "dylib") || same(
        ext,
        "png",
    ) || same(ext, "jpg") || same(ext, "jpeg") || same(ext, "gif") || same(ext, "webp") || same(
        ext,
        "ico",
    ) || same(ext, "pdf") || same(ext, "zip") || same(ext, "tar") || same(ext, "gz") || same(
        ext,
        "wasm",
    ) || same(ext, "bin") || same(ext, "lock")
}

/// The extension of a path in lower case.
pub open spec fn lower_ext(path: Seq<char>) -> Seq<char> {
    text::lowercase(paths::path_extension(path))
}

fn ext_of(path: &str) -> (r: String)
    ensures
        r@ == lower_ext(path@),
{
    let e = extension(path);
    e.as_str().to_lowercase()
}

/// Whether a file is left out of the index for its extension.
pub fn skip_file(path: &str) -> (r: bool)
    ensures
        r == is_skipped_ext(lower_ext(path@)),
{
    let e = ext_of(path);
    skip_ext(e.as_str())
}

/// Whether one of the directories is left out.
pub open spec fn any_skipped(dirs: Seq<Seq<char>>) -> bool {
    exists|k: int| 0 <= k < dirs.len() && is_skipped_dir(#[trigger] dirs[k])
}

/// Whether a file below the work directory is indexed: neither a directory on
/// the way to it nor its extension is left out.
pub open spec fn is_indexable(path: Seq<char>) -> bool {
    &&& !any_skipped(split::pieces(path, paths::slash()).drop_last())
    &&& !is_skipped_ext(lower_ext(path))
}

/// Whether a file below the work directory is indexed.
pub fn indexable(path: &str) -> (r: bool)
    ensures
        r == is_indexable(path@),
{
    let v = chars_of(path);
    let parts = split(v.as_slice(), CharClass::In("/"));
    let ghost all = split::pieces(path@, paths::slash());
    let mut i: usize = 0;
    while i < parts.len() - 1
        invariant
            i < parts@.len(),
            all == split::char_slices(parts@),
            all == split::pieces(path@, paths::slash()),
            forall|k: int| 0 <= k < i ==> !is_skipped_dir(#[trigger] all[k]),
        decreases parts@.len() - i,
    {
        let d = string_of(parts[i]);
        assert(all[i as int] == d@);
        if skip_dir(d.as_str()) {
            assert(is_skipped_dir(all.drop_last()[i as int]));
            return false;
        }
        i += 1;
    }
    assert(!any_skipped(all.drop_last()));
    !skip_file(path)
}

// ── Terms ───────────────────────────────────────────────────────────────────

/// A piece of text that counts as a term: 2 to 40 bytes.
pub open spec fn is_term(t: Seq<char>) -> bool {
    2 <= number::byte_len(t) <= 40
}

/// The terms among some pieces, in lower case.
pub open spec fn terms_among(ps: Seq<Seq<char>>) -> Seq<Seq<char>>
    decreases ps.len(),
{
    if ps.len() == 0 {
        Seq::empty()
    } else if is_term(ps.last()) {
        terms_among(ps.drop_last()).push(text::lowercase(ps.last()))
    } else {
        terms_among(ps.drop_last())
    }
}

/// The terms of a text: its runs of letters, digits and underscores.
pub open spec fn terms_of(s: Seq<char>) -> Seq<Seq<char>> {
    terms_among(split::pieces(s, text::not_word()))
}

/// Cuts a text into terms.
pub fn tokenize(s: &str) -> (r: Vec<String>)
    ensures
        split::texts(r@) == terms_of(s@),
{
    let v = chars_of(s);
    let parts = split(v.as_slice(), CharClass::NotWord);
    let ghost all = split::pieces(s@, text::not_word());
    let mut out: Vec<String> = Vec::new();
    let mut i: usize = 0;
    assert(split::texts(out@) =~= terms_among(all.take(0)));
    while i < parts.len()
        invariant
            i <= parts@.len(),
            all == split::char_slices(parts@),
            split::texts(out@) == terms_among(all.take(i as int)),
        decreases parts@.len() - i,
    {
        assert(all[i as int] == parts@[i as int]@);
        assert(all.take(i + 1).drop_last() =~= all.take(i as int));
        let n = byte_len_capped(parts[i], 40);
        if n >= 2 && n <= 40 {
            let t = string_of(parts[i]);
            out.push(t.as_str().to_lowercase());
        }
        i += 1;
    }
    assert(all.take(i as int) =~= all);
    out
}

proof fn lemma_terms_among_join(a: Seq<Seq<char>>, b: Seq<Seq<char>>)
    ensures
        terms_among(a + b) == terms_among(a) + terms_among(b),
    decreases b.len(),
{
    if b.len() == 0 {
        assert(a + b =~= a);
        assert(terms_among(a + b) =~= terms_among(a) + terms_among(b));
    } else {
        lemma_terms_among_join(a, b.drop_last());
        assert((a + b).drop_last() =~= a + b.drop_last());
        assert(terms_among(a + b) =~= terms_among(a) + terms_among(b));
    }
}

/// The terms of two texts with a blank between them are those of the first and
/// then those of the second.
pub proof fn law_terms_of_two_texts(a: Seq<char>, b: Seq<char>)
    ensures
        terms_of(a + " "@ + b) == terms_of(a) + terms_of(b),
{
    reveal_strlit(" ");
    assert(a + " "@ + b =~= a.push(' ') + b);
    split::lemma_pieces_join(a, ' ', b, text::not_word());
    lemma_terms_among_join(
        split::pieces(a, text::not_word()),
        split::pieces(b, text::not_word()),
    );
}

// ── Entries ─────────────────────────────────────────────────────────────────

/// The entry of a file at `path` with extension `ext` and content `s`.
pub open spec fn entry_of(path: Seq<char>, ext: Seq<char>, s: Seq<char>) -> FileEntryView {
    FileEntryView {
        path,
        tf: terms::tally(terms_of(s)),
        total: terms_of(s).len(),
        symbols: symbols::symbols_of(ext, s),
    }
}

fn make_entry(path: &str, ext: &str, s: &str) -> (r: FileEntry)
    ensures
        r.tf.wf(),
        r@ == entry_of(path@, ext@, s@),
{
    let ts = tokenize(s);
    let tf = count_terms(&ts);
    assert(split::texts(ts@).len() == ts@.len());
    FileEntry {
        path: path.to_string(),
        tf,
        total: ts.len(),
        symbols: extract_symbols(ext, s),
    }
}

/// The first file at `path`, or the number of files if there is none.
pub open spec fn position(files: Seq<FileEntryView>, path: Seq<char>) -> int
    decreases files.len(),
{
    if files.len() == 0 {
        0
    } else {
        let p = position(files.drop_last(), path);
        if p < files.len() - 1 {
            p
        } else if files.last().path == path {
            files.len() - 1
        } else {
            files.len() as int
        }
    }
}

/// `position` is the first place with that path.
pub proof fn lemma_position(files: Seq<FileEntryView>, path: Seq<char>)
    ensures
        0 <= position(files, path) <= files.len(),
        position(files, path) < files.len() ==> files[position(files, path)].path == path,
        forall|k: int| 0 <= k < position(files, path) ==> (#[trigger] files[k]).path != path,
    decreases files.len(),
{
    if files.len() > 0 {
        lemma_position(files.drop_last(), path);
        let p = position(files.drop_last(), path);
        assert forall|k: int| 0 <= k < position(files, path) implies (#[trigger] files[k]).path
            != path by {
            if k < files.len() - 1 {
                assert(files.drop_last()[k] == files[k]);
            }
        }
        if p < files.len() - 1 {
            assert(files.drop_last()[p] == files[p]);
        }
    }
}

fn find_file(files: &Vec<FileEntry>, path: &str) -> (r: usize)
    ensures
        r == position(split::views(files@), path@),
        r <= files@.len(),
{
    let ghost all = split::views(files@);
    let mut i: usize = 0;
    while i < files.len()
        invariant
            i <= files@.len(),
            all == split::views(files@),
            position(all.take(i as int), path@) == i,
        decreases files@.len() - i,
    {
        assert(all.take(i + 1).drop_last() =~= all.take(i as int));
        assert(all[i as int] == files@[i as int]@);
        if same(files[i].path.as_str(), path) {
            proof {
                lemma_position_found(all, path@, i as int);
            }
            return i;
        }
        i += 1;
    }
    assert(all.take(i as int) =~= all);
    i
}

proof fn lemma_position_found(files: Seq<FileEntryView>, path: Seq<char>, i: int)
    requires
        0 <= i < files.len(),
        files[i].path == path,
        position(files.take(i), path) == i,
    ensures
        position(files, path) == i,
    decreases files.len() - i,
{
    lemma_position(files, path);
    lemma_position(files.take(i), path);
    let p = position(files, path);
    if p < i {
        assert(files.take(i)[p] == files[p]);
    }
}

// ── Building ────────────────────────────────────────────────────────────────

/// The entries of the files found: those that are indexed, could be read and
/// have a term.
pub open spec fn entries_of(found: Seq<SourceFileView>) -> Seq<FileEntryView>
    decreases found.len(),
{
    if found.len() == 0 {
        Seq::empty()
    } else {
        let before = entries_of(found.drop_last());
        let f = found.last();
        match f.text {
            Some(s) => if is_indexable(f.path) && terms_of(s).len() > 0 {
                before.push(entry_of(f.path, lower_ext(f.path), s))
            } else {
                before
            },
            None => before,
        }
    }
}

/// The document frequencies of some entries.
pub open spec fn frequencies(files: Seq<FileEntryView>) -> Map<Seq<char>, usize>
    decreases files.len(),
{
    if files.len() == 0 {
        Map::empty()
    } else {
        terms::raised(frequencies(files.drop_last()), files.last().tf.dom())
    }
}

/// How many names some entries declare.
pub open spec fn symbol_total(files: Seq<FileEntryView>) -> nat
    decreases files.len(),
{
    if files.len() == 0 {
        0
    } else {
        symbol_total(files.drop_last()) + files.last().symbols.len()
    }
}

/// How many characters the files found hold together.
pub open spec fn text_total(found: Seq<SourceFileView>) -> nat
    decreases found.len(),
{
    if found.len() == 0 {
        0
    } else {
        text_total(found.drop_last()) + (match found.last().text {
            Some(s) => s.len(),
            None => 0,
        })
    }
}

/// In how many files a term occurs.
pub open spec fn files_with(files: Seq<FileEntryView>, t: Seq<char>) -> nat
    decreases files.len(),
{
    if files.len() == 0 {
        0
    } else {
        files_with(files.drop_last(), t) + (if files.last().tf.contains_key(t) {
            1nat
        } else {
            0
        })
    }
}

/// A term occurs in at most all files.
pub proof fn lemma_files_with_bound(files: Seq<FileEntryView>, t: Seq<char>)
    ensures
        files_with(files, t) <= files.len(),
    decreases files.len(),
{
    if files.len() > 0 {
        lemma_files_with_bound(files.drop_last(), t);
    }
}

/// The frequencies that `build` comes to are the numbers of files that hold
/// each term.
pub proof fn lemma_frequencies(files: Seq<FileEntryView>, t: Seq<char>)
    requires
        files.len() <= usize::MAX,
    ensures
        terms::count_in(frequencies(files), t) == files_with(files, t),
    decreases files.len(),
{
    if files.len() > 0 {
        lemma_frequencies(files.drop_last(), t);
        lemma_files_with_bound(files, t);
    }
}

proof fn lemma_symbol_prefix(files: Seq<FileEntryView>, more: FileEntryView)
    ensures
        symbol_total(files.push(more)) == symbol_total(files) + more.symbols.len(),
        frequencies(files.push(more)) == terms::raised(frequencies(files), more.tf.dom()),
{
    assert(files.push(more).drop_last() =~= files);
}

proof fn lemma_symbol_total(found: Seq<SourceFileView>, i: int)
    requires
        0 <= i <= found.len(),
    ensures
        symbol_total(entries_of(found.take(i))) <= text_total(found),
    decreases found.len(),
{
    if found.len() > 0 {
        let init = found.drop_last();
        if i < found.len() {
            lemma_symbol_total(init, i);
            assert(init.take(i) =~= found.take(i));
        } else {
            lemma_symbol_total(init, init.len() as int);
            assert(init.take(init.len() as int) =~= init);
            assert(found.take(i) =~= found);
            let f = found.last();
            if let Some(s) = f.text {
                lemma_symbol_prefix(entries_of(init), entry_of(f.path, lower_ext(f.path), s));
                symbols::lemma_symbols_len(lower_ext(f.path), s);
            }
        }
    }
}

/// Builds the index of a work directory from the files found below it.
pub fn build(
    work_dir: &str,
    found: &Vec<SourceFile>,
    built_at: Timestamp,
    elapsed: Elapsed,
) -> (r: (Index, BuildStats))
    requires
        text_total(split::views(found@)) <= usize::MAX,
    ensures
        r.0.wf(),
        r.0@.files == entries_of(split::views(found@)),
        r.0@.df == frequencies(r.0@.files),
        r.0@.file_count == r.0@.files.len(),
        r.0@.term_count == r.0@.df.len(),
        r.0@.built_at == built_at,
        r.0@.work_dir == work_dir@,
        r.1.files == r.0@.file_count,
        r.1.terms == r.0@.term_count,
        r.1.symbols == symbol_total(r.0@.files),
        r.1.elapsed == elapsed,
{
    let ghost all = split::views(found@);
    let mut files: Vec<FileEntry> = Vec::new();
    let mut df = TermTable::new();
    let mut symbols: usize = 0;
    let mut i: usize = 0;
    assert(split::views(files@) =~= entries_of(all.take(0)));
    while i < found.len()
        invariant
            i <= found@.len(),
            all == split::views(found@),
            files@.len() <= i,
            df.wf(),
            forall|k: int| 0 <= k < files@.len() ==> (#[trigger] files@[k]).tf.wf(),
            split::views(files@) == entries_of(all.take(i as int)),
            df@ == frequencies(split::views(files@)),
            symbols == symbol_total(split::views(files@)),
            text_total(all) <= usize::MAX,
        decreases found@.len() - i,
    {
        let f = &found[i];
        proof {
            assert(all[i as int] == f@);
            assert(all.take(i + 1).drop_last() =~= all.take(i as int));
            lemma_symbol_total(all, i + 1);
        }
        if let Some(s) = &f.text {
            if indexable(f.path.as_str()) {
                let ext = ext_of(f.path.as_str());
                let e = make_entry(f.path.as_str(), ext.as_str(), s.as_str());
                if e.total > 0 {
                    proof {
                        assert forall|t: Seq<char>| e.tf@.contains_key(t) implies terms::count_in(
                            df@,
                            t,
                        ) < usize::MAX by {
                            let fs = split::views(files@);
                            lemma_frequencies(fs, t);
                            lemma_files_with_bound(fs, t);
                        }
                        lemma_symbol_prefix(split::views(files@), e@);
                        assert(split::texts(e.symbols@).len() == e.symbols@.len());
                    }
                    df.raise(&e.tf);
                    symbols = symbols + e.symbols.len();
                    files.push(e);
                }
            }
        }
        i += 1;
    }
    assert(all.take(i as int) =~= all);
    let file_count = files.len();
    let term_count = df.len();
    (
        Index { files, df, file_count, term_count, built_at, work_dir: work_dir.to_string() },
        BuildStats { files: file_count, terms: term_count, symbols, elapsed },
    )
}

// ── Keeping it fresh ────────────────────────────────────────────────────────

/// The path of a file relative to the work directory; the path itself if it
/// does not lie below it.
pub open spec fn relative(work_dir: Seq<char>, path: Seq<char>) -> Seq<char> {
    match text::after_prefix(path, work_dir) {
        Some(rest) => text::left_trimmed(rest, paths::slash()),
        None => path,
    }
}

fn relative_to(work_dir: &str, path: &str) -> (r: String)
    ensures
        r@ == relative(work_dir@, path@),
{
    let v = chars_of(path);
    match strip_front(v.as_slice(), work_dir) {
        Some(rest) => string_of(trim_left(rest, CharClass::In("/"))),
        None => path.to_string(),
    }
}

/// The index without the first entry at `path`.
pub open spec fn without(v: IndexView, path: Seq<char>) -> IndexView {
    let p = position(v.files, path);
    if p < v.files.len() {
        let df = terms::lowered(v.df, v.files[p].tf.dom());
        let files = v.files.remove(p);
        IndexView { files, df, file_count: files.len(), term_count: df.len(), ..v }
    } else {
        v
    }
}

/// The index with one more entry at the end.
pub open spec fn with_entry(v: IndexView, e: FileEntryView) -> IndexView {
    let df = terms::raised(v.df, e.tf.dom());
    let files = v.files.push(e);
    IndexView { files, df, file_count: files.len(), term_count: df.len(), ..v }
}

/// The index after a file was indexed anew with its current text; as it was, if
/// the file could not be read.
pub open spec fn updated(
    v: IndexView,
    abs_path: Seq<char>,
    content: Option<Seq<char>>,
) -> IndexView {
    let rel = relative(v.work_dir, abs_path);
    match content {
        Some(s) => with_entry(without(v, rel), entry_of(rel, lower_ext(abs_path), s)),
        None => v,
    }
}

/// Drops a file from the index.
pub fn remove_file(idx: &mut Index, abs_path: &str)
    requires
        old(idx).wf(),
    ensures
        final(idx).wf(),
        final(idx)@ == without(old(idx)@, relative(old(idx)@.work_dir, abs_path@)),
        consistent(old(idx)@) ==> consistent(final(idx)@),
{
    proof {
        if consistent(idx@) {
            law_remove_keeps_consistent(idx@, relative(idx@.work_dir, abs_path@));
        }
    }
    let rel = relative_to(idx.work_dir.as_str(), abs_path);
    drop_entry(idx, rel.as_str());
}

fn drop_entry(idx: &mut Index, rel: &str)
    requires
        old(idx).wf(),
    ensures
        final(idx).wf(),
        final(idx)@ == without(old(idx)@, rel@),
{
    let p = find_file(&idx.files, rel);
    if p < idx.files.len() {
        let ghost fs = split::views(idx.files@);
        assert(fs[p as int] == idx.files@[p as int]@);
        let e = idx.files.remove(p);
        idx.df.lower(&e.tf);
        idx.file_count = idx.files.len();
        idx.term_count = idx.df.len();
        assert(split::views(idx.files@) =~= fs.remove(p as int));
    }
}

/// Indexes a file anew with its current text, where it could be read. A file
/// without terms keeps an entry, so that its names are still found.
pub fn update_file(idx: &mut Index, abs_path: &str, content: &Option<String>)
    requires
        old(idx).wf(),
        content is Some ==> can_count(old(idx)@),
    ensures
        final(idx).wf(),
        final(idx)@ == updated(old(idx)@, abs_path@, split::opt_text(*content)),
        consistent(old(idx)@) ==> consistent(final(idx)@),
{
    if let Some(s) = content {
        let ghost before = idx@;
        let rel = relative_to(idx.work_dir.as_str(), abs_path);
        let ext = ext_of(abs_path);
        drop_entry(idx, rel.as_str());
        let e = make_entry(rel.as_str(), ext.as_str(), s.as_str());
        let ghost added = e@;
        assert forall|t: Seq<char>| e.tf@.contains_key(t) implies terms::count_in(idx.df@, t)
            < usize::MAX by {
            assert(idx.df@ == without(before, rel@).df);
            if before.df.contains_key(t) {
                assert(before.df[t] < usize::MAX);
            }
        }
        idx.df.raise(&e.tf);
        idx.files.push(e);
        idx.file_count = idx.files.len();
        idx.term_count = idx.df.len();
        proof {
            assert(split::views(idx.files@).len() == idx.files@.len());
            if consistent(before) {
                law_update_keeps_consistent(before, rel@, added);
            }
        }
    }
}

// ── Laws of the index ───────────────────────────────────────────────────────

/// The index is consistent: each frequency is the number of files that hold
/// the term, the counts are those of its lists, and no two entries have the
/// same path.
pub open spec fn consistent(v: IndexView) -> bool {
    &&& forall|t: Seq<char>| terms::count_in(v.df, t) == #[trigger] files_with(v.files, t)
    &&& v.file_count == v.files.len()
    &&& v.term_count == v.df.len()
    &&& distinct_paths(v.files)
}

/// No two entries have the same path.
pub open spec fn distinct_paths(files: Seq<FileEntryView>) -> bool {
    forall|i: int, j: int|
        0 <= i < j < files.len() ==> (#[trigger] files[i]).path != (#[trigger] files[j]).path
}

proof fn lemma_files_with_remove(files: Seq<FileEntryView>, p: int, t: Seq<char>)
    requires
        0 <= p < files.len(),
    ensures
        files_with(files, t) == files_with(files.remove(p), t) + (if files[p].tf.contains_key(t) {
            1nat
        } else {
            0
        }),
    decreases files.len(),
{
    if p == files.len() - 1 {
        assert(files.remove(p) =~= files.drop_last());
    } else {
        lemma_files_with_remove(files.drop_last(), p, t);
        assert(files.remove(p).drop_last() =~= files.drop_last().remove(p));
        assert(files.remove(p).last() == files.last());
    }
}

/// Dropping a file keeps the index consistent, and leaves no entry at its
/// path.
pub proof fn law_remove_keeps_consistent(v: IndexView, path: Seq<char>)
    requires
        consistent(v),
    ensures
        consistent(without(v, path)),
        forall|k: int| 0 <= k < without(v, path).files.len() ==> (#[trigger] without(
            v,
            path,
        ).files[k]).path != path,
{
    let p = position(v.files, path);
    let w = without(v, path);
    lemma_position(v.files, path);
    if p < v.files.len() {
        assert forall|t: Seq<char>| terms::count_in(w.df, t) == #[trigger] files_with(
            w.files,
            t,
        ) by {
            assert(terms::count_in(v.df, t) == files_with(v.files, t));
            lemma_files_with_remove(v.files, p, t);
        }
        assert forall|k: int| 0 <= k < w.files.len() implies (#[trigger] w.files[k]).path
            != path by {
            if k < p {
                assert(w.files[k] == v.files[k]);
            } else {
                assert(w.files[k] == v.files[k + 1]);
                assert(v.files[p].path != v.files[k + 1].path);
            }
        }
        assert forall|i: int, j: int| 0 <= i < j < w.files.len() implies (
        #[trigger] w.files[i]).path != (#[trigger] w.files[j]).path by {
            let i2 = if i < p {
                i
            } else {
                i + 1
            };
            let j2 = if j < p {
                j
            } else {
                j + 1
            };
            assert(w.files[i] == v.files[i2]);
            assert(w.files[j] == v.files[j2]);
        }
    }
}

/// Indexing a file anew keeps the index consistent, and leaves exactly one entry
/// at its path, the last: that of its current text. The other entries stay as
/// they are and in their order.
pub proof fn law_update_keeps_consistent(v: IndexView, path: Seq<char>, e: FileEntryView)
    requires
        consistent(v),
        e.path == path,
        without(v, path).files.len() < usize::MAX,
    ensures
        ({
            let u = with_entry(without(v, path), e);
            &&& consistent(u)
            &&& u.files.last() == e
            &&& forall|k: int|
                0 <= k < u.files.len() - 1 ==> (#[trigger] u.files[k]).path != path
            &&& u.files.drop_last() == v.files.filter(|f: FileEntryView| f.path != path)
        }),
{
    let w = without(v, path);
    let u = with_entry(w, e);
    law_remove_keeps_consistent(v, path);
    lemma_position(v.files, path);
    assert(u.files.drop_last() =~= w.files);
    assert forall|t: Seq<char>| terms::count_in(u.df, t) == #[trigger] files_with(u.files, t) by {
        assert(terms::count_in(w.df, t) == files_with(w.files, t));
        lemma_files_with_bound(w.files, t);
    }
    assert forall|i: int, j: int| 0 <= i < j < u.files.len() implies (#[trigger] u.files[i]).path
        != (#[trigger] u.files[j]).path by {
        assert(u.files[i] == w.files[i]);
    }
    lemma_others(v.files, path);
}

/// Where no two entries have the same path, those at other paths are what is left
/// without the one at `path`.
proof fn lemma_others(files: Seq<FileEntryView>, path: Seq<char>)
    requires
        distinct_paths(files),
    ensures
        ({
            let p = position(files, path);
            files.filter(|f: FileEntryView| f.path != path) == (if p < files.len() {
                files.remove(p)
            } else {
                files
            })
        }),
    decreases files.len(),
{
    reveal(Seq::filter);
    let keep = |f: FileEntryView| f.path != path;
    lemma_position(files, path);
    if files.len() > 0 {
        let init = files.drop_last();
        let p = position(files, path);
        assert forall|i: int, j: int| 0 <= i < j < init.len() implies (#[trigger] init[i]).path != (
        #[trigger] init[j]).path by {
            assert(init[i] == files[i] && init[j] == files[j]);
        }
        lemma_others(init, path);
        lemma_position(init, path);
        if p < files.len() - 1 {
            assert(files[p].path != files[files.len() - 1].path);
            assert(files.remove(p) =~= init.remove(p).push(files.last()));
        } else if p == files.len() - 1 {
            assert(files.remove(p) =~= init);
        } else {
            assert(files =~= init.push(files.last()));
        }
    }
}

/// Whether one more file can be counted: no frequency is at the end of its type.
pub open spec fn can_count(v: IndexView) -> bool {
    forall|t: Seq<char>| #[trigger] v.df.contains_key(t) ==> v.df[t] < usize::MAX
}

/// Indexing a file anew a second time changes nothing, where it still holds the
/// same text or still cannot be read; and one that cannot be read changes nothing
/// at all.
pub proof fn law_second_update_changes_nothing(
    v: IndexView,
    abs_path: Seq<char>,
    content: Option<Seq<char>>,
)
    requires
        distinct_paths(v.files),
        can_count(v),
    ensures
        updated(updated(v, abs_path, content), abs_path, content) == updated(v, abs_path, content),
        content is None ==> updated(v, abs_path, content) == v,
{
    if let Some(s) = content {
        let rel = relative(v.work_dir, abs_path);
        lemma_second_entry(v, rel, entry_of(rel, lower_ext(abs_path), s));
    }
}

proof fn lemma_second_entry(v: IndexView, path: Seq<char>, e: FileEntryView)
    requires
        distinct_paths(v.files),
        can_count(v),
        e.path == path,
    ensures
        ({
            let u = with_entry(without(v, path), e);
            with_entry(without(u, path), e) == u
        }),
{
    let w = without(v, path);
    let u = with_entry(w, e);
    let x = without(u, path);
    lemma_position(v.files, path);
    let p = position(v.files, path);
    assert forall|k: int| 0 <= k < w.files.len() implies (#[trigger] w.files[k]).path != path by {
        if p < v.files.len() {
            if k < p {
                assert(w.files[k] == v.files[k]);
            } else {
                assert(w.files[k] == v.files[k + 1]);
                assert(v.files[p].path != v.files[k + 1].path);
            }
        }
    }
    lemma_position(u.files, path);
    let q = position(u.files, path);
    if q < w.files.len() {
        assert(u.files[q] == w.files[q]);
    }
    assert(u.files[w.files.len() as int] == e);
    assert(q == w.files.len());
    assert(x.files =~= w.files);
    let ks = e.tf.dom();
    assert(terms::raised(x.df, ks) =~= u.df) by {
        assert forall|t: Seq<char>| ks.contains(t) implies #[trigger] terms::count_in(x.df, t)
            == terms::count_in(w.df, t) by {
            if v.df.contains_key(t) {
                assert(v.df[t] < usize::MAX);
            }
        }
    }
    assert(with_entry(x, e).files =~= u.files);
}

/// A built index is consistent, if no file was found twice.
pub proof fn law_build_is_consistent(found: Seq<SourceFileView>, v: IndexView)
    requires
        v.files == entries_of(found),
        v.df == frequencies(v.files),
        v.file_count == v.files.len(),
        v.term_count == v.df.len(),
        found.len() <= usize::MAX,
        forall|i: int, j: int|
            0 <= i < j < found.len() ==> (#[trigger] found[i]).path != (#[trigger] found[j]).path,
    ensures
        consistent(v),
{
    lemma_entries(found);
    assert forall|t: Seq<char>| terms::count_in(v.df, t) == #[trigger] files_with(v.files, t) by {
        lemma_frequencies(v.files, t);
    }
}

/// Each entry of a built index is of a file that was found and is indexed.
proof fn lemma_entries(found: Seq<SourceFileView>)
    requires
        forall|i: int, j: int|
            0 <= i < j < found.len() ==> (#[trigger] found[i]).path != (#[trigger] found[j]).path,
    ensures
        entries_of(found).len() <= found.len(),
        distinct_paths(entries_of(found)),
        forall|k: int|
            0 <= k < entries_of(found).len() ==> exists|i: int|
                0 <= i < found.len() && (#[trigger] found[i]).path == (#[trigger] entries_of(
                    found,
                )[k]).path,
    decreases found.len(),
{
    if found.len() > 0 {
        let init = found.drop_last();
        lemma_entries(init);
        let before = entries_of(init);
        let now = entries_of(found);
        assert forall|k: int| 0 <= k < now.len() implies exists|i: int|
            0 <= i < found.len() && (#[trigger] found[i]).path == (#[trigger] now[k]).path by {
            if k < before.len() {
                assert(now[k] == before[k]);
                let i = choose|i: int|
                    0 <= i < init.len() && (#[trigger] init[i]).path == before[k].path;
                assert(found[i].path == now[k].path);
            } else {
                assert(found[found.len() - 1].path == now[k].path);
            }
        }
        assert forall|a: int, b: int| 0 <= a < b < now.len() implies (#[trigger] now[a]).path != (
        #[trigger] now[b]).path by {
            assert(now[a] == before[a]);
            if b < before.len() {
                assert(now[b] == before[b]);
            } else {
                let i = choose|i: int|
                    0 <= i < init.len() && (#[trigger] init[i]).path == before[a].path;
                assert(found[i].path != found[found.len() - 1].path);
            }
        }
    }
}

/// No entry of a built index lies in a directory that is left out or has an
/// extension that is left out.
pub proof fn law_build_leaves_out(found: Seq<SourceFileView>, k: int)
    requires
        0 <= k < entries_of(found).len(),
    ensures
        is_indexable(entries_of(found)[k].path),
    decreases found.len(),
{
    if found.len() > 0 {
        let before = entries_of(found.drop_last());
        if k < before.len() {
            law_build_leaves_out(found.drop_last(), k);
            assert(entries_of(found)[k] == before[k]);
        }
    }
}

// ── Laws of terms and frequencies ───────────────────────────────────────────

/// The places of the files that hold a term.
pub open spec fn holders(files: Seq<FileEntryView>, t: Seq<char>) -> Set<int> {
    Set::new(|i: int| 0 <= i < files.len() && files[i].tf.contains_key(t))
}

/// In a consistent index, the frequency of a term is the number of the files that
/// hold it.
pub proof fn law_frequency_is_number_of_holders(v: IndexView, t: Seq<char>)
    requires
        consistent(v),
    ensures
        holders(v.files, t).finite(),
        v.df.contains_key(t) ==> v.df[t] == holders(v.files, t).len(),
        holders(v.files, t).len() > 0 ==> v.df.contains_key(t),
{
    lemma_holders(v.files, t);
    assert(terms::count_in(v.df, t) == files_with(v.files, t));
}

proof fn lemma_holders(files: Seq<FileEntryView>, t: Seq<char>)
    ensures
        holders(files, t).finite(),
        holders(files, t).len() == files_with(files, t),
    decreases files.len(),
{
    let h = holders(files, t);
    if files.len() == 0 {
        assert(h =~= Set::<int>::empty());
    } else {
        let init = files.drop_last();
        lemma_holders(init, t);
        let n = files.len() - 1;
        if files.last().tf.contains_key(t) {
            assert(h =~= holders(init, t).insert(n));
            assert(!holders(init, t).contains(n));
        } else {
            assert(h =~= holders(init, t));
        }
    }
}

/// An entry counts each term as often as it stands among the terms of the file's
/// text, and knows how many terms there are.
pub proof fn law_entry_counts_terms(
    path: Seq<char>,
    ext: Seq<char>,
    s: Seq<char>,
    t: Seq<char>,
)
    requires
        terms_of(s).len() <= usize::MAX,
    ensures
        entry_of(path, ext, s).path == path,
        entry_of(path, ext, s).total == terms_of(s).to_multiset().len(),
        terms::count_in(entry_of(path, ext, s).tf, t) == terms_of(s).to_multiset().count(t),
        entry_of(path, ext, s).tf.contains_key(t) <==> terms_of(s).contains(t),
        entry_of(path, ext, s).symbols == symbols::symbols_of(ext, s),
{
    let ts = terms_of(s);
    terms::lemma_occurrences(ts, t);
    lemma_occurrences_count(ts, t);
    ts.to_multiset_ensures();
}

proof fn lemma_occurrences_count(ts: Seq<Seq<char>>, t: Seq<char>)
    ensures
        terms::occurrences(ts, t) == ts.to_multiset().count(t),
    decreases ts.len(),
{
    ts.to_multiset_ensures();
    if ts.len() > 0 {
        let init = ts.drop_last();
        lemma_occurrences_count(init, t);
        init.to_multiset_ensures();
        assert(ts =~= init.push(ts.last()));
        assert(ts.to_multiset() =~= init.to_multiset().insert(ts.last()));
    }
}

/// A text of letters, digits and underscores is one term, in lower case, if it
/// has 2 to 40 bytes, and none otherwise.
pub proof fn law_one_term(w: Seq<char>)
    requires
        forall|i: int|
            0 <= i < w.len() ==> text::char_alphanumeric(#[trigger] w[i]) || w[i] == '_',
    ensures
        2 <= number::byte_len(w) <= 40 ==> terms_of(w) == seq![text::lowercase(w)],
        number::byte_len(w) < 2 || number::byte_len(w) > 40 ==> terms_of(w).len() == 0,
{
    split::law_one_piece(w, text::not_word());
    let ps = seq![w];
    assert(ps.drop_last() =~= Seq::<Seq<char>>::empty());
    assert(terms_among(ps.drop_last()) =~= Seq::<Seq<char>>::empty());
    if is_term(w) {
        assert(terms_of(w) =~= seq![text::lowercase(w)]);
    }
}

/// The terms of two texts with a character between them that is neither a letter,
/// a digit nor an underscore are those of the first and then those of the second.
pub proof fn law_terms_are_parted(a: Seq<char>, c: char, b: Seq<char>)
    requires
        !text::char_alphanumeric(c),
        c != '_',
    ensures
        terms_of(a.push(c) + b) == terms_of(a) + terms_of(b),
{
    split::lemma_pieces_join(a, c, b, text::not_word());
    lemma_terms_among_join(
        split::pieces(a, text::not_word()),
        split::pieces(b, text::not_word()),
    );
}

/// Each file found is indexed for itself: the entries of two lists of files are
/// those of the first and then those of the second.
pub proof fn law_entries_of_two_lists(a: Seq<SourceFileView>, b: Seq<SourceFileView>)
    ensures
        entries_of(a + b) == entries_of(a) + entries_of(b),
        symbol_total(entries_of(a + b)) == symbol_total(entries_of(a)) + symbol_total(
            entries_of(b),
        ),
    decreases b.len(),
{
    if b.len() == 0 {
        assert(a + b =~= a);
        assert(entries_of(a) + entries_of(b) =~= entries_of(a));
    } else {
        let init = b.drop_last();
        law_entries_of_two_lists(a, init);
        assert((a + b).drop_last() =~= a + init);
        let f = b.last();
        if let Some(s) = f.text {
            let e = entry_of(f.path, lower_ext(f.path), s);
            if is_indexable(f.path) && terms_of(s).len() > 0 {
                assert(entries_of(a + b) =~= entries_of(a + init).push(e));
                assert(entries_of(a) + entries_of(b) =~= (entries_of(a) + entries_of(
                    init,
                )).push(e));
                lemma_symbol_prefix(entries_of(a + init), e);
                lemma_symbol_prefix(entries_of(init), e);
            }
        }
    }
}

/// A file found gets an entry exactly if it could be read, has a term and is not
/// left out; its entry is that of its text.
pub proof fn law_entry_of_one_file(f: SourceFileView)
    ensures
        f.text is None ==> entries_of(seq![f]).len() == 0,
        !is_indexable(f.path) ==> entries_of(seq![f]).len() == 0,
        f.text is Some && terms_of(f.text.unwrap()).len() == 0 ==> entries_of(seq![f]).len() == 0,
        f.text is Some && terms_of(f.text.unwrap()).len() > 0 && is_indexable(f.path)
            ==> entries_of(seq![f]) == seq![entry_of(f.path, lower_ext(f.path), f.text.unwrap())],
{
    let one = seq![f];
    assert(one.drop_last() =~= Seq::<SourceFileView>::empty());
    assert(entries_of(one.drop_last()) =~= Seq::<FileEntryView>::empty());
    if let Some(s) = f.text {
        if is_indexable(f.path) && terms_of(s).len() > 0 {
            assert(entries_of(one) =~= seq![entry_of(f.path, lower_ext(f.path), s)]);
        }
    }
}

/// A file lies below a directory that is left out if a part of its path before a
/// slash is the name of one; then it is not indexed. A file straight in the work
/// directory is indexed unless its extension is left out.
pub proof fn law_left_out(a: Seq<char>, d: Seq<char>, b: Seq<char>, name: Seq<char>)
    requires
        is_skipped_dir(d),
        text::none_in(d, paths::slash()),
        a.len() == 0 || a.last() == '/',
        text::none_in(name, paths::slash()),
    ensures
        !is_indexable(a + d + "/"@ + b),
        is_indexable(name) <==> !is_skipped_ext(lower_ext(name)),
{
    let p = paths::slash();
    reveal_strlit("/");
    assert("/"@.contains('/')) by {
        assert("/"@[0] == '/');
    }
    let left = a + d;
    let s = left.push('/') + b;
    assert(a + d + "/"@ + b =~= s);
    split::lemma_pieces_join(left, '/', b, p);
    let ps = split::pieces(left, p);
    let qs = split::pieces(b, p);
    let none = Seq::<char>::empty();
    assert(left =~= a + d + none);
    assert(split::is_part(left, p, d)) by {
        assert(left == a + d + none);
    }
    split::law_pieces_are_the_parts(left, p, d);
    let k = choose|k: int| 0 <= k < ps.len() && ps[k] == d;
    split::lemma_pieces_nonempty(b, p);
    let all = split::pieces(s, p).drop_last();
    assert(all[k] == d);
    assert(is_skipped_dir(all[k]));
    split::law_one_piece(name, p);
    assert(seq![name].drop_last() =~= Seq::<Seq<char>>::empty());
}

/// A path below the work directory is known without it, whatever slashes stand
/// between; any other path is known as it is.
pub proof fn law_relative(work_dir: Seq<char>, slashes: Seq<char>, path: Seq<char>)
    requires
        forall|i: int| 0 <= i < slashes.len() ==> #[trigger] slashes[i] == '/',
        path.len() > 0 ==> path[0] != '/',
    ensures
        relative(work_dir, work_dir + slashes + path) == path,
        forall|other: Seq<char>|
            !work_dir.is_prefix_of(other) ==> #[trigger] relative(work_dir, other) == other,
{
    let s = work_dir + slashes + path;
    reveal_strlit("/");
    assert("/"@[0] == '/');
    assert(s.subrange(0, work_dir.len() as int) =~= work_dir);
    assert(s.skip(work_dir.len() as int) =~= slashes + path);
    text::law_left_trimmed(slashes, path, paths::slash());
}

/// What version control, package managers and builds leave in a work directory is
/// not indexed, at any depth.
pub proof fn law_generated_files_are_left_out(a: Seq<char>, d: Seq<char>, b: Seq<char>)
    requires
        d == ".git"@ || d == "node_modules"@ || d == "target"@ || d == "dist"@ || d == ".next"@ || d
            == "vendor"@ || d == "__pycache__"@ || d == ".venv"@ || d == "venv"@ || d == "build"@
            || d == "out"@ || d == ".cargo"@ || d == "bin"@ || d == "obj"@,
        a.len() == 0 || a.last() == '/',
    ensures
        !is_indexable(a + d + "/"@ + b),
{
    lemma_no_slash(d);
    law_left_out(a, d, b, Seq::empty());
}

proof fn lemma_no_slash(d: Seq<char>)
    requires
        is_skipped_dir(d),
    ensures
        text::none_in(d, paths::slash()),
{
    reveal_strlit("/");
    reveal_strlit(".git");
    reveal_strlit("node_modules");
    reveal_strlit("target");
    reveal_strlit("dist");
    reveal_strlit(".next");
    reveal_strlit("vendor");
    reveal_strlit("__pycache__");
    reveal_strlit(".venv");
    reveal_strlit("venv");
    reveal_strlit("build");
    reveal_strlit("out");
    reveal_strlit(".cargo");
    reveal_strlit("bin");
    reveal_strlit("obj");
    assert forall|i: int| 0 <= i < d.len() implies !paths::slash()(#[trigger] d[i]) by {
        assert(d[i] != '/');
    }
}

/// Programs, images, archives and lock files are not indexed, whatever the case of
/// their extension.
pub proof fn law_binary_files_are_left_out(dir: Seq<char>, stem: Seq<char>, ext: Seq<char>)
    requires
        stem.len() > 0,
        forall|i: int| 0 <= i < stem.len() ==> #[trigger] stem[i] != '/',
        ext.len() > 0,
        forall|i: int| 0 <= i < ext.len() ==> #[trigger] ext[i] != '/' && ext[i] != '.',
        ({
            let x = text::lowercase(ext);
            x == "exe"@ || x == "dll"@ || x == "so"@ || x == "dylib"@ || x == "png"@ || x == "jpg"@
                || x == "jpeg"@ || x == "gif"@ || x == "webp"@ || x == "ico"@ || x == "pdf"@ || x
                == "zip"@ || x == "tar"@ || x == "gz"@ || x == "wasm"@ || x == "bin"@ || x
                == "lock"@
        }),
    ensures
        !is_indexable(dir + "/"@ + (stem + "."@ + ext)),
        !is_indexable(stem + "."@ + ext),
{
    paths::law_extension(dir, stem, ext);
}

/// Nothing else is left out for its directory or its extension.
pub proof fn law_only_these_are_left_out(d: Seq<char>)
    ensures
        is_skipped_dir(d) ==> d == ".git"@ || d == "node_modules"@ || d == "target"@ || d
            == "dist"@ || d == ".next"@ || d == "vendor"@ || d == "__pycache__"@ || d == ".venv"@
            || d == "venv"@ || d == "build"@ || d == "out"@ || d == ".cargo"@ || d == "bin"@ || d
            == "obj"@,
        is_skipped_ext(d) ==> d == "exe"@ || d == "dll"@ || d == "so"@ || d == "dylib"@ || d
            == "png"@ || d == "jpg"@ || d == "jpeg"@ || d == "gif"@ || d == "webp"@ || d == "ico"@
            || d == "pdf"@ || d == "zip"@ || d == "tar"@ || d == "gz"@ || d == "wasm"@ || d
            == "bin"@ || d == "lock"@,
{
}

} // verus!
