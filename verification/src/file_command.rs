//! The commands on files, sessions, snapshots and the index.

use crate::command::{self, Command, CommandView};
use crate::config::{self, ProjectConfig, SandboxMode};
use crate::dup::{self, dup_all, Dup};
use crate::engine::{
    self, project_name, Attachment, AttachmentView, Engine, EngineView, ImageAttachment,
    ImageAttachmentView, SessionInfo, SessionInfoView,
};
use crate::index::{self, BuildStats, Index};
use crate::message::{Message, MessageView};
use crate::number::{self, pad_front, parse_usize, show};
use crate::outbox::{self, Effect, EffectView, Outbox};
use crate::paths::{self, file_name};
use crate::search::{self, SearchResult};
use crate::shown::{self, encode_base64, quote, show_minute, show_span};
use crate::sorting::{self, sort_texts};
use crate::split::{self, count_lines, join, split_words};
use crate::text::{self, cat2, cat3, cat4, cat5, cat7, empty, ends_str, same, trim_str};
use crate::transcript::{self, history_entries};
use crate::ui::{self, DiffLine, FileText, Opened, OpenedView, UiUpdate, UiUpdateView};
use vstd::prelude::*;

verus! {

broadcast use {split::lemma_texts_push, split::lemma_views_push};

// ── Attachments ─────────────────────────────────────────────────────────────

/// The files without the one at a path.
pub open spec fn files_without(s: Seq<AttachmentView>, path: Seq<char>) -> Seq<AttachmentView>
    decreases s.len(),
{
    if s.len() == 0 {
        Seq::empty()
    } else if s.last().path == path {
        files_without(s.drop_last(), path)
    } else {
        files_without(s.drop_last(), path).push(s.last())
    }
}

/// The images without the one at a path.
pub open spec fn images_without(
    s: Seq<ImageAttachmentView>,
    path: Seq<char>,
) -> Seq<ImageAttachmentView>
    decreases s.len(),
{
    if s.len() == 0 {
        Seq::empty()
    } else if s.last().path == path {
        images_without(s.drop_last(), path)
    } else {
        images_without(s.drop_last(), path).push(s.last())
    }
}

/// Whether a path is meant by a name: it is the name, or ends in it.
pub open spec fn is_meant(path: Seq<char>, name: Seq<char>) -> bool {
    paths::name_of(path) == Some(name) || path == name
}

/// The files without those that a name means.
pub open spec fn files_but(s: Seq<AttachmentView>, name: Seq<char>) -> Seq<AttachmentView>
    decreases s.len(),
{
    if s.len() == 0 {
        Seq::empty()
    } else if is_meant(s.last().path, name) {
        files_but(s.drop_last(), name)
    } else {
        files_but(s.drop_last(), name).push(s.last())
    }
}

/// The images without those that a name means.
pub open spec fn images_but(
    s: Seq<ImageAttachmentView>,
    name: Seq<char>,
) -> Seq<ImageAttachmentView>
    decreases s.len(),
{
    if s.len() == 0 {
        Seq::empty()
    } else if is_meant(s.last().path, name) {
        images_but(s.drop_last(), name)
    } else {
        images_but(s.drop_last(), name).push(s.last())
    }
}

/// The name under which an attached file is shown.
pub open spec fn shown_name(path: Seq<char>) -> Seq<char> {
    engine::project_of(path)
}

/// The lines of what is attached.
pub open spec fn attached_lines(e: EngineView) -> Seq<Seq<char>> {
    e.attachments.map_values(
        |a: AttachmentView|
            a.path + " ("@ + number::decimal(split::lines(a.content).len()) + " lines)"@,
    ) + e.image_attachments.map_values(|a: ImageAttachmentView| a.path + " (image)"@)
}

fn meant(path: &str, name: &str) -> (r: bool)
    ensures
        r == is_meant(path@, name@),
{
    if same(path, name) {
        return true;
    }
    match file_name(path) {
        Some(n) => same(n.as_str(), name),
        None => false,
    }
}

fn drop_file(s: &Vec<Attachment>, path: &str) -> (r: Vec<Attachment>)
    ensures
        split::views(r@) == files_without(split::views(s@), path@),
{
    let ghost all = split::views(s@);
    let mut out: Vec<Attachment> = Vec::new();
    let mut i: usize = 0;
    assert(split::views(out@) =~= files_without(all.take(0), path@));
    while i < s.len()
        invariant
            i <= s@.len(),
            all == split::views(s@),
            split::views(out@) == files_without(all.take(i as int), path@),
        decreases s@.len() - i,
    {
        assert(all[i as int] == s@[i as int]@);
        assert(all.take(i + 1).drop_last() =~= all.take(i as int));
        if !same(s[i].path.as_str(), path) {
            out.push(s[i].dup());
        }
        i += 1;
    }
    assert(all.take(i as int) =~= all);
    out
}

fn drop_image(s: &Vec<ImageAttachment>, path: &str) -> (r: Vec<ImageAttachment>)
    ensures
        split::views(r@) == images_without(split::views(s@), path@),
{
    let ghost all = split::views(s@);
    let mut out: Vec<ImageAttachment> = Vec::new();
    let mut i: usize = 0;
    assert(split::views(out@) =~= images_without(all.take(0), path@));
    while i < s.len()
        invariant
            i <= s@.len(),
            all == split::views(s@),
            split::views(out@) == images_without(all.take(i as int), path@),
        decreases s@.len() - i,
    {
        assert(all[i as int] == s@[i as int]@);
        assert(all.take(i + 1).drop_last() =~= all.take(i as int));
        if !same(s[i].path.as_str(), path) {
            out.push(s[i].dup());
        }
        i += 1;
    }
    assert(all.take(i as int) =~= all);
    out
}

fn keep_files(s: &Vec<Attachment>, name: &str) -> (r: Vec<Attachment>)
    ensures
        split::views(r@) == files_but(split::views(s@), name@),
        r@.len() <= s@.len(),
{
    let ghost all = split::views(s@);
    let mut out: Vec<Attachment> = Vec::new();
    let mut i: usize = 0;
    assert(split::views(out@) =~= files_but(all.take(0), name@));
    while i < s.len()
        invariant
            i <= s@.len(),
            out@.len() <= i,
            all == split::views(s@),
            split::views(out@) == files_but(all.take(i as int), name@),
        decreases s@.len() - i,
    {
        assert(all[i as int] == s@[i as int]@);
        assert(all.take(i + 1).drop_last() =~= all.take(i as int));
        if !meant(s[i].path.as_str(), name) {
            out.push(s[i].dup());
        }
        i += 1;
    }
    assert(all.take(i as int) =~= all);
    out
}

fn keep_images(s: &Vec<ImageAttachment>, name: &str) -> (r: Vec<ImageAttachment>)
    ensures
        split::views(r@) == images_but(split::views(s@), name@),
        r@.len() <= s@.len(),
{
    let ghost all = split::views(s@);
    let mut out: Vec<ImageAttachment> = Vec::new();
    let mut i: usize = 0;
    assert(split::views(out@) =~= images_but(all.take(0), name@));
    while i < s.len()
        invariant
            i <= s@.len(),
            out@.len() <= i,
            all == split::views(s@),
            split::views(out@) == images_but(all.take(i as int), name@),
        decreases s@.len() - i,
    {
        assert(all[i as int] == s@[i as int]@);
        assert(all.take(i + 1).drop_last() =~= all.take(i as int));
        if !meant(s[i].path.as_str(), name) {
            out.push(s[i].dup());
        }
        i += 1;
    }
    assert(all.take(i as int) =~= all);
    out
}

fn show_attached(e: &Engine) -> (r: String)
    ensures
        r@ == split::joined(attached_lines(e@), "\n"@),
{
    let ghost files = e@.attachments.map_values(
        |a: AttachmentView|
            a.path + " ("@ + number::decimal(split::lines(a.content).len()) + " lines)"@,
    );
    let ghost images = e@.image_attachments.map_values(
        |a: ImageAttachmentView| a.path + " (image)"@,
    );
    let mut lines: Vec<String> = Vec::new();
    let mut i: usize = 0;
    while i < e.attachments.len()
        invariant
            i <= e.attachments@.len(),
            files == e@.attachments.map_values(
                |a: AttachmentView|
                    a.path + " ("@ + number::decimal(split::lines(a.content).len())
                        + " lines)"@,
            ),
            split::texts(lines@) =~= files.take(i as int),
        decreases e.attachments@.len() - i,
    {
        let a = &e.attachments[i];
        let n = show(count_lines(a.content.as_str()));
        lines.push(cat4(a.path.as_str(), " (", n.as_str(), " lines)"));
        assert(files[i as int] == lines@.last()@);
        i += 1;
    }
    assert(files.take(i as int) =~= files);
    let mut j: usize = 0;
    assert(files + images.take(0) =~= files);
    while j < e.image_attachments.len()
        invariant
            j <= e.image_attachments@.len(),
            images == e@.image_attachments.map_values(
                |a: ImageAttachmentView| a.path + " (image)"@,
            ),
            split::texts(lines@) == files + images.take(j as int),
        decreases e.image_attachments@.len() - j,
    {
        let a = &e.image_attachments[j];
        lines.push(cat2(a.path.as_str(), " (image)"));
        assert(images[j as int] == lines@.last()@);
        assert(files + images.take(j + 1) =~= (files + images.take(j as int)).push(
            images[j as int],
        ));
        j += 1;
    }
    assert(images.take(j as int) =~= images);
    join(&lines, "\n")
}

impl Engine {
    /// /attach without a word.
    pub fn attached_shown(&self, out: &mut Outbox)
        ensures
            final(out)@ == old(out)@.push(
                outbox::says(
                    if self@.attachments.len() == 0 && self@.image_attachments.len() == 0 {
                        "No files attached. Usage: /attach <file>"@
                    } else {
                        "Attached:\n"@ + split::joined(attached_lines(self@), "\n"@)
                    },
                ),
            ),
    {
        assert(split::views(self.attachments@).len() == self.attachments@.len());
        assert(split::views(self.image_attachments@).len() == self.image_attachments@.len());
        if self.attachments.len() == 0 && self.image_attachments.len() == 0 {
            out.say("No files attached. Usage: /attach <file>");
        } else {
            let l = show_attached(self);
            out.sys(cat2("Attached:\n", l.as_str()));
        }
    }

    /// Attaches an image, in the place of one attached before from the same
    /// path.
    pub fn attach_image(&mut self, path: &str, mime: &str, bytes: &Vec<u8>, out: &mut Outbox)
        requires
            4 * ((bytes@.len() + 2) / 3) <= isize::MAX,
        ensures
            final(self)@ == (EngineView {
                image_attachments: images_without(old(self)@.image_attachments, path@).push(
                    ImageAttachmentView {
                        path: path@,
                        mime: mime@,
                        data: shown::base64_text(bytes@),
                    },
                ),
                ..old(self)@
            }),
            final(out)@ == old(out)@.push(
                outbox::says(
                    "Attached image: "@ + shown_name(path@)
                        + " — send your next message to include it"@,
                ),
            ),
    {
        let data = encode_base64(bytes);
        let mut list = drop_image(&self.image_attachments, path);
        list.push(
            ImageAttachment { path: path.to_string(), mime: mime.to_string(), data },
        );
        self.image_attachments = list;
        let n = project_name(path);
        out.sys(
            cat3("Attached image: ", n.as_str(), " — send your next message to include it"),
        );
    }

    /// Attaches a file, in the place of one attached before from the same path.
    pub fn attach_file(&mut self, path: &str, content: String, out: &mut Outbox)
        ensures
            final(self)@ == (EngineView {
                attachments: files_without(old(self)@.attachments, path@).push(
                    AttachmentView { path: path@, content: content@ },
                ),
                ..old(self)@
            }),
            final(out)@ == old(out)@.push(
                outbox::says(
                    "Attached: "@ + shown_name(path@) + " ("@ + number::decimal(
                        split::lines(content@).len(),
                    ) + " lines) — send your next message to include it"@,
                ),
            ),
            final(self)@ == with_file(old(self)@, path@, content@),
    {
        let k = show(count_lines(content.as_str()));
        let mut list = drop_file(&self.attachments, path);
        list.push(Attachment { path: path.to_string(), content });
        self.attachments = list;
        let n = project_name(path);
        out.sys(
            cat5(
                "Attached: ",
                n.as_str(),
                " (",
                k.as_str(),
                " lines) — send your next message to include it",
            ),
        );
    }

    /// Tells the user that a file could not be attached.
    pub fn attach_failed(&self, error: &str, out: &mut Outbox)
        ensures
            final(out)@ == old(out)@.push(outbox::warns("attach error: "@ + error@)),
    {
        out.err(cat2("attach error: ", error));
    }

    /// /detach
    pub fn cmd_detach(&mut self, c: &Command, out: &mut Outbox)
        ensures
            match command::word(c@, 0) {
                None => final(self)@ == crate::prompt::detached(old(self)@) && final(out)@ == old(
                    out,
                )@.push(outbox::says("All attachments cleared."@)),
                Some(n) => final(self)@ == (EngineView {
                    attachments: files_but(old(self)@.attachments, n),
                    image_attachments: images_but(old(self)@.image_attachments, n),
                    ..old(self)@
                }) && final(out)@ == old(out)@.push(
                    if files_but(old(self)@.attachments, n).len() < old(self)@.attachments.len()
                        || images_but(old(self)@.image_attachments, n).len() < old(
                        self,
                    )@.image_attachments.len() {
                        outbox::says("Detached: "@ + n)
                    } else {
                        outbox::warns("No attachment named "@ + shown::quoted(n))
                    },
                ),
            },
            final(self)@ == after_detach(old(self)@, c@),
    {
        match c.word(0) {
            None => {
                self.attachments = Vec::new();
                self.image_attachments = Vec::new();
                proof {
                    assert(split::views(self.attachments@) =~= Seq::<AttachmentView>::empty());
                    assert(split::views(self.image_attachments@) =~= Seq::<
                        ImageAttachmentView,
                    >::empty());
                }
                out.say("All attachments cleared.");
            },
            Some(n) => {
                let files = keep_files(&self.attachments, n);
                let images = keep_images(&self.image_attachments, n);
                proof {
                    assert(split::views(files@).len() == files@.len());
                    assert(split::views(images@).len() == images@.len());
                    assert(split::views(self.attachments@).len() == self.attachments@.len());
                    assert(split::views(self.image_attachments@).len()
                        == self.image_attachments@.len());
                }
                let fewer = files.len() < self.attachments.len() || images.len()
                    < self.image_attachments.len();
                self.attachments = files;
                self.image_attachments = images;
                if fewer {
                    out.sys(cat2("Detached: ", n));
                } else {
                    let q = quote(n);
                    out.err(cat2("No attachment named ", q.as_str()));
                }
            },
        }
    }
}

// ── Running a command line ──────────────────────────────────────────────────

/// The first word of a text; the text itself if it has none.
pub open spec fn first_word(s: Seq<char>) -> Seq<char> {
    let ws = split::words(s);
    if ws.len() > 0 {
        ws[0]
    } else {
        s
    }
}

/// Whether a command line may run: some sandbox is on, checks are off, or the
/// user allowed it.
pub open spec fn may_run(e: EngineView, allowed: bool) -> bool {
    e.cfg.sandbox_mode != SandboxMode::Off || e.cfg.skip_permissions || allowed
}

impl Engine {
    /// /exec: whether the command line runs; `allowed` says whether the user
    /// allowed it.
    pub fn exec_begins(&self, c: &Command, allowed: bool, out: &mut Outbox) -> (r: bool)
        ensures
            r == (c@.rest.len() > 0 && may_run(self@, allowed)),
            final(out)@ == old(out)@.push(
                if c@.rest.len() == 0 {
                    outbox::says("Usage: /exec <shell command>"@)
                } else if may_run(self@, allowed) {
                    outbox::says("Running: "@ + c@.rest)
                } else {
                    outbox::warns(
                        "Command not allowed: "@ + shown::quoted(c@.rest) + "\nUse /allow "@
                            + first_word(c@.rest)
                            + " or /sandbox [permissive|docker|gvisor]."@,
                    )
                },
            ),
    {
        let rest = c.rest.as_str();
        if rest.is_empty() {
            out.say("Usage: /exec <shell command>");
            return false;
        }
        if self.cfg.sandbox_mode == SandboxMode::Off && !self.cfg.skip_permissions && !allowed {
            let ws = split_words(rest);
            assert(split::texts(ws@).len() == ws@.len());
            let first = if ws.len() > 0 {
                assert(split::texts(ws@)[0] == ws@[0]@);
                ws[0].as_str().to_string()
            } else {
                rest.to_string()
            };
            let q = quote(rest);
            out.err(
                cat5(
                    "Command not allowed: ",
                    q.as_str(),
                    "\nUse /allow ",
                    first.as_str(),
                    " or /sandbox [permissive|docker|gvisor].",
                ),
            );
            return false;
        }
        out.sys(cat2("Running: ", rest));
        true
    }

    /// /exec: what the command line wrote; None if it could not be run.
    pub fn exec_ended(&self, run: &Option<(String, String)>, out: &mut Outbox)
        ensures
            final(out)@ == old(out)@.push(
                match run {
                    Some(p) => outbox::says("[exec]\n"@ + text::trimmed(p.0@ + p.1@)),
                    None => outbox::warns("exec failed"@),
                },
            ),
    {
        match run {
            Some(p) => {
                let both = cat2(p.0.as_str(), p.1.as_str());
                let t = trim_str(both.as_str());
                out.sys(cat2("[exec]\n", t.as_str()));
            },
            None => out.warn("exec failed"),
        }
    }
}

// ── Looking at files ────────────────────────────────────────────────────────

/// Why a file could not be read.
pub struct ReadError {
    pub message: String,
    /// Whether there is no such file.
    pub missing: bool,
}

/// An entry of a directory.
pub struct DirEntry {
    pub name: String,
    pub is_dir: bool,
}

/// The model of an entry of a directory.
#[verifier::ext_equal]
pub struct DirEntryView {
    pub name: Seq<char>,
    pub is_dir: bool,
}

impl View for DirEntry {
    type V = DirEntryView;

    open spec fn view(&self) -> DirEntryView {
        DirEntryView { name: self.name@, is_dir: self.is_dir }
    }
}

/// The names of some entries, those of directories with a slash.
pub open spec fn entry_names(es: Seq<DirEntryView>) -> Seq<Seq<char>> {
    es.map_values(
        |e: DirEntryView|
            if e.is_dir {
                e.name + "/"@
            } else {
                e.name
            },
    )
}

/// What opening a file for the editor came to: a missing one opens empty.
pub open spec fn edit_of(path: Seq<char>, res: Result<String, ReadError>) -> OpenedView {
    match res {
        Ok(s) => OpenedView::File(ui::FileTextView { path, content: s@ }),
        Err(e) => if e.missing {
            OpenedView::File(ui::FileTextView { path, content: Seq::empty() })
        } else {
            OpenedView::Failed(e.message@)
        },
    }
}

/// What opening a file for reading came to.
pub open spec fn view_of(path: Seq<char>, res: Result<String, ReadError>) -> OpenedView {
    match res {
        Ok(s) => OpenedView::File(ui::FileTextView { path, content: s@ }),
        Err(e) => OpenedView::Failed(e.message@),
    }
}

impl Engine {
    /// A command that needs a file and was given none.
    pub fn file_usage(&self, c: &Command, out: &mut Outbox)
        ensures
            final(out)@ == old(out)@.push(outbox::says("Usage: "@ + c@.name + " <file>"@)),
    {
        out.sys(cat3("Usage: ", c.name.as_str(), " <file>"));
    }

    /// /cat
    pub fn cat_shown(&self, path: &str, res: &Result<String, ReadError>, out: &mut Outbox)
        ensures
            final(out)@ == old(out)@.push(
                match res {
                    Ok(s) => outbox::says("["@ + path@ + "]\n"@ + s@),
                    Err(e) => outbox::warns(e.message@),
                },
            ),
    {
        match res {
            Ok(s) => out.sys(cat4("[", path, "]\n", s.as_str())),
            Err(e) => out.warn(e.message.as_str()),
        }
    }

    /// /view and /open
    pub fn view_opened(&self, path: &str, res: &Result<String, ReadError>, out: &mut Outbox)
        ensures
            final(out)@ == old(out)@.push(
                EffectView::Send(UiUpdateView::OpenViewer(view_of(path@, *res))),
            ),
    {
        let o = match res {
            Ok(s) => Opened::File(
                FileText { path: path.to_string(), content: s.as_str().to_string() },
            ),
            Err(e) => Opened::Failed(e.message.as_str().to_string()),
        };
        out.send(UiUpdate::OpenViewer(o));
    }

    /// /edit
    pub fn edit_opened(&self, path: &str, res: &Result<String, ReadError>, out: &mut Outbox)
        ensures
            final(out)@ == old(out)@.push(
                EffectView::Send(UiUpdateView::OpenEditor(edit_of(path@, *res))),
            ),
    {
        let o = match res {
            Ok(s) => Opened::File(
                FileText { path: path.to_string(), content: s.as_str().to_string() },
            ),
            Err(e) => if e.missing {
                Opened::File(FileText { path: path.to_string(), content: empty() })
            } else {
                Opened::Failed(e.message.as_str().to_string())
            },
        };
        out.send(UiUpdate::OpenEditor(o));
    }

    /// /ls
    pub fn listing_shown(
        &self,
        dir: &str,
        res: &Result<Vec<DirEntry>, String>,
        out: &mut Outbox,
    )
        ensures
            final(out)@ == old(out)@.push(
                match res {
                    Ok(es) => outbox::says(
                        "["@ + dir@ + "]\n"@ + split::joined(
                            sorting::ordered(entry_names(split::views(es@))),
                            "\n"@,
                        ),
                    ),
                    Err(e) => outbox::warns(e@),
                },
            ),
    {
        match res {
            Ok(es) => {
                let ghost all = entry_names(split::views(es@));
                let mut names: Vec<String> = Vec::new();
                let mut i: usize = 0;
                while i < es.len()
                    invariant
                        i <= es@.len(),
                        all == entry_names(split::views(es@)),
                        split::texts(names@) =~= all.take(i as int),
                    decreases es@.len() - i,
                {
                    let e = &es[i];
                    names.push(
                        if e.is_dir {
                            cat2(e.name.as_str(), "/")
                        } else {
                            e.name.as_str().to_string()
                        },
                    );
                    assert(all[i as int] == names@.last()@);
                    i += 1;
                }
                assert(all.take(i as int) =~= all);
                let sorted = sort_texts(&names);
                let l = join(&sorted, "\n");
                out.sys(cat4("[", dir, "]\n", l.as_str()));
            },
            Err(e) => out.warn(e.as_str()),
        }
    }
}

/// The engine in another directory: what belongs to it moves along, and the
/// project there brings its settings.
pub open spec fn moved_to(
    e: EngineView,
    dir: Seq<char>,
    p: Option<config::ProjectConfigView>,
) -> EngineView {
    engine::with_project(
        EngineView {
            work_dir: dir,
            cfg: config::ConfigView { work_dir: dir, ..e.cfg },
            session: match e.session {
                Some(_) => Some(
                    SessionInfoView { project: engine::project_of(dir), work_dir: dir },
                ),
                None => None,
            },
            ..e
        },
        p,
    )
}

/// Of a change of directory only the directory is saved, not what the project
/// there brings along.
pub proof fn law_only_the_directory_is_saved(
    e: EngineView,
    dir: Seq<char>,
    p: Option<config::ProjectConfigView>,
)
    ensures
        engine::to_save(moved_to(e, dir, p)) == (config::ConfigView {
            work_dir: dir,
            ..engine::to_save(e)
        }),
{
}

impl Engine {
    /// /cd without a word.
    pub fn directory_shown(&self, out: &mut Outbox)
        ensures
            final(out)@ == old(out)@.push(
                outbox::says("Current directory: "@ + self@.work_dir),
            ),
    {
        out.sys(cat2("Current directory: ", self.work_dir.as_str()));
    }

    /// /cd into a directory, with the settings that the project there brings.
    pub fn enter_directory(
        &mut self,
        dir: &str,
        project: &Option<ProjectConfig>,
        out: &mut Outbox,
    )
        ensures
            final(self)@ == moved_to(old(self)@, dir@, dup::opt_view(*project)),
            final(out)@ == old(out)@.push(EffectView::SaveConfig).push(
                EffectView::SendStatus,
            ).push(outbox::says("Directory: "@ + dir@)),
    {
        let session = if self.session.is_some() {
            Some(SessionInfo { project: project_name(dir), work_dir: dir.to_string() })
        } else {
            None
        };
        self.session = session;
        self.work_dir = dir.to_string();
        self.cfg.work_dir = dir.to_string();
        self.apply_project_config(project);
        out.add(Effect::SaveConfig);
        out.add(Effect::SendStatus);
        out.sys(cat2("Directory: ", dir));
    }

    /// /cd into what is no directory.
    pub fn not_a_directory(&self, given: &str, out: &mut Outbox)
        ensures
            final(out)@ == old(out)@.push(outbox::warns("Not a directory: "@ + given@)),
    {
        out.err(cat2("Not a directory: ", given));
    }
}

// ── Snapshots ───────────────────────────────────────────────────────────────

/// A snapshot of a file, with its time and size as they are shown.
pub struct Snapshot {
    pub id: String,
    pub when: String,
    pub tool: String,
    pub size: String,
}

/// The model of a snapshot.
#[verifier::ext_equal]
pub struct SnapshotView {
    pub id: Seq<char>,
    pub when: Seq<char>,
    pub tool: Seq<char>,
    pub size: Seq<char>,
}

impl View for Snapshot {
    type V = SnapshotView;

    open spec fn view(&self) -> SnapshotView {
        SnapshotView { id: self.id@, when: self.when@, tool: self.tool@, size: self.size@ }
    }
}

/// A number with at least two places.
pub open spec fn two_places(n: nat) -> Seq<char> {
    number::padded_front(number::decimal(n), 2)
}

/// The lines of some snapshots, numbered from 1.
pub open spec fn snapshot_lines(s: Seq<SnapshotView>) -> Seq<Seq<char>> {
    Seq::new(
        s.len(),
        |i: int|
            ("  "@ + two_places((i + 1) as nat) + ".  "@ + s[i].when + "  ["@ + s[i].tool + "]  "@)
                + s[i].size,
    )
}

/// What /revert does: say something, or restore the snapshot at a place.
pub open spec fn revert_of(c: CommandView, s: Seq<SnapshotView>) -> Result<int, EffectView> {
    match command::word(c, 0) {
        None => Err(
            outbox::says("Usage: /revert <file> [n]  —  list snapshots or restore one"@),
        ),
        Some(file) => if s.len() == 0 {
            Err(
                outbox::says(
                    "No snapshots for "@ + file
                        + " — Marlin snapshots files before every AI edit."@,
                ),
            )
        } else {
            match command::word(c, 1) {
                None => Err(
                    outbox::says(
                        "Snapshots for "@ + file + " (newest first):\n"@ + split::joined(
                            snapshot_lines(s),
                            "\n"@,
                        ) + "\n\nUse /revert "@ + file + " <n> to restore."@,
                    ),
                ),
                Some(w) => {
                    let n: nat = match number::parsed(w, usize::MAX as nat) {
                        Some(n) => n,
                        None => 0,
                    };
                    if n < 1 || n > s.len() {
                        Err(
                            outbox::warns(
                                "Invalid snapshot number (1–"@ + number::decimal(s.len())
                                    + ")."@,
                            ),
                        )
                    } else {
                        Ok(n - 1)
                    }
                },
            }
        },
    }
}

fn show_two(n: usize) -> (r: String)
    ensures
        r@ == two_places(n as nat),
{
    let s = show(n);
    pad_front(s.as_str(), 2)
}

fn show_snapshots(s: &Vec<Snapshot>) -> (r: String)
    ensures
        r@ == split::joined(snapshot_lines(split::views(s@)), "\n"@),
{
    let ghost all = snapshot_lines(split::views(s@));
    let mut lines: Vec<String> = Vec::new();
    let mut i: usize = 0;
    while i < s.len()
        invariant
            i <= s@.len(),
            all == snapshot_lines(split::views(s@)),
            split::texts(lines@) =~= all.take(i as int),
        decreases s@.len() - i,
    {
        let x = &s[i];
        let k = show_two(i + 1);
        let a = cat7(
            "  ",
            k.as_str(),
            ".  ",
            x.when.as_str(),
            "  [",
            x.tool.as_str(),
            "]  ",
        );
        lines.push(cat2(a.as_str(), x.size.as_str()));
        assert(all[i as int] == lines@.last()@);
        i += 1;
    }
    assert(all.take(i as int) =~= all);
    join(&lines, "\n")
}

impl Engine {
    /// /revert: the snapshot to restore, if one is; else the user is told why
    /// not, or shown the snapshots.
    pub fn cmd_revert(&self, c: &Command, s: &Vec<Snapshot>, out: &mut Outbox) -> (r: Option<
        usize,
    >)
        ensures
            match revert_of(c@, split::views(s@)) {
                Ok(k) => r == Some(k as usize) && 0 <= k < s@.len() && final(out)@ == old(out)@,
                Err(e) => r is None && final(out)@ == old(out)@.push(e),
            },
    {
        assert(split::views(s@).len() == s@.len());
        let file = match c.word(0) {
            None => {
                out.say("Usage: /revert <file> [n]  —  list snapshots or restore one");
                return None;
            },
            Some(f) => f,
        };
        if s.len() == 0 {
            out.sys(
                cat3(
                    "No snapshots for ",
                    file,
                    " — Marlin snapshots files before every AI edit.",
                ),
            );
            return None;
        }
        match c.word(1) {
            None => {
                let l = show_snapshots(s);
                out.sys(
                    cat7(
                        "Snapshots for ",
                        file,
                        " (newest first):\n",
                        l.as_str(),
                        "\n\nUse /revert ",
                        file,
                        " <n> to restore.",
                    ),
                );
                None
            },
            Some(w) => {
                let n: usize = match parse_usize(w) {
                    Some(n) => n,
                    None => 0,
                };
                if n < 1 || n > s.len() {
                    let k = show(s.len());
                    out.err(cat3("Invalid snapshot number (1–", k.as_str(), ")."));
                    None
                } else {
                    Some(n - 1)
                }
            },
        }
    }

    /// What restoring a snapshot came to.
    pub fn restored(
        &self,
        file: &str,
        s: &Snapshot,
        res: &Result<(), String>,
        out: &mut Outbox,
    )
        ensures
            final(out)@ == old(out)@.push(
                match res {
                    Ok(_) => outbox::says(
                        ("Restored "@ + file@ + " → snapshot from "@ + s@.when + " ("@ + s@.tool
                            + ", "@) + (s@.size + ")."@),
                    ),
                    Err(e) => outbox::warns("Restore failed: "@ + e@),
                },
            ),
    {
        match res {
            Ok(_) => {
                let a = cat7(
                    "Restored ",
                    file,
                    " → snapshot from ",
                    s.when.as_str(),
                    " (",
                    s.tool.as_str(),
                    ", ",
                );
                let b = cat2(s.size.as_str(), ").");
                out.sys(cat2(a.as_str(), b.as_str()));
            },
            Err(e) => out.err(cat2("Restore failed: ", e.as_str())),
        }
    }

    /// /diff-mode of a file without snapshots.
    pub fn nothing_to_compare(&self, path: &str, out: &mut Outbox)
        ensures
            final(out)@ == old(out)@.push(
                outbox::says(
                    "No snapshots for "@ + path@
                        + " yet — snapshots are taken automatically on write_file/edit_file, so there's nothing to diff against until it's been edited at least once."@,
                ),
            ),
    {
        out.sys(
            cat3(
                "No snapshots for ",
                path,
                " yet — snapshots are taken automatically on write_file/edit_file, so there's nothing to diff against until it's been edited at least once.",
            ),
        );
    }

    /// /diff-mode: the comparison, or why there is none.
    pub fn compared(&self, path: &str, res: Result<Vec<DiffLine>, String>, out: &mut Outbox)
        ensures
            final(out)@ == old(out)@.push(
                match res {
                    Ok(d) => EffectView::Send(
                        UiUpdateView::OpenDiff { path: path@, diff: split::views(d@) },
                    ),
                    Err(e) => outbox::warns(e@),
                },
            ),
    {
        match res {
            Ok(d) => out.send(UiUpdate::OpenDiff { path: path.to_string(), diff: d }),
            Err(e) => out.err(e),
        }
    }
}

// ── Sessions ────────────────────────────────────────────────────────────────

/// A saved conversation, with its summary as it is shown.
pub struct SavedSession {
    pub summary: String,
    pub project: String,
    pub messages: Vec<Message>,
}

/// The model of a saved conversation.
#[verifier::ext_equal]
pub struct SavedSessionView {
    pub summary: Seq<char>,
    pub project: Seq<char>,
    pub messages: Seq<MessageView>,
}

impl View for SavedSession {
    type V = SavedSessionView;

    open spec fn view(&self) -> SavedSessionView {
        SavedSessionView {
            summary: self.summary@,
            project: self.project@,
            messages: split::views(self.messages@),
        }
    }
}

/// How many saved conversations are listed.
pub const SESSIONS_LISTED: usize = 20;

/// The lines of the first of some saved conversations, numbered from 1.
pub open spec fn session_lines(s: Seq<SavedSessionView>) -> Seq<Seq<char>> {
    Seq::new(
        if s.len() > SESSIONS_LISTED {
            SESSIONS_LISTED as nat
        } else {
            s.len()
        },
        |i: int|
            "  "@ + two_places((i + 1) as nat) + ".  "@ + s[i].summary + "  ["@ + s[i].project
                + "]"@,
    )
}

/// The engine with a saved conversation taken up.
pub open spec fn resumed(e: EngineView, s: SavedSessionView) -> EngineView {
    EngineView { history: s.messages, ..e }
}

/// The chat display is filled with a conversation.
pub open spec fn loaded(ms: Seq<MessageView>) -> EffectView {
    EffectView::Send(UiUpdateView::HistoryLoaded(transcript::entries(ms)))
}

/// What /history does with the saved conversations: take one up, or say
/// something.
pub open spec fn history_of(c: CommandView, s: Seq<SavedSessionView>) -> Result<int, EffectView> {
    let listing = outbox::says(
        "Saved sessions (newest first):\n"@ + split::joined(session_lines(s), "\n"@)
            + "\n\nUse /history <n> to load, /history clear to delete all."@,
    );
    if s.len() == 0 {
        Err(outbox::says("No saved sessions."@))
    } else {
        match command::word(c, 0) {
            Some(w) => match number::parsed(w, usize::MAX as nat) {
                Some(n) => if 1 <= n <= s.len() {
                    Ok(n - 1)
                } else {
                    Err(
                        outbox::warns(
                            "Invalid session number (1–"@ + number::decimal(s.len()) + ")."@,
                        ),
                    )
                },
                None => Err(listing),
            },
            None => Err(listing),
        }
    }
}

fn show_sessions(s: &Vec<SavedSession>) -> (r: String)
    ensures
        r@ == split::joined(session_lines(split::views(s@)), "\n"@),
{
    let ghost all = session_lines(split::views(s@));
    let n: usize = if s.len() > SESSIONS_LISTED {
        SESSIONS_LISTED
    } else {
        s.len()
    };
    let mut lines: Vec<String> = Vec::new();
    let mut i: usize = 0;
    while i < n
        invariant
            i <= n <= s@.len(),
            all.len() == n,
            all == session_lines(split::views(s@)),
            split::texts(lines@) =~= all.take(i as int),
        decreases n - i,
    {
        let x = &s[i];
        let k = show_two(i + 1);
        lines.push(
            cat7("  ", k.as_str(), ".  ", x.summary.as_str(), "  [", x.project.as_str(), "]"),
        );
        assert(all[i as int] == lines@.last()@);
        i += 1;
    }
    assert(all.take(i as int) =~= all);
    join(&lines, "\n")
}

impl Engine {
    fn take_up(&mut self, s: &SavedSession, out: &mut Outbox)
        ensures
            final(self)@ == resumed(old(self)@, s@),
            final(out)@ == old(out)@.push(loaded(s@.messages)),
    {
        self.history = dup_all(&s.messages);
        let entries = history_entries(&self.history);
        out.send(UiUpdate::HistoryLoaded(entries));
    }

    /// /resume: takes up the newest of the saved conversations, if there is one.
    pub fn cmd_resume(&mut self, s: &Vec<SavedSession>, out: &mut Outbox)
        ensures
            s@.len() == 0 ==> final(self)@ == old(self)@ && final(out)@ == old(out)@.push(
                outbox::says("No saved sessions to resume."@),
            ),
            s@.len() > 0 ==> final(self)@ == resumed(old(self)@, s@[0]@) && final(out)@ == old(
                out,
            )@.push(loaded(s@[0]@.messages)).push(outbox::says("Resumed: "@ + s@[0]@.summary)),
    {
        if s.len() == 0 {
            out.say("No saved sessions to resume.");
        } else {
            self.take_up(&s[0], out);
            out.sys(cat2("Resumed: ", s[0].summary.as_str()));
        }
    }

    /// Whether /history is asked to delete the saved conversations.
    pub fn history_clears(&self, c: &Command) -> (r: bool)
        ensures
            r == (command::word(c@, 0) == Some("clear"@)),
    {
        match c.word(0) {
            Some(w) => same(w, "clear"),
            None => false,
        }
    }

    /// What deleting the saved conversations came to.
    pub fn history_cleared(&self, res: &Result<(), String>, out: &mut Outbox)
        ensures
            final(out)@ == old(out)@.push(
                match res {
                    Ok(_) => outbox::says("Session history cleared."@),
                    Err(e) => outbox::warns("Failed to clear sessions: "@ + e@),
                },
            ),
    {
        match res {
            Ok(_) => out.say("Session history cleared."),
            Err(e) => out.err(cat2("Failed to clear sessions: ", e.as_str())),
        }
    }

    /// /history: lists the saved conversations, or takes one up by its number.
    pub fn cmd_history(&mut self, c: &Command, s: &Vec<SavedSession>, out: &mut Outbox)
        ensures
            match history_of(c@, split::views(s@)) {
                Ok(k) => final(self)@ == resumed(old(self)@, split::views(s@)[k]) && final(out)@
                    == old(out)@.push(loaded(split::views(s@)[k].messages)).push(
                    outbox::says("Loaded: "@ + split::views(s@)[k].summary),
                ),
                Err(e) => final(self)@ == old(self)@ && final(out)@ == old(out)@.push(e),
            },
    {
        assert(split::views(s@).len() == s@.len());
        if s.len() == 0 {
            out.say("No saved sessions.");
            return;
        }
        let asked = match c.word(0) {
            Some(w) => parse_usize(w),
            None => None,
        };
        match asked {
            Some(n) => if n >= 1 && n <= s.len() {
                assert(split::views(s@)[n - 1] == s@[n - 1]@);
                self.take_up(&s[n - 1], out);
                out.sys(cat2("Loaded: ", s[n - 1].summary.as_str()));
            } else {
                let k = show(s.len());
                out.err(cat3("Invalid session number (1–", k.as_str(), ")."));
            },
            None => {
                let l = show_sessions(s);
                out.sys(
                    cat3(
                        "Saved sessions (newest first):\n",
                        l.as_str(),
                        "\n\nUse /history <n> to load, /history clear to delete all.",
                    ),
                );
            },
        }
    }
}

// ── Exporting ───────────────────────────────────────────────────────────────

/// What /export is asked for.
pub enum Export {
    Html(String),
    Json(String),
    /// Something that it cannot do.
    Unknown,
}

/// The model of what /export is asked for.
#[verifier::ext_equal]
pub enum ExportView {
    Html(Seq<char>),
    Json(Seq<char>),
    Unknown,
}

impl View for Export {
    type V = ExportView;

    open spec fn view(&self) -> ExportView {
        match self {
            Export::Html(p) => ExportView::Html(p@),
            Export::Json(p) => ExportView::Json(p@),
            Export::Unknown => ExportView::Unknown,
        }
    }
}

/// A path that ends in `ext`.
pub open spec fn ending_in(path: Seq<char>, ext: Seq<char>) -> Seq<char> {
    if ext.is_suffix_of(path) {
        path
    } else {
        path + ext
    }
}

/// What /export is asked for, with the path that it is written to.
pub open spec fn export_asked(c: CommandView) -> ExportView {
    let format = match command::word(c, 0) {
        Some(w) => w,
        None => "html"@,
    };
    let path = match command::word(c, 1) {
        Some(w) => w,
        None => "marlin_export"@,
    };
    if format == "html"@ {
        ExportView::Html(ending_in(path, ".html"@))
    } else if format == "json"@ {
        ExportView::Json(ending_in(path, ".json"@))
    } else {
        ExportView::Unknown
    }
}

fn end_in(path: &str, ext: &str) -> (r: String)
    ensures
        r@ == ending_in(path@, ext@),
{
    if ends_str(path, ext) {
        path.to_string()
    } else {
        cat2(path, ext)
    }
}

/// What /export is asked for.
pub fn ask_export(c: &Command) -> (r: Export)
    ensures
        r@ == export_asked(c@),
{
    let format = match c.word(0) {
        Some(w) => w,
        None => "html",
    };
    let path = match c.word(1) {
        Some(w) => w,
        None => "marlin_export",
    };
    if same(format, "html") {
        Export::Html(end_in(path, ".html"))
    } else if same(format, "json") {
        Export::Json(end_in(path, ".json"))
    } else {
        Export::Unknown
    }
}

impl Engine {
    /// /export with a format that it does not know.
    pub fn export_usage(&self, out: &mut Outbox)
        ensures
            final(out)@ == old(out)@.push(
                outbox::says("Usage: /export [html|json] [filename]"@),
            ),
    {
        out.say("Usage: /export [html|json] [filename]");
    }

    /// What writing the export came to.
    pub fn exported(&self, path: &str, res: &Result<(), String>, out: &mut Outbox)
        ensures
            final(out)@ == old(out)@.push(
                match res {
                    Ok(_) => outbox::says("Exported session to "@ + path@),
                    Err(e) => outbox::warns("Failed to write "@ + path@ + ": "@ + e@),
                },
            ),
    {
        match res {
            Ok(_) => out.sys(cat2("Exported session to ", path)),
            Err(e) => out.err(cat4("Failed to write ", path, ": ", e.as_str())),
        }
    }
}

// ── The index ───────────────────────────────────────────────────────────────

/// When an index was built, as it is shown.
pub open spec fn built_text(t: index::Timestamp) -> Seq<char> {
    match shown::minute_text(t.secs, t.nanos) {
        Some(s) => s,
        None => Seq::empty(),
    }
}

/// How an index stands.
pub open spec fn index_status(v: index::IndexView) -> Seq<char> {
    ("Index: "@ + number::decimal(v.file_count) + " files, "@ + number::decimal(v.term_count)
        + " terms, "@ + number::decimal(index::symbol_total(v.files)) + " symbols, built "@) + (
    built_text(v.built_at) + "."@)
}

fn count_symbols(idx: &Index) -> (r: usize)
    requires
        index::symbol_total(idx@.files) <= usize::MAX,
    ensures
        r == index::symbol_total(idx@.files),
{
    let ghost all = split::views(idx.files@);
    let mut n: usize = 0;
    let mut i: usize = 0;
    while i < idx.files.len()
        invariant
            i <= idx.files@.len(),
            all == split::views(idx.files@),
            n == index::symbol_total(all.take(i as int)),
            index::symbol_total(all) <= usize::MAX,
        decreases idx.files@.len() - i,
    {
        proof {
            assert(all[i as int] == idx.files@[i as int]@);
            assert(all.take(i + 1).drop_last() =~= all.take(i as int));
            assert(split::texts(idx.files@[i as int].symbols@).len()
                == idx.files@[i as int].symbols@.len());
            lemma_symbols_prefix(all, i + 1);
        }
        n = n + idx.files[i].symbols.len();
        i += 1;
    }
    assert(all.take(i as int) =~= all);
    n
}

proof fn lemma_symbols_prefix(fs: Seq<index::FileEntryView>, i: int)
    requires
        0 <= i <= fs.len(),
    ensures
        index::symbol_total(fs.take(i)) <= index::symbol_total(fs),
    decreases fs.len(),
{
    if i < fs.len() {
        lemma_symbols_prefix(fs.drop_last(), i);
        assert(fs.drop_last().take(i) =~= fs.take(i));
    } else {
        assert(fs.take(i) =~= fs);
    }
}

impl Engine {
    /// Whether /index is asked how the index stands.
    pub fn index_asks_status(&self, c: &Command) -> (r: bool)
        ensures
            r == (command::word(c@, 0) == Some("status"@)),
    {
        match c.word(0) {
            Some(w) => same(w, "status"),
            None => false,
        }
    }

    /// /index status
    pub fn index_status_shown(&self, idx: &Option<Index>, out: &mut Outbox)
        requires
            idx matches Some(i) ==> index::symbol_total(i@.files) <= usize::MAX,
        ensures
            final(out)@ == old(out)@.push(
                outbox::says(
                    match dup::opt_view(*idx) {
                        Some(v) => index_status(v),
                        None => "No index built. Run /index to build one."@,
                    },
                ),
            ),
    {
        match idx {
            Some(i) => {
                let f = show(i.file_count);
                let t = show(i.term_count);
                let s = show(count_symbols(i));
                let when = match show_minute(i.built_at.secs, i.built_at.nanos) {
                    Some(s) => s,
                    None => empty(),
                };
                let a = cat7(
                    "Index: ",
                    f.as_str(),
                    " files, ",
                    t.as_str(),
                    " terms, ",
                    s.as_str(),
                    " symbols, built ",
                );
                let b = cat2(when.as_str(), ".");
                out.sys(cat2(a.as_str(), b.as_str()));
            },
            None => out.say("No index built. Run /index to build one."),
        }
    }

    /// /index: the index is being built.
    pub fn index_begins(&self, out: &mut Outbox)
        ensures
            final(out)@ == old(out)@.push(
                outbox::says("Building index for "@ + self@.work_dir + "…"@),
            ),
    {
        out.sys(cat3("Building index for ", self.work_dir.as_str(), "…"));
    }

    /// /index: what building the index came to; None if it failed.
    pub fn index_built(&self, stats: &Option<BuildStats>, out: &mut Outbox)
        requires
            stats matches Some(s) ==> s.elapsed.nanos < 1_000_000_000,
        ensures
            final(out)@ == (match stats {
                Some(s) => old(out)@.push(EffectView::Send(UiUpdateView::IndexBuilt)).push(
                    outbox::says(
                        ("Index built: "@ + number::decimal(s.files as nat) + " files, "@
                            + number::decimal(s.terms as nat) + " terms, "@ + number::decimal(
                            s.symbols as nat,
                        ) + " symbols in "@) + (shown::span_text(
                            s.elapsed.secs,
                            s.elapsed.nanos,
                        ) + ". Use /search <query> or the AI will use it automatically."@),
                    ),
                ),
                None => old(out)@.push(outbox::warns("Index build failed"@)),
            }),
    {
        match stats {
            Some(s) => {
                out.send(UiUpdate::IndexBuilt);
                let f = show(s.files);
                let t = show(s.terms);
                let y = show(s.symbols);
                let d = show_span(s.elapsed.secs, s.elapsed.nanos);
                let a = cat7(
                    "Index built: ",
                    f.as_str(),
                    " files, ",
                    t.as_str(),
                    " terms, ",
                    y.as_str(),
                    " symbols in ",
                );
                let b = cat2(
                    d.as_str(),
                    ". Use /search <query> or the AI will use it automatically.",
                );
                out.sys(cat2(a.as_str(), b.as_str()));
            },
            None => out.warn("Index build failed"),
        }
    }

    /// /search: whether there is something to search for, and an index.
    pub fn search_begins(&self, c: &Command, indexed: bool, out: &mut Outbox) -> (r: bool)
        ensures
            r == (c@.rest.len() > 0 && indexed),
            final(out)@ == (if c@.rest.len() == 0 {
                old(out)@.push(outbox::says("Usage: /search <query>"@))
            } else if !indexed {
                old(out)@.push(outbox::warns("No index. Run /index first."@))
            } else {
                old(out)@
            }),
    {
        if c.rest.as_str().is_empty() {
            out.say("Usage: /search <query>");
            false
        } else if !indexed {
            out.warn("No index. Run /index first.");
            false
        } else {
            true
        }
    }

    /// /search: the results.
    pub fn search_shown(&self, c: &Command, results: &Vec<SearchResult>, out: &mut Outbox)
        ensures
            final(out)@ == old(out)@.push(
                outbox::says(search::results_text(split::views(results@), c@.rest)),
            ),
    {
        out.sys(search::format_results(results, c.rest.as_str()));
    }
}

/// How many results /search shows.
pub const SEARCH_SHOWN: usize = 8;

// ── Laws of files ───────────────────────────────────────────────────────────

/// What is detached goes, all of it, and what else is attached stays, in its order.
pub proof fn law_detached(s: Seq<AttachmentView>, t: Seq<ImageAttachmentView>, x: Seq<char>)
    ensures
        files_without(s, x) == s.filter(|a: AttachmentView| a.path != x),
        images_without(t, x) == t.filter(|a: ImageAttachmentView| a.path != x),
        files_but(s, x) == s.filter(|a: AttachmentView| !is_meant(a.path, x)),
        images_but(t, x) == t.filter(|a: ImageAttachmentView| !is_meant(a.path, x)),
{
    lemma_files(s, x);
    lemma_images(t, x);
}

proof fn lemma_files(s: Seq<AttachmentView>, x: Seq<char>)
    ensures
        files_without(s, x) == s.filter(|a: AttachmentView| a.path != x),
        files_but(s, x) == s.filter(|a: AttachmentView| !is_meant(a.path, x)),
    decreases s.len(),
{
    reveal(Seq::filter);
    if s.len() > 0 {
        lemma_files(s.drop_last(), x);
    }
}

proof fn lemma_images(s: Seq<ImageAttachmentView>, x: Seq<char>)
    ensures
        images_without(s, x) == s.filter(|a: ImageAttachmentView| a.path != x),
        images_but(s, x) == s.filter(|a: ImageAttachmentView| !is_meant(a.path, x)),
    decreases s.len(),
{
    reveal(Seq::filter);
    if s.len() > 0 {
        lemma_images(s.drop_last(), x);
    }
}

/// A file is meant by its whole path or by its name.
pub proof fn law_is_meant(dir: Seq<char>, name: Seq<char>, other: Seq<char>)
    requires
        name.len() > 0,
        forall|i: int| 0 <= i < name.len() ==> #[trigger] name[i] != '/',
        name != "."@,
        name != ".."@,
    ensures
        is_meant(dir + "/"@ + name, name),
        is_meant(dir + "/"@ + name, dir + "/"@ + name),
        other != name && other != dir + "/"@ + name ==> !is_meant(dir + "/"@ + name, other),
{
    paths::law_name_in_directory(dir, name);
}

/// Each attachment has its line, under its path: files first, then images.
pub proof fn law_attached_lines(e: EngineView, i: int)
    ensures
        attached_lines(e).len() == e.attachments.len() + e.image_attachments.len(),
        0 <= i < e.attachments.len() ==> e.attachments[i].path.is_prefix_of(attached_lines(e)[i]),
        0 <= i < e.image_attachments.len() ==> attached_lines(e)[e.attachments.len() + i]
            == e.image_attachments[i].path + " (image)"@,
{
    if 0 <= i < e.attachments.len() {
        let p = e.attachments[i].path;
        let l = attached_lines(e)[i];
        assert(l.subrange(0, p.len() as int) =~= p);
    }
}

/// The first word of a command line is what stands before its first whitespace.
pub proof fn law_first_word(w: Seq<char>, c: char, b: Seq<char>)
    requires
        w.len() > 0,
        forall|i: int| 0 <= i < w.len() ==> !text::char_whitespace(#[trigger] w[i]),
        text::char_whitespace(c),
    ensures
        first_word(w) == w,
        first_word(w.push(c) + b) == w,
{
    split::law_one_word(w);
    split::law_words_of_two_texts(w, c, b);
}

/// Outside of a sandbox, a command that is not allowed does not run, unless
/// permissions are skipped.
pub proof fn law_may_run(e: EngineView)
    ensures
        may_run(e, true),
        may_run(e, false) <==> e.cfg.skip_permissions || e.cfg.sandbox_mode
            == SandboxMode::Permissive || e.cfg.sandbox_mode == SandboxMode::Mxc
            || e.cfg.sandbox_mode == SandboxMode::Docker,
{
}

/// A directory is listed with a slash behind its name and a file without, in their
/// order.
pub proof fn law_entry_names(es: Seq<DirEntryView>, i: int)
    requires
        0 <= i < es.len(),
    ensures
        entry_names(es).len() == es.len(),
        es[i].is_dir ==> entry_names(es)[i] == es[i].name.push('/'),
        !es[i].is_dir ==> entry_names(es)[i] == es[i].name,
{
    reveal_strlit("/");
    assert(es[i].name + "/"@ =~= es[i].name.push('/'));
}

/// A file that is not there is a new one to the editor and a failure to the viewer;
/// one that can be read is shown as it is in both.
pub proof fn law_opened(path: Seq<char>, s: String, e: ReadError)
    ensures
        edit_of(path, Ok(s)) == view_of(path, Ok(s)),
        view_of(path, Ok(s)) == OpenedView::File(ui::FileTextView { path, content: s@ }),
        view_of(path, Err(e)) is Failed,
        edit_of(path, Err(e)) is Failed <==> !e.missing,
        e.missing ==> (edit_of(path, Err(e)) matches OpenedView::File(f) && f.path == path
            && f.content.len() == 0),
{
}

/// After a move the engine, its settings and its session are in the new directory,
/// and a session goes by the new directory's name.
pub proof fn law_moved(
    e: EngineView,
    dir: Seq<char>,
    name: Seq<char>,
    p: Option<config::ProjectConfigView>,
)
    requires
        name.len() > 0,
        forall|i: int| 0 <= i < name.len() ==> #[trigger] name[i] != '/',
        name != "."@,
        name != ".."@,
    ensures
        ({
            let to = dir + "/"@ + name;
            let m = moved_to(e, to, p);
            &&& m.work_dir == to
            &&& m.cfg.work_dir == to
            &&& m.session is Some <==> e.session is Some
            &&& m.session matches Some(s) ==> s.project == name && s.work_dir == to
            &&& m.history == e.history
        }),
{
    engine::law_project(dir, name);
}

/// A snapshot is chosen by its number, counted from 1; a number beyond the list, 0
/// and anything else that is no number choose none.
pub proof fn law_revert(c: CommandView, file: Seq<char>, s: Seq<SnapshotView>, n: nat)
    requires
        c.args == seq![file, number::decimal(n)],
        s.len() <= usize::MAX,
    ensures
        1 <= n <= s.len() ==> revert_of(c, s) == Ok::<int, EffectView>(n - 1),
        n < 1 || n > s.len() ==> revert_of(c, s) is Err,
        revert_of((CommandView { args: seq![file], ..c }), s) is Err,
        revert_of((CommandView { args: Seq::empty(), ..c }), s) is Err,
        revert_of(c, Seq::empty()) is Err,
{
    number::law_decimal_reads_back(n, usize::MAX as nat);
    assert(command::word(c, 1) == Some(number::decimal(n)));
    assert(command::word(c, 0) == Some(file));
}

/// A session is chosen by its number, counted from 1; a number beyond the list and 0
/// choose none, nor does anything else.
pub proof fn law_history(c: CommandView, s: Seq<SavedSessionView>, n: nat)
    requires
        c.args == seq![number::decimal(n)],
        s.len() <= usize::MAX,
    ensures
        1 <= n <= s.len() ==> history_of(c, s) == Ok::<int, EffectView>(n - 1),
        n < 1 || n > s.len() ==> history_of(c, s) is Err,
        history_of((CommandView { args: Seq::empty(), ..c }), s) is Err,
{
    number::law_decimal_reads_back(n, usize::MAX as nat);
    assert(command::word(c, 0) == Some(number::decimal(n)));
}

/// Snapshots and sessions are listed one a line with their numbers, counted from 1;
/// of the sessions at most the first twenty.
pub proof fn law_numbered_lines(a: Seq<SnapshotView>, b: Seq<SavedSessionView>, i: int)
    ensures
        snapshot_lines(a).len() == a.len(),
        session_lines(b).len() == (if b.len() > 20 {
            20
        } else {
            b.len()
        }),
        0 <= i < a.len() ==> text::occurs(snapshot_lines(a)[i], number::decimal((i + 1) as nat))
            && text::occurs(snapshot_lines(a)[i], a[i].when) && text::occurs(
            snapshot_lines(a)[i],
            a[i].size,
        ),
        0 <= i < session_lines(b).len() ==> text::occurs(
            session_lines(b)[i],
            number::decimal((i + 1) as nat),
        ) && text::occurs(session_lines(b)[i], b[i].summary) && text::occurs(
            session_lines(b)[i],
            b[i].project,
        ),
{
    let none = Seq::<char>::empty();
    if 0 <= i < a.len() {
        let d = number::decimal((i + 1) as nat);
        let s = a[i];
        let l = snapshot_lines(a)[i];
        let p = two_places((i + 1) as nat);
        let front = p.take(p.len() - d.len());
        number::law_padded(d, 2);
        assert(p =~= front + d);
        let x = "  "@ + front;
        let y = ".  "@ + s.when + "  ["@ + s.tool + "]  "@ + s.size;
        assert(l =~= x + d + y);
        text::law_occurs_in_middle(x, d, y);
        let u = "  "@ + p + ".  "@;
        let v = "  ["@ + s.tool + "]  "@ + s.size;
        assert(l =~= u + s.when + v);
        text::law_occurs_in_middle(u, s.when, v);
        let w = "  "@ + p + ".  "@ + s.when + "  ["@ + s.tool + "]  "@;
        assert(l =~= w + s.size + none);
        text::law_occurs_in_middle(w, s.size, none);
    }
    if 0 <= i < session_lines(b).len() {
        let d = number::decimal((i + 1) as nat);
        let s = b[i];
        let l = session_lines(b)[i];
        let p = two_places((i + 1) as nat);
        let front = p.take(p.len() - d.len());
        number::law_padded(d, 2);
        assert(p =~= front + d);
        let x = "  "@ + front;
        let y = ".  "@ + s.summary + "  ["@ + s.project + "]"@;
        assert(l =~= x + d + y);
        text::law_occurs_in_middle(x, d, y);
        let u = "  "@ + p + ".  "@;
        let v = "  ["@ + s.project + "]"@;
        assert(l =~= u + s.summary + v);
        text::law_occurs_in_middle(u, s.summary, v);
        let w = "  "@ + p + ".  "@ + s.summary + "  ["@;
        assert(l =~= w + s.project + "]"@);
        text::law_occurs_in_middle(w, s.project, "]"@);
    }
}

/// A path gets an ending exactly if it does not have it already.
pub proof fn law_ending(path: Seq<char>, ext: Seq<char>)
    ensures
        ext.is_suffix_of(ending_in(path, ext)),
        path.is_prefix_of(ending_in(path, ext)),
        ending_in(path + ext, ext) == path + ext,
        ending_in(ending_in(path, ext), ext) == ending_in(path, ext),
        ending_in(path, ext) == path || ending_in(path, ext) == path + ext,
{
    let p = path + ext;
    assert(p.subrange(p.len() - ext.len(), p.len() as int) =~= ext);
    assert(p.subrange(0, path.len() as int) =~= path);
    assert(path.subrange(0, path.len() as int) =~= path);
}

/// A conversation is exported as a page unless asked otherwise, under the name that
/// was given, with the ending of its format.
pub proof fn law_export(c: CommandView, name: Seq<char>)
    ensures
        export_asked((CommandView { args: seq!["html"@, name + ".html"@], ..c }))
            == ExportView::Html(name + ".html"@),
        export_asked((CommandView { args: seq!["json"@, name + ".json"@], ..c }))
            == ExportView::Json(name + ".json"@),
        export_asked((CommandView { args: Seq::empty(), ..c })) is Html,
        export_asked((CommandView { args: seq!["json"@], ..c })) is Json,
{
    law_ending(name, ".html"@);
    law_ending(name, ".json"@);
    reveal_strlit("html");
    reveal_strlit("json");
    assert("html"@[0] == 'h' && "json"@[0] == 'j');
}

/// The engine with a file attached.
pub open spec fn with_file(e: EngineView, path: Seq<char>, content: Seq<char>) -> EngineView {
    EngineView {
        attachments: files_without(e.attachments, path).push(AttachmentView { path, content }),
        ..e
    }
}

/// The engine after `/detach`.
pub open spec fn after_detach(e: EngineView, c: CommandView) -> EngineView {
    match command::word(c, 0) {
        None => EngineView { attachments: Seq::empty(), image_attachments: Seq::empty(), ..e },
        Some(n) => EngineView {
            attachments: files_but(e.attachments, n),
            image_attachments: images_but(e.image_attachments, n),
            ..e
        },
    }
}

/// An attached file stands last with its content, and once: an older one at its path
/// goes. Detaching it by its path takes it off again, and detaching all takes off
/// everything.
pub proof fn law_attached(
    e: EngineView,
    c: CommandView,
    path: Seq<char>,
    content: Seq<char>,
    k: int,
)
    ensures
        with_file(e, path, content).attachments.last().path == path,
        with_file(e, path, content).attachments.last().content == content,
        0 <= k < with_file(e, path, content).attachments.len() - 1 ==> with_file(
            e,
            path,
            content,
        ).attachments[k].path != path,
        with_file(e, path, content).image_attachments == e.image_attachments,
        0 <= k < after_detach(
            with_file(e, path, content),
            CommandView { args: seq![path], ..c },
        ).attachments.len() ==> after_detach(
            with_file(e, path, content),
            CommandView { args: seq![path], ..c },
        ).attachments[k].path != path,
        after_detach(e, CommandView { args: Seq::empty(), ..c }).attachments.len() == 0,
        after_detach(e, CommandView { args: Seq::empty(), ..c }).image_attachments.len() == 0,
{
    let w = with_file(e, path, content);
    let p = |a: AttachmentView| a.path != path;
    let q = |a: AttachmentView| !is_meant(a.path, path);
    law_detached(e.attachments, e.image_attachments, path);
    law_detached(w.attachments, w.image_attachments, path);
    if 0 <= k < w.attachments.len() - 1 {
        assert(w.attachments[k] == e.attachments.filter(p)[k]);
        e.attachments.lemma_filter_pred(p, k);
        assert(p(e.attachments.filter(p)[k]));
    }
    let d = after_detach(w, CommandView { args: seq![path], ..c });
    assert(command::word((CommandView { args: seq![path], ..c }), 0) == Some(path));
    if 0 <= k < d.attachments.len() {
        assert(d.attachments[k] == w.attachments.filter(q)[k]);
        w.attachments.lemma_filter_pred(q, k);
        assert(q(w.attachments.filter(q)[k]));
    }
}

/// A session that is taken up brings its messages and nothing else.
pub proof fn law_resumed(e: EngineView, s: SavedSessionView)
    ensures
        resumed(e, s).history == s.messages,
        resumed(e, s).cfg == e.cfg,
        resumed(e, s).work_dir == e.work_dir,
        loaded(s.messages) == EffectView::Send(
            UiUpdateView::HistoryLoaded(transcript::entries(s.messages)),
        ),
{
}

/// The status of the index tells its numbers of files, terms and names, in this
/// order.
pub proof fn law_index_status(v: index::IndexView)
    ensures
        text::occurs(
            index_status(v),
            "Index: "@ + number::decimal(v.file_count) + " files, "@,
        ),
        text::occurs(index_status(v), " files, "@ + number::decimal(v.term_count) + " terms, "@),
        text::occurs(
            index_status(v),
            " terms, "@ + number::decimal(index::symbol_total(v.files)) + " symbols, built "@,
        ),
{
    lemma_status(
        "Index: "@,
        number::decimal(v.file_count),
        " files, "@,
        number::decimal(v.term_count),
        " terms, "@,
        number::decimal(index::symbol_total(v.files)),
        " symbols, built "@,
        built_text(v.built_at) + "."@,
    );
}

proof fn lemma_status(
    a: Seq<char>,
    b: Seq<char>,
    c: Seq<char>,
    d: Seq<char>,
    e: Seq<char>,
    f: Seq<char>,
    g: Seq<char>,
    h: Seq<char>,
)
    ensures
        text::occurs((a + b + c + d + e + f + g) + h, a + b + c),
        text::occurs((a + b + c + d + e + f + g) + h, c + d + e),
        text::occurs((a + b + c + d + e + f + g) + h, e + f + g),
{
    let s = (a + b + c + d + e + f + g) + h;
    let none = Seq::<char>::empty();
    assert(s =~= none + (a + b + c) + (d + e + f + g + h));
    text::law_occurs_in_middle(none, a + b + c, d + e + f + g + h);
    assert(s =~= (a + b) + (c + d + e) + (f + g + h));
    text::law_occurs_in_middle(a + b, c + d + e, f + g + h);
    assert(s =~= (a + b + c + d) + (e + f + g) + h);
    text::law_occurs_in_middle(a + b + c + d, e + f + g, h);
}

} // verus!
