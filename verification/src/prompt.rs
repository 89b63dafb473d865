//! What is sent to the model: the system prompt and the user's message.

use crate::config;
use crate::engine::{
    Attachment, AttachmentView, Engine, EngineView, ImageAttachment, ImageAttachmentView,
    SkillInfoView,
};
use crate::message::{Image, ImageView, Message, MessageView};
use crate::number::{self, show};
use crate::paths::{self, extension};
use crate::split;
use crate::text::{self, cat2, cat7, empty};
use crate::ui::{AstMode, Named, NamedView};
use vstd::prelude::*;
use vstd::string::*;

verus! {

broadcast use {split::lemma_texts_push, split::lemma_views_push};

// ── The system prompt ───────────────────────────────────────────────────────

/// Who the model is and how it is to act.
pub const INTRO: &'static str = "You are Marlin, an AI coding assistant running in a terminal.\nYou help the user write, debug, and understand code.\n\nWhen asked to create a file, write code, edit something, or run a command — DO IT with the appropriate tool. Do not explain how the user could do it themselves. Do not ask for confirmation before using tools. Just act.\n\n";

/// How the model is to work on its goal.
pub const GOAL_RULES: &'static str = "\nWork toward this goal using tools. Keep calling tools until the task is fully complete.\nWhen — and only when — every part of the goal is actually done, call the mark_complete tool (alone, with no other tool calls in that turn) with a short summary. Do not just say you're done or describe what you're about to do in plain text and stop; if you catch yourself writing \"let me now...\" or \"I'll...\", make that tool call instead. Plain text with no tool call is only for asking the user a question or reporting you're permanently blocked.\n";

/// How files read as S-expressions.
pub const SEXPR_RULES: &'static str = "\n## AST Context Mode: SEXPR\nFile reads are delivered as compact S-expression AST representations produced by `ast-compiler decompile --format sexpr`, not raw source text.\nThe root token is `(meta ...)` followed by the recursive node tree.\nParse the tree structurally when reasoning about code. When you need to write changes, use write_file or edit_file with reconstructed source text.\n";

/// How the syntax tree tools are used.
pub const HARNESS_RULES: &'static str = "\n## AST Context Mode: HARNESS\nYou have three specialized AST tools available. Prefer them over read_file/edit_file for all code understanding and mutation:\n  ast_skeleton  <file>                  — API surface map (signatures, no bodies). Always start here.\n  ast_get_node  <file> <node_id>        — Full JSON for one node. Use after skeleton to inspect a target.\n  ast_mutate    <file> <node_id> <op>   — Structural edit + automatic recompile + optimize.\n\nCRITICAL RULES:\n  1. Do NOT use edit_file for code mutations — use ast_mutate instead.\n  2. ast_mutate operations are: str-replace (old_json/new_json), append-stmt (statement_json), insert-before (index/statement_json).\n  3. Always supply lang and source_file to ast_mutate so the source is regenerated deterministically.\n  4. JSON values in node directives must be valid JSON, not source-code strings.\n";

/// The part on the active goal; none without one.
pub open spec fn goal_part(goal: Seq<char>, iterations: nat) -> Seq<char> {
    if goal.len() > 0 {
        "## Active Goal\n"@ + goal + "\n"@ + GOAL_RULES@ + "Progress so far: "@ + number::decimal(
            iterations,
        ) + " tool calls made.\n"@
    } else {
        Seq::empty()
    }
}

/// A part of instructions under a heading; none where it is empty.
pub open spec fn instructions(head: Seq<char>, s: Seq<char>) -> Seq<char> {
    if s.len() > 0 {
        head + s
    } else {
        Seq::empty()
    }
}

/// The part on how files are read.
pub open spec fn ast_part(m: AstMode) -> Seq<char> {
    match m {
        AstMode::Off => Seq::empty(),
        AstMode::SExpr => SEXPR_RULES@,
        AstMode::Harness => HARNESS_RULES@,
    }
}

/// The system prompt: who the model is, where it works, its goal, the user's
/// instructions, those for the provider, and how files are read.
pub open spec fn system_prompt_of(e: EngineView) -> Seq<char> {
    INTRO@ + "Working directory: "@ + e.work_dir + "\n\n"@ + goal_part(
        e.active_goal,
        e.tool_iterations as nat,
    ) + instructions("\nAdditional instructions:\n"@, e.cfg.system_prompt) + (instructions(
        "\nProvider-specific instructions:\n"@,
        config::prompt_of(e.cfg.provider_system_prompts, e.cfg.active_provider),
    ) + ast_part(e.ast_mode))
}

fn show_instructions(head: &str, s: &str) -> (r: String)
    ensures
        r@ == instructions(head@, s@),
{
    if s.is_empty() {
        empty()
    } else {
        cat2(head, s)
    }
}

// ── The user's message ──────────────────────────────────────────────────────

/// An attached file as it stands in a message.
pub open spec fn attached(a: AttachmentView) -> Seq<char> {
    "File: "@ + a.path + "\n```"@ + paths::path_extension(a.path) + "\n"@ + a.content
        + "\n```\n\n"@
}

/// Some attached files as they stand in a message.
pub open spec fn all_attached(s: Seq<AttachmentView>) -> Seq<char>
    decreases s.len(),
{
    if s.len() == 0 {
        Seq::empty()
    } else {
        all_attached(s.drop_last()) + attached(s.last())
    }
}

/// The text of a message: the attached files, then what the user wrote.
pub open spec fn content_of(s: Seq<AttachmentView>, t: Seq<char>) -> Seq<char> {
    if s.len() == 0 {
        t
    } else {
        all_attached(s) + t
    }
}

/// The images of a message.
pub open spec fn images_of(s: Seq<ImageAttachmentView>) -> Seq<ImageView> {
    s.map_values(|a: ImageAttachmentView| ImageView { mime: a.mime, data: a.data })
}

/// The user's message with everything attached to it.
pub open spec fn message_of(e: EngineView, t: Seq<char>) -> MessageView {
    MessageView {
        role: "user"@,
        content: content_of(e.attachments, t),
        tool_calls: Seq::empty(),
        tool_use_id: Seq::empty(),
        tool_call_id: Seq::empty(),
        images: images_of(e.image_attachments),
        is_error: false,
    }
}

/// The engine with nothing attached to the next message.
pub open spec fn detached(e: EngineView) -> EngineView {
    EngineView { attachments: Seq::empty(), image_attachments: Seq::empty(), ..e }
}

fn show_attached(s: &Vec<Attachment>) -> (r: String)
    ensures
        r@ == all_attached(split::views(s@)),
{
    let ghost all = split::views(s@);
    let mut out = empty();
    let mut i: usize = 0;
    assert(all_attached(all.take(0)) =~= Seq::<char>::empty());
    while i < s.len()
        invariant
            i <= s@.len(),
            all == split::views(s@),
            out@ == all_attached(all.take(i as int)),
        decreases s@.len() - i,
    {
        let a = &s[i];
        assert(all[i as int] == a@);
        assert(all.take(i + 1).drop_last() =~= all.take(i as int));
        let ext = extension(a.path.as_str());
        let t = cat7(
            "File: ",
            a.path.as_str(),
            "\n```",
            ext.as_str(),
            "\n",
            a.content.as_str(),
            "\n```\n\n",
        );
        out.append(t.as_str());
        i += 1;
    }
    assert(all.take(i as int) =~= all);
    out
}

fn collect_images(s: &Vec<ImageAttachment>) -> (r: Vec<Image>)
    ensures
        split::views(r@) == images_of(split::views(s@)),
{
    let ghost all = images_of(split::views(s@));
    let mut out: Vec<Image> = Vec::new();
    let mut i: usize = 0;
    while i < s.len()
        invariant
            i <= s@.len(),
            all == images_of(split::views(s@)),
            split::views(out@) =~= all.take(i as int),
        decreases s@.len() - i,
    {
        let a = &s[i];
        out.push(
            Image { mime: a.mime.as_str().to_string(), data: a.data.as_str().to_string() },
        );
        assert(all[i as int] == out@.last()@);
        i += 1;
    }
    out
}

// ── Skills on offer ─────────────────────────────────────────────────────────

/// The skills that the model is told of: those that fit, or, where none does,
/// all of them by name alone.
pub open spec fn offered(ss: Seq<SkillInfoView>, fitting: Seq<NamedView>) -> Seq<NamedView> {
    if fitting.len() == 0 {
        ss.map_values(|s: SkillInfoView| NamedView { name: s.name, description: Seq::empty() })
    } else {
        fitting
    }
}

impl Engine {
    /// The system prompt of the next request.
    pub fn effective_system_prompt(&self) -> (r: String)
        ensures
            r@ == system_prompt_of(self@),
    {
        let goal = if self.active_goal.as_str().is_empty() {
            empty()
        } else {
            let n = show(self.tool_iterations);
            cat7(
                "## Active Goal\n",
                self.active_goal.as_str(),
                "\n",
                GOAL_RULES,
                "Progress so far: ",
                n.as_str(),
                " tool calls made.\n",
            )
        };
        let own = show_instructions(
            "\nAdditional instructions:\n",
            self.cfg.system_prompt.as_str(),
        );
        let p = config::find_prompt(
            &self.cfg.provider_system_prompts,
            self.cfg.active_provider.as_str(),
        );
        let theirs = show_instructions("\nProvider-specific instructions:\n", p.as_str());
        let ast = match self.ast_mode {
            AstMode::Off => empty(),
            AstMode::SExpr => SEXPR_RULES.to_string(),
            AstMode::Harness => HARNESS_RULES.to_string(),
        };
        let last = cat2(theirs.as_str(), ast.as_str());
        cat7(
            INTRO,
            "Working directory: ",
            self.work_dir.as_str(),
            "\n\n",
            goal.as_str(),
            own.as_str(),
            last.as_str(),
        )
    }

    /// The text of a message with the attached files before it.
    pub fn build_message_content(&self, t: &str) -> (r: String)
        ensures
            r@ == content_of(self@.attachments, t@),
    {
        assert(split::views(self.attachments@).len() == self.attachments@.len());
        if self.attachments.len() == 0 {
            t.to_string()
        } else {
            let a = show_attached(&self.attachments);
            cat2(a.as_str(), t)
        }
    }

    /// Makes the user's message of a text and everything attached, which is
    /// then no longer attached.
    pub fn take_attachments(&mut self, t: &str) -> (r: Message)
        ensures
            r@ == message_of(old(self)@, t@),
            final(self)@ == detached(old(self)@),
    {
        let content = self.build_message_content(t);
        let images = collect_images(&self.image_attachments);
        let mut m = Message::new_user(content);
        m.images = images;
        self.attachments = Vec::new();
        self.image_attachments = Vec::new();
        proof {
            assert(split::views(self.attachments@) =~= Seq::<AttachmentView>::empty());
            assert(split::views(self.image_attachments@) =~= Seq::<ImageAttachmentView>::empty());
        }
        m
    }

    /// The skills that the model is told of, given those that fit the request.
    pub fn skill_tool_list(&self, fitting: Vec<Named>) -> (r: Vec<Named>)
        ensures
            split::views(r@) == offered(self@.skills, split::views(fitting@)),
    {
        assert(split::views(fitting@).len() == fitting@.len());
        if fitting.len() > 0 {
            return fitting;
        }
        let ghost all = offered(self@.skills, split::views(fitting@));
        let mut out: Vec<Named> = Vec::new();
        let mut i: usize = 0;
        while i < self.skills.len()
            invariant
                i <= self.skills@.len(),
                all == self@.skills.map_values(
                    |s: SkillInfoView| NamedView { name: s.name, description: Seq::empty() },
                ),
                split::views(out@) =~= all.take(i as int),
            decreases self.skills@.len() - i,
        {
            out.push(
                Named { name: self.skills[i].name.as_str().to_string(), description: empty() },
            );
            assert(all[i as int] == out@.last()@);
            i += 1;
        }
        out
    }
}

// ── Laws of what is sent ────────────────────────────────────────────────────

proof fn lemma_all_attached(s: Seq<AttachmentView>, t: Seq<AttachmentView>)
    ensures
        all_attached(s + t) == all_attached(s) + all_attached(t),
    decreases t.len(),
{
    if t.len() == 0 {
        assert(s + t =~= s);
        assert(all_attached(s) + all_attached(t) =~= all_attached(s));
    } else {
        lemma_all_attached(s, t.drop_last());
        assert((s + t).drop_last() =~= s + t.drop_last());
        assert(all_attached(s + t) =~= all_attached(s) + all_attached(t));
    }
}

/// What is attached first stands first: the text of a message with two lists of
/// files is that of the first list before that of the second. Without files it is
/// what the user wrote.
pub proof fn law_files_stand_in_order(
    s: Seq<AttachmentView>,
    t: Seq<AttachmentView>,
    x: Seq<char>,
)
    ensures
        content_of(s + t, x) == content_of(s, content_of(t, x)),
        content_of(Seq::empty(), x) == x,
{
    lemma_all_attached(s, t);
    if s.len() == 0 {
        assert(s + t =~= t);
    } else if t.len() == 0 {
        assert(s + t =~= s);
    } else {
        assert(content_of(s + t, x) =~= content_of(s, content_of(t, x)));
    }
}

/// A file stands in a message under its path, as a block of code in the language
/// of its extension, with its whole content, before what the user wrote.
pub proof fn law_file_stands_whole(a: AttachmentView, x: Seq<char>)
    ensures
        content_of(seq![a], x) == "File: "@ + a.path + "\n```"@ + paths::path_extension(a.path)
            + "\n"@ + a.content + "\n```\n\n"@ + x,
{
    let one = seq![a];
    let none = Seq::<AttachmentView>::empty();
    assert(one.drop_last() =~= none);
    assert(all_attached(none) =~= Seq::<char>::empty());
    assert(all_attached(one) =~= attached(a));
}

/// The content of every attached file occurs in the message, and so does what the
/// user wrote, at the end.
pub proof fn law_nothing_attached_is_lost(s: Seq<AttachmentView>, x: Seq<char>, i: int)
    requires
        0 <= i < s.len(),
    ensures
        text::occurs(content_of(s, x), s[i].content),
        text::occurs(content_of(s, x), s[i].path),
        x.is_suffix_of(content_of(s, x)),
{
    let before = s.take(i);
    let after = s.skip(i + 1);
    let one = seq![s[i]];
    assert(s =~= before + (one + after));
    law_files_stand_in_order(before, one + after, x);
    law_files_stand_in_order(one, after, x);
    let rest = content_of(after, x);
    let inner = content_of(one, rest);
    let a = s[i];
    law_file_stands_whole(a, rest);
    lemma_block_holds(
        "File: "@,
        a.path,
        "\n```"@ + paths::path_extension(a.path) + "\n"@,
        a.content,
        "\n```\n\n"@ + rest,
    );
    assert(inner =~= "File: "@ + a.path + ("\n```"@ + paths::path_extension(a.path) + "\n"@)
        + a.content + ("\n```\n\n"@ + rest));
    let none = Seq::<char>::empty();
    let lead = if before.len() == 0 {
        none
    } else {
        all_attached(before)
    };
    let whole = content_of(s, x);
    assert(whole =~= lead + inner + none);
    text::law_occurs_within(lead, inner, none, a.content);
    text::law_occurs_within(lead, inner, none, a.path);
    lemma_words_at_end(s, x);
}

proof fn lemma_words_at_end(s: Seq<AttachmentView>, x: Seq<char>)
    ensures
        x.is_suffix_of(content_of(s, x)),
{
    let whole = content_of(s, x);
    assert(whole.subrange(whole.len() - x.len(), whole.len() as int) =~= x);
}

proof fn lemma_block_holds(
    a: Seq<char>,
    b: Seq<char>,
    c: Seq<char>,
    d: Seq<char>,
    e: Seq<char>,
)
    ensures
        text::occurs(a + b + c + d + e, b),
        text::occurs(a + b + c + d + e, d),
{
    text::law_occurs_in_middle(a, b, c + d + e);
    text::law_occurs_in_middle(a + b + c, d, e);
    assert(a + b + (c + d + e) =~= a + b + c + d + e);
}

/// Every attached image goes with the message, in order.
pub proof fn law_images_go_along(e: EngineView, t: Seq<char>, i: int)
    requires
        0 <= i < e.image_attachments.len(),
    ensures
        message_of(e, t).images.len() == e.image_attachments.len(),
        message_of(e, t).images[i].mime == e.image_attachments[i].mime,
        message_of(e, t).images[i].data == e.image_attachments[i].data,
        message_of(e, t).role == "user"@,
{
}

/// The system prompt names the work directory, and holds the goal, the user's
/// instructions and those for the active provider, as far as there are any.
pub proof fn law_prompt_holds_what_applies(e: EngineView)
    ensures
        text::occurs(system_prompt_of(e), "Working directory: "@ + e.work_dir + "\n"@),
        e.active_goal.len() > 0 ==> text::occurs(
            system_prompt_of(e),
            "## Active Goal\n"@ + e.active_goal + "\n"@,
        ),
        text::occurs(system_prompt_of(e), e.cfg.system_prompt),
        text::occurs(
            system_prompt_of(e),
            config::prompt_of(e.cfg.provider_system_prompts, e.cfg.active_provider),
        ),
        e.active_goal.len() == 0 && e.cfg.system_prompt.len() == 0 && config::prompt_of(
            e.cfg.provider_system_prompts,
            e.cfg.active_provider,
        ).len() == 0 && e.ast_mode == AstMode::Off ==> system_prompt_of(e) == INTRO@
            + "Working directory: "@ + e.work_dir + "\n\n"@,
{
    reveal_strlit("\n\n");
    reveal_strlit("\n");
    let s = system_prompt_of(e);
    let none = Seq::<char>::empty();
    let d = INTRO@ + "Working directory: "@ + e.work_dir + "\n\n"@;
    let g = goal_part(e.active_goal, e.tool_iterations as nat);
    let own = instructions("\nAdditional instructions:\n"@, e.cfg.system_prompt);
    let q = config::prompt_of(e.cfg.provider_system_prompts, e.cfg.active_provider);
    let theirs = instructions("\nProvider-specific instructions:\n"@, q);
    let ast = ast_part(e.ast_mode);
    assert(s =~= d + g + own + (theirs + ast));
    let w = "Working directory: "@ + e.work_dir + "\n"@;
    assert("\n\n"@ =~= "\n"@ + "\n"@);
    text::law_occurs(s, w);
    assert(s =~= INTRO@ + w + ("\n"@ + g + own + (theirs + ast)));
    if e.active_goal.len() > 0 {
        let x = "## Active Goal\n"@ + e.active_goal + "\n"@;
        text::law_occurs(s, x);
        let tail = GOAL_RULES@ + "Progress so far: "@ + number::decimal(e.tool_iterations as nat)
            + " tool calls made.\n"@;
        assert(g =~= x + tail);
        assert(s =~= d + x + (tail + own + (theirs + ast)));
    }
    text::law_occurs(s, e.cfg.system_prompt);
    if e.cfg.system_prompt.len() > 0 {
        assert(s =~= (d + g + "\nAdditional instructions:\n"@) + e.cfg.system_prompt + (theirs
            + ast));
    } else {
        assert(s =~= none + e.cfg.system_prompt + s);
    }
    text::law_occurs(s, q);
    if q.len() > 0 {
        assert(s =~= (d + g + own + "\nProvider-specific instructions:\n"@) + q + ast);
    } else {
        assert(s =~= none + q + s);
    }
    if e.active_goal.len() == 0 && e.cfg.system_prompt.len() == 0 && q.len() == 0 && e.ast_mode
        == AstMode::Off {
        assert(s =~= d);
    }
}

/// The model is told of the skills that fit, and where none does, of all by name.
pub proof fn law_some_skill_is_offered(ss: Seq<SkillInfoView>, fitting: Seq<NamedView>, i: int)
    ensures
        fitting.len() > 0 ==> offered(ss, fitting) == fitting,
        fitting.len() == 0 ==> offered(ss, fitting).len() == ss.len(),
        fitting.len() == 0 && 0 <= i < ss.len() ==> offered(ss, fitting)[i].name == ss[i].name
            && offered(ss, fitting)[i].description.len() == 0,
{
}

/// The rules of the mode for trees are at the end of the prompt, where one is on, and
/// a goal tells how many calls were made for it.
pub proof fn law_prompt_tells_mode_and_progress(e: EngineView)
    ensures
        e.ast_mode == AstMode::SExpr ==> SEXPR_RULES@.is_suffix_of(system_prompt_of(e)),
        e.ast_mode == AstMode::Harness ==> HARNESS_RULES@.is_suffix_of(system_prompt_of(e)),
        e.active_goal.len() > 0 ==> text::occurs(
            system_prompt_of(e),
            "Progress so far: "@ + number::decimal(e.tool_iterations as nat)
                + " tool calls made.\n"@,
        ),
{
    let s = system_prompt_of(e);
    let r = ast_part(e.ast_mode);
    assert(s.subrange(s.len() - r.len(), s.len() as int) =~= r);
    if e.active_goal.len() > 0 {
        let d = INTRO@ + "Working directory: "@ + e.work_dir + "\n\n"@;
        let x = "Progress so far: "@ + number::decimal(e.tool_iterations as nat)
            + " tool calls made.\n"@;
        let a = "## Active Goal\n"@ + e.active_goal + "\n"@ + GOAL_RULES@;
        let own = instructions("\nAdditional instructions:\n"@, e.cfg.system_prompt);
        let theirs = instructions(
            "\nProvider-specific instructions:\n"@,
            config::prompt_of(e.cfg.provider_system_prompts, e.cfg.active_provider),
        );
        assert(goal_part(e.active_goal, e.tool_iterations as nat) =~= a + x);
        assert(s =~= (d + a) + x + (own + (theirs + r)));
        text::law_occurs_in_middle(d + a, x, own + (theirs + r));
    }
}

} // verus!
