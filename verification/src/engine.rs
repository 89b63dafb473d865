//! The state of the engine.

use crate::config::{self, Config, OwnSettings, ProjectConfig, SandboxMode};
use crate::dup::{self, copy_opt, copy_texts, Dup};
use crate::index::Timestamp;
use crate::message::{self, Message};
use crate::number::{self, show, take_chars};
use crate::outbox::{self, Effect, Outbox};
use crate::paths::{self, extension, file_name};
use crate::split::{self, join};
use crate::text::{self, cat4, cat5, chars_of, empty, same, string_of, strip_front, trim};
use crate::transcript::{self, history_entries};
use crate::ui::{self, AstMode, CommandDef, Named, StatusInfo, TaskStep, UiUpdate};
use vstd::prelude::*;
use vstd::string::*;

verus! {

broadcast use {split::lemma_texts_push, split::lemma_views_push};

/// A file that goes with the next message.
#[derive(Debug)]
pub struct Attachment {
    pub path: String,
    pub content: String,
}

/// The model of [`Attachment`].
#[verifier::ext_equal]
pub struct AttachmentView {
    pub path: Seq<char>,
    pub content: Seq<char>,
}

impl View for Attachment {
    type V = AttachmentView;

    open spec fn view(&self) -> AttachmentView {
        AttachmentView {
            path: self.path@,
            content: self.content@,
        }
    }
}

impl Dup for Attachment {
    fn dup(&self) -> (r: Attachment) {
        Attachment {
            path: self.path.as_str().to_string(),
            content: self.content.as_str().to_string(),
        }
    }
}

/// An image that goes with the next message.
#[derive(Debug)]
pub struct ImageAttachment {
    pub path: String,
    pub mime: String,
    /// In base64.
    pub data: String,
}

/// The model of [`ImageAttachment`].
#[verifier::ext_equal]
pub struct ImageAttachmentView {
    pub path: Seq<char>,
    pub mime: Seq<char>,
    pub data: Seq<char>,
}

impl View for ImageAttachment {
    type V = ImageAttachmentView;

    open spec fn view(&self) -> ImageAttachmentView {
        ImageAttachmentView {
            path: self.path@,
            mime: self.mime@,
            data: self.data@,
        }
    }
}

impl Dup for ImageAttachment {
    fn dup(&self) -> (r: ImageAttachment) {
        ImageAttachment {
            path: self.path.as_str().to_string(),
            mime: self.mime.as_str().to_string(),
            data: self.data.as_str().to_string(),
        }
    }
}

/// Where a conversation belongs.
#[derive(Debug)]
pub struct SessionInfo {
    pub project: String,
    pub work_dir: String,
}

/// The model of [`SessionInfo`].
#[verifier::ext_equal]
pub struct SessionInfoView {
    pub project: Seq<char>,
    pub work_dir: Seq<char>,
}

impl View for SessionInfo {
    type V = SessionInfoView;

    open spec fn view(&self) -> SessionInfoView {
        SessionInfoView {
            project: self.project@,
            work_dir: self.work_dir@,
        }
    }
}

impl Dup for SessionInfo {
    fn dup(&self) -> (r: SessionInfo) {
        SessionInfo {
            project: self.project.as_str().to_string(),
            work_dir: self.work_dir.as_str().to_string(),
        }
    }
}

/// A skill: what it is called and what it is made of.
#[derive(Debug)]
pub struct SkillInfo {
    pub name: String,
    pub description: String,
    /// Whether it is kept in the old format.
    pub toml: bool,
    /// Whether it has commands.
    pub shell: bool,
    /// Whether it has a text for the model.
    pub prompt: bool,
}

/// The model of [`SkillInfo`].
#[verifier::ext_equal]
pub struct SkillInfoView {
    pub name: Seq<char>,
    pub description: Seq<char>,
    pub toml: bool,
    pub shell: bool,
    pub prompt: bool,
}

impl View for SkillInfo {
    type V = SkillInfoView;

    open spec fn view(&self) -> SkillInfoView {
        SkillInfoView {
            name: self.name@,
            description: self.description@,
            toml: self.toml,
            shell: self.shell,
            prompt: self.prompt,
        }
    }
}

impl Dup for SkillInfo {
    fn dup(&self) -> (r: SkillInfo) {
        SkillInfo {
            name: self.name.as_str().to_string(),
            description: self.description.as_str().to_string(),
            toml: self.toml,
            shell: self.shell,
            prompt: self.prompt,
        }
    }
}

/// What a command of the user does.
#[derive(Clone, Copy, Debug, PartialEq, Eq, Structural)]
pub enum CommandKind {
    /// Runs a command line.
    Shell,
    /// Sends a text to the model.
    Prompt,
}

/// A command that the user defined.
#[derive(Debug)]
pub struct UserCommand {
    pub name: String,
    pub description: String,
    /// How its arguments are described.
    pub args: String,
    pub kind: CommandKind,
    pub command: String,
    pub template: String,
}

/// The model of [`UserCommand`].
#[verifier::ext_equal]
pub struct UserCommandView {
    pub name: Seq<char>,
    pub description: Seq<char>,
    pub args: Seq<char>,
    pub kind: CommandKind,
    pub command: Seq<char>,
    pub template: Seq<char>,
}

impl View for UserCommand {
    type V = UserCommandView;

    open spec fn view(&self) -> UserCommandView {
        UserCommandView {
            name: self.name@,
            description: self.description@,
            args: self.args@,
            kind: self.kind,
            command: self.command@,
            template: self.template@,
        }
    }
}

impl Dup for UserCommand {
    fn dup(&self) -> (r: UserCommand) {
        UserCommand {
            name: self.name.as_str().to_string(),
            description: self.description.as_str().to_string(),
            args: self.args.as_str().to_string(),
            kind: self.kind,
            command: self.command.as_str().to_string(),
            template: self.template.as_str().to_string(),
        }
    }
}

/// A tool of a connected server.
#[derive(Debug)]
pub struct McpTool {
    pub server: String,
    pub name: String,
}

/// The model of [`McpTool`].
#[verifier::ext_equal]
pub struct McpToolView {
    pub server: Seq<char>,
    pub name: Seq<char>,
}

impl View for McpTool {
    type V = McpToolView;

    open spec fn view(&self) -> McpToolView {
        McpToolView {
            server: self.server@,
            name: self.name@,
        }
    }
}

impl Dup for McpTool {
    fn dup(&self) -> (r: McpTool) {
        McpTool {
            server: self.server.as_str().to_string(),
            name: self.name.as_str().to_string(),
        }
    }
}

/// What a provider last said of its limits.
#[derive(Clone, Copy, Debug, PartialEq, Eq, Structural)]
pub struct RateLimit {
    pub remaining_tokens: i64,
    pub remaining_requests: i64,
    pub reset_tokens_at: Option<Timestamp>,
    pub reset_requests_at: Option<Timestamp>,
}

/// The engine: the conversation, the settings and the turn under way.
#[derive(Debug)]
pub struct Engine {
    pub cfg: Config,
    /// The user's own settings, where a project overrides them in `cfg`.
    pub own: OwnSettings,
    pub work_dir: String,
    pub history: Vec<Message>,
    pub session: Option<SessionInfo>,
    pub active_goal: String,
    /// How many batches of tool calls the turn has had.
    pub tool_iterations: usize,
    /// How often the model was told to act on what it announced.
    pub stall_nudges: usize,
    /// How often a broken stream was begun anew in this turn.
    pub mid_stream_retries: usize,
    pub attachments: Vec<Attachment>,
    pub image_attachments: Vec<ImageAttachment>,
    pub allowed_commands: Vec<String>,
    pub rate_limit_state: Option<RateLimit>,
    /// Whether the user stopped the turn.
    pub cancelled: bool,
    /// The tool calls of the turn.
    pub task_steps: Vec<TaskStep>,
    /// The plan made before the turn began.
    pub plan_steps: Vec<TaskStep>,
    /// The next step of the plan.
    pub plan_cursor: usize,
    pub token_budget: usize,
    pub ast_mode: AstMode,
    pub skills: Vec<SkillInfo>,
    pub user_commands: Vec<UserCommand>,
    pub external_tools: Vec<Named>,
    /// The configured servers.
    pub mcp_servers: Vec<String>,
    /// Those of them that are connected.
    pub mcp_connected: Vec<String>,
    pub mcp_tools: Vec<McpTool>,
    /// Who takes the current request.
    pub req_provider: String,
    pub req_model: String,
    /// Who takes it where that one is over its limit.
    pub req_backup_provider: String,
    pub req_backup_model: String,
    /// The size of the conversation after it was last condensed.
    pub compact_guard_tokens: usize,
    pub startup_diagnostics: Vec<String>,
}

/// The model of [`Engine`].
pub struct EngineView {
    pub cfg: config::ConfigView,
    pub own: config::OwnSettingsView,
    pub work_dir: Seq<char>,
    pub history: Seq<message::MessageView>,
    pub session: Option<SessionInfoView>,
    pub active_goal: Seq<char>,
    pub tool_iterations: usize,
    pub stall_nudges: usize,
    pub mid_stream_retries: usize,
    pub attachments: Seq<AttachmentView>,
    pub image_attachments: Seq<ImageAttachmentView>,
    pub allowed_commands: Seq<Seq<char>>,
    pub rate_limit_state: Option<RateLimit>,
    pub cancelled: bool,
    pub task_steps: Seq<ui::TaskStepView>,
    pub plan_steps: Seq<ui::TaskStepView>,
    pub plan_cursor: usize,
    pub token_budget: usize,
    pub ast_mode: AstMode,
    pub skills: Seq<SkillInfoView>,
    pub user_commands: Seq<UserCommandView>,
    pub external_tools: Seq<ui::NamedView>,
    pub mcp_servers: Seq<Seq<char>>,
    pub mcp_connected: Seq<Seq<char>>,
    pub mcp_tools: Seq<McpToolView>,
    pub req_provider: Seq<char>,
    pub req_model: Seq<char>,
    pub req_backup_provider: Seq<char>,
    pub req_backup_model: Seq<char>,
    pub compact_guard_tokens: usize,
    pub startup_diagnostics: Seq<Seq<char>>,
}

impl View for Engine {
    type V = EngineView;

    open spec fn view(&self) -> EngineView {
        EngineView {
            cfg: self.cfg@,
            own: self.own@,
            work_dir: self.work_dir@,
            history: split::views(self.history@),
            session: dup::opt_view(self.session),
            active_goal: self.active_goal@,
            tool_iterations: self.tool_iterations,
            stall_nudges: self.stall_nudges,
            mid_stream_retries: self.mid_stream_retries,
            attachments: split::views(self.attachments@),
            image_attachments: split::views(self.image_attachments@),
            allowed_commands: split::texts(self.allowed_commands@),
            rate_limit_state: self.rate_limit_state,
            cancelled: self.cancelled,
            task_steps: split::views(self.task_steps@),
            plan_steps: split::views(self.plan_steps@),
            plan_cursor: self.plan_cursor,
            token_budget: self.token_budget,
            ast_mode: self.ast_mode,
            skills: split::views(self.skills@),
            user_commands: split::views(self.user_commands@),
            external_tools: split::views(self.external_tools@),
            mcp_servers: split::texts(self.mcp_servers@),
            mcp_connected: split::texts(self.mcp_connected@),
            mcp_tools: split::views(self.mcp_tools@),
            req_provider: self.req_provider@,
            req_model: self.req_model@,
            req_backup_provider: self.req_backup_provider@,
            req_backup_model: self.req_backup_model@,
            compact_guard_tokens: self.compact_guard_tokens,
            startup_diagnostics: split::texts(self.startup_diagnostics@),
        }
    }
}

// ── Where the work directory stands ─────────────────────────────────────────

/// The branch that the text of a repository's HEAD names; of a detached HEAD,
/// the first seven characters of the commit. None without a HEAD.
pub open spec fn branch_of(head: Option<Seq<char>>) -> Option<Seq<char>> {
    match head {
        Some(s) => match text::after_prefix(text::trimmed(s), "ref: refs/heads/"@) {
            Some(name) => Some(name),
            None => Some(number::first_chars(text::trimmed(s), 7)),
        },
        None => None,
    }
}

/// The git branch, from the text of the repository's HEAD.
pub fn detect_git_branch(head: &Option<String>) -> (r: Option<String>)
    ensures
        split::opt_text(r) == branch_of(split::opt_text(*head)),
{
    match head {
        Some(s) => {
            let v = chars_of(s.as_str());
            let t = trim(v.as_slice());
            match strip_front(t, "ref: refs/heads/") {
                Some(name) => Some(string_of(name)),
                None => {
                    let all = string_of(t);
                    Some(take_chars(all.as_str(), 7))
                },
            }
        },
        None => None,
    }
}

/// The name of the project in a directory.
pub open spec fn project_of(dir: Seq<char>) -> Seq<char> {
    match paths::name_of(dir) {
        Some(n) => n,
        None => Seq::empty(),
    }
}

/// The name of the project in a directory.
pub fn project_name(dir: &str) -> (r: String)
    ensures
        r@ == project_of(dir@),
{
    match file_name(dir) {
        Some(n) => n,
        None => empty(),
    }
}

/// The MIME type of an image, by its extension; None if it is no image.
pub open spec fn mime_of(path: Seq<char>) -> Option<Seq<char>> {
    let ext = text::lowercase(paths::path_extension(path));
    if ext == "png"@ {
        Some("image/png"@)
    } else if ext == "jpg"@ || ext == "jpeg"@ {
        Some("image/jpeg"@)
    } else if ext == "gif"@ {
        Some("image/gif"@)
    } else if ext == "webp"@ {
        Some("image/webp"@)
    } else if ext == "bmp"@ {
        Some("image/bmp"@)
    } else if ext == "svg"@ {
        Some("image/svg+xml"@)
    } else {
        None
    }
}

/// The MIME type of an image, by its extension.
pub fn image_mime(path: &str) -> (r: Option<String>)
    ensures
        split::opt_text(r) == mime_of(path@),
{
    let e = extension(path);
    let low = e.as_str().to_lowercase();
    let ext = low.as_str();
    if same(ext, "png") {
        Some("image/png".to_string())
    } else if same(ext, "jpg") || same(ext, "jpeg") {
        Some("image/jpeg".to_string())
    } else if same(ext, "gif") {
        Some("image/gif".to_string())
    } else if same(ext, "webp") {
        Some("image/webp".to_string())
    } else if same(ext, "bmp") {
        Some("image/bmp".to_string())
    } else if same(ext, "svg") {
        Some("image/svg+xml".to_string())
    } else {
        None
    }
}

// ── Starting ────────────────────────────────────────────────────────────────

/// The sandbox mode with a name, as a project's settings name it.
pub open spec fn sandbox_named(s: Seq<char>) -> Option<SandboxMode> {
    if s == "off"@ {
        Some(SandboxMode::Off)
    } else if s == "permissive"@ || s == "on"@ {
        Some(SandboxMode::Permissive)
    } else if s == "mxc"@ {
        Some(SandboxMode::Mxc)
    } else if s == "docker"@ {
        Some(SandboxMode::Docker)
    } else {
        None
    }
}

fn parse_sandbox(s: &str) -> (r: Option<SandboxMode>)
    ensures
        r == sandbox_named(s@),
{
    if same(s, "off") {
        Some(SandboxMode::Off)
    } else if same(s, "permissive") || same(s, "on") {
        Some(SandboxMode::Permissive)
    } else if same(s, "mxc") {
        Some(SandboxMode::Mxc)
    } else if same(s, "docker") {
        Some(SandboxMode::Docker)
    } else {
        None
    }
}

/// The engine with the settings that a project brings along: each that is
/// given takes the place of the engine's own.
pub open spec fn with_project(e: EngineView, p: Option<config::ProjectConfigView>) -> EngineView {
    match p {
        Some(p) => EngineView {
            cfg: config::ConfigView {
                system_prompt: if p.system_prompt.len() > 0 {
                    p.system_prompt
                } else {
                    e.cfg.system_prompt
                },
                allowed_commands: if p.allowed_commands.len() > 0 {
                    p.allowed_commands
                } else {
                    e.cfg.allowed_commands
                },
                verify_command: if p.verify_command is Some {
                    p.verify_command
                } else {
                    e.cfg.verify_command
                },
                sandbox_mode: match p.sandbox_mode {
                    Some(s) => match sandbox_named(s) {
                        Some(m) => m,
                        None => e.cfg.sandbox_mode,
                    },
                    None => e.cfg.sandbox_mode,
                },
                ..e.cfg
            },
            allowed_commands: if p.allowed_commands.len() > 0 {
                p.allowed_commands
            } else {
                e.allowed_commands
            },
            ..e
        },
        None => e,
    }
}

/// The settings as they are saved.
pub open spec fn to_save(e: EngineView) -> config::ConfigView {
    config::with_own(e.cfg, e.own)
}

/// What a project brings along is never saved: applying it leaves the settings
/// as they are saved.
pub proof fn law_project_is_not_saved(e: EngineView, p: Option<config::ProjectConfigView>)
    ensures
        to_save(with_project(e, p)) == to_save(e),
{
}

/// What is loaded beside the settings when the engine starts.
pub struct Loaded {
    pub skills: Vec<SkillInfo>,
    pub skill_notes: Vec<String>,
    pub user_commands: Vec<UserCommand>,
    pub external_tools: Vec<Named>,
    pub mcp_servers: Vec<String>,
    pub startup_notes: Vec<String>,
}

/// The engine before its first turn.
pub open spec fn fresh(cfg: config::ConfigView, l: Loaded) -> EngineView {
    EngineView {
        cfg,
        own: config::own_of(cfg),
        work_dir: cfg.work_dir,
        history: Seq::empty(),
        session: Some(
            SessionInfoView { project: project_of(cfg.work_dir), work_dir: cfg.work_dir },
        ),
        active_goal: Seq::empty(),
        tool_iterations: 0,
        stall_nudges: 0,
        mid_stream_retries: 0,
        attachments: Seq::empty(),
        image_attachments: Seq::empty(),
        allowed_commands: cfg.allowed_commands,
        rate_limit_state: None,
        cancelled: false,
        task_steps: Seq::empty(),
        plan_steps: Seq::empty(),
        plan_cursor: 0,
        token_budget: cfg.token_budget,
        ast_mode: cfg.ast_mode,
        skills: split::views(l.skills@),
        user_commands: split::views(l.user_commands@),
        external_tools: split::views(l.external_tools@),
        mcp_servers: split::texts(l.mcp_servers@),
        mcp_connected: Seq::empty(),
        mcp_tools: Seq::empty(),
        req_provider: cfg.active_provider,
        req_model: cfg.active_model,
        req_backup_provider: Seq::empty(),
        req_backup_model: Seq::empty(),
        compact_guard_tokens: 0,
        startup_diagnostics: split::texts(l.skill_notes@) + split::texts(l.startup_notes@),
    }
}

/// An engine that was just started saves the settings that it was given,
/// whatever the project there brings along.
pub proof fn law_start_saves_what_was_given(
    cfg: config::ConfigView,
    l: Loaded,
    p: Option<config::ProjectConfigView>,
)
    ensures
        to_save(with_project(fresh(cfg, l), p)) == cfg,
{
}

/// The name and description of each skill.
pub open spec fn skill_defs(ss: Seq<SkillInfoView>) -> Seq<ui::NamedView> {
    ss.map_values(|s: SkillInfoView| ui::NamedView { name: s.name, description: s.description })
}

/// What the front end is told of each command of the user.
pub open spec fn command_defs(cs: Seq<UserCommandView>) -> Seq<ui::CommandDefView> {
    cs.map_values(
        |c: UserCommandView|
            ui::CommandDefView { name: c.name, args: c.args, description: c.description },
    )
}

/// Names the skills for the front end.
pub fn list_skills(ss: &Vec<SkillInfo>) -> (r: Vec<Named>)
    ensures
        split::views(r@) == skill_defs(split::views(ss@)),
{
    let ghost all = skill_defs(split::views(ss@));
    let mut out: Vec<Named> = Vec::new();
    let mut i: usize = 0;
    while i < ss.len()
        invariant
            i <= ss@.len(),
            all == skill_defs(split::views(ss@)),
            split::views(out@) =~= all.take(i as int),
        decreases ss@.len() - i,
    {
        let s = &ss[i];
        out.push(
            Named {
                name: s.name.as_str().to_string(),
                description: s.description.as_str().to_string(),
            },
        );
        assert(all[i as int] == out@.last()@);
        i += 1;
    }
    out
}

/// Names the commands of the user for the front end.
pub fn list_commands(cs: &Vec<UserCommand>) -> (r: Vec<CommandDef>)
    ensures
        split::views(r@) == command_defs(split::views(cs@)),
{
    let ghost all = command_defs(split::views(cs@));
    let mut out: Vec<CommandDef> = Vec::new();
    let mut i: usize = 0;
    while i < cs.len()
        invariant
            i <= cs@.len(),
            all == command_defs(split::views(cs@)),
            split::views(out@) =~= all.take(i as int),
        decreases cs@.len() - i,
    {
        let c = &cs[i];
        out.push(
            CommandDef {
                name: c.name.as_str().to_string(),
                args: c.args.as_str().to_string(),
                description: c.description.as_str().to_string(),
            },
        );
        assert(all[i as int] == out@.last()@);
        i += 1;
    }
    out
}

/// How many files and terms an index has.
#[derive(Clone, Copy, Debug, PartialEq, Eq, Structural)]
pub struct IndexSize {
    pub files: usize,
    pub terms: usize,
}

/// One more effect where a condition holds.
pub open spec fn push_if(
    s: Seq<outbox::EffectView>,
    c: bool,
    e: outbox::EffectView,
) -> Seq<outbox::EffectView> {
    if c {
        s.push(e)
    } else {
        s
    }
}

/// What the front end is told when the engine starts, in order: the status, a
/// conversation taken up again, the greeting, the notes of the start, the AST
/// mode, the index, the skills and the user's commands.
pub open spec fn greetings(
    before: Seq<outbox::EffectView>,
    e: EngineView,
    idx: Option<IndexSize>,
) -> Seq<outbox::EffectView> {
    let s = before.push(outbox::EffectView::SendStatus);
    let s = push_if(
        s,
        e.history.len() > 0,
        outbox::EffectView::Send(
            ui::UiUpdateView::HistoryLoaded(transcript::entries(e.history)),
        ),
    );
    let s = s.push(outbox::says("marlin ready  /help for commands"@));
    let s = push_if(
        s,
        e.startup_diagnostics.len() > 0,
        outbox::says(
            "preflight startup ("@ + number::decimal(e.startup_diagnostics.len())
                + " note(s)) — see /preflight:\n  "@ + split::joined(
                e.startup_diagnostics,
                "\n  "@,
            ),
        ),
    );
    let s = push_if(
        s,
        e.ast_mode != AstMode::Off,
        outbox::EffectView::Send(ui::UiUpdateView::AstMode(e.ast_mode)),
    );
    let s = match idx {
        Some(i) => s.push(
            outbox::says(
                "index: "@ + number::decimal(i.files as nat) + " files, "@ + number::decimal(
                    i.terms as nat,
                ) + " terms"@,
            ),
        ),
        None => s,
    };
    s.push(
        outbox::EffectView::Send(ui::UiUpdateView::SkillsLoaded(skill_defs(e.skills))),
    ).push(
        outbox::EffectView::Send(
            ui::UiUpdateView::UserCommandsLoaded(command_defs(e.user_commands)),
        ),
    )
}

/// What the status bar shows.
pub open spec fn status_of(
    e: EngineView,
    head: Option<Seq<char>>,
    bg_count: usize,
) -> ui::StatusInfoView {
    ui::StatusInfoView {
        provider: e.cfg.active_provider,
        model: e.cfg.active_model,
        git_branch: branch_of(head),
        work_dir: e.work_dir,
        status_color: config::color_of(e.cfg.status_colors, e.work_dir),
        bg_count,
    }
}

impl Engine {
    /// An engine with the given settings and what was loaded beside them.
    pub fn new(cfg: Config, l: Loaded, project: &Option<ProjectConfig>) -> (r: Engine)
        ensures
            r@ == with_project(fresh(cfg@, l), dup::opt_view(*project)),
    {
        let ghost cv = cfg@;
        let ghost lv = l;
        let work_dir = cfg.work_dir.as_str().to_string();
        let allowed_commands = copy_texts(&cfg.allowed_commands);
        let session = SessionInfo {
            project: project_name(work_dir.as_str()),
            work_dir: work_dir.as_str().to_string(),
        };
        let mut notes = copy_texts(&l.skill_notes);
        let more = &l.startup_notes;
        let ghost first = split::texts(notes@);
        let ghost second = split::texts(more@);
        let mut i: usize = 0;
        assert(first + second.take(0) =~= first);
        while i < more.len()
            invariant
                i <= more@.len(),
                second == split::texts(more@),
                split::texts(notes@) == first + second.take(i as int),
            decreases more@.len() - i,
        {
            assert(second[i as int] == more@[i as int]@);
            notes.push(more[i].as_str().to_string());
            assert(first + second.take(i + 1) =~= (first + second.take(i as int)).push(
                second[i as int],
            ));
            i += 1;
        }
        assert(second.take(i as int) =~= second);
        let own = cfg.own_settings();
        let mut engine = Engine {
            own,
            work_dir,
            history: Vec::new(),
            session: Some(session),
            active_goal: empty(),
            tool_iterations: 0,
            stall_nudges: 0,
            mid_stream_retries: 0,
            attachments: Vec::new(),
            image_attachments: Vec::new(),
            allowed_commands,
            rate_limit_state: None,
            cancelled: false,
            task_steps: Vec::new(),
            plan_steps: Vec::new(),
            plan_cursor: 0,
            token_budget: cfg.token_budget,
            ast_mode: cfg.ast_mode,
            skills: l.skills,
            user_commands: l.user_commands,
            external_tools: l.external_tools,
            mcp_servers: l.mcp_servers,
            mcp_connected: Vec::new(),
            mcp_tools: Vec::new(),
            req_provider: cfg.active_provider.as_str().to_string(),
            req_model: cfg.active_model.as_str().to_string(),
            req_backup_provider: empty(),
            req_backup_model: empty(),
            compact_guard_tokens: 0,
            startup_diagnostics: notes,
            cfg,
        };
        proof {
            let e = engine@;
            let f = fresh(cv, lv);
            assert(e.history =~= f.history);
            assert(e.attachments =~= f.attachments);
            assert(e.image_attachments =~= f.image_attachments);
            assert(e.task_steps =~= f.task_steps);
            assert(e.plan_steps =~= f.plan_steps);
            assert(e.mcp_connected =~= f.mcp_connected);
            assert(e.mcp_tools =~= f.mcp_tools);
        }
        engine.apply_project_config(project);
        engine
    }

    /// The notes of the start.
    pub fn startup_diagnostics(&self) -> (r: &Vec<String>)
        ensures
            split::texts(r@) == self@.startup_diagnostics,
    {
        &self.startup_diagnostics
    }

    /// Takes over the settings that a project brings along. They hold for the
    /// session and are not saved.
    pub fn apply_project_config(&mut self, project: &Option<ProjectConfig>)
        ensures
            final(self)@ == with_project(old(self)@, dup::opt_view(*project)),
    {
        if let Some(p) = project {
            assert(split::texts(p.allowed_commands@).len() == p.allowed_commands@.len());
            let prompt = if p.system_prompt.as_str().is_empty() {
                self.cfg.system_prompt.as_str().to_string()
            } else {
                p.system_prompt.as_str().to_string()
            };
            let given = p.allowed_commands.len() > 0;
            let allowed = if given {
                copy_texts(&p.allowed_commands)
            } else {
                copy_texts(&self.allowed_commands)
            };
            let kept = if given {
                copy_texts(&p.allowed_commands)
            } else {
                copy_texts(&self.cfg.allowed_commands)
            };
            let verify = if p.verify_command.is_some() {
                copy_opt(&p.verify_command)
            } else {
                copy_opt(&self.cfg.verify_command)
            };
            let named = match &p.sandbox_mode {
                Some(s) => parse_sandbox(s.as_str()),
                None => None,
            };
            let mode = match named {
                Some(m) => m,
                None => self.cfg.sandbox_mode,
            };
            self.cfg.system_prompt = prompt;
            self.cfg.allowed_commands = kept;
            self.cfg.verify_command = verify;
            self.cfg.sandbox_mode = mode;
            self.allowed_commands = allowed;
        }
    }

    /// The settings as they are saved: without what a project brought along.
    pub fn settings_to_save(&self) -> (r: Config)
        ensures
            r@ == to_save(self@),
    {
        let mut c = self.cfg.dup();
        c.system_prompt = self.own.system_prompt.as_str().to_string();
        c.allowed_commands = copy_texts(&self.own.allowed_commands);
        c.verify_command = copy_opt(&self.own.verify_command);
        c.sandbox_mode = self.own.sandbox_mode;
        c
    }

    /// What the status bar shows, given the text of the repository's HEAD and
    /// the number of background processes.
    pub fn status_info(&self, head: &Option<String>, bg_count: usize) -> (r: StatusInfo)
        ensures
            r@ == status_of(self@, split::opt_text(*head), bg_count),
    {
        StatusInfo {
            provider: self.cfg.active_provider.as_str().to_string(),
            model: self.cfg.active_model.as_str().to_string(),
            git_branch: detect_git_branch(head),
            work_dir: self.work_dir.as_str().to_string(),
            status_color: config::find_color(&self.cfg.status_colors, self.work_dir.as_str()),
            bg_count,
        }
    }

    /// Tells the front end what it needs to know at the start.
    pub fn announce(&self, idx: Option<IndexSize>, out: &mut Outbox)
        ensures
            final(out)@ == greetings(old(out)@, self@, idx),
    {
        assert(split::texts(self.startup_diagnostics@).len() == self.startup_diagnostics@.len());
        out.add(Effect::SendStatus);
        if self.history.len() > 0 {
            let entries = history_entries(&self.history);
            out.send(UiUpdate::HistoryLoaded(entries));
        }
        out.say("marlin ready  /help for commands");
        if self.startup_diagnostics.len() > 0 {
            let body = join(&self.startup_diagnostics, "\n  ");
            let n = show(self.startup_diagnostics.len());
            out.sys(
                cat4(
                    "preflight startup (",
                    n.as_str(),
                    " note(s)) — see /preflight:\n  ",
                    body.as_str(),
                ),
            );
        }
        if self.ast_mode != AstMode::Off {
            out.send(UiUpdate::AstMode(self.ast_mode));
        }
        if let Some(i) = idx {
            let f = show(i.files);
            let t = show(i.terms);
            out.sys(cat5("index: ", f.as_str(), " files, ", t.as_str(), " terms"));
        }
        let skills = list_skills(&self.skills);
        out.send(UiUpdate::SkillsLoaded(skills));
        let commands = list_commands(&self.user_commands);
        out.send(UiUpdate::UserCommandsLoaded(commands));
    }
}

// ── More laws ───────────────────────────────────────────────────────────────

/// A branch is named by the end of the reference, without whitespace; a head that
/// is no branch by its first seven characters; without a head there is none.
pub proof fn law_branch(
    before: Seq<char>,
    name: Seq<char>,
    after: Seq<char>,
    a: Seq<char>,
    b: Seq<char>,
)
    requires
        text::all_in(before, |c: char| text::char_whitespace(c)),
        text::all_in(after, |c: char| text::char_whitespace(c)),
        name.len() > 0,
        !text::char_whitespace(name.last()),
        a.len() == 7,
        a[0] != 'r',
        !text::char_whitespace(a[0]),
        !text::char_whitespace((a + b).last()),
    ensures
        branch_of(Some(before + ("ref: refs/heads/"@ + name) + after)) == Some(name),
        branch_of(Some(before + (a + b) + after)) == Some(a),
        branch_of(None) is None,
{
    let p = "ref: refs/heads/"@;
    reveal_strlit("ref: refs/heads/");
    let m = p + name;
    assert(m[0] == 'r' && m.last() == name.last());
    text::law_trimmed(before, m, after);
    assert(m.subrange(0, p.len() as int) =~= p);
    assert(m.skip(p.len() as int) =~= name);
    let n = a + b;
    assert(n[0] == a[0]);
    text::law_trimmed(before, n, after);
    if p.is_prefix_of(n) {
        assert(n.subrange(0, p.len() as int)[0] == 'r');
    }
    number::law_first_chars(a, b);
}

/// A project is named by the last part of its directory.
pub proof fn law_project(dir: Seq<char>, name: Seq<char>)
    requires
        name.len() > 0,
        forall|i: int| 0 <= i < name.len() ==> #[trigger] name[i] != '/',
        name != "."@,
        name != ".."@,
    ensures
        project_of(dir + "/"@ + name) == name,
        project_of(name) == name,
{
    paths::law_name_in_directory(dir, name);
}

/// The kind of an image goes by its extension, in any case; a file with another
/// extension is no image.
pub proof fn law_mime(dir: Seq<char>, stem: Seq<char>, ext: Seq<char>)
    requires
        stem.len() > 0,
        forall|i: int| 0 <= i < stem.len() ==> #[trigger] stem[i] != '/',
        ext.len() > 0,
        forall|i: int| 0 <= i < ext.len() ==> #[trigger] ext[i] != '/' && ext[i] != '.',
    ensures
        ({
            let m = mime_of(dir + "/"@ + (stem + "."@ + ext));
            let low = text::lowercase(ext);
            &&& low == "png"@ <==> m == Some("image/png"@)
            &&& low == "jpg"@ || low == "jpeg"@ <==> m == Some("image/jpeg"@)
            &&& low == "gif"@ <==> m == Some("image/gif"@)
            &&& low == "webp"@ <==> m == Some("image/webp"@)
            &&& low == "bmp"@ <==> m == Some("image/bmp"@)
            &&& low == "svg"@ <==> m == Some("image/svg+xml"@)
        }),
{
    paths::law_extension(dir, stem, ext);
    reveal_strlit("png");
    reveal_strlit("jpg");
    reveal_strlit("jpeg");
    reveal_strlit("gif");
    reveal_strlit("webp");
    reveal_strlit("bmp");
    reveal_strlit("svg");
    assert("png"@[0] == 'p' && "jpg"@[0] == 'j' && "gif"@[0] == 'g' && "bmp"@[0] == 'b'
        && "svg"@[0] == 's');
    assert("jpeg"@.len() == 4 && "webp"@.len() == 4 && "jpeg"@[0] == 'j' && "webp"@[0] == 'w');
    assert("png"@.len() == 3 && "jpg"@.len() == 3 && "gif"@.len() == 3 && "bmp"@.len() == 3
        && "svg"@.len() == 3);
    reveal_strlit("image/png");
    reveal_strlit("image/jpeg");
    reveal_strlit("image/gif");
    reveal_strlit("image/webp");
    reveal_strlit("image/bmp");
    reveal_strlit("image/svg+xml");
    assert("image/png"@.len() == 9 && "image/gif"@.len() == 9 && "image/bmp"@.len() == 9);
    assert("image/png"@[6] == 'p' && "image/gif"@[6] == 'g' && "image/bmp"@[6] == 'b');
    assert("image/jpeg"@.len() == 10 && "image/webp"@.len() == 10 && "image/svg+xml"@.len() == 13);
    assert("image/jpeg"@[6] == 'j' && "image/webp"@[6] == 'w');
}

/// A project's settings win where it brings them along and leave all others; to
/// apply them twice is to apply them once.
pub proof fn law_project_settings(e: EngineView, p: config::ProjectConfigView)
    ensures
        with_project(e, None) == e,
        p.system_prompt.len() > 0 ==> with_project(e, Some(p)).cfg.system_prompt
            == p.system_prompt,
        p.system_prompt.len() == 0 ==> with_project(e, Some(p)).cfg.system_prompt
            == e.cfg.system_prompt,
        p.allowed_commands.len() > 0 ==> with_project(e, Some(p)).allowed_commands
            == p.allowed_commands && with_project(e, Some(p)).cfg.allowed_commands
            == p.allowed_commands,
        p.allowed_commands.len() == 0 ==> with_project(e, Some(p)).allowed_commands
            == e.allowed_commands,
        p.verify_command is Some ==> with_project(e, Some(p)).cfg.verify_command
            == p.verify_command,
        p.verify_command is None ==> with_project(e, Some(p)).cfg.verify_command
            == e.cfg.verify_command,
        p.sandbox_mode is None ==> with_project(e, Some(p)).cfg.sandbox_mode == e.cfg.sandbox_mode,
        with_project(with_project(e, Some(p)), Some(p)) == with_project(e, Some(p)),
        with_project(e, Some(p)).own == e.own,
        with_project(e, Some(p)).cfg.active_model == e.cfg.active_model,
{
}

/// A project may name each sandbox by its label.
pub proof fn law_sandbox_is_named(m: SandboxMode)
    ensures
        sandbox_named(config::sandbox_label(m)) == Some(m),
{
    reveal_strlit("off");
    reveal_strlit("permissive");
    reveal_strlit("on");
    reveal_strlit("mxc");
    reveal_strlit("docker");
    assert("off"@.len() == 3 && "permissive"@.len() == 10 && "mxc"@.len() == 3 && "docker"@.len()
        == 6 && "on"@.len() == 2);
    assert("off"@[0] == 'o' && "mxc"@[0] == 'm');
}

/// At the start the state is shown first, a conversation that was taken up is
/// loaded, the user is greeted, and what was found on the way is told.
pub proof fn law_greetings(
    before: Seq<outbox::EffectView>,
    e: EngineView,
    idx: Option<IndexSize>,
)
    ensures
        before.is_prefix_of(greetings(before, e, idx)),
        greetings(before, e, idx)[before.len() as int] == outbox::EffectView::SendStatus,
        e.history.len() > 0 ==> greetings(before, e, idx)[before.len() as int + 1]
            == outbox::EffectView::Send(
            ui::UiUpdateView::HistoryLoaded(transcript::entries(e.history)),
        ),
        greetings(before, e, idx).contains(outbox::says("marlin ready  /help for commands"@)),
        e.ast_mode != AstMode::Off ==> greetings(before, e, idx).contains(
            outbox::EffectView::Send(ui::UiUpdateView::AstMode(e.ast_mode)),
        ),
        greetings(before, e, idx).last() == outbox::EffectView::Send(
            ui::UiUpdateView::UserCommandsLoaded(command_defs(e.user_commands)),
        ),
{
    let g = greetings(before, e, idx);
    assert(g.subrange(0, before.len() as int) =~= before);
    let h: int = if e.history.len() > 0 {
        1
    } else {
        0
    };
    let d: int = if e.startup_diagnostics.len() > 0 {
        1
    } else {
        0
    };
    assert(g[before.len() + 1 + h] == outbox::says("marlin ready  /help for commands"@));
    if e.ast_mode != AstMode::Off {
        assert(g[before.len() + 2 + h + d] == outbox::EffectView::Send(
            ui::UiUpdateView::AstMode(e.ast_mode),
        ));
    }
}

/// Skills and commands are listed by their names, in their order.
pub proof fn law_definitions(ss: Seq<SkillInfoView>, cs: Seq<UserCommandView>, i: int)
    ensures
        skill_defs(ss).len() == ss.len(),
        command_defs(cs).len() == cs.len(),
        0 <= i < ss.len() ==> skill_defs(ss)[i].name == ss[i].name && skill_defs(ss)[i].description
            == ss[i].description,
        0 <= i < cs.len() ==> command_defs(cs)[i].name == cs[i].name && command_defs(cs)[i].args
            == cs[i].args && command_defs(cs)[i].description == cs[i].description,
{
}

/// The status tells what is in use: the provider, the model, the directory and its
/// color, the branch and the number of processes.
pub proof fn law_status(e: EngineView, head: Option<Seq<char>>, n: usize)
    ensures
        status_of(e, head, n).provider == e.cfg.active_provider,
        status_of(e, head, n).model == e.cfg.active_model,
        status_of(e, head, n).work_dir == e.work_dir,
        status_of(e, head, n).git_branch == branch_of(head),
        status_of(e, head, n).status_color == config::color_of(e.cfg.status_colors, e.work_dir),
        status_of(e, head, n).bg_count == n,
{
}

/// A new engine has its settings and nothing else: no messages, nothing attached, no
/// goal and no steps; its limits, its directory and its allowed commands are those of
/// the settings, and what is its own is what they hold.
pub proof fn law_fresh(cfg: config::ConfigView, l: Loaded)
    ensures
        ({
            let e = fresh(cfg, l);
            &&& e.cfg == cfg
            &&& e.own == config::own_of(cfg)
            &&& e.history.len() == 0 && e.attachments.len() == 0
            &&& e.active_goal.len() == 0 && e.task_steps.len() == 0 && e.plan_steps.len() == 0
            &&& e.work_dir == cfg.work_dir
            &&& e.token_budget == cfg.token_budget
            &&& e.ast_mode == cfg.ast_mode
            &&& e.allowed_commands == cfg.allowed_commands
            &&& e.req_model == cfg.active_model && e.req_provider == cfg.active_provider
            &&& e.rate_limit_state is None && !e.cancelled
            &&& e.compact_guard_tokens == 0
            &&& e.session matches Some(s) && s.work_dir == cfg.work_dir
            &&& e.startup_diagnostics.len() == l.skill_notes@.len() + l.startup_notes@.len()
        }),
{
}

} // verus!
