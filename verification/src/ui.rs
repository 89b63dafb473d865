//! What the engine and the terminal front end say to each other, and the data
//! that travels with it.

use crate::dup::{copy_opt, copy_texts, Dup};
use crate::split;
use vstd::prelude::*;

verus! {

/// How file reads are handed to the model.
#[derive(Clone, Copy, Debug, PartialEq, Eq, Structural)]
pub enum AstMode {
    /// As raw text.
    Off,
    /// As S-expressions of the syntax tree.
    SExpr,
    /// Through the syntax tree tools.
    Harness,
}

/// How far a step has come.
#[derive(Clone, Copy, Debug, PartialEq, Eq, Structural)]
pub enum TaskStatus {
    Pending,
    Completed,
    Failed,
}

/// A line of the task list or of the plan.
#[derive(Debug)]
pub struct TaskStep {
    /// The tool that the step calls; empty for a step of the plan.
    pub tool: String,
    pub description: String,
    pub status: TaskStatus,
    /// Shared by calls that ran at the same time.
    pub parallel_group: Option<usize>,
}

/// The model of [`TaskStep`].
#[verifier::ext_equal]
pub struct TaskStepView {
    pub tool: Seq<char>,
    pub description: Seq<char>,
    pub status: TaskStatus,
    pub parallel_group: Option<usize>,
}

impl View for TaskStep {
    type V = TaskStepView;

    open spec fn view(&self) -> TaskStepView {
        TaskStepView {
            tool: self.tool@,
            description: self.description@,
            status: self.status,
            parallel_group: self.parallel_group,
        }
    }
}

impl Dup for TaskStep {
    fn dup(&self) -> (r: TaskStep) {
        TaskStep {
            tool: self.tool.as_str().to_string(),
            description: self.description.as_str().to_string(),
            status: self.status,
            parallel_group: self.parallel_group,
        }
    }
}

/// What a line of a comparison is.
#[derive(Clone, Copy, Debug, PartialEq, Eq, Structural)]
pub enum DiffKind {
    /// In both texts.
    Same,
    /// In the new text alone.
    Added,
    /// In the old text alone.
    Removed,
}

/// A line of a comparison of two texts.
#[derive(Debug)]
pub struct DiffLine {
    pub kind: DiffKind,
    pub text: String,
}

/// The model of [`DiffLine`].
#[verifier::ext_equal]
pub struct DiffLineView {
    pub kind: DiffKind,
    pub text: Seq<char>,
}

impl View for DiffLine {
    type V = DiffLineView;

    open spec fn view(&self) -> DiffLineView {
        DiffLineView {
            kind: self.kind,
            text: self.text@,
        }
    }
}

impl Dup for DiffLine {
    fn dup(&self) -> (r: DiffLine) {
        DiffLine {
            kind: self.kind,
            text: self.text.as_str().to_string(),
        }
    }
}

/// A name with its description: a skill, a tool or a theme.
#[derive(Debug)]
pub struct Named {
    pub name: String,
    pub description: String,
}

/// The model of [`Named`].
#[verifier::ext_equal]
pub struct NamedView {
    pub name: Seq<char>,
    pub description: Seq<char>,
}

impl View for Named {
    type V = NamedView;

    open spec fn view(&self) -> NamedView {
        NamedView {
            name: self.name@,
            description: self.description@,
        }
    }
}

impl Dup for Named {
    fn dup(&self) -> (r: Named) {
        Named {
            name: self.name.as_str().to_string(),
            description: self.description.as_str().to_string(),
        }
    }
}

/// A command of the user, for the front end to suggest.
#[derive(Debug)]
pub struct CommandDef {
    pub name: String,
    pub args: String,
    pub description: String,
}

/// The model of [`CommandDef`].
#[verifier::ext_equal]
pub struct CommandDefView {
    pub name: Seq<char>,
    pub args: Seq<char>,
    pub description: Seq<char>,
}

impl View for CommandDef {
    type V = CommandDefView;

    open spec fn view(&self) -> CommandDefView {
        CommandDefView {
            name: self.name@,
            args: self.args@,
            description: self.description@,
        }
    }
}

impl Dup for CommandDef {
    fn dup(&self) -> (r: CommandDef) {
        CommandDef {
            name: self.name.as_str().to_string(),
            args: self.args.as_str().to_string(),
            description: self.description.as_str().to_string(),
        }
    }
}

/// One entry of a loaded conversation, for the chat display.
#[derive(Debug)]
pub struct HistoryEntry {
    /// "user", "assistant" or "tool".
    pub role: String,
    pub content: String,
    /// The tool of a tool call; empty otherwise.
    pub tool_name: String,
    /// The JSON input of a tool call; empty otherwise.
    pub tool_input: String,
    /// Whether a tool result is a failure.
    pub is_error: bool,
}

/// The model of [`HistoryEntry`].
#[verifier::ext_equal]
pub struct HistoryEntryView {
    pub role: Seq<char>,
    pub content: Seq<char>,
    pub tool_name: Seq<char>,
    pub tool_input: Seq<char>,
    pub is_error: bool,
}

impl View for HistoryEntry {
    type V = HistoryEntryView;

    open spec fn view(&self) -> HistoryEntryView {
        HistoryEntryView {
            role: self.role@,
            content: self.content@,
            tool_name: self.tool_name@,
            tool_input: self.tool_input@,
            is_error: self.is_error,
        }
    }
}

impl Dup for HistoryEntry {
    fn dup(&self) -> (r: HistoryEntry) {
        HistoryEntry {
            role: self.role.as_str().to_string(),
            content: self.content.as_str().to_string(),
            tool_name: self.tool_name.as_str().to_string(),
            tool_input: self.tool_input.as_str().to_string(),
            is_error: self.is_error,
        }
    }
}

impl Clone for HistoryEntry {
    fn clone(&self) -> (r: Self)
        ensures
            r@ == self@,
    {
        self.dup()
    }
}

/// What the status bar shows.
#[derive(Debug)]
pub struct StatusInfo {
    pub provider: String,
    pub model: String,
    /// The git branch of the work directory, in a repository.
    pub git_branch: Option<String>,
    pub work_dir: String,
    /// The background of the status bar for this directory.
    pub status_color: Option<[u8; 3]>,
    /// How many background processes run.
    pub bg_count: usize,
}

/// The model of [`StatusInfo`].
#[verifier::ext_equal]
pub struct StatusInfoView {
    pub provider: Seq<char>,
    pub model: Seq<char>,
    pub git_branch: Option<Seq<char>>,
    pub work_dir: Seq<char>,
    pub status_color: Option<[u8; 3]>,
    pub bg_count: usize,
}

impl View for StatusInfo {
    type V = StatusInfoView;

    open spec fn view(&self) -> StatusInfoView {
        StatusInfoView {
            provider: self.provider@,
            model: self.model@,
            git_branch: split::opt_text(self.git_branch),
            work_dir: self.work_dir@,
            status_color: self.status_color,
            bg_count: self.bg_count,
        }
    }
}

impl Dup for StatusInfo {
    fn dup(&self) -> (r: StatusInfo) {
        StatusInfo {
            provider: self.provider.as_str().to_string(),
            model: self.model.as_str().to_string(),
            git_branch: copy_opt(&self.git_branch),
            work_dir: self.work_dir.as_str().to_string(),
            status_color: self.status_color,
            bg_count: self.bg_count,
        }
    }
}

impl Clone for StatusInfo {
    fn clone(&self) -> (r: Self)
        ensures
            r@ == self@,
    {
        self.dup()
    }
}

/// The settings that the configuration menu shows.
#[derive(Debug, Default)]
pub struct ConfigState {
    pub provider: String,
    pub providers: Vec<String>,
    /// The key of `provider`.
    pub api_key: String,
    pub model: String,
    pub models: Vec<String>,
    pub theme: String,
    /// The themes that the menu offers beside dark and light.
    pub named_themes: Vec<String>,
    pub sandbox_mode: String,
    pub skip_permissions: bool,
    pub clean_env: bool,
    pub ast_mode: String,
    pub skill_subagents: bool,
    pub max_tokens: usize,
    pub tool_call_limit: usize,
}

/// The model of [`ConfigState`].
#[verifier::ext_equal]
pub struct ConfigStateView {
    pub provider: Seq<char>,
    pub providers: Seq<Seq<char>>,
    pub api_key: Seq<char>,
    pub model: Seq<char>,
    pub models: Seq<Seq<char>>,
    pub theme: Seq<char>,
    pub named_themes: Seq<Seq<char>>,
    pub sandbox_mode: Seq<char>,
    pub skip_permissions: bool,
    pub clean_env: bool,
    pub ast_mode: Seq<char>,
    pub skill_subagents: bool,
    pub max_tokens: usize,
    pub tool_call_limit: usize,
}

impl View for ConfigState {
    type V = ConfigStateView;

    open spec fn view(&self) -> ConfigStateView {
        ConfigStateView {
            provider: self.provider@,
            providers: split::texts(self.providers@),
            api_key: self.api_key@,
            model: self.model@,
            models: split::texts(self.models@),
            theme: self.theme@,
            named_themes: split::texts(self.named_themes@),
            sandbox_mode: self.sandbox_mode@,
            skip_permissions: self.skip_permissions,
            clean_env: self.clean_env,
            ast_mode: self.ast_mode@,
            skill_subagents: self.skill_subagents,
            max_tokens: self.max_tokens,
            tool_call_limit: self.tool_call_limit,
        }
    }
}

impl Dup for ConfigState {
    fn dup(&self) -> (r: ConfigState) {
        ConfigState {
            provider: self.provider.as_str().to_string(),
            providers: copy_texts(&self.providers),
            api_key: self.api_key.as_str().to_string(),
            model: self.model.as_str().to_string(),
            models: copy_texts(&self.models),
            theme: self.theme.as_str().to_string(),
            named_themes: copy_texts(&self.named_themes),
            sandbox_mode: self.sandbox_mode.as_str().to_string(),
            skip_permissions: self.skip_permissions,
            clean_env: self.clean_env,
            ast_mode: self.ast_mode.as_str().to_string(),
            skill_subagents: self.skill_subagents,
            max_tokens: self.max_tokens,
            tool_call_limit: self.tool_call_limit,
        }
    }
}

impl Clone for ConfigState {
    fn clone(&self) -> (r: Self)
        ensures
            r@ == self@,
    {
        self.dup()
    }
}

/// A file that was opened: its path and its content.
#[derive(Debug)]
pub struct FileText {
    pub path: String,
    pub content: String,
}

/// The model of [`FileText`].
#[verifier::ext_equal]
pub struct FileTextView {
    pub path: Seq<char>,
    pub content: Seq<char>,
}

impl View for FileText {
    type V = FileTextView;

    open spec fn view(&self) -> FileTextView {
        FileTextView {
            path: self.path@,
            content: self.content@,
        }
    }
}

impl Dup for FileText {
    fn dup(&self) -> (r: FileText) {
        FileText {
            path: self.path.as_str().to_string(),
            content: self.content.as_str().to_string(),
        }
    }
}

/// What opening a file came to.
#[derive(Debug)]
pub enum Opened {
    File(FileText),
    /// Why it could not be opened.
    Failed(String),
}

/// The model of [`Opened`].
#[verifier::ext_equal]
pub enum OpenedView {
    File(FileTextView),
    Failed(Seq<char>),
}

impl View for Opened {
    type V = OpenedView;

    open spec fn view(&self) -> OpenedView {
        match self {
            Opened::File(x) => OpenedView::File(x@),
            Opened::Failed(x) => OpenedView::Failed(x@),
        }
    }
}

impl Dup for Opened {
    fn dup(&self) -> (r: Opened) {
        match self {
            Opened::File(x) => Opened::File(x.dup()),
            Opened::Failed(x) => Opened::Failed(x.as_str().to_string()),
        }
    }
}

/// What the engine tells the front end.
#[derive(Debug)]
pub enum UiUpdate {
    /// A piece of the model's answer.
    StreamChunk(String),
    /// A session was loaded: the chat display is filled anew.
    HistoryLoaded(Vec<HistoryEntry>),
    ToolCall { name: String, input: String },
    ToolResult { name: String, output: String, is_error: bool },
    /// The final summary of a task.
    Summary(String),
    SystemMsg(String),
    ErrorMsg(String),
    RateLimited { secs: u32 },
    GoalComplete { tool_count: usize },
    StatusUpdate(StatusInfo),
    IndexBuilt,
    /// The engine waits until the user allows or refuses a command.
    AwaitingApproval { cmd: String },
    /// The engine waits for an answer to a question of the model.
    AskUser { question: String },
    /// The task list.
    TaskUpdate(Vec<TaskStep>),
    /// The plan, an ordered list apart from the task list.
    PlanUpdate(Vec<TaskStep>),
    /// Opens the read-only pane, or says why not.
    OpenViewer(Opened),
    /// Opens the comparison of a file with its last snapshot.
    OpenDiff { path: String, diff: Vec<DiffLine> },
    /// Opens the editor, or says why not.
    OpenEditor(Opened),
    /// The editor's file was saved.
    EditorSaved { path: String },
    TokenUsage { used: usize, budget: usize },
    /// The tokens sent with every request, where they are over the threshold.
    PromptBudget(Option<usize>),
    AstMode(AstMode),
    SkillsLoaded(Vec<Named>),
    /// The skills that fit the last message.
    SkillMatches(Vec<Named>),
    TierSelected { score: u8, tier: String },
    UserCommandsLoaded(Vec<CommandDef>),
    SubagentStarted { id: String, label: String },
    SubagentToolCall { id: String, name: String },
    SubagentFinished { id: String, ok: bool },
    /// The settings; `open` says whether the menu opens with them.
    ConfigState { state: ConfigState, open: bool },
    /// A piece of the output of a running command.
    ToolStreamChunk { chunk: String },
    /// What a pending edit would change, for the user to accept or reject.
    DiffPreview { tool_id: String, path: String, diff: Vec<DiffLine> },
    /// The outcome of a note or command sent while the model worked.
    SteerResult(String),
}

/// The model of [`UiUpdate`].
#[verifier::ext_equal]
pub enum UiUpdateView {
    StreamChunk(Seq<char>),
    HistoryLoaded(Seq<HistoryEntryView>),
    ToolCall { name: Seq<char>, input: Seq<char> },
    ToolResult { name: Seq<char>, output: Seq<char>, is_error: bool },
    Summary(Seq<char>),
    SystemMsg(Seq<char>),
    ErrorMsg(Seq<char>),
    RateLimited { secs: u32 },
    GoalComplete { tool_count: usize },
    StatusUpdate(StatusInfoView),
    IndexBuilt,
    AwaitingApproval { cmd: Seq<char> },
    AskUser { question: Seq<char> },
    TaskUpdate(Seq<TaskStepView>),
    PlanUpdate(Seq<TaskStepView>),
    OpenViewer(OpenedView),
    OpenDiff { path: Seq<char>, diff: Seq<DiffLineView> },
    OpenEditor(OpenedView),
    EditorSaved { path: Seq<char> },
    TokenUsage { used: usize, budget: usize },
    PromptBudget(Option<usize>),
    AstMode(AstMode),
    SkillsLoaded(Seq<NamedView>),
    SkillMatches(Seq<NamedView>),
    TierSelected { score: u8, tier: Seq<char> },
    UserCommandsLoaded(Seq<CommandDefView>),
    SubagentStarted { id: Seq<char>, label: Seq<char> },
    SubagentToolCall { id: Seq<char>, name: Seq<char> },
    SubagentFinished { id: Seq<char>, ok: bool },
    ConfigState { state: ConfigStateView, open: bool },
    ToolStreamChunk { chunk: Seq<char> },
    DiffPreview { tool_id: Seq<char>, path: Seq<char>, diff: Seq<DiffLineView> },
    SteerResult(Seq<char>),
}

impl View for UiUpdate {
    type V = UiUpdateView;

    open spec fn view(&self) -> UiUpdateView {
        match self {
            UiUpdate::StreamChunk(x) => UiUpdateView::StreamChunk(x@),
            UiUpdate::HistoryLoaded(x) => UiUpdateView::HistoryLoaded(split::views(x@)),
            UiUpdate::ToolCall { name, input } => UiUpdateView::ToolCall {
                name: name@,
                input: input@,
            },
            UiUpdate::ToolResult { name, output, is_error } => UiUpdateView::ToolResult {
                name: name@,
                output: output@,
                is_error: *is_error,
            },
            UiUpdate::Summary(x) => UiUpdateView::Summary(x@),
            UiUpdate::SystemMsg(x) => UiUpdateView::SystemMsg(x@),
            UiUpdate::ErrorMsg(x) => UiUpdateView::ErrorMsg(x@),
            UiUpdate::RateLimited { secs } => UiUpdateView::RateLimited {
                secs: *secs,
            },
            UiUpdate::GoalComplete { tool_count } => UiUpdateView::GoalComplete {
                tool_count: *tool_count,
            },
            UiUpdate::StatusUpdate(x) => UiUpdateView::StatusUpdate(x@),
            UiUpdate::IndexBuilt => UiUpdateView::IndexBuilt,
            UiUpdate::AwaitingApproval { cmd } => UiUpdateView::AwaitingApproval {
                cmd: cmd@,
            },
            UiUpdate::AskUser { question } => UiUpdateView::AskUser {
                question: question@,
            },
            UiUpdate::TaskUpdate(x) => UiUpdateView::TaskUpdate(split::views(x@)),
            UiUpdate::PlanUpdate(x) => UiUpdateView::PlanUpdate(split::views(x@)),
            UiUpdate::OpenViewer(x) => UiUpdateView::OpenViewer(x@),
            UiUpdate::OpenDiff { path, diff } => UiUpdateView::OpenDiff {
                path: path@,
                diff: split::views(diff@),
            },
            UiUpdate::OpenEditor(x) => UiUpdateView::OpenEditor(x@),
            UiUpdate::EditorSaved { path } => UiUpdateView::EditorSaved {
                path: path@,
            },
            UiUpdate::TokenUsage { used, budget } => UiUpdateView::TokenUsage {
                used: *used,
                budget: *budget,
            },
            UiUpdate::PromptBudget(x) => UiUpdateView::PromptBudget(*x),
            UiUpdate::AstMode(x) => UiUpdateView::AstMode(*x),
            UiUpdate::SkillsLoaded(x) => UiUpdateView::SkillsLoaded(split::views(x@)),
            UiUpdate::SkillMatches(x) => UiUpdateView::SkillMatches(split::views(x@)),
            UiUpdate::TierSelected { score, tier } => UiUpdateView::TierSelected {
                score: *score,
                tier: tier@,
            },
            UiUpdate::UserCommandsLoaded(x) => UiUpdateView::UserCommandsLoaded(split::views(x@)),
            UiUpdate::SubagentStarted { id, label } => UiUpdateView::SubagentStarted {
                id: id@,
                label: label@,
            },
            UiUpdate::SubagentToolCall { id, name } => UiUpdateView::SubagentToolCall {
                id: id@,
                name: name@,
            },
            UiUpdate::SubagentFinished { id, ok } => UiUpdateView::SubagentFinished {
                id: id@,
                ok: *ok,
            },
            UiUpdate::ConfigState { state, open } => UiUpdateView::ConfigState {
                state: state@,
                open: *open,
            },
            UiUpdate::ToolStreamChunk { chunk } => UiUpdateView::ToolStreamChunk {
                chunk: chunk@,
            },
            UiUpdate::DiffPreview { tool_id, path, diff } => UiUpdateView::DiffPreview {
                tool_id: tool_id@,
                path: path@,
                diff: split::views(diff@),
            },
            UiUpdate::SteerResult(x) => UiUpdateView::SteerResult(x@),
        }
    }
}

/// What the front end asks of the engine.
#[derive(Debug)]
pub enum Action {
    SendMessage(String),
    SlashCommand(String),
    CancelStream,
    /// The user allowed a command.
    Approve,
    /// The user refused a command.
    Deny,
    /// The user answered a question of the model.
    UserAnswer(String),
    /// A setting was changed in the menu.
    ConfigSet { key: String, value: String },
    /// The editor's content is to be written.
    SaveEditorFile { path: String, content: String },
    /// The user accepted a pending edit.
    AcceptDiff { tool_id: String },
    /// The user rejected a pending edit.
    RejectDiff { tool_id: String },
    /// A note or command typed while the model worked.
    Steer(String),
    Quit,
}

/// The model of [`Action`].
#[verifier::ext_equal]
pub enum ActionView {
    SendMessage(Seq<char>),
    SlashCommand(Seq<char>),
    CancelStream,
    Approve,
    Deny,
    UserAnswer(Seq<char>),
    ConfigSet { key: Seq<char>, value: Seq<char> },
    SaveEditorFile { path: Seq<char>, content: Seq<char> },
    AcceptDiff { tool_id: Seq<char> },
    RejectDiff { tool_id: Seq<char> },
    Steer(Seq<char>),
    Quit,
}

impl View for Action {
    type V = ActionView;

    open spec fn view(&self) -> ActionView {
        match self {
            Action::SendMessage(x) => ActionView::SendMessage(x@),
            Action::SlashCommand(x) => ActionView::SlashCommand(x@),
            Action::CancelStream => ActionView::CancelStream,
            Action::Approve => ActionView::Approve,
            Action::Deny => ActionView::Deny,
            Action::UserAnswer(x) => ActionView::UserAnswer(x@),
            Action::ConfigSet { key, value } => ActionView::ConfigSet {
                key: key@,
                value: value@,
            },
            Action::SaveEditorFile { path, content } => ActionView::SaveEditorFile {
                path: path@,
                content: content@,
            },
            Action::AcceptDiff { tool_id } => ActionView::AcceptDiff {
                tool_id: tool_id@,
            },
            Action::RejectDiff { tool_id } => ActionView::RejectDiff {
                tool_id: tool_id@,
            },
            Action::Steer(x) => ActionView::Steer(x@),
            Action::Quit => ActionView::Quit,
        }
    }
}

impl Dup for Action {
    fn dup(&self) -> (r: Action) {
        match self {
            Action::SendMessage(x) => Action::SendMessage(x.as_str().to_string()),
            Action::SlashCommand(x) => Action::SlashCommand(x.as_str().to_string()),
            Action::CancelStream => Action::CancelStream,
            Action::Approve => Action::Approve,
            Action::Deny => Action::Deny,
            Action::UserAnswer(x) => Action::UserAnswer(x.as_str().to_string()),
            Action::ConfigSet { key, value } => Action::ConfigSet {
                key: key.as_str().to_string(),
                value: value.as_str().to_string(),
            },
            Action::SaveEditorFile { path, content } => Action::SaveEditorFile {
                path: path.as_str().to_string(),
                content: content.as_str().to_string(),
            },
            Action::AcceptDiff { tool_id } => Action::AcceptDiff {
                tool_id: tool_id.as_str().to_string(),
            },
            Action::RejectDiff { tool_id } => Action::RejectDiff {
                tool_id: tool_id.as_str().to_string(),
            },
            Action::Steer(x) => Action::Steer(x.as_str().to_string()),
            Action::Quit => Action::Quit,
        }
    }
}

impl Clone for Action {
    fn clone(&self) -> (r: Self)
        ensures
            r@ == self@,
    {
        self.dup()
    }
}

} // verus!
