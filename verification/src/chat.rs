//! The chat display: what it holds, and what each word from the engine changes.

use crate::dup;
use crate::index::Timestamp;
use crate::number::{self, show, show_u64};
use crate::split;
use crate::text::{self, cat2, cat3, cat5, empty, same};
use crate::ui::{
    self, ConfigState, ConfigStateView, DiffLine, DiffLineView, FileText, FileTextView,
    HistoryEntry, Named, NamedView, Opened, StatusInfo, UiUpdate,
};
use vstd::prelude::*;

verus! {

broadcast use {split::lemma_texts_push, split::lemma_views_push};

/// Who or what an entry of the display comes from.
#[derive(Clone, Copy, Debug, PartialEq, Eq, Structural)]
pub enum EntryRole {
    User,
    Assistant,
    ToolCall,
    ToolResult { is_error: bool },
    /// The final summary of a task.
    Summary,
    /// The outcome of a note sent while the model worked.
    Steer,
    System,
    Error,
}

/// One entry of the display.
#[derive(Debug)]
pub struct ChatEntry {
    pub role: EntryRole,
    pub content: String,
    /// The tool of a call or a result; empty otherwise.
    pub tool_name: String,
    /// When the entry came.
    pub time: Timestamp,
}

/// The model of [`ChatEntry`].
#[verifier::ext_equal]
pub struct ChatEntryView {
    pub role: EntryRole,
    pub content: Seq<char>,
    pub tool_name: Seq<char>,
    pub time: Timestamp,
}

impl View for ChatEntry {
    type V = ChatEntryView;

    open spec fn view(&self) -> ChatEntryView {
        ChatEntryView {
            role: self.role,
            content: self.content@,
            tool_name: self.tool_name@,
            time: self.time,
        }
    }
}

/// A command that the input line suggests.
#[derive(Debug)]
pub struct CmdDef {
    pub cmd: String,
    pub args: String,
    pub desc: String,
}

/// The model of [`CmdDef`].
#[verifier::ext_equal]
pub struct CmdDefView {
    pub cmd: Seq<char>,
    pub args: Seq<char>,
    pub desc: Seq<char>,
}

impl View for CmdDef {
    type V = CmdDefView;

    open spec fn view(&self) -> CmdDefView {
        CmdDefView {
            cmd: self.cmd@,
            args: self.args@,
            desc: self.desc@,
        }
    }
}

/// The configuration menu.
#[derive(Debug)]
pub struct ConfigMenu {
    pub state: ConfigState,
    /// Whether text appears letter by letter.
    pub typewriter: bool,
}

/// The model of [`ConfigMenu`].
#[verifier::ext_equal]
pub struct ConfigMenuView {
    pub state: ConfigStateView,
    pub typewriter: bool,
}

impl View for ConfigMenu {
    type V = ConfigMenuView;

    open spec fn view(&self) -> ConfigMenuView {
        ConfigMenuView {
            state: self.state@,
            typewriter: self.typewriter,
        }
    }
}

/// The pane that compares two texts of a file.
#[derive(Debug)]
pub struct DiffPane {
    pub path: String,
    pub diff: Vec<DiffLine>,
}

/// The model of [`DiffPane`].
#[verifier::ext_equal]
pub struct DiffPaneView {
    pub path: Seq<char>,
    pub diff: Seq<DiffLineView>,
}

impl View for DiffPane {
    type V = DiffPaneView;

    open spec fn view(&self) -> DiffPaneView {
        DiffPaneView {
            path: self.path@,
            diff: split::views(self.diff@),
        }
    }
}

/// The editor.
#[derive(Debug)]
pub struct EditorPane {
    pub path: String,
    pub content: String,
    /// Whether there are changes that were not saved.
    pub modified: bool,
}

/// The model of [`EditorPane`].
#[verifier::ext_equal]
pub struct EditorPaneView {
    pub path: Seq<char>,
    pub content: Seq<char>,
    pub modified: bool,
}

impl View for EditorPane {
    type V = EditorPaneView;

    open spec fn view(&self) -> EditorPaneView {
        EditorPaneView {
            path: self.path@,
            content: self.content@,
            modified: self.modified,
        }
    }
}

/// The state of the chat display.
#[derive(Debug)]
pub struct ChatView {
    pub entries: Vec<ChatEntry>,
    /// The lines that were sent, oldest first.
    pub input_history: Vec<String>,
    /// The line of the history in the input; negative when there is none.
    pub history_idx: i32,
    /// What stood in the input before the history was walked.
    pub history_draft: String,
    /// The commands that can be suggested: those built in, then those of the
    /// user.
    pub suggestions_defs: Vec<CmdDef>,
    /// Those suggested now, by their place in `suggestions_defs`.
    pub suggestions: Vec<usize>,
    /// Whether an answer is coming in.
    pub streaming: bool,
    /// What has come of it so far.
    pub stream_buf: String,
    /// How many tools the current goal has called.
    pub tool_iterations: usize,
    pub active_goal: String,
    pub current_tool: String,
    /// What a running command has printed, shown inside its bubble.
    pub tool_stream_buf: String,
    pub rate_limited: bool,
    /// How long is left to wait.
    pub rate_limit_secs: u32,
    /// How long the wait was to begin with.
    pub rate_limit_total: u32,
    /// Whether the next attempt to cancel with nothing to cancel quits.
    pub quit_armed: bool,
    /// The command that waits for approval.
    pub approval_pending: Option<String>,
    /// The question of the model that waits for an answer.
    pub ask_pending: Option<String>,
    pub config_menu: Option<ConfigMenu>,
    /// The read-only pane.
    pub viewer: Option<FileText>,
    pub diff_pane: Option<DiffPane>,
    pub editor: Option<EditorPane>,
    /// The edit that waits for the user to accept or reject it.
    pub pending_diff_tool_id: Option<String>,
    pub content_height: u16,
    pub viewport_height: u16,
    /// Whether the view follows the newest entry.
    pub at_bottom: bool,
    /// Whether the view is to jump to the bottom in the next frame rather than
    /// glide there.
    pub jump_to_bottom: bool,
    /// Whether something came in while the view was scrolled up.
    pub new_content_arrived: bool,
    pub width: u16,
    pub height: u16,
    pub provider: String,
    pub model: String,
    pub work_dir: String,
    pub status_color: Option<[u8; 3]>,
    pub frame: u64,
    pub skills: Vec<Named>,
    /// The skills that fit the last message.
    pub last_skill_matches: Vec<Named>,
    pub typewriter_enabled: bool,
    pub typewriter_pos: usize,
    /// How many of the commands are built in.
    pub builtin_cmd_count: usize,
}

/// The model of [`ChatView`].
pub struct ChatModel {
    pub entries: Seq<ChatEntryView>,
    pub input_history: Seq<Seq<char>>,
    pub history_idx: i32,
    pub history_draft: Seq<char>,
    pub suggestions_defs: Seq<CmdDefView>,
    pub suggestions: Seq<usize>,
    pub streaming: bool,
    pub stream_buf: Seq<char>,
    pub tool_iterations: usize,
    pub active_goal: Seq<char>,
    pub current_tool: Seq<char>,
    pub tool_stream_buf: Seq<char>,
    pub rate_limited: bool,
    pub rate_limit_secs: u32,
    pub rate_limit_total: u32,
    pub quit_armed: bool,
    pub approval_pending: Option<Seq<char>>,
    pub ask_pending: Option<Seq<char>>,
    pub config_menu: Option<ConfigMenuView>,
    pub viewer: Option<FileTextView>,
    pub diff_pane: Option<DiffPaneView>,
    pub editor: Option<EditorPaneView>,
    pub pending_diff_tool_id: Option<Seq<char>>,
    pub content_height: u16,
    pub viewport_height: u16,
    pub at_bottom: bool,
    pub jump_to_bottom: bool,
    pub new_content_arrived: bool,
    pub width: u16,
    pub height: u16,
    pub provider: Seq<char>,
    pub model: Seq<char>,
    pub work_dir: Seq<char>,
    pub status_color: Option<[u8; 3]>,
    pub frame: u64,
    pub skills: Seq<NamedView>,
    pub last_skill_matches: Seq<NamedView>,
    pub typewriter_enabled: bool,
    pub typewriter_pos: usize,
    pub builtin_cmd_count: usize,
}

impl View for ChatView {
    type V = ChatModel;

    open spec fn view(&self) -> ChatModel {
        ChatModel {
            entries: split::views(self.entries@),
            input_history: split::texts(self.input_history@),
            history_idx: self.history_idx,
            history_draft: self.history_draft@,
            suggestions_defs: split::views(self.suggestions_defs@),
            suggestions: self.suggestions@,
            streaming: self.streaming,
            stream_buf: self.stream_buf@,
            tool_iterations: self.tool_iterations,
            active_goal: self.active_goal@,
            current_tool: self.current_tool@,
            tool_stream_buf: self.tool_stream_buf@,
            rate_limited: self.rate_limited,
            rate_limit_secs: self.rate_limit_secs,
            rate_limit_total: self.rate_limit_total,
            quit_armed: self.quit_armed,
            approval_pending: split::opt_text(self.approval_pending),
            ask_pending: split::opt_text(self.ask_pending),
            config_menu: dup::opt_view(self.config_menu),
            viewer: dup::opt_view(self.viewer),
            diff_pane: dup::opt_view(self.diff_pane),
            editor: dup::opt_view(self.editor),
            pending_diff_tool_id: split::opt_text(self.pending_diff_tool_id),
            content_height: self.content_height,
            viewport_height: self.viewport_height,
            at_bottom: self.at_bottom,
            jump_to_bottom: self.jump_to_bottom,
            new_content_arrived: self.new_content_arrived,
            width: self.width,
            height: self.height,
            provider: self.provider@,
            model: self.model@,
            work_dir: self.work_dir@,
            status_color: self.status_color,
            frame: self.frame,
            skills: split::views(self.skills@),
            last_skill_matches: split::views(self.last_skill_matches@),
            typewriter_enabled: self.typewriter_enabled,
            typewriter_pos: self.typewriter_pos,
            builtin_cmd_count: self.builtin_cmd_count,
        }
    }
}

/// An entry with no tool.
pub open spec fn entry_of(role: EntryRole, content: Seq<char>, now: Timestamp) -> ChatEntryView {
    ChatEntryView { role, content, tool_name: Seq::empty(), time: now }
}

/// The entry that shows one of a loaded conversation: a call of a tool shows
/// its input, every other its content.
pub open spec fn chat_entry_of(e: ui::HistoryEntryView, now: Timestamp) -> ChatEntryView {
    let role = if e.role == "assistant"@ && e.tool_name.len() > 0 {
        EntryRole::ToolCall
    } else if e.role == "tool"@ {
        EntryRole::ToolResult { is_error: e.is_error }
    } else if e.role == "assistant"@ {
        EntryRole::Assistant
    } else {
        EntryRole::User
    };
    ChatEntryView {
        role,
        content: if role == EntryRole::ToolCall {
            e.tool_input
        } else {
            e.content
        },
        tool_name: e.tool_name,
        time: now,
    }
}

/// The commands of the user as the input line suggests them.
pub open spec fn suggested(defs: Seq<ui::CommandDefView>) -> Seq<CmdDefView> {
    defs.map_values(
        |d: ui::CommandDefView| CmdDefView { cmd: "/"@ + d.name, args: d.args, desc: d.description },
    )
}

impl ChatModel {
    /// The display once something came in: where the view is scrolled up, that
    /// is noted.
    pub open spec fn noted(self) -> ChatModel {
        ChatModel { new_content_arrived: self.new_content_arrived || !self.at_bottom, ..self }
    }

    /// The display with one more entry.
    pub open spec fn with(self, e: ChatEntryView) -> ChatModel {
        ChatModel { entries: self.entries.push(e), ..self }.noted()
    }

    /// The display with what has come of an answer, if anything, made an entry.
    pub open spec fn committed(self, now: Timestamp) -> ChatModel {
        if self.stream_buf.len() > 0 {
            ChatModel {
                entries: self.entries.push(entry_of(EntryRole::Assistant, self.stream_buf, now)),
                stream_buf: Seq::empty(),
                ..self
            }
        } else {
            self
        }
    }

    /// The display with no pane open.
    pub open spec fn without_panes(self) -> ChatModel {
        ChatModel { viewer: None, diff_pane: None, editor: None, ..self }
    }

    /// Whether at most one of the panes is open.
    pub open spec fn one_pane(self) -> bool {
        &&& self.viewer is Some ==> self.diff_pane is None && self.editor is None
        &&& self.diff_pane is Some ==> self.editor is None
    }

    /// The display filled with a loaded conversation.
    pub open spec fn loaded(self, es: Seq<ui::HistoryEntryView>, now: Timestamp) -> ChatModel {
        ChatModel {
            entries: es.map_values(|e: ui::HistoryEntryView| chat_entry_of(e, now)),
            at_bottom: true,
            jump_to_bottom: true,
            stream_buf: Seq::empty(),
            streaming: false,
            current_tool: Seq::empty(),
            tool_iterations: 0,
            ..self
        }
    }

    /// The display once a piece of an answer came in.
    pub open spec fn streamed(self, chunk: Seq<char>) -> ChatModel {
        ChatModel {
            typewriter_pos: if self.streaming {
                self.typewriter_pos
            } else {
                0
            },
            streaming: true,
            stream_buf: self.stream_buf + chunk,
            ..self
        }.noted()
    }

    /// The display once a tool was called: what the model said before stands
    /// above the call. The signal that a task is done is not shown.
    pub open spec fn called(self, name: Seq<char>, input: Seq<char>, now: Timestamp) -> ChatModel {
        if name == "mark_complete"@ {
            self
        } else {
            ChatModel {
                current_tool: name,
                tool_iterations: (self.tool_iterations + 1) as usize,
                tool_stream_buf: Seq::empty(),
                ..self
            }.committed(now).with(
                ChatEntryView {
                    role: EntryRole::ToolCall,
                    content: input,
                    tool_name: name,
                    time: now,
                },
            )
        }
    }

    /// The display once a tool is done.
    pub open spec fn returned(
        self,
        name: Seq<char>,
        output: Seq<char>,
        is_error: bool,
        now: Timestamp,
    ) -> ChatModel {
        if name == "mark_complete"@ {
            self
        } else {
            ChatModel { tool_stream_buf: Seq::empty(), ..self }.with(
                ChatEntryView {
                    role: EntryRole::ToolResult { is_error },
                    content: output,
                    tool_name: name,
                    time: now,
                },
            )
        }
    }

    /// The display once the provider asked for a pause.
    pub open spec fn paused(self, secs: u32, now: Timestamp) -> ChatModel {
        ChatModel {
            rate_limited: true,
            rate_limit_secs: secs,
            rate_limit_total: secs,
            streaming: false,
            ..self
        }.with(
            entry_of(
                EntryRole::System,
                "Rate limited. Resuming automatically in "@ + number::decimal(secs as nat)
                    + "s..."@,
                now,
            ),
        )
    }

    /// The display once a goal is reached.
    pub open spec fn completed(self, tool_count: usize, now: Timestamp) -> ChatModel {
        let v = ChatModel {
            streaming: false,
            current_tool: Seq::empty(),
            typewriter_pos: 0,
            ..self
        }.committed(now);
        let said = if tool_count > 0 {
            v.with(
                entry_of(
                    EntryRole::System,
                    "Goal complete. ("@ + number::decimal(tool_count as nat) + " tool calls)"@,
                    now,
                ),
            )
        } else {
            v
        };
        ChatModel { active_goal: Seq::empty(), tool_iterations: 0, ..said }.noted()
    }

    /// The display once the settings came: an open menu shows them, a closed one
    /// opens if it is to.
    pub open spec fn configured(self, state: ui::ConfigStateView, open: bool) -> ChatModel {
        match self.config_menu {
            Some(menu) => ChatModel {
                config_menu: Some(ConfigMenuView { state, ..menu }),
                ..self
            },
            None => if open {
                ChatModel {
                    config_menu: Some(
                        ConfigMenuView { state, typewriter: self.typewriter_enabled },
                    ),
                    ..self
                }
            } else {
                self
            },
        }
    }

    /// The display once a file was saved: an editor that shows it has no changes
    /// left.
    pub open spec fn saved(self, path: Seq<char>) -> ChatModel {
        match self.editor {
            Some(e) => if e.path == path {
                ChatModel { editor: Some(EditorPaneView { modified: false, ..e }), ..self }
            } else {
                self
            },
            None => self,
        }
    }

    /// The display once the status came.
    pub open spec fn informed(self, info: ui::StatusInfoView) -> ChatModel {
        ChatModel {
            provider: info.provider,
            model: info.model,
            work_dir: info.work_dir,
            status_color: info.status_color,
            ..self
        }
    }

    /// The display with a file in the read-only pane.
    pub open spec fn viewing(self, f: FileTextView) -> ChatModel {
        ChatModel { viewer: Some(f), ..self.without_panes() }
    }

    /// The display with a file in the editor.
    pub open spec fn editing(self, f: FileTextView) -> ChatModel {
        ChatModel {
            editor: Some(EditorPaneView { path: f.path, content: f.content, modified: false }),
            ..self.without_panes()
        }
    }

    /// The display with a comparison.
    pub open spec fn comparing(self, path: Seq<char>, diff: Seq<DiffLineView>) -> ChatModel {
        ChatModel { diff_pane: Some(DiffPaneView { path, diff }), ..self.without_panes() }
    }

    /// The display once a running command printed something.
    pub open spec fn printed(self, chunk: Seq<char>) -> ChatModel {
        ChatModel { tool_stream_buf: self.tool_stream_buf + chunk, ..self }.noted()
    }

    /// The display once the commands of the user came: they stand behind those
    /// built in.
    pub open spec fn suggesting(self, defs: Seq<ui::CommandDefView>) -> ChatModel {
        ChatModel {
            suggestions_defs: first_commands(self.suggestions_defs, self.builtin_cmd_count as nat)
                + suggested(defs),
            ..self
        }
    }

    /// The display after a word from the engine that came at `now`.
    pub open spec fn after(self, update: ui::UiUpdateView, now: Timestamp) -> ChatModel {
        match update {
            ui::UiUpdateView::HistoryLoaded(es) => self.loaded(es, now),
            ui::UiUpdateView::StreamChunk(chunk) => self.streamed(chunk),
            ui::UiUpdateView::ToolCall { name, input } => self.called(name, input, now),
            ui::UiUpdateView::ToolResult { name, output, is_error } => self.returned(
                name,
                output,
                is_error,
                now,
            ),
            ui::UiUpdateView::Summary(s) => self.with(entry_of(EntryRole::Summary, s, now)),
            ui::UiUpdateView::SteerResult(s) => self.with(entry_of(EntryRole::Steer, s, now)),
            ui::UiUpdateView::SystemMsg(s) => self.with(entry_of(EntryRole::System, s, now)),
            ui::UiUpdateView::ErrorMsg(s) => self.with(entry_of(EntryRole::Error, s, now)),
            ui::UiUpdateView::RateLimited { secs } => self.paused(secs, now),
            ui::UiUpdateView::GoalComplete { tool_count } => self.completed(tool_count, now),
            ui::UiUpdateView::StatusUpdate(info) => self.informed(info),
            ui::UiUpdateView::AwaitingApproval { cmd } => ChatModel {
                approval_pending: Some(cmd),
                ..self
            },
            ui::UiUpdateView::AskUser { question } => ChatModel {
                ask_pending: Some(question),
                ..self
            },
            ui::UiUpdateView::ConfigState { state, open } => self.configured(state, open),
            ui::UiUpdateView::OpenViewer(ui::OpenedView::File(f)) => self.viewing(f),
            ui::UiUpdateView::OpenEditor(ui::OpenedView::File(f)) => self.editing(f),
            ui::UiUpdateView::OpenViewer(ui::OpenedView::Failed(s)) => self.with(
                entry_of(EntryRole::Error, s, now),
            ),
            ui::UiUpdateView::OpenEditor(ui::OpenedView::Failed(s)) => self.with(
                entry_of(EntryRole::Error, s, now),
            ),
            ui::UiUpdateView::OpenDiff { path, diff } => self.comparing(path, diff),
            ui::UiUpdateView::EditorSaved { path } => self.saved(path),
            ui::UiUpdateView::SkillsLoaded(s) => ChatModel { skills: s, ..self },
            ui::UiUpdateView::SkillMatches(s) => ChatModel { last_skill_matches: s, ..self },
            ui::UiUpdateView::TierSelected { score, tier } => self.with(
                entry_of(EntryRole::System, tier_note(score, tier), now),
            ),
            ui::UiUpdateView::UserCommandsLoaded(defs) => self.suggesting(defs),
            ui::UiUpdateView::ToolStreamChunk { chunk } => self.printed(chunk),
            ui::UiUpdateView::DiffPreview { tool_id, path, diff } => ChatModel {
                pending_diff_tool_id: Some(tool_id),
                ..self.comparing(path, diff)
            },
            _ => self,
        }
    }

    /// The display a second further into a pause.
    pub open spec fn ticked(self) -> ChatModel {
        if self.rate_limited && self.rate_limit_secs > 0 {
            ChatModel {
                rate_limit_secs: (self.rate_limit_secs - 1) as u32,
                rate_limited: self.rate_limit_secs > 1,
                ..self
            }
        } else {
            self
        }
    }

    /// The display `n` seconds further into a pause.
    pub open spec fn ticked_for(self, n: nat) -> ChatModel
        decreases n,
    {
        if n == 0 {
            self
        } else {
            self.ticked().ticked_for((n - 1) as nat)
        }
    }
}

/// What is said of the tier that a message was given.
pub open spec fn tier_note(score: u8, tier: Seq<char>) -> Seq<char> {
    "difficulty "@ + number::decimal(score as nat) + "/100 → "@ + tier + " tier"@
}

/// The first `n` commands of a list, or all where there are fewer.
pub open spec fn first_commands(s: Seq<CmdDefView>, n: nat) -> Seq<CmdDefView> {
    if s.len() > n {
        s.take(n as int)
    } else {
        s
    }
}

fn entry(role: EntryRole, content: String, now: Timestamp) -> (r: ChatEntry)
    ensures
        r@ == entry_of(role, content@, now),
{
    ChatEntry { role, content, tool_name: empty(), time: now }
}

fn say_tier(score: u8, tier: &str) -> (r: String)
    ensures
        r@ == tier_note(score, tier@),
{
    cat5("difficulty ", show_u64(score as u64).as_str(), "/100 → ", tier, " tier")
}

/// The entry that shows one of a loaded conversation.
fn history_entry_to_chat(e: &HistoryEntry, now: Timestamp) -> (r: ChatEntry)
    ensures
        r@ == chat_entry_of(e@, now),
{
    let role = if same(e.role.as_str(), "assistant") && !same(e.tool_name.as_str(), "") {
        proof {
            reveal_strlit("");
        }
        EntryRole::ToolCall
    } else if same(e.role.as_str(), "tool") {
        EntryRole::ToolResult { is_error: e.is_error }
    } else if same(e.role.as_str(), "assistant") {
        EntryRole::Assistant
    } else {
        EntryRole::User
    };
    proof {
        reveal_strlit("");
        assert(e.tool_name@.len() == 0 <==> e.tool_name@ =~= ""@);
    }
    let content = match role {
        EntryRole::ToolCall => e.tool_input.as_str().to_string(),
        _ => e.content.as_str().to_string(),
    };
    ChatEntry { role, content, tool_name: e.tool_name.as_str().to_string(), time: now }
}

fn history_entries_to_chat(es: &Vec<HistoryEntry>, now: Timestamp) -> (r: Vec<ChatEntry>)
    ensures
        split::views(r@) == split::views(es@).map_values(
            |e: ui::HistoryEntryView| chat_entry_of(e, now),
        ),
{
    let ghost all = split::views(es@).map_values(|e: ui::HistoryEntryView| chat_entry_of(e, now));
    let mut out: Vec<ChatEntry> = Vec::new();
    let mut i: usize = 0;
    while i < es.len()
        invariant
            i <= es@.len(),
            all == split::views(es@).map_values(|e: ui::HistoryEntryView| chat_entry_of(e, now)),
            split::views(out@) =~= all.take(i as int),
        decreases es@.len() - i,
    {
        assert(split::views(es@)[i as int] == es@[i as int]@);
        out.push(history_entry_to_chat(&es[i], now));
        i += 1;
    }
    out
}

impl ChatView {
    /// An empty display that can suggest `commands`.
    pub fn new(width: u16, height: u16, commands: Vec<CmdDef>) -> (r: ChatView)
        ensures
            r@ == (ChatModel {
                entries: Seq::empty(),
                input_history: Seq::empty(),
                history_idx: -1 as i32,
                history_draft: Seq::empty(),
                suggestions_defs: split::views(commands@),
                suggestions: Seq::empty(),
                streaming: false,
                stream_buf: Seq::empty(),
                tool_iterations: 0,
                active_goal: Seq::empty(),
                current_tool: Seq::empty(),
                tool_stream_buf: Seq::empty(),
                rate_limited: false,
                rate_limit_secs: 0,
                rate_limit_total: 0,
                quit_armed: false,
                approval_pending: None,
                ask_pending: None,
                config_menu: None,
                viewer: None,
                diff_pane: None,
                editor: None,
                pending_diff_tool_id: None,
                content_height: 0,
                viewport_height: 1,
                at_bottom: true,
                jump_to_bottom: false,
                new_content_arrived: false,
                width,
                height,
                provider: Seq::empty(),
                model: Seq::empty(),
                work_dir: Seq::empty(),
                status_color: None,
                frame: 0,
                skills: Seq::empty(),
                last_skill_matches: Seq::empty(),
                typewriter_enabled: false,
                typewriter_pos: 0,
                builtin_cmd_count: commands@.len() as usize,
            }),
            r@.one_pane(),
    {
        let builtin_cmd_count: usize = commands.len();
        let r = ChatView {
            entries: Vec::new(),
            input_history: Vec::new(),
            history_idx: -1,
            history_draft: empty(),
            suggestions_defs: commands,
            suggestions: Vec::new(),
            streaming: false,
            stream_buf: empty(),
            tool_iterations: 0,
            active_goal: empty(),
            current_tool: empty(),
            tool_stream_buf: empty(),
            rate_limited: false,
            rate_limit_secs: 0,
            rate_limit_total: 0,
            quit_armed: false,
            approval_pending: None,
            ask_pending: None,
            config_menu: None,
            viewer: None,
            diff_pane: None,
            editor: None,
            pending_diff_tool_id: None,
            content_height: 0,
            viewport_height: 1,
            at_bottom: true,
            jump_to_bottom: false,
            new_content_arrived: false,
            width,
            height,
            provider: empty(),
            model: empty(),
            work_dir: empty(),
            status_color: None,
            frame: 0,
            skills: Vec::new(),
            last_skill_matches: Vec::new(),
            typewriter_enabled: false,
            typewriter_pos: 0,
            builtin_cmd_count,
        };
        assert(r@.entries =~= Seq::empty());
        assert(r@.input_history =~= Seq::empty());
        assert(r@.suggestions =~= Seq::empty());
        assert(r@.skills =~= Seq::empty());
        assert(r@.last_skill_matches =~= Seq::empty());
        r
    }

    /// Takes the size of the screen.
    pub fn resize(&mut self, width: u16, height: u16)
        ensures
            final(self)@ == (ChatModel { width, height, ..old(self)@ }),
    {
        self.width = width;
        self.height = height;
    }

    fn maybe_scroll_to_bottom(&mut self)
        ensures
            final(self)@ == old(self)@.noted(),
    {
        self.new_content_arrived = self.new_content_arrived || !self.at_bottom;
    }

    fn push(&mut self, e: ChatEntry)
        ensures
            final(self)@ == old(self)@.with(e@),
    {
        self.entries.push(e);
        self.maybe_scroll_to_bottom();
    }

    fn commit(&mut self, now: Timestamp)
        ensures
            final(self)@ == old(self)@.committed(now),
    {
        proof {
            reveal_strlit("");
            assert(self.stream_buf@.len() == 0 <==> self.stream_buf@ =~= ""@);
        }
        if !same(self.stream_buf.as_str(), "") {
            let text = self.stream_buf.as_str().to_string();
            self.stream_buf = empty();
            self.entries.push(entry(EntryRole::Assistant, text, now));
        }
    }

    /// Shows a word of the system.
    pub fn add_system(&mut self, text: &str, now: Timestamp)
        ensures
            final(self)@ == old(self)@.with(entry_of(EntryRole::System, text@, now)),
    {
        self.push(entry(EntryRole::System, text.to_string(), now));
    }

    /// Shows an error.
    pub fn add_error(&mut self, text: &str, now: Timestamp)
        ensures
            final(self)@ == old(self)@.with(entry_of(EntryRole::Error, text@, now)),
    {
        self.push(entry(EntryRole::Error, text.to_string(), now));
    }

    /// Closes whichever pane is open. The keys go to the panes in a fixed order,
    /// so before one opens the others close.
    pub fn close_overlay_panes(&mut self)
        ensures
            final(self)@ == old(self)@.without_panes(),
    {
        self.viewer = None;
        self.diff_pane = None;
        self.editor = None;
    }

    fn history_loaded(&mut self, es: &Vec<HistoryEntry>, now: Timestamp)
        ensures
            final(self)@ == old(self)@.loaded(split::views(es@), now),
    {
        self.entries = history_entries_to_chat(es, now);
        self.at_bottom = true;
        self.jump_to_bottom = true;
        self.stream_buf = empty();
        self.streaming = false;
        self.current_tool = empty();
        self.tool_iterations = 0;
    }

    fn stream_chunk(&mut self, chunk: &str)
        ensures
            final(self)@ == old(self)@.streamed(chunk@),
    {
        if !self.streaming {
            self.typewriter_pos = 0;
        }
        self.streaming = true;
        self.stream_buf = cat2(self.stream_buf.as_str(), chunk);
        self.maybe_scroll_to_bottom();
    }

    fn tool_called(&mut self, name: String, input: String, now: Timestamp)
        requires
            old(self).tool_iterations < usize::MAX,
        ensures
            final(self)@ == old(self)@.called(name@, input@, now),
    {
        if same(name.as_str(), "mark_complete") {
            return;
        }
        self.current_tool = name.as_str().to_string();
        self.tool_iterations = self.tool_iterations + 1;
        self.tool_stream_buf = empty();
        self.commit(now);
        self.push(ChatEntry { role: EntryRole::ToolCall, content: input, tool_name: name, time: now });
    }

    fn tool_returned(&mut self, name: String, output: String, is_error: bool, now: Timestamp)
        ensures
            final(self)@ == old(self)@.returned(name@, output@, is_error, now),
    {
        if same(name.as_str(), "mark_complete") {
            return;
        }
        self.tool_stream_buf = empty();
        self.push(
            ChatEntry {
                role: EntryRole::ToolResult { is_error },
                content: output,
                tool_name: name,
                time: now,
            },
        );
    }

    fn rate_limit(&mut self, secs: u32, now: Timestamp)
        ensures
            final(self)@ == old(self)@.paused(secs, now),
    {
        self.rate_limited = true;
        self.rate_limit_secs = secs;
        self.rate_limit_total = secs;
        self.streaming = false;
        let said = cat3(
            "Rate limited. Resuming automatically in ",
            show_u64(secs as u64).as_str(),
            "s...",
        );
        self.add_system(said.as_str(), now);
    }

    fn goal_complete(&mut self, tool_count: usize, now: Timestamp)
        ensures
            final(self)@ == old(self)@.completed(tool_count, now),
    {
        self.streaming = false;
        self.current_tool = empty();
        self.typewriter_pos = 0;
        self.commit(now);
        if tool_count > 0 {
            let said = cat3("Goal complete. (", show(tool_count).as_str(), " tool calls)");
            self.add_system(said.as_str(), now);
        }
        self.active_goal = empty();
        self.tool_iterations = 0;
        self.maybe_scroll_to_bottom();
    }

    fn config_state(&mut self, state: ConfigState, open: bool)
        ensures
            final(self)@ == old(self)@.configured(state@, open),
    {
        let typewriter = match &self.config_menu {
            Some(menu) => Some(menu.typewriter),
            None => if open {
                Some(self.typewriter_enabled)
            } else {
                None
            },
        };
        if let Some(typewriter) = typewriter {
            self.config_menu = Some(ConfigMenu { state, typewriter });
        }
    }

    fn editor_saved(&mut self, path: &str)
        ensures
            final(self)@ == old(self)@.saved(path@),
    {
        let content = match &self.editor {
            Some(e) => if same(e.path.as_str(), path) {
                Some(e.content.as_str().to_string())
            } else {
                None
            },
            None => None,
        };
        if let Some(content) = content {
            self.editor = Some(EditorPane { path: path.to_string(), content, modified: false });
        }
    }

    fn user_commands(&mut self, defs: &Vec<ui::CommandDef>)
        ensures
            final(self)@ == old(self)@.suggesting(split::views(defs@)),
    {
        let n: usize = self.builtin_cmd_count;
        let ghost builtin = first_commands(self@.suggestions_defs, n as nat);
        let ghost more = suggested(split::views(defs@));
        self.suggestions_defs.truncate(n);
        assert(split::views(self.suggestions_defs@) =~= builtin);
        let mut i: usize = 0;
        while i < defs.len()
            invariant
                i <= defs@.len(),
                more == suggested(split::views(defs@)),
                split::views(self.suggestions_defs@) =~= builtin + more.take(i as int),
                self@ == (ChatModel { suggestions_defs: self@.suggestions_defs, ..old(self)@ }),
            decreases defs@.len() - i,
        {
            let d = &defs[i];
            assert(split::views(defs@)[i as int] == d@);
            self.suggestions_defs.push(
                CmdDef {
                    cmd: cat2("/", d.name.as_str()),
                    args: d.args.as_str().to_string(),
                    desc: d.description.as_str().to_string(),
                },
            );
            i += 1;
        }
        assert(more.take(i as int) =~= more);
    }

    fn status(&mut self, info: StatusInfo)
        ensures
            final(self)@ == old(self)@.informed(info@),
    {
        self.provider = info.provider;
        self.model = info.model;
        self.work_dir = info.work_dir;
        self.status_color = info.status_color;
    }

    fn view_file(&mut self, f: FileText)
        ensures
            final(self)@ == old(self)@.viewing(f@),
    {
        self.close_overlay_panes();
        self.viewer = Some(f);
    }

    fn edit_file(&mut self, f: FileText)
        ensures
            final(self)@ == old(self)@.editing(f@),
    {
        self.close_overlay_panes();
        self.editor = Some(EditorPane { path: f.path, content: f.content, modified: false });
    }

    fn compare_file(&mut self, path: String, diff: Vec<DiffLine>)
        ensures
            final(self)@ == old(self)@.comparing(path@, split::views(diff@)),
    {
        self.close_overlay_panes();
        self.diff_pane = Some(DiffPane { path, diff });
    }

    fn tool_chunk(&mut self, chunk: &str)
        ensures
            final(self)@ == old(self)@.printed(chunk@),
    {
        self.tool_stream_buf = cat2(self.tool_stream_buf.as_str(), chunk);
        self.maybe_scroll_to_bottom();
    }

    /// Takes a word from the engine that came at `now`.
    #[verifier::spinoff_prover]
    pub fn apply_update(&mut self, update: UiUpdate, now: Timestamp)
        requires
            update@ is ToolCall ==> old(self).tool_iterations < usize::MAX,
        ensures
            final(self)@ == old(self)@.after(update@, now),
    {
        match update {
            UiUpdate::HistoryLoaded(es) => self.history_loaded(&es, now),
            UiUpdate::StreamChunk(chunk) => self.stream_chunk(chunk.as_str()),
            UiUpdate::ToolCall { name, input } => self.tool_called(name, input, now),
            UiUpdate::ToolResult { name, output, is_error } => self.tool_returned(
                name,
                output,
                is_error,
                now,
            ),
            UiUpdate::Summary(s) => self.push(entry(EntryRole::Summary, s, now)),
            UiUpdate::SteerResult(s) => self.push(entry(EntryRole::Steer, s, now)),
            UiUpdate::SystemMsg(s) => self.add_system(s.as_str(), now),
            UiUpdate::ErrorMsg(s) => self.add_error(s.as_str(), now),
            UiUpdate::RateLimited { secs } => self.rate_limit(secs, now),
            UiUpdate::GoalComplete { tool_count } => self.goal_complete(tool_count, now),
            UiUpdate::StatusUpdate(info) => self.status(info),
            UiUpdate::AwaitingApproval { cmd } => {
                self.approval_pending = Some(cmd);
            },
            UiUpdate::AskUser { question } => {
                self.ask_pending = Some(question);
            },
            UiUpdate::ConfigState { state, open } => self.config_state(state, open),
            UiUpdate::OpenViewer(Opened::File(f)) => self.view_file(f),
            UiUpdate::OpenEditor(Opened::File(f)) => self.edit_file(f),
            UiUpdate::OpenViewer(Opened::Failed(s)) => self.add_error(s.as_str(), now),
            UiUpdate::OpenEditor(Opened::Failed(s)) => self.add_error(s.as_str(), now),
            UiUpdate::OpenDiff { path, diff } => self.compare_file(path, diff),
            UiUpdate::EditorSaved { path } => self.editor_saved(path.as_str()),
            UiUpdate::SkillsLoaded(s) => {
                self.skills = s;
            },
            UiUpdate::SkillMatches(s) => {
                self.last_skill_matches = s;
            },
            UiUpdate::TierSelected { score, tier } => {
                let said = say_tier(score, tier.as_str());
                self.add_system(said.as_str(), now);
            },
            UiUpdate::UserCommandsLoaded(defs) => self.user_commands(&defs),
            UiUpdate::ToolStreamChunk { chunk } => self.tool_chunk(chunk.as_str()),
            UiUpdate::DiffPreview { tool_id, path, diff } => {
                self.compare_file(path, diff);
                self.pending_diff_tool_id = Some(tool_id);
            },
            _ => {},
        }
    }

    /// Counts a second of a pause down, and says whether there was one to count.
    pub fn tick_rate_limit(&mut self) -> (r: bool)
        ensures
            r == (old(self).rate_limited && old(self).rate_limit_secs > 0),
            final(self)@ == old(self)@.ticked(),
    {
        if !self.rate_limited || self.rate_limit_secs == 0 {
            return false;
        }
        self.rate_limit_secs = self.rate_limit_secs - 1;
        if self.rate_limit_secs == 0 {
            self.rate_limited = false;
        }
        true
    }
}

/// At most one pane is open, whatever the engine says.
pub proof fn law_one_pane(v: ChatModel, update: ui::UiUpdateView, now: Timestamp)
    requires
        v.one_pane(),
    ensures
        v.after(update, now).one_pane(),
{
    let r = v.after(update, now);
    match update {
        ui::UiUpdateView::HistoryLoaded(es) => assert(r == v.loaded(es, now)),
        ui::UiUpdateView::StreamChunk(chunk) => assert(r == v.streamed(chunk)),
        ui::UiUpdateView::ToolCall { name, input } => assert(r == v.called(name, input, now)),
        ui::UiUpdateView::ToolResult { name, output, is_error } => assert(r == v.returned(
            name,
            output,
            is_error,
            now,
        )),
        ui::UiUpdateView::GoalComplete { tool_count } => assert(r == v.completed(tool_count, now)),
        _ => {},
    }
}

/// Opening a pane closes the others; a file that cannot be opened leaves them as
/// they are, and an error is shown.
pub proof fn law_newest_pane_stays(
    v: ChatModel,
    f: FileTextView,
    id: Seq<char>,
    path: Seq<char>,
    diff: Seq<DiffLineView>,
    error: Seq<char>,
    now: Timestamp,
)
    ensures
        ({
            let viewed = v.after(ui::UiUpdateView::OpenViewer(ui::OpenedView::File(f)), now);
            let edited = v.after(ui::UiUpdateView::OpenEditor(ui::OpenedView::File(f)), now);
            let compared = v.after(ui::UiUpdateView::OpenDiff { path, diff }, now);
            let shown = v.after(ui::UiUpdateView::DiffPreview { tool_id: id, path, diff }, now);
            &&& viewed.viewer == Some(f) && viewed.diff_pane is None && viewed.editor is None
            &&& edited.editor is Some && edited.viewer is None && edited.diff_pane is None
            &&& compared.diff_pane is Some && compared.viewer is None && compared.editor is None
            &&& shown.diff_pane is Some && shown.viewer is None && shown.editor is None
        }),
        ({
            let failed = ui::OpenedView::Failed(error);
            let a = v.after(ui::UiUpdateView::OpenViewer(failed), now);
            let b = v.after(ui::UiUpdateView::OpenEditor(failed), now);
            &&& a == b
            &&& a.viewer == v.viewer && a.diff_pane == v.diff_pane && a.editor == v.editor
            &&& a.entries == v.entries.push(entry_of(EntryRole::Error, error, now))
        }),
{
}

/// A pause of `secs` seconds lasts exactly that many: it goes on while fewer
/// have passed, and is over once they have.
pub proof fn law_pause_ends(v: ChatModel, secs: u32, now: Timestamp, n: nat)
    requires
        n <= secs,
    ensures
        v.paused(secs, now).ticked_for(n).rate_limit_secs == secs - n,
        secs > 0 ==> v.paused(secs, now).ticked_for(n).rate_limited == (n < secs),
{
    lemma_ticks(v.paused(secs, now), n);
}

proof fn lemma_ticks(v: ChatModel, n: nat)
    requires
        n <= v.rate_limit_secs,
        n > 0 ==> v.rate_limited,
    ensures
        v.ticked_for(n).rate_limit_secs == v.rate_limit_secs - n,
        v.ticked_for(n).rate_limited == (if n == 0 {
            v.rate_limited
        } else {
            n < v.rate_limit_secs
        }),
    decreases n,
{
    if n > 0 {
        lemma_ticks(v.ticked(), (n - 1) as nat);
    }
}

/// The signal that a task is done is never shown, neither the call nor what it
/// returns.
pub proof fn law_completion_is_hidden(
    v: ChatModel,
    input: Seq<char>,
    output: Seq<char>,
    is_error: bool,
    now: Timestamp,
)
    ensures
        v.after(ui::UiUpdateView::ToolCall { name: "mark_complete"@, input }, now) == v,
        v.after(
            ui::UiUpdateView::ToolResult { name: "mark_complete"@, output, is_error },
            now,
        ) == v,
{
}

/// What the model said before it called a tool stands right above the call, and
/// nothing of it is left to come.
pub proof fn law_text_stands_above_its_call(
    v: ChatModel,
    name: Seq<char>,
    input: Seq<char>,
    now: Timestamp,
)
    requires
        name != "mark_complete"@,
        v.stream_buf.len() > 0,
    ensures
        ({
            let r = v.after(ui::UiUpdateView::ToolCall { name, input }, now);
            &&& r.stream_buf.len() == 0
            &&& r.entries.len() == v.entries.len() + 2
            &&& r.entries[v.entries.len() as int] == entry_of(
                EntryRole::Assistant,
                v.stream_buf,
                now,
            )
            &&& r.entries[(v.entries.len() + 1) as int].role == EntryRole::ToolCall
            &&& r.entries[(v.entries.len() + 1) as int].content == input
        }),
{
}

/// Loading the commands of the user leaves those built in, and takes the place
/// of what was loaded before.
pub proof fn law_commands_replace(
    v: ChatModel,
    a: Seq<ui::CommandDefView>,
    b: Seq<ui::CommandDefView>,
    now: Timestamp,
)
    requires
        v.builtin_cmd_count <= v.suggestions_defs.len(),
    ensures
        ({
            let one = v.after(ui::UiUpdateView::UserCommandsLoaded(a), now);
            &&& one.suggestions_defs.take(v.builtin_cmd_count as int) =~= v.suggestions_defs.take(
                v.builtin_cmd_count as int,
            )
            &&& one.after(ui::UiUpdateView::UserCommandsLoaded(b), now).suggestions_defs =~= v.after(
                ui::UiUpdateView::UserCommandsLoaded(b),
                now,
            ).suggestions_defs
        }),
{
}

// ── More laws of the chat ───────────────────────────────────────────────────

/// Pieces of an answer are kept one behind the other until the answer ends; then
/// they are one entry, and nothing is left over.
pub proof fn law_pieces_become_an_entry(
    v: ChatModel,
    a: Seq<char>,
    b: Seq<char>,
    now: Timestamp,
)
    requires
        v.stream_buf.len() == 0,
        (a + b).len() > 0,
    ensures
        ({
            let s = v.after(ui::UiUpdateView::StreamChunk(a), now).after(
                ui::UiUpdateView::StreamChunk(b),
                now,
            );
            let d = s.after(ui::UiUpdateView::GoalComplete { tool_count: 0 }, now);
            &&& s.stream_buf == a + b
            &&& s.streaming
            &&& s.entries == v.entries
            &&& d.stream_buf.len() == 0
            &&& !d.streaming
            &&& d.entries.len() == v.entries.len() + 1
            &&& d.entries.drop_last() == v.entries
            &&& d.entries.last().role == EntryRole::Assistant
            &&& d.entries.last().content == a + b
        }),
{
    let s = v.streamed(a).streamed(b);
    assert(s.stream_buf =~= a + b);
    let d = s.completed(0, now);
    assert(d.entries.drop_last() =~= v.entries);
}

/// A finished goal with tool calls is told with their number, and the goal is
/// closed.
pub proof fn law_goal_is_closed(v: ChatModel, n: usize, now: Timestamp)
    ensures
        ({
            let d = v.after(ui::UiUpdateView::GoalComplete { tool_count: n }, now);
            &&& d.active_goal.len() == 0
            &&& d.tool_iterations == 0
            &&& d.current_tool.len() == 0
            &&& n > 0 ==> d.entries.last().role == EntryRole::System && text::occurs(
                d.entries.last().content,
                number::decimal(n as nat),
            )
        }),
{
    if n > 0 {
        text::law_occurs_in_middle(
            "Goal complete. ("@,
            number::decimal(n as nat),
            " tool calls)"@,
        );
    }
}

/// What is told becomes one entry at the end, of its kind and with its words; what
/// stood there stays.
pub proof fn law_messages_become_entries(v: ChatModel, s: Seq<char>, now: Timestamp)
    ensures
        v.after(ui::UiUpdateView::SystemMsg(s), now).entries == v.entries.push(
            ChatEntryView { role: EntryRole::System, content: s, tool_name: Seq::empty(), time: now },
        ),
        v.after(ui::UiUpdateView::ErrorMsg(s), now).entries == v.entries.push(
            ChatEntryView { role: EntryRole::Error, content: s, tool_name: Seq::empty(), time: now },
        ),
        v.after(ui::UiUpdateView::SteerResult(s), now).entries == v.entries.push(
            ChatEntryView { role: EntryRole::Steer, content: s, tool_name: Seq::empty(), time: now },
        ),
        v.after(ui::UiUpdateView::Summary(s), now).entries == v.entries.push(
            ChatEntryView {
                role: EntryRole::Summary,
                content: s,
                tool_name: Seq::empty(),
                time: now,
            },
        ),
{
}

/// Whoever has scrolled up is told that something new came; at the bottom it is
/// seen.
pub proof fn law_new_content_is_noted(v: ChatModel, s: Seq<char>, now: Timestamp)
    ensures
        !v.at_bottom ==> v.after(ui::UiUpdateView::SystemMsg(s), now).new_content_arrived,
        !v.at_bottom ==> v.after(ui::UiUpdateView::StreamChunk(s), now).new_content_arrived,
        v.at_bottom ==> v.after(ui::UiUpdateView::SystemMsg(s), now).new_content_arrived
            == v.new_content_arrived,
        v.after(ui::UiUpdateView::SystemMsg(s), now).at_bottom == v.at_bottom,
{
}

/// A call and its result are two entries: the call with its input and the result
/// with its output, both under the tool's name; the call is counted.
pub proof fn law_call_and_result(
    v: ChatModel,
    name: Seq<char>,
    input: Seq<char>,
    output: Seq<char>,
    is_error: bool,
    now: Timestamp,
)
    requires
        name != "mark_complete"@,
        v.stream_buf.len() == 0,
        v.tool_iterations < usize::MAX,
    ensures
        ({
            let c = v.after(ui::UiUpdateView::ToolCall { name, input }, now);
            let r = c.after(ui::UiUpdateView::ToolResult { name, output, is_error }, now);
            let n = v.entries.len() as int;
            &&& c.tool_iterations == v.tool_iterations + 1
            &&& c.current_tool == name
            &&& r.entries.len() == n + 2
            &&& r.entries.take(n) == v.entries
            &&& r.entries[n].role == EntryRole::ToolCall
            &&& r.entries[n].content == input
            &&& r.entries[n].tool_name == name
            &&& r.entries[n + 1].role == EntryRole::ToolResult { is_error }
            &&& r.entries[n + 1].content == output
            &&& r.entries[n + 1].tool_name == name
        }),
{
    let c = v.called(name, input, now);
    let r = c.returned(name, output, is_error, now);
    assert(r.entries.take(v.entries.len() as int) =~= v.entries);
}

/// A loaded conversation takes the place of what was shown, entry by entry: a call
/// shows its input, anything else its words.
pub proof fn law_history_is_loaded(
    v: ChatModel,
    es: Seq<ui::HistoryEntryView>,
    now: Timestamp,
    i: int,
)
    requires
        0 <= i < es.len(),
    ensures
        ({
            let l = v.after(ui::UiUpdateView::HistoryLoaded(es), now);
            let x = l.entries[i];
            let e = es[i];
            &&& l.entries.len() == es.len()
            &&& l.at_bottom && l.stream_buf.len() == 0 && !l.streaming
            &&& e.role == "user"@ ==> x.role == EntryRole::User && x.content == e.content
            &&& e.role == "tool"@ ==> x.role == EntryRole::ToolResult { is_error: e.is_error }
                && x.content == e.content
            &&& e.role == "assistant"@ && e.tool_name.len() > 0 ==> x.role == EntryRole::ToolCall
                && x.content == e.tool_input && x.tool_name == e.tool_name
            &&& e.role == "assistant"@ && e.tool_name.len() == 0 ==> x.role
                == EntryRole::Assistant && x.content == e.content
        }),
{
    reveal_strlit("user");
    reveal_strlit("tool");
    reveal_strlit("assistant");
    assert("user"@.len() == 4 && "tool"@.len() == 4 && "assistant"@.len() == 9);
    assert("user"@[0] == 'u' && "tool"@[0] == 't');
}

/// Saving a file clears the mark of the editor that shows it, and no other's.
pub proof fn law_saving_is_of_one_file(v: ChatModel, path: Seq<char>, now: Timestamp)
    ensures
        v.editor matches Some(e) ==> {
            let w = v.after(ui::UiUpdateView::EditorSaved { path }, now);
            &&& w.editor is Some
            &&& (w.editor->0).content == e.content
            &&& (w.editor->0).path == e.path
            &&& e.path == path ==> !(w.editor->0).modified
            &&& e.path != path ==> (w.editor->0).modified == e.modified
        },
        v.editor is None ==> v.after(ui::UiUpdateView::EditorSaved { path }, now) == v,
{
}

/// The settings menu opens only on request; an open one shows the new state.
pub proof fn law_settings_menu(
    v: ChatModel,
    state: ui::ConfigStateView,
    open: bool,
    now: Timestamp,
)
    ensures
        ({
            let w = v.after(ui::UiUpdateView::ConfigState { state, open }, now);
            &&& w.config_menu is Some <==> v.config_menu is Some || open
            &&& w.config_menu is Some ==> (w.config_menu->0).state == state
            &&& v.config_menu is Some ==> (w.config_menu->0).typewriter
                == (v.config_menu->0).typewriter
        }),
{
}

/// What a tool prints is kept piece behind piece until the next call.
pub proof fn law_tool_output_is_kept(
    v: ChatModel,
    a: Seq<char>,
    b: Seq<char>,
    name: Seq<char>,
    input: Seq<char>,
    now: Timestamp,
)
    requires
        name != "mark_complete"@,
    ensures
        v.after(ui::UiUpdateView::ToolStreamChunk { chunk: a }, now).after(
            ui::UiUpdateView::ToolStreamChunk { chunk: b },
            now,
        ).tool_stream_buf == v.tool_stream_buf + (a + b),
        v.after(ui::UiUpdateView::ToolCall { name, input }, now).tool_stream_buf.len() == 0,
{
    assert(v.printed(a).printed(b).tool_stream_buf =~= v.tool_stream_buf + (a + b));
}

/// A question waits until it is answered, and an approval too; the words are those
/// that were asked.
pub proof fn law_questions_wait(v: ChatModel, s: Seq<char>, now: Timestamp)
    ensures
        v.after(ui::UiUpdateView::AwaitingApproval { cmd: s }, now).approval_pending == Some(s),
        v.after(ui::UiUpdateView::AskUser { question: s }, now).ask_pending == Some(s),
        v.after(ui::UiUpdateView::AwaitingApproval { cmd: s }, now).ask_pending == v.ask_pending,
        v.after(ui::UiUpdateView::AskUser { question: s }, now).approval_pending
            == v.approval_pending,
{
}

/// The chat knows the provider, the model and the directory of the last status.
pub proof fn law_status_is_known(v: ChatModel, info: ui::StatusInfoView, now: Timestamp)
    ensures
        v.after(ui::UiUpdateView::StatusUpdate(info), now).provider == info.provider,
        v.after(ui::UiUpdateView::StatusUpdate(info), now).model == info.model,
        v.after(ui::UiUpdateView::StatusUpdate(info), now).work_dir == info.work_dir,
        v.after(ui::UiUpdateView::StatusUpdate(info), now).status_color == info.status_color,
        v.after(ui::UiUpdateView::StatusUpdate(info), now).entries == v.entries,
{
}

/// A choice of tier is told with its rating and its name.
pub proof fn law_tier_is_told(v: ChatModel, score: u8, tier: Seq<char>, now: Timestamp)
    ensures
        ({
            let w = v.after(ui::UiUpdateView::TierSelected { score, tier }, now);
            &&& w.entries.len() == v.entries.len() + 1
            &&& text::occurs(w.entries.last().content, number::decimal(score as nat) + "/100"@)
            &&& text::occurs(w.entries.last().content, tier)
        }),
{
    let d = number::decimal(score as nat);
    let n = tier_note(score, tier);
    reveal_strlit("/100 → ");
    reveal_strlit("/100");
    let gap = "/100 → "@.skip(4);
    assert("/100 → "@ =~= "/100"@ + gap);
    let rest = gap + tier + " tier"@;
    assert(n =~= "difficulty "@ + (d + "/100"@) + rest);
    text::law_occurs_in_middle("difficulty "@, d + "/100"@, rest);
    text::law_occurs_in_middle("difficulty "@ + d + "/100 → "@, tier, " tier"@);
}

} // verus!
