use marlin::chat::{ChatView, CmdDef, EntryRole};
use marlin::index::Timestamp;
use marlin::screen::{
    areas, dialog_area, dialog_text, place_areas, Area, Input, Key, KeyCode, Route, Screen, Sidebar,
    SidebarEvent, StatusBar, APPROVAL_HEIGHT, ASK_HEIGHT,
};
use marlin::ui::{
    AstMode, CommandDef, ConfigState, FileText, HistoryEntry, Opened, StatusInfo, TaskStatus, TaskStep,
    UiUpdate,
};

fn s(t: &str) -> String {
    t.to_string()
}

fn now() -> Timestamp {
    Timestamp { secs: 7, nanos: 0 }
}

fn chat() -> ChatView {
    ChatView::new(80, 24, vec![CmdDef { cmd: s("/help"), args: s(""), desc: s("help") }])
}

fn shown(v: &ChatView) -> Vec<(EntryRole, String)> {
    v.entries.iter().map(|e| (e.role, e.content.clone())).collect()
}

#[test]
fn text_is_committed_above_a_tool_call() {
    let mut v = chat();
    v.apply_update(UiUpdate::StreamChunk(s("think")), now());
    v.apply_update(UiUpdate::StreamChunk(s("ing")), now());
    assert!(v.streaming);
    assert_eq!(v.stream_buf, "thinking");
    v.apply_update(UiUpdate::ToolStreamChunk { chunk: s("old") }, now());
    v.apply_update(UiUpdate::ToolCall { name: s("grep"), input: s("{}") }, now());
    assert_eq!(v.stream_buf, "");
    assert_eq!(v.tool_stream_buf, "");
    assert_eq!(v.current_tool, "grep");
    assert_eq!(v.tool_iterations, 1);
    v.apply_update(
        UiUpdate::ToolResult { name: s("grep"), output: s("hit"), is_error: false },
        now(),
    );
    assert_eq!(
        shown(&v),
        vec![
            (EntryRole::Assistant, s("thinking")),
            (EntryRole::ToolCall, s("{}")),
            (EntryRole::ToolResult { is_error: false }, s("hit")),
        ]
    );
    assert_eq!(v.entries[1].tool_name, "grep");
    assert_eq!(v.entries[0].time, now());
}

#[test]
fn the_completion_signal_is_not_shown() {
    let mut v = chat();
    v.apply_update(UiUpdate::ToolCall { name: s("mark_complete"), input: s("{}") }, now());
    v.apply_update(
        UiUpdate::ToolResult { name: s("mark_complete"), output: s("ok"), is_error: false },
        now(),
    );
    assert!(v.entries.is_empty());
    assert_eq!(v.tool_iterations, 0);
}

#[test]
fn a_goal_ends_with_its_count() {
    let mut v = chat();
    v.apply_update(UiUpdate::StreamChunk(s("bye")), now());
    v.apply_update(UiUpdate::GoalComplete { tool_count: 2 }, now());
    v.apply_update(UiUpdate::GoalComplete { tool_count: 0 }, now());
    assert!(!v.streaming);
    assert_eq!(
        shown(&v),
        vec![
            (EntryRole::Assistant, s("bye")),
            (EntryRole::System, s("Goal complete. (2 tool calls)")),
        ]
    );
}

#[test]
fn a_pause_counts_down_to_its_end() {
    let mut v = chat();
    assert!(!v.tick_rate_limit());
    v.apply_update(UiUpdate::RateLimited { secs: 2 }, now());
    assert_eq!(
        shown(&v),
        vec![(EntryRole::System, s("Rate limited. Resuming automatically in 2s..."))]
    );
    assert!(v.rate_limited);
    assert!(v.tick_rate_limit());
    assert!(v.rate_limited);
    assert!(v.tick_rate_limit());
    assert!(!v.rate_limited);
    assert_eq!(v.rate_limit_secs, 0);
    assert_eq!(v.rate_limit_total, 2);
    assert!(!v.tick_rate_limit());
}

fn past(role: &str, content: &str, tool: &str, is_error: bool) -> HistoryEntry {
    HistoryEntry {
        role: s(role),
        content: s(content),
        tool_name: s(tool),
        tool_input: s("input"),
        is_error,
    }
}

#[test]
fn a_loaded_conversation_takes_the_place_of_the_display() {
    let mut v = chat();
    v.add_error("old", now());
    v.at_bottom = false;
    v.apply_update(UiUpdate::StreamChunk(s("half")), now());
    assert!(v.new_content_arrived);
    v.apply_update(
        UiUpdate::HistoryLoaded(vec![
            past("user", "hi", "", false),
            past("assistant", "text", "", false),
            past("assistant", "", "grep", false),
            past("tool", "oops", "", true),
        ]),
        now(),
    );
    assert_eq!(
        shown(&v),
        vec![
            (EntryRole::User, s("hi")),
            (EntryRole::Assistant, s("text")),
            (EntryRole::ToolCall, s("input")),
            (EntryRole::ToolResult { is_error: true }, s("oops")),
        ]
    );
    assert!(v.at_bottom && v.jump_to_bottom && !v.streaming);
    assert_eq!(v.stream_buf, "");
}

#[test]
fn only_the_newest_pane_is_open() {
    let mut v = chat();
    let file = |p: &str| FileText { path: s(p), content: s("text") };
    v.apply_update(UiUpdate::OpenViewer(Opened::File(file("a"))), now());
    assert!(v.viewer.is_some());
    v.apply_update(UiUpdate::OpenEditor(Opened::File(file("b"))), now());
    assert!(v.viewer.is_none() && v.editor.is_some());
    v.editor.as_mut().unwrap().modified = true;
    v.apply_update(UiUpdate::EditorSaved { path: s("zz") }, now());
    assert!(v.editor.as_ref().unwrap().modified);
    v.apply_update(UiUpdate::EditorSaved { path: s("b") }, now());
    assert!(!v.editor.as_ref().unwrap().modified);
    v.apply_update(UiUpdate::OpenViewer(Opened::Failed(s("no"))), now());
    assert!(v.editor.is_some());
    assert_eq!(shown(&v), vec![(EntryRole::Error, s("no"))]);
    v.apply_update(
        UiUpdate::DiffPreview { tool_id: s("t"), path: s("c"), diff: vec![] },
        now(),
    );
    assert!(v.editor.is_none());
    assert_eq!(v.diff_pane.as_ref().unwrap().path, "c");
    assert_eq!(v.pending_diff_tool_id, Some(s("t")));
}

#[test]
fn user_commands_stand_behind_the_built_in_ones() {
    let mut v = chat();
    let def = |n: &str| CommandDef { name: s(n), args: s("<x>"), description: s("d") };
    v.apply_update(UiUpdate::UserCommandsLoaded(vec![def("one"), def("two")]), now());
    v.apply_update(UiUpdate::UserCommandsLoaded(vec![def("three")]), now());
    let cmds: Vec<&str> = v.suggestions_defs.iter().map(|d| d.cmd.as_str()).collect();
    assert_eq!(cmds, vec!["/help", "/three"]);
    assert_eq!(v.suggestions_defs[1].args, "<x>");
}

#[test]
fn the_menu_opens_only_when_asked() {
    let mut v = chat();
    let state = |p: &str| ConfigState { provider: s(p), ..ConfigState::default() };
    v.apply_update(UiUpdate::ConfigState { state: state("a"), open: false }, now());
    assert!(v.config_menu.is_none());
    v.apply_update(UiUpdate::ConfigState { state: state("b"), open: true }, now());
    v.apply_update(UiUpdate::ConfigState { state: state("c"), open: false }, now());
    assert_eq!(v.config_menu.as_ref().unwrap().state.provider, "c");
}

#[test]
fn other_words_are_shown_in_their_roles() {
    let mut v = chat();
    v.apply_update(UiUpdate::Summary(s("sum")), now());
    v.apply_update(UiUpdate::SteerResult(s("note")), now());
    v.apply_update(UiUpdate::SystemMsg(s("sys")), now());
    v.apply_update(UiUpdate::TierSelected { score: 42, tier: s("default") }, now());
    v.apply_update(UiUpdate::AwaitingApproval { cmd: s("rm") }, now());
    v.apply_update(UiUpdate::AskUser { question: s("why?") }, now());
    v.apply_update(UiUpdate::IndexBuilt, now());
    assert_eq!(
        shown(&v),
        vec![
            (EntryRole::Summary, s("sum")),
            (EntryRole::Steer, s("note")),
            (EntryRole::System, s("sys")),
            (EntryRole::System, s("difficulty 42/100 → default tier")),
        ]
    );
    assert_eq!(v.approval_pending, Some(s("rm")));
    assert_eq!(v.ask_pending, Some(s("why?")));
}

fn screen() -> Screen {
    Screen {
        bar: StatusBar {
            provider: s(""),
            model: s(""),
            git_branch: None,
            bg_count: 0,
            ast_mode: AstMode::Off,
            active_tool: s(""),
            streaming: false,
            prompt_budget_over: None,
            mode: s("splash"),
            width: 80,
            frame: u64::MAX,
        },
        sidebar: Sidebar {
            token_used: 0,
            token_budget: 0,
            tasks: vec![],
            plan: vec![],
            selected_category: None,
            focused: false,
        },
        chat: chat(),
        splash: true,
        redraw: false,
    }
}

fn key(code: KeyCode, ctrl: bool, shift: bool) -> Input {
    Input::Key(Key { code, ctrl, shift })
}

#[test]
fn the_bars_follow_the_engine() {
    let mut v = screen();
    v.take(
        UiUpdate::StatusUpdate(StatusInfo {
            provider: s("p"),
            model: s("m"),
            git_branch: Some(s("main")),
            work_dir: s("/w"),
            status_color: Some([1, 2, 3]),
            bg_count: 4,
        }),
        now(),
    );
    assert_eq!(v.bar.provider, "p");
    assert_eq!(v.bar.bg_count, 4);
    assert_eq!(v.chat.work_dir, "/w");
    v.take(UiUpdate::ToolCall { name: s("grep"), input: s("") }, now());
    assert_eq!(v.bar.active_tool, "grep");
    assert!(v.bar.streaming);
    v.take(UiUpdate::GoalComplete { tool_count: 0 }, now());
    assert_eq!(v.bar.active_tool, "");
    v.take(UiUpdate::AstMode(AstMode::Harness), now());
    assert!(v.bar.ast_mode == AstMode::Harness);
    v.take(UiUpdate::PromptBudget(Some(9)), now());
    assert_eq!(v.bar.prompt_budget_over, Some(9));
    let step = TaskStep {
        tool: s("grep"),
        description: s("d"),
        status: TaskStatus::Pending,
        parallel_group: None,
    };
    v.take(UiUpdate::TaskUpdate(vec![step]), now());
    assert_eq!(v.sidebar.tasks.len(), 1);
    assert!(matches!(
        v.take(UiUpdate::TokenUsage { used: 5, budget: 10 }, now()),
        SidebarEvent::TokenSample(5)
    ));
    assert_eq!(v.sidebar.token_budget, 10);
    assert!(matches!(
        v.take(UiUpdate::SubagentFinished { id: s("a"), ok: true }, now()),
        SidebarEvent::SubagentFinished { ok: true, .. }
    ));
    v.next_frame();
    assert_eq!(v.bar.frame, 0);
    v.greet(false);
    assert!(v.splash);
    v.greet(true);
    assert_eq!(v.bar.mode, "chat");
    assert!(!v.count_down(true));
    v.take(UiUpdate::RateLimited { secs: 3 }, now());
    assert!(!v.count_down(false));
    assert!(v.count_down(true));
    assert_eq!(v.chat.rate_limit_secs, 2);
}

#[test]
fn keys_go_where_they_belong() {
    let mut v = screen();
    assert_eq!(v.route(Input::Paste), Route::Done);
    assert_eq!(v.route(Input::Scroll { up: true }), Route::Done);
    assert_eq!(v.route(key(KeyCode::Char('q'), true, false)), Route::Quit);
    assert_eq!(v.route(key(KeyCode::Char('x'), false, false)), Route::Done);
    assert!(!v.splash);
    assert_eq!(v.route(key(KeyCode::Char('q'), false, false)), Route::Chat);
    assert_eq!(v.route(key(KeyCode::Right, false, false)), Route::Chat);
    assert_eq!(v.route(key(KeyCode::Right, false, true)), Route::Done);
    assert!(v.sidebar.focused);
    assert_eq!(v.sidebar.selected_category, Some(0));
    assert_eq!(v.route(key(KeyCode::Up, false, false)), Route::MoveSelection(-1));
    assert_eq!(v.route(key(KeyCode::Down, false, false)), Route::MoveSelection(1));
    assert_eq!(v.route(key(KeyCode::Enter, false, false)), Route::ToggleExpand);
    assert_eq!(v.route(key(KeyCode::Left, false, false)), Route::Done);
    assert!(v.sidebar.focused);
    assert_eq!(v.route(key(KeyCode::Char('q'), true, false)), Route::Quit);
    assert_eq!(v.route(key(KeyCode::Left, false, true)), Route::Done);
    assert!(!v.sidebar.focused);
    assert_eq!(v.route(Input::Paste), Route::Chat);
    assert_eq!(v.route(Input::FocusGained), Route::Done);
    assert!(v.takes_redraw());
    assert!(!v.takes_redraw());
    assert_eq!(v.route(Input::Resize { width: 50, height: 0 }), Route::Done);
    assert_eq!(v.bar.width, 50);
    assert_eq!(v.chat.height, 0);
}

#[test]
fn the_screen_is_split() {
    let area = Area { x: 0, y: 0, width: 120, height: 30 };
    let body = Area { x: 0, y: 1, width: 120, height: 29 };
    let a = areas(area, 100, 30);
    assert_eq!(a.status, Area { x: 0, y: 0, width: 120, height: 1 });
    assert_eq!(a.chat, Area { x: 0, y: 1, width: 90, height: 29 });
    assert_eq!(a.sidebar, Some(Area { x: 90, y: 1, width: 30, height: 29 }));
    let narrow = areas(area, 121, 30);
    assert_eq!(narrow.chat, body);
    assert_eq!(narrow.sidebar, None);
    let left = Area { x: 0, y: 1, width: 1, height: 29 };
    assert_eq!(place_areas(area, 100, (left, body)).sidebar, Some(body));
    assert_eq!(place_areas(area, 100, (left, body)).chat, left);
}

#[test]
fn the_columns_are_shared_out() {
    for x in [0u16, 3] {
        for width in 0u16..150 {
            for side in [0u16, 1, 9, 24, 30, 41, 90, 140, 300] {
                let left = if 40 + side <= width { width - side } else { width.min(40) };
                let a = areas(Area { x, y: 2, width, height: 10 }, 0, side);
                assert_eq!(a.chat, Area { x, y: 3, width: left, height: 9 });
                let right = Area { x: x + left, y: 3, width: width - left, height: 9 };
                assert_eq!(a.sidebar, Some(right));
            }
        }
    }
    let wide = areas(Area { x: 0, y: 0, width: 65_535, height: 3 }, 0, 65_000);
    assert_eq!(wide.chat, Area { x: 0, y: 1, width: 535, height: 2 });
    assert_eq!(wide.sidebar, Some(Area { x: 535, y: 1, width: 65_000, height: 2 }));
}

#[test]
fn a_dialog_stands_in_the_middle() {
    let area = Area { x: 2, y: 1, width: 100, height: 27 };
    assert_eq!(
        dialog_area(area, APPROVAL_HEIGHT),
        Area { x: 16, y: 11, width: 72, height: 7 }
    );
    let small = Area { x: 0, y: 0, width: 20, height: 5 };
    assert_eq!(dialog_area(small, ASK_HEIGHT), Area { x: 0, y: 0, width: 40, height: 8 });
    assert_eq!(dialog_text("rm -rf target", 38), "rm -rf target");
    assert_eq!(dialog_text("héllo wörld", 8), "héllo…");
    assert_eq!(dialog_text("ab", 1), "…");
}
