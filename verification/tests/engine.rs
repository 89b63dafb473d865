use marlin::command::{kind_of, parse_command, Kind, SandboxFacts};
use marlin::config::{
    Config, DirColor, ModelTier, ModelTiers, ProjectConfig, ProviderEntry, ProviderPrompt,
    SandboxMode,
};
use marlin::engine::{
    detect_git_branch, image_mime, project_name, CommandKind, Engine, IndexSize, Loaded, RateLimit,
    SkillInfo, UserCommand,
};
use marlin::file_command::{ask_export, DirEntry, Export, ReadError, SavedSession, Snapshot};
use marlin::index::{build, BuildStats, Elapsed, SourceFile, Timestamp};
use marlin::list_command::{ask_list, parse_steer, ListAsk, Steer};
use marlin::message::{Message, ToolCall};
use marlin::outbox::{save_failed, Effect, Outbox};
use marlin::provider_command::{ask_provider, read_pair, Pair, ProviderAsk, ProviderModels};
use marlin::route::VerifyRun;
use marlin::settings::{parse_new_provider, parse_positive, SettingFacts, UserProvider};
use marlin::tools::{
    after_command, answer_outcome, judge_command, judge_skill, on_review, preflight_shell, rule,
    Check, How, McpRoute, Ruling, SkillRun, Verdict,
};
use marlin::turn::{Chunk, Interrupt, StreamStep, ToolOutcome};
use marlin::ui::{Action, AstMode, Named, TaskStatus, UiUpdate};

fn s(t: &str) -> String {
    t.to_string()
}

fn config() -> Config {
    Config {
        active_provider: s("p1"),
        active_model: s("m1"),
        providers: vec![
            ProviderEntry {
                name: s("p1"),
                api_key: s("k1"),
                model: s("m1"),
                extra_models: vec![s("m1"), s("m9")],
            },
            ProviderEntry {
                name: s("p2"),
                api_key: String::new(),
                model: s("m2"),
                extra_models: vec![],
            },
        ],
        work_dir: s("/home/u/proj"),
        allowed_commands: vec![s("ls")],
        ast_mode: AstMode::Off,
        token_budget: 1000,
        system_prompt: String::new(),
        verify_command: None,
        sandbox_mode: SandboxMode::Off,
        status_colors: vec![DirColor { dir: s("/home/u/proj"), rgb: [1, 2, 255] }],
        tool_call_limit: 3,
        skill_subagents: false,
        max_tokens: 100,
        thinking: false,
        model_tiers: None,
        theme: s("dark"),
        skip_permissions: false,
        clean_env: false,
        provider_system_prompts: vec![],
        checkpoints: false,
    }
}

fn loaded() -> Loaded {
    Loaded {
        skills: vec![
            SkillInfo { name: s("sh"), description: s("a shell skill"), toml: true, shell: true, prompt: false },
            SkillInfo { name: s("pr"), description: s("a prompt"), toml: false, shell: false, prompt: true },
            SkillInfo { name: s("no"), description: s("empty"), toml: false, shell: false, prompt: false },
        ],
        skill_notes: vec![s("bad skill")],
        user_commands: vec![
            UserCommand {
                name: s("hi"),
                description: s("greets"),
                args: s("<who>"),
                kind: CommandKind::Shell,
                command: s("echo {args}"),
                template: String::new(),
            },
            UserCommand {
                name: s("ask"),
                description: s("asks"),
                args: String::new(),
                kind: CommandKind::Prompt,
                command: String::new(),
                template: s("Q: {input}?"),
            },
        ],
        external_tools: vec![],
        mcp_servers: vec![s("srv")],
        startup_notes: vec![s("no git")],
    }
}

fn engine() -> Engine {
    Engine::new(config(), loaded(), &None)
}

/// What was sent and done, a line for each.
fn lines(out: &Outbox) -> Vec<String> {
    out.effects
        .iter()
        .map(|e| match e {
            Effect::Send(UiUpdate::SystemMsg(t)) => format!("sys {t}"),
            Effect::Send(UiUpdate::ErrorMsg(t)) => format!("err {t}"),
            Effect::Send(UiUpdate::SteerResult(t)) => format!("steer {t}"),
            Effect::Send(UiUpdate::StreamChunk(t)) => format!("chunk {t}"),
            Effect::Send(UiUpdate::Summary(t)) => format!("summary {t}"),
            Effect::Send(UiUpdate::ToolCall { name, .. }) => format!("call {name}"),
            Effect::Send(UiUpdate::ToolResult { name, output, .. }) => format!("result {name} {output}"),
            Effect::Send(UiUpdate::TaskUpdate(v)) => format!("tasks {}", v.len()),
            Effect::Send(UiUpdate::PlanUpdate(v)) => format!("plan {}", v.len()),
            Effect::Send(UiUpdate::GoalComplete { tool_count }) => format!("goal {tool_count}"),
            Effect::Send(UiUpdate::RateLimited { secs }) => format!("limited {secs}"),
            Effect::Send(UiUpdate::TierSelected { score, tier }) => format!("tier {score} {tier}"),
            Effect::Send(UiUpdate::HistoryLoaded(v)) => format!("history {}", v.len()),
            Effect::Send(UiUpdate::AwaitingApproval { cmd }) => format!("approve? {cmd}"),
            Effect::Send(UiUpdate::SkillMatches(v)) => format!("skills {}", v.len()),
            Effect::Send(other) => format!("{other:?}"),
            Effect::Notify { title, body } => format!("notify {title}: {body}"),
            other => format!("{other:?}"),
        })
        .collect()
}

fn call(id: &str, name: &str, input: &str) -> ToolCall {
    ToolCall { id: s(id), name: s(name), input: s(input) }
}

fn ok(output: &str) -> ToolOutcome {
    ToolOutcome { output: s(output), is_error: false }
}

fn bad(output: &str) -> ToolOutcome {
    ToolOutcome { output: s(output), is_error: true }
}

fn chunk(content: &str, done: bool) -> Chunk {
    Chunk {
        content: s(content),
        done,
        retry_after: 0,
        error: None,
        rate_limit: None,
        tool_calls: vec![],
    }
}

// ── Beginnings ──────────────────────────────────────────────────────────────

#[test]
fn a_branch_is_read_from_a_head() {
    assert_eq!(detect_git_branch(&Some(s("ref: refs/heads/main\n"))), Some(s("main")));
    assert_eq!(detect_git_branch(&Some(s("0123456789abcdef\n"))), Some(s("0123456")));
    assert_eq!(detect_git_branch(&None), None);
}

#[test]
fn images_are_known_by_their_extension() {
    assert_eq!(image_mime("a/B.PNG"), Some(s("image/png")));
    assert_eq!(image_mime("x.jpeg"), Some(s("image/jpeg")));
    assert_eq!(image_mime("x.svg"), Some(s("image/svg+xml")));
    assert_eq!(image_mime("x.rs"), None);
    assert_eq!(project_name("/home/u/proj/"), "proj");
    assert_eq!(project_name("/"), "");
}

#[test]
fn an_engine_starts_from_its_settings() {
    let e = engine();
    assert_eq!(e.work_dir, "/home/u/proj");
    assert_eq!(e.req_provider, "p1");
    assert_eq!(e.req_model, "m1");
    assert_eq!(e.token_budget, 1000);
    assert_eq!(e.session.as_ref().unwrap().project, "proj");
    assert_eq!(e.startup_diagnostics(), &vec![s("bad skill"), s("no git")]);
    let info = e.status_info(&Some(s("ref: refs/heads/dev")), 2);
    assert_eq!(info.git_branch, Some(s("dev")));
    assert_eq!(info.status_color, Some([1, 2, 255]));
    assert_eq!(info.bg_count, 2);
}

#[test]
fn a_project_overrides_the_settings() {
    let p = ProjectConfig {
        system_prompt: s("be brief"),
        allowed_commands: vec![s("make")],
        verify_command: Some(s("make test")),
        sandbox_mode: Some(s("on")),
    };
    let mut e = Engine::new(config(), loaded(), &Some(p));
    assert_eq!(e.cfg.system_prompt, "be brief");
    assert_eq!(e.allowed_commands, vec![s("make")]);
    assert_eq!(e.cfg.allowed_commands, vec![s("make")]);
    assert_eq!(e.cfg.verify_command, Some(s("make test")));
    assert!(e.cfg.sandbox_mode == SandboxMode::Permissive);
    let q = ProjectConfig {
        system_prompt: String::new(),
        allowed_commands: vec![],
        verify_command: None,
        sandbox_mode: Some(s("nonsense")),
    };
    e.apply_project_config(&Some(q));
    assert_eq!(e.cfg.system_prompt, "be brief");
    assert!(e.cfg.sandbox_mode == SandboxMode::Permissive);
}

#[test]
fn a_project_is_not_saved() {
    let p = ProjectConfig {
        system_prompt: s("be brief"),
        allowed_commands: vec![s("make")],
        verify_command: Some(s("make test")),
        sandbox_mode: Some(s("on")),
    };
    let mut e = Engine::new(config(), loaded(), &Some(p));
    let mut out = Outbox::new();
    e.enter_directory("/home/u/other", &None, &mut out);
    let kept = e.settings_to_save();
    assert_eq!(kept.work_dir, "/home/u/other");
    assert_eq!(kept.system_prompt, "");
    assert_eq!(kept.allowed_commands, vec![s("ls")]);
    assert_eq!(kept.verify_command, None);
    assert!(kept.sandbox_mode == SandboxMode::Off);
    e.cmd_allow(&parse_command("/allow cargo test"), &mut out);
    assert_eq!(e.allowed_commands, vec![s("make"), s("cargo test")]);
    assert_eq!(e.settings_to_save().allowed_commands, vec![s("ls"), s("cargo test")]);
    e.cmd_system(&parse_command("/system be kind"), &mut out);
    e.cmd_verify(&parse_command("/verify make"), &mut out);
    let there = SandboxFacts { mxc_found: false, mxc_binary: s("wxc"), docker_found: true };
    e.cmd_sandbox(&parse_command("/sandbox docker"), &there, &mut out);
    let saved = e.settings_to_save();
    assert_eq!(saved.system_prompt, "be kind");
    assert_eq!(saved.verify_command, Some(s("make")));
    assert!(saved.sandbox_mode == SandboxMode::Docker);
}

#[test]
fn an_engine_announces_itself() {
    let e = engine();
    let mut out = Outbox::new();
    e.announce(Some(IndexSize { files: 3, terms: 9 }), &mut out);
    let all = lines(&out);
    assert_eq!(all[0], "SendStatus");
    assert_eq!(all[1], "sys marlin ready  /help for commands");
    assert_eq!(
        all[2],
        "sys preflight startup (2 note(s)) — see /preflight:\n  bad skill\n  no git"
    );
    assert_eq!(all[3], "sys index: 3 files, 9 terms");
    assert_eq!(all.len(), 6);
}

// ── Prompts and attachments ─────────────────────────────────────────────────

#[test]
fn attachments_go_out_with_the_next_message_only() {
    let mut e = engine();
    let mut out = Outbox::new();
    e.attach_file("/x/a.rs", s("fn a() {}\nfn b() {}"), &mut out);
    e.attach_image("/x/i.png", "image/png", &vec![1, 2, 3, 4], &mut out);
    assert_eq!(
        lines(&out),
        vec![
            s("sys Attached: a.rs (2 lines) — send your next message to include it"),
            s("sys Attached image: i.png — send your next message to include it"),
        ]
    );
    let m = e.take_attachments("hello");
    assert_eq!(m.content, "File: /x/a.rs\n```rs\nfn a() {}\nfn b() {}\n```\n\nhello");
    assert_eq!(m.images.len(), 1);
    assert_eq!(m.images[0].mime, "image/png");
    assert_eq!(m.images[0].data, "AQIDBA==");
    let again = e.take_attachments("more");
    assert_eq!(again.content, "more");
    assert!(again.images.is_empty());
}

#[test]
fn a_file_is_attached_once_and_detached_by_name() {
    let mut e = engine();
    let mut out = Outbox::new();
    e.attach_file("/x/a.rs", s("one"), &mut out);
    e.attach_file("/x/a.rs", s("two"), &mut out);
    assert_eq!(e.attachments.len(), 1);
    assert_eq!(e.attachments[0].content, "two");
    let mut out = Outbox::new();
    e.attached_shown(&mut out);
    e.cmd_detach(&parse_command("/detach b.rs"), &mut out);
    e.cmd_detach(&parse_command("/detach a.rs"), &mut out);
    e.attached_shown(&mut out);
    e.cmd_detach(&parse_command("/detach"), &mut out);
    e.attach_failed("gone", &mut out);
    assert_eq!(
        lines(&out),
        vec![
            s("sys Attached:\n/x/a.rs (1 lines)"),
            s("err No attachment named \"b.rs\""),
            s("sys Detached: a.rs"),
            s("sys No files attached. Usage: /attach <file>"),
            s("sys All attachments cleared."),
            s("err attach error: gone"),
        ]
    );
}

#[test]
fn the_prompt_tells_of_the_goal_and_the_settings() {
    let mut e = engine();
    e.active_goal = s("fix it");
    e.tool_iterations = 4;
    e.cfg.system_prompt = s("global");
    e.cfg.provider_system_prompts = vec![ProviderPrompt { provider: s("p1"), prompt: s("mine") }];
    e.ast_mode = AstMode::SExpr;
    let p = e.effective_system_prompt();
    assert!(p.starts_with("You are Marlin, an AI coding assistant running in a terminal.\n"));
    assert!(p.contains("Working directory: /home/u/proj\n\n## Active Goal\nfix it\n"));
    assert!(p.contains("Progress so far: 4 tool calls made.\n"));
    assert!(p.contains("\nAdditional instructions:\nglobal"));
    assert!(p.contains("\nProvider-specific instructions:\nmine"));
    assert!(p.contains("\n## AST Context Mode: SEXPR\n"));
    let plain = engine().effective_system_prompt();
    assert!(plain.ends_with("Working directory: /home/u/proj\n\n"));
}

#[test]
fn skills_are_listed_by_name_where_none_fits() {
    let e = engine();
    let none = e.skill_tool_list(vec![]);
    assert_eq!(none.len(), 3);
    assert_eq!(none[0].name, "sh");
    assert_eq!(none[0].description, "");
    let fit = e.skill_tool_list(vec![Named { name: s("pr"), description: s("d") }]);
    assert_eq!(fit.len(), 1);
    assert_eq!(fit[0].description, "d");
}

// ── A turn ──────────────────────────────────────────────────────────────────

#[test]
fn a_turn_starts_afresh() {
    let mut e = engine();
    e.tool_iterations = 7;
    e.stall_nudges = 2;
    e.mid_stream_retries = 2;
    e.cancelled = true;
    let mut out = Outbox::new();
    e.begin_turn("do it", vec![Named { name: s("sh"), description: s("d") }], &mut out);
    assert_eq!(lines(&out), vec![s("skills 1"), s("plan 0")]);
    assert_eq!(e.active_goal, "do it");
    assert_eq!(e.tool_iterations, 0);
    assert_eq!(e.mid_stream_retries, 0);
    assert!(!e.cancelled);
    assert_eq!(e.history.len(), 1);
    assert_eq!(e.history[0].role, "user");
}

#[test]
fn cancelling_forgets_goal_and_plan() {
    let mut e = engine();
    e.active_goal = s("g");
    e.adopt_plan(&Some(s("a\nb")), &mut Outbox::new());
    let mut out = Outbox::new();
    e.cancel(&mut out);
    assert!(e.cancelled);
    assert_eq!(e.active_goal, "");
    assert!(e.plan_steps.is_empty());
    assert_eq!(lines(&out), vec![s("plan 0"), s("sys Cancelled.")]);
}

#[test]
fn actions_during_a_stream_are_told_apart() {
    let mut e = engine();
    let mut out = Outbox::new();
    assert!(matches!(e.on_action_in_stream(Action::Approve, "", &mut out), Interrupt::Ignore));
    assert!(matches!(
        e.on_action_in_stream(Action::Steer(s("note")), "", &mut out),
        Interrupt::Steer(_)
    ));
    assert!(matches!(e.on_action_in_stream(Action::CancelStream, "text", &mut out), Interrupt::Stop));
    assert_eq!(lines(&out), vec![s("plan 0"), s("chunk \n\n*[cancelled]*")]);
    assert!(matches!(e.on_pending(Action::CancelStream, &mut Outbox::new()), Interrupt::Stop));
    assert!(e.on_poll("", &mut Outbox::new()));
}

#[test]
fn a_rate_limit_is_waited_for() {
    let mut e = engine();
    let at = |secs: i64| Timestamp { secs, nanos: 0 };
    e.rate_limit_state = Some(RateLimit {
        remaining_tokens: 10,
        remaining_requests: 0,
        reset_tokens_at: Some(at(105)),
        reset_requests_at: Some(at(109)),
    });
    let mut out = Outbox::new();
    assert_eq!(e.check_rate_limit(11, at(100), &mut out), 10);
    assert!(e.rate_limit_state.is_none());
    e.rate_limit_over(&mut out);
    assert_eq!(lines(&out), vec![s("limited 10"), s("sys Rate limit cleared — resuming...")]);
    e.rate_limit_state = Some(RateLimit {
        remaining_tokens: 10,
        remaining_requests: 5,
        reset_tokens_at: Some(at(105)),
        reset_requests_at: None,
    });
    assert_eq!(e.check_rate_limit(10, at(100), &mut Outbox::new()), 0);
    assert_eq!(e.check_rate_limit(11, at(200), &mut Outbox::new()), 0);
    assert!(e.rate_limit_state.is_some());
}

#[test]
fn a_stream_is_taken_chunk_by_chunk() {
    let mut e = engine();
    let mut out = Outbox::new();
    let mut text = String::new();
    assert!(matches!(e.on_chunk(chunk("he", false), &mut text, &mut out), StreamStep::More));
    let mut last = chunk("llo", true);
    last.tool_calls = vec![call("1", "grep", "{}")];
    match e.on_chunk(last, &mut text, &mut out) {
        StreamStep::Complete(cs) => assert_eq!(cs.len(), 1),
        _ => panic!("not complete"),
    }
    assert_eq!(text, "hello");
    assert_eq!(lines(&out), vec![s("chunk he"), s("chunk llo")]);
}

#[test]
fn a_broken_stream_is_retried_twice() {
    let mut e = engine();
    let mut out = Outbox::new();
    let mut text = String::new();
    let broken = |m: &str| {
        let mut c = chunk("", false);
        c.error = Some(s(m));
        c
    };
    for _ in 0..2 {
        match e.on_chunk(broken("connection reset"), &mut text, &mut out) {
            StreamStep::Again { wait_ms } => assert_eq!(wait_ms, 600),
            _ => panic!("not retried"),
        }
    }
    assert!(matches!(
        e.on_chunk(broken("connection reset"), &mut text, &mut out),
        StreamStep::Fail
    ));
    assert_eq!(
        lines(&out),
        vec![
            s("sys Stream interrupted — retrying (1/2): connection reset"),
            s("sys Stream interrupted — retrying (2/2): connection reset"),
            s("err connection reset"),
        ]
    );
    assert!(matches!(
        engine().on_chunk(broken("bad key"), &mut text, &mut Outbox::new()),
        StreamStep::Fail
    ));
}

#[test]
fn a_limited_stream_goes_to_the_backup_once() {
    let mut e = engine();
    e.req_backup_provider = s("p2");
    e.req_backup_model = s("m2");
    let mut out = Outbox::new();
    let mut text = String::new();
    let limited = || {
        let mut c = chunk("", false);
        c.retry_after = 9;
        c
    };
    assert!(matches!(
        e.on_chunk(limited(), &mut text, &mut out),
        StreamStep::Again { wait_ms: 0 }
    ));
    assert_eq!(e.req_provider, "p2");
    assert_eq!(e.req_backup_provider, "");
    assert!(matches!(
        e.on_chunk(limited(), &mut text, &mut out),
        StreamStep::Limited { secs: 9 }
    ));
    assert_eq!(
        lines(&out),
        vec![s("sys Rate limited — switching to backup: p2 / m2"), s("limited 9")]
    );
}

#[test]
fn a_batch_of_calls_is_recorded_and_settled() {
    let mut e = engine();
    e.adopt_plan(&Some(s("first\nsecond")), &mut Outbox::new());
    let cs = vec![
        call("1", "edit_file", "{\"path\":\"a.rs\"}"),
        call("2", "run_command", "{\"command\":\"x\"}"),
    ];
    let mut out = Outbox::new();
    assert!(e.accept_calls(" doing ", &cs, &mut out));
    assert_eq!(lines(&out), vec![s("call edit_file"), s("call run_command"), s("tasks 2")]);
    assert_eq!(e.history[0].content, "doing");
    assert_eq!(e.history[0].tool_calls.len(), 2);
    let mut out = Outbox::new();
    let os = vec![ok("fine"), bad("command not found")];
    let refresh = e.record_result(2, 0, &cs[0], &os[0], None, &None, &mut out);
    assert!(refresh);
    let refresh = e.record_result(2, 1, &cs[1], &os[1], None, &Some(s("stop looping")), &mut out);
    assert!(!refresh);
    assert!(e.settle_batch(&cs, &os, &mut out));
    assert_eq!(
        lines(&out),
        vec![
            s("result edit_file fine"),
            s("result run_command command not found"),
            s("sys 💡 The command wasn't found. Check the spelling or install it first."),
            s("sys stop looping"),
            s("tasks 2"),
            s("plan 2"),
        ]
    );
    assert!(e.task_steps[0].status == TaskStatus::Completed);
    assert!(e.task_steps[1].status == TaskStatus::Failed);
    assert!(e.plan_steps[0].status == TaskStatus::Failed);
    assert_eq!(e.plan_cursor, 1);
    assert_eq!(e.history[1].role, "tool");
    assert_eq!(e.history[2].content, "stop looping");
    assert!(e.history[2].is_error);
}

#[test]
fn too_many_batches_hit_the_cap() {
    let mut e = engine();
    e.tool_iterations = 3;
    e.active_goal = s("g");
    let mut out = Outbox::new();
    assert!(!e.accept_calls("x", &vec![call("1", "grep", "{}")], &mut out));
    assert_eq!(
        lines(&out),
        vec![s("err Safety cap reached (3 tool calls). Send a new message to continue.")]
    );
    assert_eq!(e.active_goal, "");
    assert!(e.history.is_empty());
}

#[test]
fn a_completed_task_ends_the_turn() {
    let mut e = engine();
    e.active_goal = s("goal");
    e.tool_iterations = 4;
    e.adopt_plan(&Some(s("a\nb")), &mut Outbox::new());
    let mut out = Outbox::new();
    assert!(!e.close_batch(&vec![call("1", "grep", "{}")], &mut out));
    assert_eq!(e.tool_iterations, 5);
    let done = vec![call("2", "mark_complete", "{\"summary\":\"all done\"}")];
    assert!(e.close_batch(&done, &mut out));
    assert_eq!(
        lines(&out),
        vec![
            s("summary all done"),
            s("notify Marlin task complete: goal"),
            s("SaveSession"),
            s("plan 2"),
            s("goal 6"),
        ]
    );
    assert!(e.plan_steps.iter().all(|p| p.status == TaskStatus::Completed));
    assert_eq!(e.tool_iterations, 0);
    assert_eq!(e.active_goal, "");
}

#[test]
fn a_promise_is_nudged_twice() {
    let mut e = engine();
    let mut out = Outbox::new();
    assert!(e.on_answer("Let me fix that.", &mut out));
    assert!(e.on_answer("Let me fix that.", &mut out));
    assert_eq!(e.history.len(), 4);
    assert!(e.history[1].content.starts_with("You said you would do that but made no tool call."));
    assert!(!e.on_answer("Let me fix that.", &mut out));
    assert_eq!(e.history.len(), 5);
    assert_eq!(lines(&out), vec![s("SaveSession"), s("goal 0")]);
    let mut out = Outbox::new();
    let mut e = engine();
    assert!(!e.on_answer("  ", &mut out));
    assert!(e.history.is_empty());
    assert_eq!(
        lines(&out)[0],
        "err Model returned an empty response. Try rephrasing or check your API key/quota."
    );
}

// ── Tools ───────────────────────────────────────────────────────────────────

#[test]
fn calls_are_checked_before_they_run() {
    let mut e = engine();
    assert!(matches!(
        e.check_needed(&call("1", "run_command", "{\"command\":\"rm x\"}")),
        Check::Command(c) if c == "rm x"
    ));
    assert!(matches!(
        e.check_needed(&call("1", "write_file", "{\"path\":\"../x\"}")),
        Check::Path(p) if p == "../x"
    ));
    assert!(matches!(
        e.check_needed(&call("1", "run_skill", "{\"name\":\"sh\",\"query\":\"q\"}")),
        Check::Skill { name, query } if name == "sh" && query == "q"
    ));
    assert!(matches!(e.check_needed(&call("1", "grep", "{}")), Check::Free));
    e.cfg.skip_permissions = true;
    assert!(matches!(
        e.check_needed(&call("1", "run_command", "{\"command\":\"rm x\"}")),
        Check::Free
    ));
}

#[test]
fn servers_of_one_name_count_once() {
    let mut e = engine();
    let mut out = Outbox::new();
    e.server_connected("srv", &vec![s("t1")], &mut out);
    e.server_connected("srv", &vec![s("t1"), s("t2")], &mut out);
    assert_eq!(e.mcp_connected, vec![s("srv")]);
    assert_eq!(e.mcp_tools.len(), 3);
    e.servers_reloaded(&mut out);
    assert_eq!(lines(&out)[2], "sys Reconnected: 1/1 server(s), 3 tool(s) total.");
}

#[test]
fn each_call_is_answered_in_order() {
    let mut e = engine();
    let mut out = Outbox::new();
    let cs = vec![call("1", "grep", "{}"), call("2", "write_file", "{}")];
    assert!(e.accept_calls(" on it ", &cs, &mut out));
    let well = ToolOutcome { output: s("found"), is_error: false };
    let badly = ToolOutcome { output: s("no"), is_error: true };
    e.record_result(2, 0, &cs[0], &well, None, &None, &mut out);
    e.record_result(2, 1, &cs[1], &badly, None, &Some(s("stop")), &mut out);
    let told: Vec<(&str, &str, &str)> = e
        .history
        .iter()
        .map(|m| (m.role.as_str(), m.content.as_str(), m.tool_call_id.as_str()))
        .collect();
    assert_eq!(
        told,
        vec![("assistant", "on it", ""), ("tool", "found", "1"), ("tool", "stop", "2")]
    );
    assert!(e.task_steps[0].status == TaskStatus::Completed);
    assert!(e.task_steps[1].status == TaskStatus::Failed);
}

#[test]
fn commands_run_unrestricted_where_all_are_allowed() {
    let mut e = engine();
    assert!(!e.unrestricted(false));
    assert!(e.unrestricted(true));
    e.cfg.skip_permissions = true;
    assert!(e.unrestricted(false));
}

#[test]
fn a_failed_command_ends_its_skill() {
    assert_eq!(preflight_shell(&Verdict::Deny(s("no"))).unwrap().output, "no");
    assert!(preflight_shell(&Verdict::Deny(s("no"))).unwrap().is_error);
    assert!(preflight_shell(&Verdict::NeedApproval(s("rm x"))).is_none());
    assert!(preflight_shell(&Verdict::Allow).is_none());
    let mut outputs = vec![s("one")];
    let well = ToolOutcome { output: s("two"), is_error: false };
    assert!(after_command(&mut outputs, well).is_none());
    let badly = ToolOutcome { output: s("three"), is_error: true };
    assert_eq!(after_command(&mut outputs, badly).unwrap().output, "three");
    assert_eq!(outputs, vec![s("one"), s("two")]);
}

#[test]
fn verdicts_are_carried_out() {
    let mut out = Outbox::new();
    assert!(matches!(rule(judge_command("ls", false), &mut out), Ruling::Run));
    assert!(matches!(rule(judge_command("rm x", true), &mut out), Ruling::Ask));
    let cmds = vec![s("ls"), s("rm y"), s("rm z")];
    assert!(matches!(rule(judge_skill(&vec![], &vec![]), &mut out), Ruling::Run));
    assert!(matches!(
        rule(judge_skill(&cmds, &vec![false, false, false]), &mut out),
        Ruling::Run
    ));
    assert!(matches!(rule(judge_skill(&cmds, &vec![false, true, true]), &mut out), Ruling::Ask));
    assert!(matches!(rule(Verdict::Deny(s("no")), &mut out), Ruling::Refuse));
    assert_eq!(
        lines(&out),
        vec![
            s("approve? destructive command: rm x"),
            s("approve? destructive skill command: rm y"),
            s("err Denied: no"),
        ]
    );
}

#[test]
fn answers_of_the_user_are_awaited() {
    let mut e = engine();
    assert_eq!(e.on_approval(&Some(Action::Approve)), Some(true));
    assert_eq!(e.on_approval(&Some(Action::Deny)), Some(false));
    assert_eq!(e.on_approval(&Some(Action::Quit)), None);
    assert_eq!(e.on_approval(&None), Some(false));
    assert!(!e.cancelled);
    assert_eq!(e.on_approval(&Some(Action::CancelStream)), Some(false));
    assert!(e.cancelled);
    assert_eq!(e.on_question(&Some(Action::UserAnswer(s("yes")))), Some(Some(s("yes"))));
    assert_eq!(e.on_question(&Some(Action::Approve)), None);
    assert_eq!(e.on_question(&None), Some(None));
    assert_eq!(on_review(&Some(Action::AcceptDiff { tool_id: s("a") }), "a"), Some(true));
    assert_eq!(on_review(&Some(Action::AcceptDiff { tool_id: s("b") }), "a"), None);
    assert_eq!(on_review(&Some(Action::RejectDiff { tool_id: s("a") }), "a"), Some(false));
    assert_eq!(on_review(&Some(Action::CancelStream), "a"), Some(false));
    assert_eq!(answer_outcome(&Some(s(" hi "))).output, "hi");
    assert_eq!(answer_outcome(&Some(s("  "))).output, "(no answer)");
    assert!(answer_outcome(&None).is_error);
}

#[test]
fn a_call_is_sent_where_it_belongs() {
    let mut e = engine();
    assert!(matches!(e.how(&call("1", "grep", "{}"), true, &None), How::Refused));
    assert!(matches!(e.how(&call("1", "mark_complete", "{}"), false, &None), How::Complete));
    assert!(matches!(
        e.how(&call("1", "ask_user", "{}"), false, &None),
        How::Ask { question } if question == "Please answer:"
    ));
    assert!(matches!(
        e.how(&call("1", "bg_start", "{\"command\":\"ls\"}"), false, &None),
        How::BgStart { command } if command == "ls"
    ));
    assert!(matches!(
        e.how(&call("1", "bg_log", "{\"id\":\"7\"}"), false, &None),
        How::BgLog { id } if id == "7"
    ));
    let route = Some(McpRoute { server: s("srv"), tool: s("t") });
    assert!(matches!(e.how(&call("1", "mcp__srv__t", "{}"), false, &route), How::Mcp { .. }));
    let edit = call("1", "edit_file", "{\"path\":\"a\"}");
    assert!(matches!(e.how(&edit, false, &None), How::Review));
    e.cfg.skip_permissions = true;
    assert!(matches!(e.how(&edit, false, &None), How::Run));
}

#[test]
fn a_skill_runs_by_its_kind() {
    let mut e = engine();
    assert!(matches!(e.dispatch_skill("sh"), SkillRun::Shell(0)));
    assert!(matches!(e.dispatch_skill("pr"), SkillRun::Prompt(1)));
    match e.dispatch_skill("no") {
        SkillRun::Fail(o) => {
            assert_eq!(o.output, "skill 'no' has neither a shell chunk nor a prompt body")
        }
        _ => panic!("ran"),
    }
    match e.dispatch_skill("zz") {
        SkillRun::Fail(o) => assert_eq!(o.output, "skill 'zz' not found"),
        _ => panic!("ran"),
    }
    e.cfg.skill_subagents = true;
    assert!(matches!(e.dispatch_skill("no"), SkillRun::Subagent(2)));
    assert_eq!(e.subagent_model(), (s("p1"), s("m1")));
}

// ── Compaction and routing ──────────────────────────────────────────────────

fn talk(e: &mut Engine, n: usize) {
    for i in 0..n {
        e.history.push(Message::new_user(format!("m{i}")));
    }
}

#[test]
fn compaction_keeps_the_recent_messages() {
    let mut e = engine();
    talk(&mut e, 10);
    assert_eq!(e.compaction_due(699, 700), None);
    assert_eq!(e.compaction_due(700, 700), Some(2));
    let req = e.summary_request(2);
    assert!(req.content.ends_with("\n\n[user]: m0\n\n[user]: m1\n\n"));
    assert!(!e.apply_summary(2, "  "));
    assert_eq!(e.history.len(), 10);
    assert!(e.apply_summary(2, " short "));
    assert_eq!(e.history.len(), 9);
    assert_eq!(e.history[0].content, "[Marlin Context Summary — 2 turns condensed]\nshort");
    assert_eq!(e.history[1].content, "m2");
    let mut out = Outbox::new();
    e.report_compaction(2, 50, &mut out);
    assert_eq!(
        lines(&out),
        vec![s("sys Context compacted: 2 turns → 1 summary (~50 tokens now).")]
    );
    assert_eq!(e.compaction_due(5049, 700), None);
    assert_eq!(e.compaction_due(5050, 700), Some(1));
}

#[test]
fn a_cheap_model_is_preferred() {
    let e = engine();
    let pick = |v: &[&str]| e.cheapest_model(&Some(v.iter().map(|m| s(m)).collect())).1;
    assert_eq!(pick(&["big", "a-sonnet", "a-haiku"]), "a-haiku");
    assert_eq!(pick(&["big", "a-sonnet"]), "a-sonnet");
    assert_eq!(pick(&["big", "small"]), "big");
    assert_eq!(pick(&[]), "m1");
    assert_eq!(e.cheapest_model(&None), (s("p1"), s("m1")));
}

#[test]
fn a_short_conversation_is_not_compacted() {
    let mut e = engine();
    talk(&mut e, 8);
    let mut out = Outbox::new();
    assert_eq!(e.manual_compaction(&mut out), None);
    assert_eq!(
        lines(&out),
        vec![s("steer [compact] nothing to compact — only 8 turn(s) in context.")]
    );
    assert_eq!(e.compaction_due(usize::MAX, 0), None);
    talk(&mut e, 1);
    let mut out = Outbox::new();
    assert_eq!(e.manual_compaction(&mut out), Some(1));
    e.manual_compaction_begins(1, &mut out);
    assert!(!e.manual_summary(1, "", &mut out));
    assert!(e.manual_summary(1, "s", &mut out));
    e.manual_compaction_done(1, 12, &mut out);
    assert_eq!(
        lines(&out),
        vec![
            s("steer [compact] summarizing 1 older turns…"),
            s("steer [compact] failed: model returned an empty summary."),
            s("steer [compact] done: 1 turns → 1 summary (~12 tokens now)."),
        ]
    );
}

fn tier(p: &str) -> ModelTier {
    ModelTier {
        provider: s(p),
        model: format!("{p}-m"),
        backup_provider: format!("{p}-b"),
        backup_model: format!("{p}-bm"),
    }
}

fn tiers(enabled: bool) -> ModelTiers {
    ModelTiers {
        enabled,
        default_max_difficulty: 40,
        default: tier("easy"),
        complex: tier("hard"),
        rater: tier("rate"),
    }
}

#[test]
fn a_task_is_routed_by_its_difficulty() {
    let mut e = engine();
    e.cfg.model_tiers = Some(tiers(true));
    assert!(e.needs_rating());
    let mut out = Outbox::new();
    e.rate_and_route(40, &mut out);
    assert_eq!(e.req_provider, "easy");
    assert_eq!(e.req_backup_model, "easy-bm");
    e.rate_and_route(41, &mut out);
    assert_eq!(e.req_model, "hard-m");
    assert_eq!(lines(&out), vec![s("tier 40 default"), s("tier 41 complex")]);
    e.cfg.model_tiers = Some(tiers(false));
    assert!(!e.needs_rating());
    e.rate_and_route(99, &mut Outbox::new());
    assert_eq!(e.req_provider, "p1");
    assert_eq!(e.req_backup_provider, "");
    // Agents use the standard tier whether or not tasks are routed.
    assert_eq!(e.subagent_model(), (s("easy"), s("easy-m")));
}

#[test]
fn an_edit_is_verified() {
    let mut e = engine();
    let mut out = Outbox::new();
    assert_eq!(e.begin_verify(&mut out), None);
    e.cfg.verify_command = Some(s("make test"));
    assert_eq!(e.begin_verify(&mut out), Some(s("make test")));
    let run = |success: bool, code: Option<i32>, stdout: String| {
        Some(VerifyRun { success, code, stdout, stderr: s("err\n") })
    };
    e.end_verify(&run(true, Some(0), s("fine")), &mut out);
    assert!(e.history.is_empty());
    let many: Vec<String> = (0..70).map(|i| format!("l{i}")).collect();
    e.end_verify(&run(false, None, many.join("\n") + "\n"), &mut out);
    let text = &e.history[0].content;
    assert!(text.starts_with(
        "[Marlin Verify] Tests failed (exit -1). Fix the errors before continuing.\n\nl11\n"
    ));
    assert!(text.ends_with("\nl69\nerr"));
    assert_eq!(
        lines(&out),
        vec![
            s("sys [Marlin Verify] Running: make test"),
            s("sys [Marlin Verify] ✓ Tests passed."),
            s("sys [Marlin Verify] ✗ Tests failed — injecting error into context."),
        ]
    );
    e.end_verify(&None, &mut out);
    assert_eq!(e.history.len(), 1);
}

#[test]
fn a_checkpoint_is_reported() {
    let mut e = engine();
    let mut out = Outbox::new();
    assert!(!e.checkpoint_due(true, &mut out));
    e.cfg.checkpoints = true;
    assert!(!e.checkpoint_due(false, &mut out));
    assert!(e.checkpoint_due(true, &mut out));
    e.checkpoint_made(&Ok(s("abc")), &mut out);
    e.checkpoint_made(&Ok(String::new()), &mut out);
    e.checkpoint_made(&Err(s("no git")), &mut out);
    assert_eq!(
        lines(&out)[1..].to_vec(),
        vec![
            s("sys Checkpoint created (abc) — /undo will roll this turn back."),
            s("sys Checkpoint skipped: no git"),
        ]
    );
}

// ── Settings ────────────────────────────────────────────────────────────────

fn facts() -> SettingFacts {
    SettingFacts {
        provider_known: true,
        created: Ok(s("first")),
        key_stored: Ok(false),
        theme_known: false,
        mxc_found: false,
        mxc_binary: s("wxc"),
        docker_found: true,
    }
}

#[test]
fn settings_are_changed_one_by_one() {
    let mut e = engine();
    let mut out = Outbox::new();
    e.apply_config_set("provider", "p2", &facts(), &mut out);
    assert_eq!(e.cfg.active_provider, "p2");
    assert_eq!(e.cfg.active_model, "m2");
    assert_eq!(
        lines(&out),
        vec![s("SaveConfigQuietly"), s("SendStatus"), s("SendConfigState { open: false }")]
    );
    e.apply_config_set("max_tokens", "0", &facts(), &mut out);
    assert_eq!(e.cfg.max_tokens, 100);
    e.apply_config_set("max_tokens", "55", &facts(), &mut out);
    assert_eq!(e.cfg.max_tokens, 55);
    e.apply_config_set("tool_call_limit", "x", &facts(), &mut out);
    assert_eq!(e.cfg.tool_call_limit, 3);
    e.apply_config_set("theme", "neon", &facts(), &mut out);
    assert_eq!(e.cfg.theme, "dark");
    e.apply_config_set("theme", "light", &facts(), &mut out);
    assert_eq!(e.cfg.theme, "light");
    e.apply_config_set("sandbox", "docker", &facts(), &mut out);
    assert!(e.cfg.sandbox_mode == SandboxMode::Docker);
    let mut out = Outbox::new();
    e.apply_config_set("sandbox", "mxc", &facts(), &mut out);
    assert!(e.cfg.sandbox_mode == SandboxMode::Docker);
    assert_eq!(
        lines(&out)[0],
        "err MXC binary (wxc) not found in PATH. Install from https://github.com/microsoft/mxc and retry."
    );
    e.apply_config_set("ast", "harness", &facts(), &mut out);
    assert!(e.ast_mode == AstMode::Harness && e.cfg.ast_mode == AstMode::Harness);
    e.apply_config_set("permissions", "skip", &facts(), &mut out);
    e.apply_config_set("clean_env", "on", &facts(), &mut out);
    e.apply_config_set("subagents", "on", &facts(), &mut out);
    assert!(e.cfg.skip_permissions && e.cfg.clean_env && e.cfg.skill_subagents);
}

#[test]
fn a_provider_is_made_in_the_menu() {
    let p = parse_new_provider(" name \nhttp://x\n\nkey\nmore");
    assert_eq!(p.name, "name");
    assert_eq!(p.endpoint, "http://x");
    assert_eq!(p.model, "");
    assert_eq!(p.api_key, "key\nmore");
    let mut e = engine();
    let mut f = facts();
    let mut out = Outbox::new();
    e.apply_config_set("new_provider", "p1\nu", &f, &mut out);
    assert_eq!(lines(&out)[0], "err Provider already exists: p1");
    f.provider_known = false;
    let mut out = Outbox::new();
    e.apply_config_set("new_provider", "new\nu", &f, &mut out);
    assert_eq!(e.cfg.active_provider, "new");
    assert_eq!(e.cfg.active_model, "first");
    assert!(lines(&out).contains(&s("sys Provider 'new' created and selected.")));
    f.created = Err(s("disk full"));
    let mut out = Outbox::new();
    e.apply_config_set("new_provider", "other\nu", &f, &mut out);
    assert_eq!(lines(&out)[0], "err Failed to create provider: disk full");
    assert_eq!(parse_positive("12"), Some(12));
    assert_eq!(parse_positive("0"), None);
}

#[test]
fn the_menu_shows_the_settings() {
    let mut e = engine();
    let us = vec![UserProvider { name: s("P3"), api_key: s("k3") }];
    let st = e.config_state(vec![s("p1")], vec![s("m1"), s("m5")], &us, vec![s("neon")]);
    assert_eq!(st.models, vec![s("m1"), s("m5"), s("m9")]);
    assert_eq!(st.api_key, "k1");
    assert_eq!(st.sandbox_mode, "off");
    assert_eq!(st.ast_mode, "off");
    e.cfg.active_provider = s("p3");
    assert_eq!(e.provider_api_key(&us), "k3");
}

#[test]
fn a_failed_save_is_reported() {
    match save_failed("disk full") {
        UiUpdate::ErrorMsg(t) => assert_eq!(
            t,
            "Failed to save ~/.marlin/config.json: disk full — this change will be lost on restart"
        ),
        _ => panic!("not an error"),
    }
}

// ── Commands ────────────────────────────────────────────────────────────────

#[test]
fn a_command_is_taken_apart() {
    let c = parse_command("  /Allow  npm   run ");
    assert_eq!(c.name, "/allow");
    assert_eq!(c.args, vec![s("npm"), s("run")]);
    assert_eq!(c.rest, "npm   run");
    assert!(matches!(kind_of("/a"), Kind::Attach));
    assert!(matches!(kind_of("/m"), Kind::Model));
    assert!(matches!(kind_of("/settings"), Kind::Config));
    assert!(matches!(kind_of("/nope"), Kind::Other));
    assert_eq!(parse_command("").name, "");
}

#[test]
fn switches_are_turned_and_shown() {
    let mut e = engine();
    let mut out = Outbox::new();
    e.cmd_thinking(&parse_command("/thinking on"), "Some", &mut out);
    e.cmd_thinking(&parse_command("/thinking"), "Some", &mut out);
    e.cmd_clean_env(&parse_command("/clean-env off"), &mut out);
    e.cmd_permissions(&parse_command("/permissions skip"), &mut out);
    e.cmd_permissions(&parse_command("/permissions what"), &mut out);
    e.cmd_subagents(&parse_command("/subagents"), &mut out);
    e.cmd_checkpoints(&parse_command("/checkpoints on"), false, &mut out);
    assert!(e.cfg.thinking && e.cfg.skip_permissions && !e.cfg.checkpoints);
    assert_eq!(
        lines(&out),
        vec![
            s("SaveConfig"),
            s("sys Extended thinking ON — the model will reason before answering (Some extended thinking / OpenAI reasoning models)."),
            s("sys Extended thinking: on  (use /thinking on|off)"),
            s("SaveConfig"),
            s("sys Clean-env sandboxing OFF."),
            s("SaveConfig"),
            s("sys Permissions skipped — all operations proceed without checks."),
            s("sys Permissions: skip  (use /permissions skip|require)"),
            s("sys Skill subagents: off  (use /subagents on|off)"),
            s("err This directory isn't a git repository — checkpoints require git."),
        ]
    );
}

#[test]
fn clearing_drops_conversation_and_attachments() {
    let mut e = engine();
    talk(&mut e, 2);
    e.attach_file("/x/a.rs", s("one"), &mut Outbox::new());
    e.attach_image("/x/a.png", "image/png", &vec![0], &mut Outbox::new());
    let mut out = Outbox::new();
    e.cmd_clear(&mut out);
    assert!(e.history.is_empty() && e.attachments.is_empty() && e.image_attachments.is_empty());
    assert_eq!(lines(&out), vec![s("sys Chat cleared.")]);
}

#[test]
fn the_color_of_a_directory_is_kept() {
    let mut e = engine();
    let mut out = Outbox::new();
    e.cmd_color(&parse_command("/color"), None, &mut out);
    e.cmd_color(&parse_command("/color #ff8800"), Some([255, 136, 0]), &mut out);
    assert_eq!(e.status_info(&None, 0).status_color, Some([255, 136, 0]));
    e.cmd_color(&parse_command("/color red"), None, &mut out);
    e.cmd_color(&parse_command("/color off"), None, &mut out);
    assert_eq!(e.status_info(&None, 0).status_color, None);
    let all = lines(&out);
    assert!(all[0].starts_with("sys Status bar color for this directory: #0102ff\n"));
    assert_eq!(all[3], "sys Status bar color set to #ff8800 for this directory.");
    assert_eq!(
        all[4],
        "err Invalid color: \"red\" — use a hex value like #ff8800, or /color off to clear."
    );
    assert_eq!(all.last().unwrap(), "sys Status bar color cleared (default).");
}

#[test]
fn settings_are_made_by_command() {
    let mut e = engine();
    let mut out = Outbox::new();
    e.cmd_system(&parse_command("/system"), &mut out);
    e.cmd_system(&parse_command("/system be brief"), &mut out);
    e.cmd_budget(&parse_command("/budget 77"), &mut out);
    e.cmd_budget(&parse_command("/budget x"), &mut out);
    e.cmd_budget(&parse_command("/budget 0"), &mut out);
    e.cmd_allow(&parse_command("/allow cargo test"), &mut out);
    e.cmd_allow(&parse_command("/allow"), &mut out);
    e.cmd_verify(&parse_command("/verify make"), &mut out);
    e.cmd_verify(&parse_command("/verify"), &mut out);
    e.cmd_verify(&parse_command("/verify off"), &mut out);
    e.cmd_pwd(&mut out);
    e.cmd_ast(&parse_command("/ast what"), &mut out);
    e.cmd_ast(&parse_command("/ast"), &mut out);
    let none = SandboxFacts { mxc_found: false, mxc_binary: s("wxc"), docker_found: false };
    e.cmd_sandbox(&parse_command("/sandbox"), &none, &mut out);
    e.cmd_sandbox(&parse_command("/sandbox docker"), &none, &mut out);
    assert_eq!(e.token_budget, 77);
    assert_eq!(e.cfg.allowed_commands, vec![s("ls"), s("cargo test")]);
    assert_eq!(
        lines(&out),
        vec![
            s("sys No custom system prompt. Use /system <text> to set one."),
            s("SaveConfig"),
            s("sys System prompt updated."),
            s("SaveConfig"),
            s("SendTokenUsage"),
            s("sys Context budget: 77 tokens"),
            s("err Usage: /budget <n>"),
            s("SaveConfig"),
            s("sys Allowed: \"cargo test\""),
            s("sys Allowed prefixes: ls, cargo test"),
            s("SaveConfig"),
            s("sys Verify command set: make"),
            s("sys Verify command: make  (use /verify off to clear)"),
            s("SaveConfig"),
            s("sys Verify command cleared."),
            s("sys Directory: /home/u/proj"),
            s("err Unknown AST mode \"what\" — use: off, sexpr, harness"),
            s("sys AST mode: off  (use /ast off|sexpr|harness)"),
            s("sys Sandbox: off  |  mxc: not found (wxc)  |  docker: not found (docker)\n/sandbox [off|permissive|mxc|docker]"),
            s("err docker CLI not found in PATH. Install Docker and retry."),
        ]
    );
}

#[test]
fn tiers_are_turned_on_and_off() {
    let mut e = engine();
    let mut out = Outbox::new();
    e.cmd_tiers(&parse_command("/tiers"), tiers(false), &mut out);
    e.cmd_tiers(&parse_command("/tiers on"), tiers(false), &mut out);
    e.cmd_tiers(&parse_command("/tiers"), tiers(false), &mut out);
    e.cmd_tiers(&parse_command("/tiers off"), tiers(false), &mut out);
    assert!(!e.cfg.model_tiers.as_ref().unwrap().enabled);
    let all = lines(&out);
    assert_eq!(
        all[0],
        "sys Model tiers: not configured (use /tiers on to enable)\n\nUse /tiers on|off"
    );
    assert_eq!(
        all[3],
        "sys Model tiers: enabled\n  default (≤40): easy / easy-m\n  complex (>40): hard / hard-m\n  rater: rate / rate-m\n\nUse /tiers on|off"
    );
}

#[test]
fn providers_are_switched_and_listed() {
    assert!(matches!(ask_provider(&parse_command("/provider")), ProviderAsk::Usage));
    assert!(matches!(ask_provider(&parse_command("/provider LS")), ProviderAsk::List));
    assert!(matches!(
        ask_provider(&parse_command("/p new")),
        ProviderAsk::Create(n) if n == "my_provider"
    ));
    assert!(matches!(ask_provider(&parse_command("/p P2")), ProviderAsk::Switch(n) if n == "p2"));
    let mut e = engine();
    let mut out = Outbox::new();
    let us = vec![UserProvider { name: s("mine"), api_key: String::new() }];
    e.provider_usage(&vec![s("p1"), s("p2")], &mut out);
    e.provider_list(&vec![s("p1"), s("p2")], &us, &mut out);
    e.provider_switch("zz", false, &mut out);
    e.provider_switch("p2", true, &mut out);
    e.cmd_model(&parse_command("/model m7"), &None, &mut out);
    assert_eq!(e.cfg.providers[1].model, "m7");
    e.cmd_models(&Err(s("gone")), &mut out);
    e.cmd_providers(
        &vec![ProviderModels { name: s("p2"), models: Some(vec![s("a"), s("b"), s("c")]) }],
        &mut out,
    );
    assert_eq!(
        lines(&out),
        vec![
            s("sys Usage: /provider <name|list|new <name>>  — available: p1, p2"),
            s("sys Providers:\n  p1 *\n  p2\n  mine (user, restart to activate)"),
            s("err Unknown provider: zz"),
            s("SaveConfig"),
            s("sys Switched to provider: p2  model: m2"),
            s("SendStatus"),
            s("RememberModel { provider: \"p2\", model: \"m7\" }"),
            s("SaveConfig"),
            s("sys Model set to: m7"),
            s("SendStatus"),
            s("err gone"),
            s("sys Providers:\n▶ p2  [a, b...]"),
        ]
    );
}

#[test]
fn keys_and_endpoints_are_given() {
    assert!(read_pair(&parse_command("/key p1")).is_none());
    let p: Pair = read_pair(&parse_command("/key P1 secret")).unwrap();
    assert_eq!(p.provider, "p1");
    let e = engine();
    let mut out = Outbox::new();
    e.pair_usage(true, &mut out);
    e.key_given(&p, &Ok(false), &mut out);
    e.key_given(&p, &Err(s("disk")), &mut out);
    let us = vec![UserProvider { name: s("Mine"), api_key: s("k") }];
    assert!(e.has_saved_key(&us, "p1"));
    assert!(e.has_saved_key(&us, "mine"));
    assert!(!e.has_saved_key(&us, "p2"));
    e.endpoint_given(&p, &Ok(true), true, false, &mut out);
    assert_eq!(
        lines(&out),
        vec![
            s("sys Usage: /key <provider> <api-key>"),
            s("StoreKey { provider: \"p1\", key: \"secret\" }"),
            s("SaveConfig"),
            s("RebuildRegistry"),
            s("sys API key saved for p1."),
            s("err Failed to save API key: disk"),
            s("RebuildRegistry"),
            s("sys Endpoint updated for p1: secret"),
            s("sys ⚠ p1 has a saved API key — it will now be sent to secret on every request. Only proceed if you trust this endpoint."),
        ]
    );
}

#[test]
fn files_are_shown_and_opened() {
    let mut e = engine();
    let mut out = Outbox::new();
    let missing = || Err(ReadError { message: s("not found"), missing: true });
    let refused = || Err(ReadError { message: s("denied"), missing: false });
    e.cat_shown("a", &Ok(s("text")), &mut out);
    e.cat_shown("a", &missing(), &mut out);
    e.edit_opened("a", &missing(), &mut out);
    e.edit_opened("a", &refused(), &mut out);
    e.view_opened("a", &missing(), &mut out);
    let es = vec![
        DirEntry { name: s("b"), is_dir: false },
        DirEntry { name: s("a"), is_dir: true },
    ];
    e.listing_shown("/d", &Ok(es), &mut out);
    e.not_a_directory("zz", &mut out);
    e.enter_directory("/home/u/other", &None, &mut out);
    assert_eq!(e.work_dir, "/home/u/other");
    assert_eq!(e.cfg.work_dir, "/home/u/other");
    assert_eq!(e.session.as_ref().unwrap().project, "other");
    assert_eq!(
        lines(&out),
        vec![
            s("sys [a]\ntext"),
            s("err not found"),
            s("OpenEditor(File(FileText { path: \"a\", content: \"\" }))"),
            s("OpenEditor(Failed(\"denied\"))"),
            s("OpenViewer(Failed(\"not found\"))"),
            s("sys [/d]\na/\nb"),
            s("err Not a directory: zz"),
            s("SaveConfig"),
            s("SendStatus"),
            s("sys Directory: /home/u/other"),
        ]
    );
}

#[test]
fn snapshots_are_listed_and_restored() {
    let e = engine();
    let snaps = vec![Snapshot { id: s("1"), when: s("Jan 01 00:00:00"), tool: s("edit_file"), size: s("1 KB") }];
    let mut out = Outbox::new();
    assert_eq!(e.cmd_revert(&parse_command("/revert f"), &vec![], &mut out), None);
    assert_eq!(e.cmd_revert(&parse_command("/revert f"), &snaps, &mut out), None);
    assert_eq!(e.cmd_revert(&parse_command("/revert f 2"), &snaps, &mut out), None);
    assert_eq!(e.cmd_revert(&parse_command("/revert f 1"), &snaps, &mut out), Some(0));
    e.restored("f", &snaps[0], &Ok(()), &mut out);
    e.restored("f", &snaps[0], &Err(s("disk")), &mut out);
    assert_eq!(
        lines(&out),
        vec![
            s("sys No snapshots for f — Marlin snapshots files before every AI edit."),
            s("sys Snapshots for f (newest first):\n   1.  Jan 01 00:00:00  [edit_file]  1 KB\n\nUse /revert f <n> to restore."),
            s("err Invalid snapshot number (1–1)."),
            s("sys Restored f → snapshot from Jan 01 00:00:00 (edit_file, 1 KB)."),
            s("err Restore failed: disk"),
        ]
    );
}

#[test]
fn sessions_are_resumed_and_listed() {
    let mut e = engine();
    let saved = || {
        vec![SavedSession {
            summary: s("fix bug"),
            project: s("proj"),
            messages: vec![Message::new_user(s("hello"))],
        }]
    };
    let mut out = Outbox::new();
    e.cmd_resume(&vec![], &mut out);
    e.cmd_resume(&saved(), &mut out);
    assert_eq!(e.history.len(), 1);
    assert!(e.history_clears(&parse_command("/history clear")));
    e.cmd_history(&parse_command("/history 3"), &saved(), &mut out);
    e.cmd_history(&parse_command("/history 1"), &saved(), &mut out);
    e.cmd_history(&parse_command("/history"), &saved(), &mut out);
    e.cmd_history(&parse_command("/history"), &vec![], &mut out);
    assert_eq!(
        lines(&out),
        vec![
            s("sys No saved sessions to resume."),
            s("history 1"),
            s("sys Resumed: fix bug"),
            s("err Invalid session number (1–1)."),
            s("history 1"),
            s("sys Loaded: fix bug"),
            s("sys Saved sessions (newest first):\n   1.  fix bug  [proj]\n\nUse /history <n> to load, /history clear to delete all."),
            s("sys No saved sessions."),
        ]
    );
}

#[test]
fn an_export_names_its_file() {
    assert!(matches!(ask_export(&parse_command("/export")), Export::Html(p) if p == "marlin_export.html"));
    assert!(matches!(ask_export(&parse_command("/export json x.json")), Export::Json(p) if p == "x.json"));
    assert!(matches!(ask_export(&parse_command("/export pdf")), Export::Unknown));
}

#[test]
fn the_index_is_reported() {
    let e = engine();
    let mut out = Outbox::new();
    let found = vec![SourceFile { path: s("a.rs"), text: Some(s("fn connect() {}\n")) }];
    let at = Timestamp { secs: 1_700_000_000, nanos: 0 };
    let (idx, _) = build("/w", &found, at, Elapsed { secs: 0, nanos: 0 });
    e.index_status_shown(&None, &mut out);
    e.index_status_shown(&Some(idx), &mut out);
    e.index_begins(&mut out);
    let stats = BuildStats { files: 1, terms: 2, symbols: 1, elapsed: Elapsed { secs: 1, nanos: 500_000_000 } };
    e.index_built(&Some(stats), &mut out);
    e.index_built(&None, &mut out);
    assert_eq!(
        lines(&out),
        vec![
            s("sys No index built. Run /index to build one."),
            s("sys Index: 1 files, 2 terms, 1 symbols, built Nov 14 22:13."),
            s("sys Building index for /home/u/proj…"),
            s("IndexBuilt"),
            s("sys Index built: 1 files, 2 terms, 1 symbols in 1.5s. Use /search <query> or the AI will use it automatically."),
            s("err Index build failed"),
        ]
    );
}

#[test]
fn lists_of_the_user_are_shown() {
    let mut e = engine();
    let mut out = Outbox::new();
    assert!(matches!(ask_list(&parse_command("/command new x"), "my_command", false), ListAsk::Create(n) if n == "x"));
    assert!(matches!(ask_list(&parse_command("/command new"), "my_command", false), ListAsk::Create(n) if n == "my_command"));
    assert!(matches!(ask_list(&parse_command("/tool migrate"), "my_tool", false), ListAsk::Unknown));
    assert!(matches!(ask_list(&parse_command("/skill migrate"), "my_skill", true), ListAsk::Migrate));
    e.commands_shown(&mut out);
    e.skills_shown(&mut out);
    e.tools_shown(&mut out);
    e.servers_shown(&mut out);
    e.server_connected("srv", &vec![s("t1"), s("t2")], &mut out);
    e.servers_shown(&mut out);
    e.servers_reloaded(&mut out);
    e.commands_reloaded(vec![], &mut out);
    assert_eq!(
        lines(&out),
        vec![
            s("sys User commands (2):\n  /hi <who>               — greets\n  /ask                     — asks"),
            s("sys Skills (3):\n  sh                   — a shell skill [.toml, deprecated — /skill migrate]\n  pr                   — a prompt\n  no                   — empty"),
            s("sys No user tools. Add TOML files to ~/.marlin/tools/"),
            s("sys MCP servers (1):\n  srv                  not connected"),
            s("sys mcp: connected 'srv' (2 tool(s))"),
            s("sys MCP servers (1):\n  srv                  connected — t1, t2"),
            s("sys Reconnected: 1/1 server(s), 2 tool(s) total."),
            s("UserCommandsLoaded([])"),
            s("sys Reloaded 0 user command(s)."),
        ]
    );
}

#[test]
fn commands_of_the_user_run() {
    let e = engine();
    let mut out = Outbox::new();
    let c = parse_command("/HI bob");
    let k = e.find_user_command(&c, &mut out).unwrap();
    assert_eq!(e.user_command_line(k, "'bob'"), "echo 'bob'");
    e.user_command_begins(k, "echo 'bob'", &mut out);
    e.user_command_ended(k, &ok("bob"), &mut out);
    e.user_command_ended(k, &bad("oops"), &mut out);
    e.user_command_denied(k, &mut out);
    let c = parse_command("/ask why");
    let k = e.find_user_command(&c, &mut out).unwrap();
    assert_eq!(e.user_prompt(k, &c, &mut out), "Q: why?");
    assert_eq!(e.find_user_command(&parse_command("/zz"), &mut out), None);
    assert_eq!(
        lines(&out),
        vec![
            s("sys Running /hi: echo 'bob'"),
            s("sys [/hi]\nbob"),
            s("err [/hi]\noops"),
            s("sys [/hi] Denied."),
            s("sys /ask: injecting prompt into conversation…"),
            s("err Unknown command: /zz  (type /help for list)"),
        ]
    );
}

#[test]
fn a_note_is_told_from_a_command() {
    assert!(matches!(parse_steer("  "), Steer::Empty));
    assert!(matches!(parse_steer(" /Compact now"), Steer::Compact));
    assert!(matches!(parse_steer(" /help "), Steer::Command(c) if c == "/help"));
    assert!(matches!(parse_steer(" use tabs "), Steer::Note(t) if t == "use tabs"));
    let e = engine();
    let mut out = Outbox::new();
    e.note_shown("use tabs", &mut out);
    e.steered_prompt("/Ask why", "Q: why?", &mut out);
    assert_eq!(
        lines(&out),
        vec![s("steer use tabs"), s("steer [steer] /ask expanded prompt:\nQ: why?")]
    );
}

#[test]
fn a_shell_command_must_be_allowed() {
    let mut e = engine();
    let mut out = Outbox::new();
    assert!(!e.exec_begins(&parse_command("/exec"), true, &mut out));
    assert!(!e.exec_begins(&parse_command("/exec rm -r x"), false, &mut out));
    assert!(e.exec_begins(&parse_command("/exec ls"), true, &mut out));
    e.cfg.sandbox_mode = SandboxMode::Permissive;
    assert!(e.exec_begins(&parse_command("/exec rm x"), false, &mut out));
    e.exec_ended(&Some((s(" a\n"), s("b\n"))), &mut out);
    e.exec_ended(&None, &mut out);
    assert_eq!(
        lines(&out),
        vec![
            s("sys Usage: /exec <shell command>"),
            s("err Command not allowed: \"rm -r x\"\nUse /allow rm or /sandbox [permissive|docker|gvisor]."),
            s("sys Running: ls"),
            s("sys Running: rm x"),
            s("sys [exec]\na\nb"),
            s("err exec failed"),
        ]
    );
}

#[test]
fn a_preflight_lists_its_notes() {
    let e = engine();
    let mut out = Outbox::new();
    e.cmd_preflight(&parse_command("/preflight"), &vec![s("a")], &vec![], &mut out);
    e.cmd_preflight(&parse_command("/preflight skills"), &vec![s("a")], &vec![s("b")], &mut out);
    e.cmd_preflight(&parse_command("/preflight zz"), &vec![s("a")], &vec![], &mut out);
    assert_eq!(
        lines(&out),
        vec![
            s("sys preflight [all]:\nstartup: 1 note(s)\n  a\nskills: 0 note(s)"),
            s("sys preflight [skills]:\nskills: 1 note(s)\n  b"),
            s("sys preflight: no issues found."),
        ]
    );
}

#[test]
fn what_reaches_outside_is_reported() {
    let mut e = engine();
    let mut out = Outbox::new();
    e.undone(&Ok(s("back")), &mut out);
    e.undone(&Err(s("no git")), &mut out);
    e.provider_created(&Ok(s("/p.toml")), &mut out);
    e.provider_created(&Err(s("disk")), &mut out);
    e.endpoint_invalid("no scheme", &mut out);
    e.endpoint_given(
        &Pair { provider: s("p"), value: s("u") },
        &Err(s("disk")),
        true,
        false,
        &mut out,
    );
    e.exported("x.html", &Ok(()), &mut out);
    e.exported("x.html", &Err(s("disk")), &mut out);
    e.export_usage(&mut out);
    e.history_cleared(&Ok(()), &mut out);
    e.history_cleared(&Err(s("disk")), &mut out);
    e.file_usage(&parse_command("/view"), &mut out);
    e.directory_shown(&mut out);
    e.compared("f", Err(s("File too large to diff.")), &mut out);
    e.compared("f", Ok(vec![]), &mut out);
    e.server_without_tools("srv", "x", &mut out);
    e.server_failed("srv", "x", &mut out);
    e.save_cancelled("/a", &mut out);
    e.announce_compaction(800, 4, &mut out);
    e.compaction_unavailable("p9", &mut out);
    e.manual_compaction_failed("x", &mut out);
    e.report_pruned(0, 0, &mut out);
    e.report_pruned(2, 1, &mut out);
    marlin::route::report_refresh(0, &mut out);
    marlin::route::report_refresh(3, &mut out);
    e.cmd_config(&mut out);
    assert_eq!(
        lines(&out),
        vec![
            s("sys Undo complete: back"),
            s("err Undo failed: no git"),
            s("sys Provider template created:\n  /p.toml\n\nEdit it and restart Marlin to activate."),
            s("err Failed to create provider: disk"),
            s("err Invalid endpoint: no scheme"),
            s("err Failed to save endpoint: disk"),
            s("sys Exported session to x.html"),
            s("err Failed to write x.html: disk"),
            s("sys Usage: /export [html|json] [filename]"),
            s("sys Session history cleared."),
            s("err Failed to clear sessions: disk"),
            s("sys Usage: /view <file>"),
            s("sys Current directory: /home/u/proj"),
            s("err File too large to diff."),
            s("OpenDiff { path: \"f\", diff: [] }"),
            s("err mcp: 'srv' connected but tools/list failed: x"),
            s("err mcp: 'srv' failed to start: x"),
            s("sys Save cancelled: /a"),
            s("sys Compacting context (~800 tokens) — summarizing 4 older turns…"),
            s("steer [compact] failed: provider 'p9' unavailable."),
            s("steer [compact] failed: x"),
            s("sys Context managed: compressed 2 messages, dropped 1 oldest turns."),
            s("sys index: refreshed 3 changed file(s)"),
            s("SendConfigState { open: true }"),
        ]
    );
}

#[test]
fn a_file_without_snapshots_cannot_be_compared() {
    let mut out = Outbox::new();
    engine().nothing_to_compare("/a", &mut out);
    assert_eq!(
        lines(&out),
        vec![s("sys No snapshots for /a yet — snapshots are taken automatically on write_file/edit_file, so there's nothing to diff against until it's been edited at least once.")]
    );
}

#[test]
fn the_editor_saves_through_the_checks() {
    let e = engine();
    let mut out = Outbox::new();
    assert!(matches!(e.rule_save(Verdict::Allow, &mut out), Ruling::Run));
    assert!(matches!(e.rule_save(Verdict::Deny(s("outside")), &mut out), Ruling::Refuse));
    assert!(matches!(e.rule_save(Verdict::NeedApproval(s("outside")), &mut out), Ruling::Ask));
    assert!(e.editor_saved(&ok(""), "/a", &mut out));
    assert!(!e.editor_saved(&bad("disk full"), "/a", &mut out));
    assert_eq!(
        lines(&out),
        vec![
            s("err Save denied: outside"),
            s("approve? outside"),
            s("sys Saved /a"),
            s("EditorSaved { path: \"/a\" }"),
            s("err disk full"),
        ]
    );
}

#[test]
fn a_changed_file_is_indexed_anew() {
    let found = vec![SourceFile { path: s("a.rs"), text: Some(s("alpha\n")) }];
    let at = Timestamp { secs: 0, nanos: 0 };
    let (mut idx, _) = build("/w", &found, at, Elapsed { secs: 0, nanos: 0 });
    let refresh = marlin::route::refresh_file;
    assert!(refresh(&mut idx, "a.rs", "/w/a.rs", true, &Some(s("beta\n"))));
    assert_eq!(idx.df.get("alpha"), Some(0));
    assert_eq!(idx.df.get("beta"), Some(1));
    assert!(!refresh(&mut idx, "b.png", "/w/b.png", true, &Some(s("beta\n"))));
    assert!(refresh(&mut idx, "b.rs", "/w/b.rs", true, &None));
    assert_eq!(idx.file_count, 1);
    assert!(!refresh(&mut idx, "a.rs", "/w/a.rs", false, &None));
    assert_eq!(idx.file_count, 0);
}

#[test]
fn a_search_needs_an_index() {
    let e = engine();
    let mut out = Outbox::new();
    assert!(!e.search_begins(&parse_command("/search"), true, &mut out));
    assert!(!e.search_begins(&parse_command("/search x"), false, &mut out));
    assert!(e.search_begins(&parse_command("/search x"), true, &mut out));
    e.search_shown(&parse_command("/search a  b"), &vec![], &mut out);
    assert!(e.index_asks_status(&parse_command("/index status")));
    assert!(!e.index_asks_status(&parse_command("/index")));
    assert_eq!(
        lines(&out),
        vec![
            s("sys Usage: /search <query>"),
            s("err No index. Run /index first."),
            s("sys No results for \"a  b\""),
        ]
    );
}

#[test]
fn themes_are_set_and_listed() {
    let mut e = engine();
    let mut out = Outbox::new();
    let named = vec![Named { name: s("neon"), description: s("bright") }];
    e.cmd_theme(&parse_command("/theme"), false, &vec![], &mut out);
    e.cmd_theme(&parse_command("/theme light"), false, &vec![], &mut out);
    e.cmd_theme(&parse_command("/theme neon"), true, &named, &mut out);
    assert_eq!(e.cfg.theme, "neon");
    e.cmd_theme(&parse_command("/theme zz"), false, &named, &mut out);
    e.cmd_theme(&parse_command("/theme zz"), false, &vec![], &mut out);
    assert_eq!(
        lines(&out),
        vec![
            s("sys Theme: dark  (use /theme dark|light|<name>)\n\nNamed themes:\n  (none — add .toml files to ~/.marlin/themes/)"),
            s("UseLightTheme(true)"),
            s("SaveConfig"),
            s("sys Theme set to light."),
            s("SaveConfig"),
            s("sys Theme 'neon' applied (persisted)."),
            s("err Theme 'zz' not found. Available named themes:\n  neon  —  bright"),
            s("err Theme 'zz' not found. Add ~/.marlin/themes/zz.toml to create it."),
        ]
    );
}

#[test]
fn the_tokens_of_a_prompt_are_shown() {
    let mut e = engine();
    let report = marlin::budget::compute("abcdefgh", &vec![]);
    assert_eq!(report.total, 2);
    let mut out = Outbox::new();
    e.cmd_tokens(&parse_command("/tokens"), &report, &mut out);
    e.cmd_tokens(&parse_command("/tokens 9"), &report, &mut out);
    e.cmd_tokens(&parse_command("/tokens x"), &report, &mut out);
    assert_eq!(e.cfg.max_tokens, 9);
    let all = lines(&out);
    assert_eq!(all.len(), 3);
    assert!(all[0].starts_with(
        "sys Max output tokens: 100  (use /tokens <n> to change)\n\nBase prompt injection (target ~4000t, warning only):\n"
    ));
    assert_eq!(all[2], "sys Max tokens: 9");
    e.cmd_help("p1", &mut out);
    assert!(lines(&out)[3].starts_with("sys Commands:\n"));
}

#[test]
fn skills_are_made_and_run() {
    let mut e = engine();
    let mut out = Outbox::new();
    assert!(e.skill_asked(&parse_command("/skill run"), &mut out).is_none());
    assert!(e.skill_asked(&parse_command("/skill run zz"), &mut out).is_none());
    let a = e.skill_asked(&parse_command("/skill run sh one two"), &mut out).unwrap();
    assert_eq!(a.query, "one two");
    e.skill_begins(&a, true, &mut out);
    e.skill_begins(&a, false, &mut out);
    e.skill_ended(&a, &ok("fine"), &mut out);
    e.skill_ended(&a, &bad("oops"), &mut out);
    e.skill_denied(&a, &mut out);
    e.skill_prompt(&a, &Ok(s("text")), &mut out);
    e.skill_prompt(&a, &Err(s("bad")), &mut out);
    e.skill_empty(&a, &mut out);
    e.skill_created(&Ok(s("/s.qmd")), vec![], &vec![s("note")], &mut out);
    assert!(e.skills.is_empty());
    e.skills_migrated(&Ok(0), vec![], &vec![], &mut out);
    e.skills_migrated(&Ok(2), vec![], &vec![], &mut out);
    e.skills_migrated(&Err(s("disk")), vec![], &vec![], &mut out);
    e.skills_reloaded(vec![], &vec![], &mut out);
    assert_eq!(
        lines(&out),
        vec![
            s("sys Usage: /skill run <name> [query]"),
            s("err Unknown skill 'zz'.  Use /skill list."),
            s("sys Running skill 'sh' with query: one two (subagent)"),
            s("sys Running skill 'sh' with query: one two"),
            s("sys [skill: sh]\nfine"),
            s("err [skill: sh]\noops"),
            s("sys [skill: sh] Denied."),
            s("sys [skill: sh] Expanded prompt — copy and send to run:\n\ntext"),
            s("err Skill error: bad"),
            s("err skill 'sh' has neither a shell chunk nor a prompt body"),
            s("sys Skill template created:\n  /s.qmd\n\nEdit the file to customise it, then /skill reload."),
            s("err note"),
            s("sys No .toml skills to migrate."),
            s("sys Migrated 2 skill(s) to .qmd."),
            s("err Migration failed: disk"),
            s("SkillsLoaded([])"),
            s("sys Reloaded 0 skill(s)."),
        ]
    );
}

#[test]
fn skills_are_suggested_for_the_last_message() {
    let mut e = engine();
    assert_eq!(e.suggestion_context(), "");
    talk(&mut e, 2);
    e.history.push(Message::plain("assistant", s("reply")));
    assert_eq!(e.suggestion_context(), "m1");
    let mut out = Outbox::new();
    e.suggestions_shown(&Some(Ok(s("written"))), &vec![], &mut out);
    e.suggestions_shown(&Some(Err(s("disk"))), &vec![], &mut out);
    e.suggestions_shown(&None, &vec![], &mut out);
    e.suggestions_shown(&None, &vec![Named { name: s("sh"), description: s("d") }], &mut out);
    assert_eq!(
        lines(&out),
        vec![
            s("sys written"),
            s("err Error reading suggestions: disk"),
            s("sys No skill suggestions yet. Nightly analysis runs after 20h of activity (requires model_tiers config)."),
            s("sys Suggested skills:\n  sh                   — d"),
        ]
    );
}

#[test]
fn templates_are_made_for_the_user() {
    let mut e = engine();
    let c = marlin::list_command::new_command("x");
    assert_eq!(c.command, "echo {args}");
    assert_eq!(c.args, "[optional-args]");
    let mut out = Outbox::new();
    e.command_created(&Ok(s("/c.toml")), vec![c], &mut out);
    assert_eq!(e.user_commands.len(), 1);
    e.command_created(&Err(s("disk")), vec![], &mut out);
    assert_eq!(e.user_commands.len(), 1);
    e.tool_created(&Ok(s("/t.toml")), vec![Named { name: s("t"), description: s("d") }], &mut out);
    e.tools_shown(&mut out);
    e.tools_reloaded(vec![], &mut out);
    assert!(e.new_server(&parse_command("/mcp new a"), &mut out).is_none());
    let srv = e.new_server(&parse_command("/mcp new a npx -y pkg"), &mut out).unwrap();
    assert_eq!(srv.command, "npx");
    assert_eq!(srv.args, vec![s("-y"), s("pkg")]);
    e.server_created(&Ok(s("/a.json")), vec![s("srv"), s("a")], &mut out);
    assert_eq!(e.mcp_servers.len(), 2);
    e.servers_reloading(vec![]);
    e.list_usage(&parse_command("/mcp zz"), &mut out);
    e.list_usage(&parse_command("/skills zz"), &mut out);
    assert_eq!(
        lines(&out),
        vec![
            s("sys Command template created:\n  /c.toml\n\nEdit it, then /command reload to activate."),
            s("err Failed to create command: disk"),
            s("sys Tool template created:\n  /t.toml\n\nEdit it, then /tool reload to activate."),
            s("sys User tools (1):\n  t                        — d"),
            s("sys Reloaded 0 user tool(s)."),
            s("sys Usage: /mcp new <name> <command> [args...]"),
            s("sys MCP server config created:\n  /a.json\n\n/mcp reload to connect."),
            s("sys Usage: /mcp [list|new <name> <command> [args...]|reload]"),
            s("sys Usage: /skill [list|run <name> [query]|new <name>|suggest|reload|migrate]"),
        ]
    );
}

#[test]
fn requests_to_models_are_worded() {
    assert!(marlin::route::rating_request("fix it").content.ends_with(
        "Reply with ONLY the number.\n\nTask: fix it"
    ));
    assert!(marlin::route::plan_request("fix it").content.starts_with(
        "Break the following coding task into 2-6 short, concrete, ordered steps"
    ));
    assert_eq!(marlin::route::plan_request("x").role, "user");
}

#[test]
fn an_action_during_a_tool_is_told_apart() {
    let mut e = engine();
    assert!(matches!(e.on_action_in_tool(&None), Interrupt::Ignore));
    assert!(matches!(e.on_action_in_tool(&Some(Action::Steer(s("x")))), Interrupt::Steer(_)));
    assert!(!e.cancelled);
    assert!(matches!(e.on_action_in_tool(&Some(Action::CancelStream)), Interrupt::Stop));
    assert!(e.cancelled);
    assert_eq!(marlin::tools::refused_outcome().output, "Command denied by user.");
    assert_eq!(marlin::tools::cancelled_outcome().output, "Cancelled by user.");
    assert_eq!(marlin::tools::complete_outcome().output, "Acknowledged.");
    assert!(!marlin::tools::complete_outcome().is_error);
    assert_eq!(
        marlin::tools::rejected_outcome().output,
        "Edit rejected by user — diff was not accepted."
    );
    assert_eq!(
        marlin::tools::unconnected_outcome("srv").output,
        "mcp server 'srv' is not connected"
    );
}
