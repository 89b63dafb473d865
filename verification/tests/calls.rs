use marlin::budget::{badge, compute, ToolDef, ToolProperty, WARN_THRESHOLD};
use marlin::calls::{
    error_hint, extract_cmd_str, extract_file_path, extract_path_field, extract_summary_field,
    is_file_edit, is_parallel_safe, parallel_group_ids, shell_aware_truncate, tool_short_desc,
};
use marlin::help::help_text;
use marlin::json::Edit;
use marlin::message::{Message, ToolCall};
use marlin::net::{is_transient_network_error, on_failure, Retry};
use marlin::route::{editor_call, parse_plan, rate_difficulty, shell_input};
use marlin::tools::{
    apply_edits, batch_end, bg_log_outcome, bg_start_outcome, bg_start_refused, bg_status_outcome,
    combine_outputs, preview, real_groups, BgStatus,
};
use marlin::transcript::{compact_serialize, export_html, history_entries, html_escape};

fn call(name: &str) -> ToolCall {
    ToolCall {
        id: format!("id-{name}-{}", name.len()),
        name: name.to_string(),
        input: "{}".into(),
    }
}

fn calls(names: &[&str]) -> Vec<ToolCall> {
    names.iter().map(|n| call(n)).collect()
}

#[test]
fn is_parallel_safe_covers_only_read_only_tools() {
    assert!(is_parallel_safe("read_file"));
    assert!(is_parallel_safe("list_directory"));
    assert!(is_parallel_safe("search_codebase"));
    assert!(is_parallel_safe("grep"));
    assert!(is_parallel_safe("glob"));
    assert!(is_parallel_safe("ast_skeleton"));
    assert!(is_parallel_safe("ast_get_node"));

    assert!(!is_parallel_safe("write_file"));
    assert!(!is_parallel_safe("edit_file"));
    assert!(!is_parallel_safe("notebook_edit"));
    assert!(!is_parallel_safe("run_command"));
    assert!(!is_parallel_safe("create_directory"));
    assert!(!is_parallel_safe("ast_mutate"));
    assert!(!is_parallel_safe("run_skill"));
}

#[test]
fn consecutive_safe_calls_share_a_group() {
    let calls = vec![
        call("read_file"),
        call("list_directory"),
        call("search_codebase"),
    ];
    let groups = parallel_group_ids(&calls);
    assert_eq!(groups, vec![Some(0), Some(0), Some(0)]);
}

#[test]
fn solo_safe_call_gets_no_group() {
    let calls = vec![call("write_file"), call("read_file"), call("run_command")];
    let groups = parallel_group_ids(&calls);
    assert_eq!(groups, vec![None, None, None]);
}

#[test]
fn mixed_batch_only_groups_the_consecutive_safe_run() {
    // write, [read, list], run_command, [search, ast_skeleton]
    let calls = vec![
        call("write_file"),
        call("read_file"),
        call("list_directory"),
        call("run_command"),
        call("search_codebase"),
        call("ast_skeleton"),
    ];
    let groups = parallel_group_ids(&calls);
    assert_eq!(groups, vec![None, Some(1), Some(1), None, Some(4), Some(4)]);
}

#[test]
fn a_refused_call_did_not_run_in_a_group() {
    let mut cs = calls(&["read_file", "grep", "glob"]);
    cs[0].id = "a".to_string();
    cs[1].id = "b".to_string();
    cs[2].id = "c".to_string();
    assert_eq!(real_groups(&cs, &vec!["b".to_string()]), vec![Some(0), None, Some(0)]);
    // One that ran alone was not part of a batch.
    assert_eq!(
        real_groups(&cs, &vec!["b".to_string(), "c".to_string()]),
        vec![None, None, None]
    );
    assert_eq!(batch_end(&cs, 0), 3);
    assert_eq!(batch_end(&calls(&["read_file", "write_file"]), 0), 1);
}

#[test]
fn a_shell_command_is_cut_between_words() {
    assert_eq!(
        shell_aware_truncate("sh -c 'some long command' more", 3),
        "sh -c 'some long command'"
    );
    assert_eq!(shell_aware_truncate("a  b\tc d", 2), "a b");
    assert_eq!(shell_aware_truncate("echo \"x y\"", 5), "echo \"x y\"");
    assert_eq!(shell_aware_truncate("", 3), "");
    assert_eq!(shell_aware_truncate("a b", 0), "");
}

#[test]
fn a_call_is_described_by_what_it_works_on() {
    assert_eq!(tool_short_desc("read_file", "{\"path\":\"/a/b.rs\"}"), "read_file: b.rs");
    assert_eq!(tool_short_desc("edit_file", "{}"), "edit_file: ?");
    assert_eq!(
        tool_short_desc("run_command", "{\"command\":\"cargo test --all -q\"}"),
        "run: cargo test --all"
    );
    assert_eq!(tool_short_desc("search_codebase", "{\"query\":\"x y\"}"), "search: x y");
    assert_eq!(tool_short_desc("grep", "not json"), "grep: ?");
    assert_eq!(tool_short_desc("glob", "{\"pattern\":\"*.rs\"}"), "glob: *.rs");
    assert_eq!(tool_short_desc("ast_skeleton", "{\"file\":\"a/b.py\"}"), "ast_skeleton: b.py");
    assert_eq!(tool_short_desc("ast_get_node", "{\"node_id\":\"n1\"}"), "ast_get_node: n1");
    assert_eq!(
        tool_short_desc("ast_mutate", "{\"operation\":\"append\",\"node_id\":\"n\"}"),
        "ast_mutate: append @ n"
    );
    assert_eq!(tool_short_desc("other", "{}"), "other");
}

#[test]
fn fields_are_read_from_json() {
    assert_eq!(extract_cmd_str("{\"command\":\"ls\"}"), "ls");
    assert_eq!(extract_cmd_str("{\"command\":1}"), "");
    assert_eq!(extract_cmd_str("oops"), "");
    assert_eq!(extract_path_field("{\"path\":\"\"}"), Some("".to_string()));
    assert_eq!(extract_path_field("{}"), None);
    assert_eq!(extract_summary_field("{\"summary\":\"done \\u00e9\"}"), "done é");
    let p = extract_file_path("{\"path\":\"a.rs\"}").unwrap();
    assert_eq!(p.path, "a.rs");
    assert!(!p.absolute);
    assert!(extract_file_path("{\"path\":\"/a.rs\"}").unwrap().absolute);
    assert!(extract_file_path("{\"path\":\"\"}").is_none());
    assert!(extract_file_path("[]").is_none());
}

#[test]
fn what_is_written_as_json_reads_back() {
    assert_eq!(shell_input("say \"hi\"\n"), "{\"command\":\"say \\\"hi\\\"\\n\"}");
    assert_eq!(extract_cmd_str(&shell_input("a\\b")), "a\\b");
    let c = editor_call("x.rs", "fn main() {}\n");
    assert_eq!(c.id, "editor-save");
    assert_eq!(c.name, "write_file");
    assert_eq!(extract_path_field(&c.input), Some("x.rs".to_string()));
    assert_eq!(preview("write_file", &c.input, "old"), "fn main() {}\n");
}

#[test]
fn edits_are_previewed() {
    assert_eq!(
        preview("edit_file", "{\"old_string\":\"b\",\"new_string\":\"X\"}", "abcb"),
        "aXcb"
    );
    assert_eq!(preview("notebook_edit", "{\"new_source\":\"cell\"}", "old"), "cell");
    let many = "{\"edits\":[{\"old_string\":\"a\",\"new_string\":\"b\"},\
                {\"old_string\":\"b\",\"new_string\":\"c\"},{\"old_string\":\"\"},\
                {\"old_string\":\"c\",\"new_string\":\"d\"}]}";
    assert_eq!(preview("multi_edit", many, "ax"), "cx");
    assert_eq!(preview("other", "{}", "old"), "");
    let es = vec![
        Edit { old: Some("one".to_string()), new: None },
        Edit { old: Some("two".to_string()), new: Some("2".to_string()) },
    ];
    assert_eq!(apply_edits("one two", &es), " 2");
}

#[test]
fn file_edits_are_told_apart() {
    assert!(is_file_edit("write_file"));
    assert!(is_file_edit("edit_file"));
    assert!(is_file_edit("notebook_edit"));
    assert!(is_file_edit("multi_edit"));
    assert!(!is_file_edit("read_file"));
}

#[test]
fn common_errors_come_with_a_hint() {
    assert_eq!(
        error_hint("run_command", "sh: foo: Command Not Found"),
        "The command wasn't found. Check the spelling or install it first."
    );
    assert_eq!(
        error_hint("edit_file", "no such file"),
        "File doesn't exist yet. Use write_file to create it first."
    );
    assert_eq!(error_hint("write_file", "no such file"), "");
    assert_eq!(
        error_hint("search_codebase", "Index not built"),
        "No search index yet. Run /index to build one for this project."
    );
    assert_eq!(
        error_hint("multi_edit", "edits is required"),
        "multi_edit needs a non-empty 'edits' array of {old_string, new_string} pairs."
    );
    assert_eq!(error_hint("glob", "no such file"), "");
}

#[test]
fn a_network_failure_is_retried_with_growing_waits() {
    assert!(is_transient_network_error("Error sending request for url (x)"));
    assert!(is_transient_network_error("operation TIMED OUT"));
    assert!(!is_transient_network_error("401 unauthorized"));
    let waits = [800u64, 1600, 3200];
    for i in 0..3usize {
        match on_failure(i, "connection refused") {
            Retry::Again { wait_ms, notice } => {
                assert_eq!(wait_ms, waits[i]);
                assert_eq!(
                    notice,
                    format!(
                        "Network error — retrying in {}ms (attempt {}/3): connection refused",
                        waits[i],
                        i + 1
                    )
                );
            }
            Retry::GiveUp { .. } => panic!("gave up too early"),
        }
    }
    match on_failure(3, "connection refused") {
        Retry::GiveUp { error } => {
            assert_eq!(error, "Still failing after 3 retries: connection refused")
        }
        Retry::Again { .. } => panic!("retried too often"),
    }
    match on_failure(0, "bad request") {
        Retry::GiveUp { error } => assert_eq!(error, "bad request"),
        Retry::Again { .. } => panic!("retried a refusal"),
    }
}

#[test]
fn a_difficulty_is_read_within_bounds() {
    assert_eq!(rate_difficulty(&Some(" 73\n".to_string())), 73);
    assert_eq!(rate_difficulty(&Some("0".to_string())), 1);
    assert_eq!(rate_difficulty(&Some("200".to_string())), 100);
    assert_eq!(rate_difficulty(&Some("300".to_string())), 50);
    assert_eq!(rate_difficulty(&Some("hard".to_string())), 50);
    assert_eq!(rate_difficulty(&None), 50);
}

#[test]
fn a_plan_is_read_line_by_line() {
    let steps = parse_plan("1. Read it\n\n- * Write it\n  2) Test it  \n");
    let said: Vec<&str> = steps.iter().map(|s| s.description.as_str()).collect();
    assert_eq!(said, vec!["Read it", "* Write it", "Test it"]);
    assert_eq!(parse_plan("a\nb\nc\nd\ne\nf\ng\nh\ni\n").len(), 8);
    assert!(parse_plan("---\n").is_empty());
}

#[test]
fn background_processes_are_reported() {
    let started = bg_start_outcome("sleep 9", &Ok("bg1".to_string()));
    assert_eq!(
        started.output,
        "background process started: id=bg1  cmd=\"sleep 9\"\n\
         Poll with bg_status id=bg1 and bg_log id=bg1; stop with bg_kill id=bg1."
    );
    assert!(!started.is_error);
    assert!(bg_start_outcome("x", &Err("no".to_string())).is_error);
    assert_eq!(bg_start_refused("  ").unwrap().output, "bg_start requires 'command'");
    assert!(bg_start_refused("ls").is_none());
    assert_eq!(bg_status_outcome("", &Vec::new()).output, "no background processes running");
    assert_eq!(
        bg_status_outcome("z", &Vec::new()).output,
        "no background process with id 'z'"
    );
    let s = |running: bool, exit_code: Option<i32>| BgStatus {
        id: "b".to_string(),
        cmd: "ls".to_string(),
        running,
        exit_code,
        elapsed_secs: 3,
        stdout_len: 10,
        stderr_len: 0,
    };
    let all = vec![s(true, None), s(false, Some(0)), s(false, Some(-2)), s(false, None)];
    assert_eq!(
        bg_status_outcome("", &all).output,
        "id=b  RUNNING  ~3s  stdout=10B stderr=0B  cmd=\"ls\"\n\
         id=b  exited (code 0)  ~3s  stdout=10B stderr=0B  cmd=\"ls\"\n\
         id=b  exited (code -2)  ~3s  stdout=10B stderr=0B  cmd=\"ls\"\n\
         id=b  exited (no code)  ~3s  stdout=10B stderr=0B  cmd=\"ls\""
    );
    let log = |o: &str, e: &str| bg_log_outcome(&Ok((o.to_string(), e.to_string()))).output;
    assert_eq!(log(" ", ""), "(no new output since last poll)");
    assert_eq!(log("a\n", ""), "[stdout]\na\n");
    assert_eq!(log("a\n", "b"), "[stdout]\na\n[stderr]\nb");
    assert!(bg_log_outcome(&Err("gone".to_string())).is_error);
}

#[test]
fn the_outputs_of_a_skill_are_put_together() {
    let outs = vec!["a".to_string(), "b".to_string()];
    assert_eq!(combine_outputs(&outs, ""), "a\n\nb");
    assert_eq!(combine_outputs(&outs, "prose"), "prose\n\na\n\nb");
}

fn message(role: &str, content: &str, calls: Vec<ToolCall>, is_error: bool) -> Message {
    Message {
        role: role.to_string(),
        content: content.to_string(),
        tool_calls: calls,
        tool_use_id: String::new(),
        tool_call_id: String::new(),
        images: Vec::new(),
        is_error,
    }
}

#[test]
fn a_conversation_is_written_down_compactly() {
    let long = "x".repeat(700);
    let msgs = vec![
        message("user", &long, vec![], false),
        message("assistant", "text", vec![call("grep")], false),
        message("assistant", "", vec![call("glob")], false),
        message("tool", "result", vec![], true),
        message("assistant", "bye", vec![], false),
    ];
    let x600 = "x".repeat(600);
    assert_eq!(
        compact_serialize(&msgs, 5),
        format!(
            "[user]: {x600}\n\n[assistant]: text\n  [tool_call] grep({{}})\n\n  \
             [tool_call] glob({{}})\n\n  [tool_result]: result\n\n[assistant]: bye\n\n"
        )
    );
    assert_eq!(compact_serialize(&msgs, 0), "");
}

#[test]
fn a_conversation_is_flattened_for_the_display() {
    let msgs = vec![
        message("user", "hi", vec![], false),
        message("assistant", "text", vec![call("grep"), call("glob")], false),
        message("assistant", "  ", vec![call("grep")], false),
        message("tool", "oops", vec![], true),
        message("system", "note", vec![], true),
    ];
    let es = history_entries(&msgs);
    let seen: Vec<(&str, &str, &str, bool)> = es
        .iter()
        .map(|e| (e.role.as_str(), e.content.as_str(), e.tool_name.as_str(), e.is_error))
        .collect();
    assert_eq!(
        seen,
        vec![
            ("user", "hi", "", false),
            ("assistant", "text", "", false),
            ("assistant", "", "grep", false),
            ("assistant", "", "glob", false),
            ("assistant", "", "grep", false),
            ("tool", "oops", "", true),
            ("user", "note", "", false),
        ]
    );
    assert_eq!(es[2].tool_input, "{}");
}

#[test]
fn a_page_holds_no_markup_of_the_conversation() {
    assert_eq!(html_escape("a<b> & \"c\""), "a&lt;b&gt; &amp; &quot;c&quot;");
    let page = export_html(&vec![
        message("user", "<script>", vec![], false),
        message("assistant", "ok", vec![call("a<b")], false),
        message("tool", "bad", vec![], true),
        message("other", "unseen", vec![], false),
    ]);
    assert!(page.starts_with("<!DOCTYPE html>\n<html><head>"));
    assert!(page.ends_with("</body></html>\n"));
    assert!(page.contains("<div class=\"user\"><strong>You</strong><pre>&lt;script&gt;</pre></div>\n"));
    assert!(page.contains("<div class=\"tool\"><strong>🔧 a&lt;b</strong><pre>{}</pre></div>\n"));
    assert!(page.contains("<div class=\"assistant\"><strong>Marlin</strong><pre>ok</pre></div>\n"));
    assert!(page.contains("<div class=\"error\"><strong>↳ result</strong><pre>bad</pre></div>\n"));
    assert!(!page.contains("<script>"));
    assert!(!page.contains("unseen"));
}

#[test]
fn the_help_lists_the_commands() {
    let s = help_text("p1");
    assert!(s.starts_with("Commands:\n  /help                           show this help\n"));
    assert!(s.contains(
        "  /provider <name>                switch provider (p1/ollama/groq/fireworks/moonshot/custom)\n"
    ));
    assert!(s.contains("  /sandbox [off|permissive|mxc|docker] command isolation"));
    assert!(s.ends_with("show startup + skill validation diagnostics\n"));
}

#[test]
fn a_short_prompt_stays_under_budget() {
    let system_prompt = "You are Marlin, an AI coding assistant running in a terminal.\n\
        You help the user write, debug, and understand code.\n\n\
        When asked to create a file, write code, edit something, or run a command — DO IT with the appropriate tool. \
        Do not explain how the user could do it themselves. Do not ask for confirmation before using tools. Just act.\n\n\
        Working directory: /home/user/project\n\n";
    let report = compute(system_prompt, &Vec::new());
    assert!(!report.over_budget());
    assert_eq!(badge(&report), None);
}

#[test]
fn a_long_tool_goes_over_budget() {
    let tools = vec![ToolDef {
        name: "t".to_string(),
        description: "d".repeat(4 * WARN_THRESHOLD + 4),
        properties: vec![ToolProperty { name: "p".to_string(), description: "q".to_string() }],
    }];
    let report = compute("", &tools);
    assert!(report.over_budget());
    assert_eq!(badge(&report), Some(report.total));
    let sum: usize = report.components.iter().map(|c| c.tokens).sum();
    assert_eq!(sum, report.total);
    assert!(report.format().contains(&format!("{}", report.total)));
}

#[test]
fn cutting_a_command_twice_is_cutting_it_once() {
    for cmd in ["sh -c 'some long command' x", "  a\t\"b c\"  d ", "it's one word", "", "a b"] {
        for n in 0..4 {
            let once = shell_aware_truncate(cmd, n);
            assert!(once.len() <= cmd.len());
            assert_eq!(shell_aware_truncate(&once, n), once);
        }
    }
    assert_eq!(
        shell_aware_truncate("sh -c 'some long command' x", 3),
        "sh -c 'some long command'"
    );
}

#[test]
fn a_list_of_edits_is_read_by_its_members() {
    let other = "{\"changes\":[{\"old_string\":\"a\",\"new_string\":\"b\"}]}";
    assert_eq!(preview("multi_edit", other, "ax"), "ax");
    let swapped = "{\"edits\":[{\"new_string\":\"a\",\"old_string\":\"b\"}]}";
    assert_eq!(preview("multi_edit", swapped, "ab"), "aa");
}
