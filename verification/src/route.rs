//! Which model takes a request, the plan made beforehand, and what surrounds a
//! turn: verification, checkpoints, servers, the index and the editor.

use crate::config::{self, ModelTier};
use crate::dup::{dup_all, Dup};
use crate::engine::{self, Engine, EngineView, McpTool, McpToolView};
use crate::index::{self, remove_file, update_file, Index};
use crate::json::{self, write_one, write_two};
use crate::message::{self, Message, ToolCall, ToolCallView};
use crate::number::{self, parse_up_to, show, show_i32};
use crate::outbox::{self, EffectView, Outbox};
use crate::settings::listed_in;
use crate::split::{self, join, split_lines};
use crate::text::{
    self, cat2, cat3, cat4, cat5, chars_of, empty, string_of, trim, trim_left, trim_str, CharClass,
};
use crate::tools::{Ruling, Verdict, VerdictView};
use crate::turn::ToolOutcome;
use crate::ui::{TaskStatus, TaskStep, TaskStepView, UiUpdate, UiUpdateView};
use vstd::prelude::*;

verus! {

broadcast use {split::lemma_texts_push, split::lemma_views_push};

// ── Routing ─────────────────────────────────────────────────────────────────

/// Whether requests are routed by their difficulty.
pub open spec fn routes(e: EngineView) -> bool {
    e.cfg.model_tiers matches Some(t) && t.enabled
}

/// The engine with a request on a tier.
pub open spec fn on_tier(e: EngineView, t: config::ModelTierView) -> EngineView {
    EngineView {
        req_provider: t.provider,
        req_model: t.model,
        req_backup_provider: t.backup_provider,
        req_backup_model: t.backup_model,
        ..e
    }
}

/// The engine with a request on the active provider and model.
pub open spec fn on_active(e: EngineView) -> EngineView {
    EngineView {
        req_provider: e.cfg.active_provider,
        req_model: e.cfg.active_model,
        req_backup_provider: Seq::empty(),
        req_backup_model: Seq::empty(),
        ..e
    }
}

/// The difficulty that a rater's reply gives: a number from 1 to 100; 50 where
/// there is no reply or it is no number.
pub open spec fn rating_in(reply: Option<Seq<char>>) -> int {
    match reply {
        Some(s) => match number::parsed(text::trimmed(s), 255) {
            Some(n) => if n < 1 {
                1
            } else if n > 100 {
                100
            } else {
                n as int
            },
            None => 50,
        },
        None => 50,
    }
}

/// What the rater is asked of a task.
pub const RATING_REQUEST: &'static str = "Rate the difficulty of this coding task from 1 to 100 where 1 is trivial and 100 is extremely complex architecture work. Reply with ONLY the number.\n\nTask: ";

/// What the model is asked for a plan of a task.
pub const PLAN_REQUEST: &'static str = "Break the following coding task into 2-6 short, concrete, ordered steps (imperative mood, under 8 words each). Reply with ONLY the steps, one per line, no numbering or bullets, no other text. If the task genuinely needs just one step, reply with one line.\n\nTask: ";

/// The message that asks the rater for the difficulty of a task.
pub fn rating_request(task: &str) -> (r: Message)
    ensures
        r@ == message::user_message(RATING_REQUEST@ + task@),
{
    Message::new_user(cat2(RATING_REQUEST, task))
}

/// The message that asks for a plan of a task.
pub fn plan_request(task: &str) -> (r: Message)
    ensures
        r@ == message::user_message(PLAN_REQUEST@ + task@),
{
    Message::new_user(cat2(PLAN_REQUEST, task))
}

/// The difficulty that a rater's reply gives.
pub fn rate_difficulty(reply: &Option<String>) -> (r: u8)
    ensures
        r == rating_in(split::opt_text(*reply)),
        1 <= r <= 100,
{
    match reply {
        Some(s) => {
            let t = trim_str(s.as_str());
            match parse_up_to(t.as_str(), 255) {
                Some(n) => if n < 1 {
                    1
                } else if n > 100 {
                    100
                } else {
                    n as u8
                },
                None => 50,
            }
        },
        None => 50,
    }
}

impl Engine {
    /// Whether the difficulty of a request has to be rated first.
    pub fn needs_rating(&self) -> (r: bool)
        ensures
            r == routes(self@),
    {
        match &self.cfg.model_tiers {
            Some(t) => t.enabled,
            None => false,
        }
    }

    /// Picks who takes a request of the given difficulty: where requests are
    /// routed, the tier for it, and else the active provider and model.
    pub fn rate_and_route(&mut self, score: u8, out: &mut Outbox)
        ensures
            !routes(old(self)@) ==> final(self)@ == on_active(old(self)@) && final(out)@ == old(
                out,
            )@,
            routes(old(self)@) ==> ({
                let t = old(self)@.cfg.model_tiers->0;
                let easy = score <= t.default_max_difficulty;
                &&& final(self)@ == on_tier(
                    old(self)@,
                    if easy {
                        t.default
                    } else {
                        t.complex
                    },
                )
                &&& final(out)@ == old(out)@.push(
                    EffectView::Send(
                        UiUpdateView::TierSelected {
                            score,
                            tier: if easy {
                                "default"@
                            } else {
                                "complex"@
                            },
                        },
                    ),
                )
            }),
            final(self)@ == routed_by(old(self)@, score),
    {
        let routed = self.needs_rating();
        let tier: Option<ModelTier> = match &self.cfg.model_tiers {
            Some(t) => if !routed {
                None
            } else if score <= t.default_max_difficulty {
                out.send(UiUpdate::TierSelected { score, tier: "default".to_string() });
                Some(t.default.dup())
            } else {
                out.send(UiUpdate::TierSelected { score, tier: "complex".to_string() });
                Some(t.complex.dup())
            },
            None => None,
        };
        match tier {
            Some(t) => {
                self.req_provider = t.provider;
                self.req_model = t.model;
                self.req_backup_provider = t.backup_provider;
                self.req_backup_model = t.backup_model;
            },
            None => {
                self.req_provider = self.cfg.active_provider.as_str().to_string();
                self.req_model = self.cfg.active_model.as_str().to_string();
                self.req_backup_provider = empty();
                self.req_backup_model = empty();
            },
        }
    }
}

// ── The plan ────────────────────────────────────────────────────────────────

/// The text of a line of a plan, without bullets and numbers.
pub open spec fn plan_text(line: Seq<char>) -> Seq<char> {
    let a = text::trimmed(
        text::left_trimmed(text::trimmed(line), text::among("-*•"@)),
    );
    text::trimmed(text::left_trimmed(a, text::among("0123456789.)"@)))
}

/// A step of a plan.
pub open spec fn planned(t: Seq<char>) -> TaskStepView {
    TaskStepView {
        tool: Seq::empty(),
        description: t,
        status: TaskStatus::Pending,
        parallel_group: None,
    }
}

/// How many steps a plan has at most.
pub const MAX_PLAN_STEPS: usize = 8;

/// The steps that some lines name: at most eight, empty lines left out.
pub open spec fn plan_in(ls: Seq<Seq<char>>) -> Seq<TaskStepView>
    decreases ls.len(),
{
    if ls.len() == 0 {
        Seq::empty()
    } else {
        let before = plan_in(ls.drop_last());
        let t = plan_text(ls.last());
        if t.len() > 0 && before.len() < MAX_PLAN_STEPS {
            before.push(planned(t))
        } else {
            before
        }
    }
}

fn clean_line(line: &[char]) -> (r: String)
    ensures
        r@ == plan_text(line@),
{
    let a = trim(trim_left(trim(line), CharClass::In("-*•")));
    string_of(trim(trim_left(a, CharClass::In("0123456789.)"))))
}

/// The steps that a reply names.
pub fn parse_plan(reply: &str) -> (r: Vec<TaskStep>)
    ensures
        split::views(r@) == plan_in(split::lines(reply@)),
        r@.len() <= MAX_PLAN_STEPS,
{
    let v = chars_of(reply);
    let ls = split_lines(v.as_slice());
    let ghost all = split::lines(reply@);
    let mut out: Vec<TaskStep> = Vec::new();
    let mut i: usize = 0;
    assert(split::views(out@) =~= plan_in(all.take(0)));
    while i < ls.len()
        invariant
            i <= ls@.len(),
            all == split::char_slices(ls@),
            split::views(out@) == plan_in(all.take(i as int)),
            out@.len() <= MAX_PLAN_STEPS,
        decreases ls@.len() - i,
    {
        assert(all[i as int] == ls@[i as int]@);
        assert(all.take(i + 1).drop_last() =~= all.take(i as int));
        let t = clean_line(ls[i]);
        if !t.as_str().is_empty() && out.len() < MAX_PLAN_STEPS {
            out.push(
                TaskStep {
                    tool: empty(),
                    description: t,
                    status: TaskStatus::Pending,
                    parallel_group: None,
                },
            );
        }
        i += 1;
    }
    assert(all.take(i as int) =~= all);
    out
}

impl Engine {
    /// Takes a reply as the plan of the turn. Without a usable reply there is
    /// no plan.
    pub fn adopt_plan(&mut self, reply: &Option<String>, out: &mut Outbox)
        ensures
            ({
                let steps = match split::opt_text(*reply) {
                    Some(s) => plan_in(split::lines(s)),
                    None => Seq::empty(),
                };
                &&& final(self)@ == (EngineView {
                    plan_steps: steps,
                    plan_cursor: 0,
                    ..old(self)@
                })
                &&& final(out)@ == engine::push_if(
                    old(out)@,
                    steps.len() > 0,
                    EffectView::Send(UiUpdateView::PlanUpdate(steps)),
                )
            }),
    {
        let steps = match reply {
            Some(s) => parse_plan(s.as_str()),
            None => {
                let none: Vec<TaskStep> = Vec::new();
                assert(split::views(none@) =~= Seq::<TaskStepView>::empty());
                none
            },
        };
        assert(split::views(steps@).len() == steps@.len());
        self.plan_cursor = 0;
        self.plan_steps = steps;
        if self.plan_steps.len() > 0 {
            let shown = dup_all(&self.plan_steps);
            out.send(UiUpdate::PlanUpdate(shown));
        }
    }
}

// ── Verifying edits ─────────────────────────────────────────────────────────

/// What the verify command came to.
pub struct VerifyRun {
    pub success: bool,
    pub code: Option<i32>,
    pub stdout: String,
    pub stderr: String,
}

/// How many lines of a failed run the model is shown.
pub const VERIFY_LINES: usize = 60;

/// The last `n` of some lines.
pub open spec fn last_of(ls: Seq<Seq<char>>, n: nat) -> Seq<Seq<char>> {
    if ls.len() > n {
        ls.skip(ls.len() - n)
    } else {
        ls
    }
}

/// What the model is told of a failed run.
pub open spec fn verify_message(code: Option<i32>, output: Seq<char>) -> Seq<char> {
    "[Marlin Verify] Tests failed (exit "@ + number::signed_decimal(
        match code {
            Some(c) => c as int,
            None => -1,
        },
    ) + "). Fix the errors before continuing.\n\n"@ + split::joined(
        last_of(split::lines(text::trimmed(output)), VERIFY_LINES as nat),
        "\n"@,
    )
}

fn last_lines(s: &str, n: usize) -> (r: String)
    ensures
        r@ == split::joined(last_of(split::lines(s@), n as nat), "\n"@),
{
    let v = chars_of(s);
    let ls = split_lines(v.as_slice());
    let ghost all = split::lines(s@);
    let start: usize = if ls.len() > n {
        ls.len() - n
    } else {
        0
    };
    let mut out: Vec<String> = Vec::new();
    let mut i: usize = start;
    assert(split::texts(out@) =~= all.subrange(start as int, start as int));
    while i < ls.len()
        invariant
            start <= i <= ls@.len(),
            all == split::char_slices(ls@),
            split::texts(out@) == all.subrange(start as int, i as int),
        decreases ls@.len() - i,
    {
        assert(all[i as int] == ls@[i as int]@);
        out.push(string_of(ls[i]));
        assert(all.subrange(start as int, i + 1) =~= all.subrange(start as int, i as int).push(
            all[i as int],
        ));
        i += 1;
    }
    assert(all.subrange(start as int, i as int) =~= last_of(all, n as nat));
    join(&out, "\n")
}

impl Engine {
    /// The command that verifies an edit, if one is set; the user is told that
    /// it runs.
    pub fn begin_verify(&self, out: &mut Outbox) -> (r: Option<String>)
        ensures
            split::opt_text(r) == self@.cfg.verify_command,
            final(out)@ == (match self@.cfg.verify_command {
                Some(cmd) => old(out)@.push(outbox::says("[Marlin Verify] Running: "@ + cmd)),
                None => old(out)@,
            }),
    {
        match &self.cfg.verify_command {
            Some(cmd) => {
                out.sys(cat2("[Marlin Verify] Running: ", cmd.as_str()));
                Some(cmd.as_str().to_string())
            },
            None => None,
        }
    }

    /// Takes what the verify command came to; None if it could not be run. A
    /// failure becomes part of the conversation.
    pub fn end_verify(&mut self, run: &Option<VerifyRun>, out: &mut Outbox)
        ensures
            match run {
                Some(v) => if v.success {
                    final(self)@ == old(self)@ && final(out)@ == old(out)@.push(
                        outbox::says("[Marlin Verify] ✓ Tests passed."@),
                    )
                } else {
                    final(self)@ == (EngineView {
                        history: old(self)@.history.push(
                            message::user_message(verify_message(v.code, v.stdout@ + v.stderr@)),
                        ),
                        ..old(self)@
                    }) && final(out)@ == old(out)@.push(
                        outbox::says(
                            "[Marlin Verify] ✗ Tests failed — injecting error into context."@,
                        ),
                    )
                },
                None => final(self)@ == old(self)@ && final(out)@ == old(out)@,
            },
            final(self)@ == after_check(old(self)@, run_of(*run)),
    {
        if let Some(v) = run {
            if v.success {
                out.say("[Marlin Verify] ✓ Tests passed.");
            } else {
                let both = cat2(v.stdout.as_str(), v.stderr.as_str());
                let t = trim_str(both.as_str());
                let tail = last_lines(t.as_str(), VERIFY_LINES);
                let code: i32 = match v.code {
                    Some(c) => c,
                    None => -1,
                };
                let shown = show_i32(code);
                let m = cat4(
                    "[Marlin Verify] Tests failed (exit ",
                    shown.as_str(),
                    "). Fix the errors before continuing.\n\n",
                    tail.as_str(),
                );
                out.say("[Marlin Verify] ✗ Tests failed — injecting error into context.");
                self.history.push(Message::new_user(m));
            }
        }
    }

    // ── Checkpoints ─────────────────────────────────────────────────────────

    /// Whether a checkpoint is made before a turn; `available` says whether the
    /// work directory lies in a repository.
    pub fn checkpoint_due(&self, available: bool, out: &mut Outbox) -> (r: bool)
        ensures
            r == (self@.cfg.checkpoints && available),
            final(out)@ == engine::push_if(
                old(out)@,
                self@.cfg.checkpoints && !available,
                outbox::says(
                    "Checkpoints are on but this is not a git repository — skipping. (git required for /checkpoints)"@,
                ),
            ),
            r == makes_checkpoint(self@, available),
    {
        if !self.cfg.checkpoints {
            return false;
        }
        if !available {
            out.say(
                "Checkpoints are on but this is not a git repository — skipping. (git required for /checkpoints)",
            );
            return false;
        }
        true
    }

    /// Tells the user what making a checkpoint came to; an empty hash means
    /// that there was nothing to commit.
    pub fn checkpoint_made(&self, res: &Result<String, String>, out: &mut Outbox)
        ensures
            final(out)@ == (match res {
                Ok(h) => engine::push_if(
                    old(out)@,
                    h@.len() > 0,
                    outbox::says(
                        "Checkpoint created ("@ + h@ + ") — /undo will roll this turn back."@,
                    ),
                ),
                Err(e) => old(out)@.push(outbox::says("Checkpoint skipped: "@ + e@)),
            }),
    {
        match res {
            Ok(h) => if !h.as_str().is_empty() {
                out.sys(
                    cat3(
                        "Checkpoint created (",
                        h.as_str(),
                        ") — /undo will roll this turn back.",
                    ),
                );
            },
            Err(e) => out.sys(cat2("Checkpoint skipped: ", e.as_str())),
        }
    }

    // ── Servers ─────────────────────────────────────────────────────────────

    /// Forgets all connections, before they are made anew.
    pub fn forget_servers(&mut self)
        ensures
            final(self)@ == (EngineView {
                mcp_connected: Seq::empty(),
                mcp_tools: Seq::empty(),
                ..old(self)@
            }),
    {
        self.mcp_connected = Vec::new();
        self.mcp_tools = Vec::new();
        proof {
            assert(split::texts(self.mcp_connected@) =~= Seq::<Seq<char>>::empty());
            assert(split::views(self.mcp_tools@) =~= Seq::<McpToolView>::empty());
        }
    }

    /// Notes a connected server and its tools. A server of a name that is connected
    /// already takes its place.
    pub fn server_connected(&mut self, server: &str, tools: &Vec<String>, out: &mut Outbox)
        ensures
            final(self)@ == (EngineView {
                mcp_connected: if old(self)@.mcp_connected.contains(server@) {
                    old(self)@.mcp_connected
                } else {
                    old(self)@.mcp_connected.push(server@)
                },
                mcp_tools: old(self)@.mcp_tools + tools_of(server@, split::texts(tools@)),
                ..old(self)@
            }),
            final(out)@ == old(out)@.push(
                outbox::says(
                    "mcp: connected '"@ + server@ + "' ("@ + number::decimal(tools@.len())
                        + " tool(s))"@,
                ),
            ),
            final(self)@ == with_server(old(self)@, server@, split::texts(tools@)),
    {
        let ghost before = split::views(self.mcp_tools@);
        let ghost names = split::texts(tools@);
        let ghost added = tools_of(server@, names);
        let mut list = dup_all(&self.mcp_tools);
        let mut i: usize = 0;
        assert(before + added.take(0) =~= before);
        while i < tools.len()
            invariant
                i <= tools@.len(),
                names == split::texts(tools@),
                added == tools_of(server@, names),
                split::views(list@) == before + added.take(i as int),
            decreases tools@.len() - i,
        {
            assert(names[i as int] == tools@[i as int]@);
            list.push(
                McpTool { server: server.to_string(), name: tools[i].as_str().to_string() },
            );
            assert(added[i as int] == list@.last()@);
            assert(before + added.take(i + 1) =~= (before + added.take(i as int)).push(
                added[i as int],
            ));
            i += 1;
        }
        assert(added.take(i as int) =~= added);
        self.mcp_tools = list;
        if !listed_in(&self.mcp_connected, server) {
            self.mcp_connected.push(server.to_string());
        }
        let n = show(tools.len());
        out.sys(cat5("mcp: connected '", server, "' (", n.as_str(), " tool(s))"));
    }

    /// Tells the user that a server gives no list of its tools.
    pub fn server_without_tools(&self, server: &str, error: &str, out: &mut Outbox)
        ensures
            final(out)@ == old(out)@.push(
                outbox::warns(
                    "mcp: '"@ + server@ + "' connected but tools/list failed: "@ + error@,
                ),
            ),
    {
        out.err(cat4("mcp: '", server, "' connected but tools/list failed: ", error));
    }

    /// Tells the user that a server could not be started.
    pub fn server_failed(&self, server: &str, error: &str, out: &mut Outbox)
        ensures
            final(out)@ == old(out)@.push(
                outbox::warns("mcp: '"@ + server@ + "' failed to start: "@ + error@),
            ),
    {
        out.err(cat4("mcp: '", server, "' failed to start: ", error));
    }

    // ── The editor ──────────────────────────────────────────────────────────

    /// Acts on the verdict on saving the editor's file.
    pub fn rule_save(&self, v: Verdict, out: &mut Outbox) -> (r: Ruling)
        ensures
            r == crate::tools::ruling_of(v@),
            final(out)@ == (match v@ {
                VerdictView::Allow => old(out)@,
                VerdictView::Deny(reason) => old(out)@.push(
                    outbox::warns("Save denied: "@ + reason),
                ),
                VerdictView::NeedApproval(reason) => old(out)@.push(
                    EffectView::Send(UiUpdateView::AwaitingApproval { cmd: reason }),
                ),
            }),
    {
        match v {
            Verdict::Allow => Ruling::Run,
            Verdict::Deny(reason) => {
                out.err(cat2("Save denied: ", reason.as_str()));
                Ruling::Refuse
            },
            Verdict::NeedApproval(reason) => {
                out.send(UiUpdate::AwaitingApproval { cmd: reason });
                Ruling::Ask
            },
        }
    }

    /// Tells the user that the editor's file is not saved.
    pub fn save_cancelled(&self, path: &str, out: &mut Outbox)
        ensures
            final(out)@ == old(out)@.push(outbox::says("Save cancelled: "@ + path@)),
    {
        out.sys(cat2("Save cancelled: ", path));
    }

    /// Tells the front end what saving the editor's file came to. The result
    /// says whether the index is to be brought up to date with it.
    pub fn editor_saved(&self, o: &ToolOutcome, path: &str, out: &mut Outbox) -> (r: bool)
        ensures
            r == !o.is_error,
            o.is_error ==> final(out)@ == old(out)@.push(outbox::warns(o@.output)),
            !o.is_error ==> final(out)@ == old(out)@.push(outbox::says("Saved "@ + path@)).push(
                EffectView::Send(UiUpdateView::EditorSaved { path: path@ }),
            ),
    {
        if o.is_error {
            out.warn(o.output.as_str());
            false
        } else {
            out.sys(cat2("Saved ", path));
            out.send(UiUpdate::EditorSaved { path: path.to_string() });
            true
        }
    }
}

/// The tools of a server.
pub open spec fn tools_of(server: Seq<char>, names: Seq<Seq<char>>) -> Seq<McpToolView> {
    names.map_values(|n: Seq<char>| McpToolView { server, name: n })
}

/// The call that writes the editor's content, so that it goes the same way as
/// one of the model's. Its arguments give the path and the content back.
pub fn editor_call(path: &str, content: &str) -> (r: ToolCall)
    ensures
        r@ == (ToolCallView {
            id: "editor-save"@,
            name: "write_file"@,
            input: json::json_of_two("path"@, path@, "content"@, content@),
        }),
        json::json_field(r@.input, "path"@) == Some(path@),
        json::json_member(r@.input, "path"@) == Some(path@),
        json::json_member(r@.input, "content"@) == Some(content@),
        crate::tools::preview_of(r@.name, r@.input, Seq::empty()) == content@,
{
    proof {
        reveal_strlit("path");
        reveal_strlit("content");
        assert("path"@.len() != "content"@.len());
    }
    let input = write_two("path", path, "content", content);
    ToolCall { id: "editor-save".to_string(), name: "write_file".to_string(), input }
}

/// The arguments of the call that runs a command line. Reading the command back
/// gives it unchanged.
pub fn shell_input(cmd: &str) -> (r: String)
    ensures
        r@ == json::json_of_one("command"@, cmd@),
        crate::calls::arg_or_empty(r@, "command"@) == cmd@,
{
    write_one("command", cmd)
}

// ── The index between actions ───────────────────────────────────────────────

/// The index after a file that a scan reported: dropped if it is gone, left
/// alone if its extension is not indexed or it cannot be read, else indexed
/// anew.
pub open spec fn refreshed(
    v: index::IndexView,
    rel: Seq<char>,
    abs: Seq<char>,
    exists_now: bool,
    content: Option<Seq<char>>,
) -> index::IndexView {
    if !exists_now {
        index::without(v, index::relative(v.work_dir, abs))
    } else if index::is_skipped_ext(index::lower_ext(rel)) {
        v
    } else {
        index::updated(v, abs, content)
    }
}

/// Brings the index up to date with a file that a scan reported. The result
/// says whether the file counts as indexed anew.
pub fn refresh_file(
    idx: &mut Index,
    rel: &str,
    abs: &str,
    exists_now: bool,
    content: &Option<String>,
) -> (r: bool)
    requires
        old(idx).wf(),
        exists_now && content is Some ==> index::can_count(old(idx)@),
    ensures
        final(idx).wf(),
        final(idx)@ == refreshed(old(idx)@, rel@, abs@, exists_now, split::opt_text(*content)),
        r == (exists_now && !index::is_skipped_ext(index::lower_ext(rel@))),
        index::consistent(old(idx)@) ==> index::consistent(final(idx)@),
{
    if !exists_now {
        remove_file(idx, abs);
        return false;
    }
    if index::skip_file(rel) {
        return false;
    }
    update_file(idx, abs, content);
    true
}

/// How many seconds lie at least between two refreshes of the index.
pub const REFRESH_SECS: u64 = 30;

/// Whether the index is to be refreshed, so many seconds after the last time.
pub fn refresh_due(secs: u64) -> (r: bool)
    ensures
        r == (secs >= REFRESH_SECS),
        r == is_refresh_due(secs),
{
    secs >= REFRESH_SECS
}

/// Tells the user how many files were indexed anew, if any.
pub fn report_refresh(n: usize, out: &mut Outbox)
    ensures
        final(out)@ == engine::push_if(
            old(out)@,
            n > 0,
            outbox::says(
                "index: refreshed "@ + number::decimal(n as nat) + " changed file(s)"@,
            ),
        ),
{
    if n > 0 {
        let k = show(n);
        out.sys(cat3("index: refreshed ", k.as_str(), " changed file(s)"));
    }
}

// ── Laws of routing, plans and checks ───────────────────────────────────────

/// The engine with the request routed by the rating of its task.
pub open spec fn routed_by(e: EngineView, score: u8) -> EngineView {
    if routes(e) {
        let t = e.cfg.model_tiers->0;
        on_tier(
            e,
            if score <= t.default_max_difficulty {
                t.default
            } else {
                t.complex
            },
        )
    } else {
        on_active(e)
    }
}

/// Without routing a request goes to the model in use. With it, a task up to the
/// limit, and the one at the limit too, goes to the tier for easy tasks, and any
/// harder one to the other; a task goes nowhere else for being easier.
pub proof fn law_routing(e: EngineView, t: config::ModelTiersView, score: u8, lower: u8)
    requires
        e.cfg.model_tiers == Some(t),
        lower <= score,
    ensures
        !t.enabled ==> routed_by(e, score).req_model == e.cfg.active_model && routed_by(
            e,
            score,
        ).req_provider == e.cfg.active_provider && routed_by(e, score).req_backup_model.len() == 0,
        t.enabled && score <= t.default_max_difficulty ==> routed_by(e, score).req_model
            == t.default.model && routed_by(e, score).req_provider == t.default.provider
            && routed_by(e, score).req_backup_model == t.default.backup_model && routed_by(
            e,
            score,
        ).req_backup_provider == t.default.backup_provider,
        t.enabled && score > t.default_max_difficulty ==> routed_by(e, score).req_model
            == t.complex.model && routed_by(e, score).req_provider == t.complex.provider
            && routed_by(e, score).req_backup_provider == t.complex.backup_provider,
        score <= t.default_max_difficulty ==> routed_by(e, lower) == routed_by(e, score),
        routed_by(e, score).cfg == e.cfg,
        routed_by(e, score).history == e.history,
{
}

/// A reply that is a number, with whitespace around it, rates the task by the
/// number, brought into 1 to 100; any other reply, and none, rates it 50.
pub proof fn law_rating(before: Seq<char>, n: nat, after: Seq<char>, other: Seq<char>, i: int)
    requires
        text::all_in(before, |c: char| text::char_whitespace(c)),
        text::all_in(after, |c: char| text::char_whitespace(c)),
        0 <= i < text::trimmed(other).len(),
        !('0' <= text::trimmed(other)[i] <= '9'),
        i > 0 || text::trimmed(other)[i] != '+',
    ensures
        1 <= n <= 100 ==> rating_in(Some(before + number::decimal(n) + after)) == n,
        100 < n <= 255 ==> rating_in(Some(before + number::decimal(n) + after)) == 100,
        n == 0 ==> rating_in(Some(before + number::decimal(n) + after)) == 1,
        n > 255 ==> rating_in(Some(before + number::decimal(n) + after)) == 50,
        rating_in(Some(other)) == 50,
        rating_in(None) == 50,
{
    number::law_decimal_reads_back(n, 255);
    let d = number::decimal(n);
    assert(number::digit_value(d[0]) >= 0);
    assert(number::digit_value(d[d.len() - 1]) >= 0);
    text::law_trimmed(before, d, after);
    number::law_other_texts_are_no_numbers(text::trimmed(other), i, 255);
}

/// Whether a character can stand at the start of a step: neither whitespace nor
/// part of a bullet or a number.
pub open spec fn begins_step(c: char) -> bool {
    &&& !text::char_whitespace(c)
    &&& c != '-' && c != '*' && c != '•' && c != '.' && c != ')'
    &&& !('0' <= c <= '9')
}

/// Whether a text is a row of bullets.
pub open spec fn are_bullets(s: Seq<char>) -> bool {
    forall|i: int| 0 <= i < s.len() ==> #[trigger] s[i] == '-' || s[i] == '*' || s[i] == '•'
}

/// Whether a text is a number in front of a step, with its dot or bracket.
pub open spec fn is_numbering(s: Seq<char>) -> bool {
    forall|i: int|
        0 <= i < s.len() ==> '0' <= #[trigger] s[i] <= '9' || s[i] == '.' || s[i] == ')'
}

proof fn lemma_bullet(c: char)
    ensures
        text::among("-*•"@)(c) <==> c == '-' || c == '*' || c == '•',
{
    reveal_strlit("-*•");
    assert("-*•"@[0] == '-' && "-*•"@[1] == '*' && "-*•"@[2] == '•');
}

proof fn lemma_numbering(c: char)
    ensures
        text::among("0123456789.)"@)(c) <==> '0' <= c <= '9' || c == '.' || c == ')',
{
    let s = "0123456789.)"@;
    reveal_strlit("0123456789.)");
    assert(s[0] == '0' && s[1] == '1' && s[2] == '2' && s[3] == '3' && s[4] == '4' && s[5] == '5');
    assert(s[6] == '6' && s[7] == '7' && s[8] == '8' && s[9] == '9' && s[10] == '.' && s[11]
        == ')');
    assert(s.len() == 12);
}

/// A step is read without the bullets or the number in front of it and without
/// the whitespace around them.
pub proof fn law_plan_text(
    before: Seq<char>,
    mark: Seq<char>,
    gap: Seq<char>,
    step: Seq<char>,
    after: Seq<char>,
)
    requires
        text::all_in(before, |c: char| text::char_whitespace(c)),
        text::all_in(gap, |c: char| text::char_whitespace(c)),
        text::all_in(after, |c: char| text::char_whitespace(c)),
        are_bullets(mark) || is_numbering(mark),
        step.len() > 0,
        begins_step(step[0]),
        !text::char_whitespace(step.last()),
    ensures
        plan_text(before + mark + gap + step + after) == step,
{
    let b = text::among("-*•"@);
    let n = text::among("0123456789.)"@);
    let none = Seq::<char>::empty();
    let line = before + mark + gap + step + after;
    lemma_bullet(step[0]);
    lemma_numbering(step[0]);
    assert(none + step =~= step);
    text::law_left_trimmed(none, step, b);
    text::law_left_trimmed(none, step, n);
    text::law_trimmed_already(step);
    if mark.len() == 0 {
        let g = before + gap;
        assert forall|i: int| 0 <= i < g.len() implies text::char_whitespace(#[trigger] g[i]) by {
            if i < before.len() {
                assert(g[i] == before[i]);
            } else {
                assert(g[i] == gap[i - before.len()]);
            }
        }
        assert(line =~= g + step + after);
        text::law_trimmed(g, step, after);
    } else {
        let m = mark + gap + step;
        lemma_bullet(mark[0]);
        lemma_numbering(mark[0]);
        assert(line =~= before + m + after);
        assert(m[0] == mark[0] && m.last() == step.last());
        text::law_trimmed(before, m, after);
        let rest = gap + step;
        assert(m =~= mark + rest);
        assert(rest =~= gap + step + none);
        text::law_trimmed(gap, step, none);
        if rest.len() > 0 {
            if gap.len() > 0 {
                assert(rest[0] == gap[0]);
            }
            lemma_bullet(rest[0]);
            lemma_numbering(rest[0]);
        }
        if are_bullets(mark) {
            assert forall|i: int| 0 <= i < mark.len() implies b(#[trigger] mark[i]) by {
                lemma_bullet(mark[i]);
            }
            text::law_left_trimmed(mark, rest, b);
        } else {
            assert('0' <= mark[0] <= '9' || mark[0] == '.' || mark[0] == ')');
            assert forall|i: int| 0 <= i < mark.len() implies n(#[trigger] mark[i]) by {
                lemma_numbering(mark[i]);
            }
            assert(none + m =~= m);
            text::law_left_trimmed(none, m, b);
            text::law_trimmed_already(m);
            text::law_left_trimmed(mark, rest, n);
        }
    }
}

/// The steps of two lists of lines are those of the first and then those of the
/// second, up to eight in all; each is open and belongs to no tool or group.
pub proof fn law_plan_of_two_parts(a: Seq<Seq<char>>, b: Seq<Seq<char>>)
    ensures
        plan_in(a).len() + plan_in(b).len() <= 8 ==> plan_in(a + b) == plan_in(a) + plan_in(b),
        plan_in(a).len() + plan_in(b).len() > 8 ==> plan_in(a + b) == (plan_in(a) + plan_in(
            b,
        )).take(8),
        plan_in(a).len() <= 8,
        forall|k: int|
            0 <= k < plan_in(a).len() ==> (#[trigger] plan_in(a)[k]).status == TaskStatus::Pending
                && plan_in(a)[k].tool.len() == 0 && plan_in(a)[k].parallel_group is None
                && plan_in(a)[k].description.len() > 0,
{
    lemma_plan_in(a);
    lemma_plan_in(b);
    lemma_plan_join(a, b);
}

proof fn lemma_plan_in(a: Seq<Seq<char>>)
    ensures
        plan_in(a).len() <= 8,
        forall|k: int|
            0 <= k < plan_in(a).len() ==> (#[trigger] plan_in(a)[k]).status == TaskStatus::Pending
                && plan_in(a)[k].tool.len() == 0 && plan_in(a)[k].parallel_group is None
                && plan_in(a)[k].description.len() > 0,
    decreases a.len(),
{
    if a.len() > 0 {
        lemma_plan_in(a.drop_last());
    }
}

proof fn lemma_plan_join(a: Seq<Seq<char>>, b: Seq<Seq<char>>)
    ensures
        plan_in(a).len() + plan_in(b).len() <= 8 ==> plan_in(a + b) == plan_in(a) + plan_in(b),
        plan_in(a).len() + plan_in(b).len() > 8 ==> plan_in(a + b) == (plan_in(a) + plan_in(
            b,
        )).take(8),
    decreases b.len(),
{
    lemma_plan_in(a);
    lemma_plan_in(b);
    if b.len() == 0 {
        assert(a + b =~= a);
        assert(plan_in(a) + plan_in(b) =~= plan_in(a));
    } else {
        let init = b.drop_last();
        lemma_plan_join(a, init);
        lemma_plan_in(init);
        assert((a + b).drop_last() =~= a + init);
        let x = plan_in(a);
        let y = plan_in(init);
        let z = planned(plan_text(b.last()));
        assert(x + y.push(z) =~= (x + y).push(z));
        if x.len() + y.len() >= 8 {
            assert((x + y).push(z).take(8) =~= (x + y).take(8));
            assert(x.len() + y.len() == 8 ==> (x + y).take(8) =~= x + y);
        }
        if x.len() + plan_in(b).len() == 9 {
            assert((x + y).push(z).take(8) =~= (x + y).take(8));
        }
    }
}

/// A line that comes to a step makes exactly that step; another makes none.
pub proof fn law_plan_of_one_line(line: Seq<char>)
    ensures
        plan_text(line).len() == 0 ==> plan_in(seq![line]).len() == 0,
        plan_text(line).len() > 0 ==> plan_in(seq![line]).len() == 1 && plan_in(
            seq![line],
        )[0].description == plan_text(line),
{
    assert(seq![line].drop_last() =~= Seq::<Seq<char>>::empty());
    assert(plan_in(seq![line].drop_last()) =~= Seq::<TaskStepView>::empty());
}

/// The last lines of a list are its end: as many as asked for, or all.
pub proof fn law_last_lines(a: Seq<Seq<char>>, b: Seq<Seq<char>>, n: nat)
    ensures
        last_of(a + b, b.len()) == b,
        n >= a.len() ==> last_of(a, n) == a,
{
    assert(last_of(a + b, b.len()) =~= b);
}

/// A failed check is told with its exit code, -1 if it has none, and with its
/// output: all of it up to sixty lines, and the last sixty of a longer one.
pub proof fn law_verify_message(
    code: i32,
    output: Seq<char>,
    a: Seq<Seq<char>>,
    b: Seq<Seq<char>>,
)
    requires
        split::lines(text::trimmed(output)) == a + b,
        b.len() == 60 || (a.len() == 0 && b.len() < 60),
    ensures
        text::occurs(verify_message(Some(code), output), number::signed_decimal(code as int)),
        text::occurs(verify_message(None, output), "-1"@),
        split::joined(b, "\n"@).is_suffix_of(verify_message(Some(code), output)),
        verify_message(None, output) == verify_message(Some(-1i32), output),
        verify_message(Some(code), output).len() == verify_message(None, output).len()
            + number::signed_decimal(code as int).len() - 2,
{
    law_last_lines(a, b, 60);
    if a.len() == 0 {
        assert(a + b =~= b);
        law_last_lines(b, b, 60);
    }
    let head = "[Marlin Verify] Tests failed (exit "@;
    let mid = "). Fix the errors before continuing.\n\n"@;
    let end = split::joined(b, "\n"@);
    let d = number::signed_decimal(code as int);
    let m = verify_message(Some(code), output);
    assert(m =~= head + d + (mid + end));
    text::law_occurs_in_middle(head, d, mid + end);
    assert(m.skip(m.len() - end.len()) =~= end);
    let one = number::signed_decimal(-1);
    number::law_signed_decimal(1);
    assert(number::signed_decimal(1) == number::decimal(1));
    reveal_strlit("-1");
    assert(number::decimal(1) =~= seq![number::digit(1)]);
    assert(one =~= "-1"@);
    assert(verify_message(None, output) =~= head + one + (mid + end));
    text::law_occurs_in_middle(head, one, mid + end);
}

/// Each tool of a server is kept under the server's name, in their order.
pub proof fn law_tools_of(server: Seq<char>, a: Seq<Seq<char>>, b: Seq<Seq<char>>, n: Seq<char>)
    ensures
        tools_of(server, a + b) == tools_of(server, a) + tools_of(server, b),
        tools_of(server, seq![n]).len() == 1,
        tools_of(server, seq![n])[0].server == server,
        tools_of(server, seq![n])[0].name == n,
{
    assert(tools_of(server, a + b) =~= tools_of(server, a) + tools_of(server, b));
}

/// A file that is gone leaves the index; one with an extension that is left out
/// changes nothing; any other is indexed with its current text.
pub proof fn law_refreshed(
    v: index::IndexView,
    rel: Seq<char>,
    abs: Seq<char>,
    exists_now: bool,
    content: Option<Seq<char>>,
)
    requires
        index::consistent(v),
    ensures
        ({
            let w = refreshed(v, rel, abs, exists_now, content);
            let path = index::relative(v.work_dir, abs);
            &&& !exists_now ==> forall|k: int|
                0 <= k < w.files.len() ==> (#[trigger] w.files[k]).path != path
            &&& exists_now && (index::is_skipped_ext(index::lower_ext(rel)) || content is None)
                ==> w == v
            &&& exists_now && !index::is_skipped_ext(index::lower_ext(rel)) && content is Some
                ==> w.files.last() == index::entry_of(
                path,
                index::lower_ext(abs),
                content.unwrap(),
            )
        }),
{
    index::law_remove_keeps_consistent(v, index::relative(v.work_dir, abs));
}

/// What a check came to: whether it passed, its exit code and its output.
pub open spec fn run_of(run: Option<VerifyRun>) -> Option<(bool, Option<i32>, Seq<char>)> {
    match run {
        Some(v) => Some((v.success, v.code, v.stdout@ + v.stderr@)),
        None => None,
    }
}

/// The engine after a check.
pub open spec fn after_check(
    e: EngineView,
    run: Option<(bool, Option<i32>, Seq<char>)>,
) -> EngineView {
    match run {
        Some((passed, code, output)) => if passed {
            e
        } else {
            EngineView {
                history: e.history.push(message::user_message(verify_message(code, output))),
                ..e
            }
        },
        None => e,
    }
}

/// A check that failed is put before the model, with its output; one that passed, or
/// was not made, leaves the conversation as it is.
pub proof fn law_failed_checks_are_told(e: EngineView, code: Option<i32>, output: Seq<char>)
    ensures
        after_check(e, Some((true, code, output))) == e,
        after_check(e, None) == e,
        after_check(e, Some((false, code, output))).history.len() == e.history.len() + 1,
        after_check(e, Some((false, code, output))).history.drop_last() == e.history,
        after_check(e, Some((false, code, output))).history.last().role == "user"@,
        after_check(e, Some((false, code, output))).history.last().content == verify_message(
            code,
            output,
        ),
{
    assert(after_check(e, Some((false, code, output))).history.drop_last() =~= e.history);
}

/// The index is refreshed every thirty seconds.
pub proof fn law_refresh_due(secs: u64, more: u64)
    requires
        secs <= more,
    ensures
        is_refresh_due(secs) <==> secs >= 30,
        is_refresh_due(secs) ==> is_refresh_due(more),
{
}

/// Whether it is time to refresh the index.
pub open spec fn is_refresh_due(secs: u64) -> bool {
    secs >= REFRESH_SECS
}

/// Whether a checkpoint is made before a turn.
pub open spec fn makes_checkpoint(e: EngineView, available: bool) -> bool {
    e.cfg.checkpoints && available
}

/// The engine with a server that was connected.
pub open spec fn with_server(
    e: EngineView,
    server: Seq<char>,
    tools: Seq<Seq<char>>,
) -> EngineView {
    EngineView {
        mcp_connected: if e.mcp_connected.contains(server) {
            e.mcp_connected
        } else {
            e.mcp_connected.push(server)
        },
        mcp_tools: e.mcp_tools + tools_of(server, tools),
        ..e
    }
}

/// A checkpoint is made only where checkpoints are on and git is there.
pub proof fn law_checkpoints(e: EngineView)
    ensures
        makes_checkpoint(e, true) <==> e.cfg.checkpoints,
        !makes_checkpoint(e, false),
{
}

/// A server that was connected is listed, once, and each of its tools with it; the
/// servers and tools from before stay.
pub proof fn law_server_is_connected(
    e: EngineView,
    server: Seq<char>,
    other: Seq<char>,
    tools: Seq<Seq<char>>,
    i: int,
)
    ensures
        ({
            let w = with_server(e, server, tools);
            &&& w.mcp_connected.contains(server)
            &&& e.mcp_connected.contains(other) ==> w.mcp_connected.contains(other)
            &&& e.mcp_connected.contains(server) ==> w.mcp_connected == e.mcp_connected
            &&& w.mcp_tools.len() == e.mcp_tools.len() + tools.len()
            &&& w.mcp_tools.take(e.mcp_tools.len() as int) == e.mcp_tools
            &&& 0 <= i < tools.len() ==> w.mcp_tools[e.mcp_tools.len() + i].server == server
                && w.mcp_tools[e.mcp_tools.len() + i].name == tools[i]
        }),
{
    let w = with_server(e, server, tools);
    assert(w.mcp_tools.take(e.mcp_tools.len() as int) =~= e.mcp_tools);
    if !e.mcp_connected.contains(server) {
        assert(w.mcp_connected[e.mcp_connected.len() as int] == server);
        if e.mcp_connected.contains(other) {
            let k = choose|k: int| 0 <= k < e.mcp_connected.len() && e.mcp_connected[k] == other;
            assert(w.mcp_connected[k] == other);
        }
    }
}

} // verus!
