//! How the calls of an answer are carried out: which run together, which ask
//! the user first, and what each comes to.

use crate::calls::{self, is_parallel_safe};
use crate::engine::{Engine, EngineView, SkillInfo, SkillInfoView};
use crate::json::{self, member};
use crate::message::{ToolCall, ToolCallView};
use crate::number::{self, show, show_i32, show_u64};
use crate::outbox::{self, EffectView, Outbox};
use crate::shown::{self, quote};
use crate::split::{self, join, replace_first};
use crate::text::{self, cat2, cat3, cat5, cat6, cat7, empty, same, trim_str};
use crate::turn::{Interrupt, InterruptView, ToolOutcome, ToolOutcomeView};
use crate::turn;
use crate::ui::{Action, ActionView, UiUpdate, UiUpdateView};
use vstd::prelude::*;
use vstd::string::*;

verus! {

broadcast use {split::lemma_texts_push, split::lemma_views_push};

// ── Asking the user ─────────────────────────────────────────────────────────

/// What a check of a command or a path came to.
pub enum Verdict {
    Allow,
    Deny(String),
    NeedApproval(String),
}

/// The model of what a check came to.
#[verifier::ext_equal]
pub enum VerdictView {
    Allow,
    Deny(Seq<char>),
    NeedApproval(Seq<char>),
}

impl View for Verdict {
    type V = VerdictView;

    open spec fn view(&self) -> VerdictView {
        match self {
            Verdict::Allow => VerdictView::Allow,
            Verdict::Deny(s) => VerdictView::Deny(s@),
            Verdict::NeedApproval(s) => VerdictView::NeedApproval(s@),
        }
    }
}

/// What has to be found out before a call may run.
pub enum Check {
    /// Nothing.
    Free,
    /// Whether this command does damage.
    Command(String),
    /// Whether one of the commands of this skill does damage.
    Skill { name: String, query: String },
    /// Whether this path may be worked on.
    Path(String),
}

/// The model of what has to be found out before a call may run.
#[verifier::ext_equal]
pub enum CheckView {
    Free,
    Command(Seq<char>),
    Skill { name: Seq<char>, query: Seq<char> },
    Path(Seq<char>),
}

impl View for Check {
    type V = CheckView;

    open spec fn view(&self) -> CheckView {
        match self {
            Check::Free => CheckView::Free,
            Check::Command(s) => CheckView::Command(s@),
            Check::Skill { name, query } => CheckView::Skill { name: name@, query: query@ },
            Check::Path(s) => CheckView::Path(s@),
        }
    }
}

/// The member of a call's arguments; empty if there is none.
pub open spec fn member_or_empty(input: Seq<char>, key: Seq<char>) -> Seq<char> {
    match json::json_member(input, key) {
        Some(s) => s,
        None => Seq::empty(),
    }
}

/// The tools that work on a path.
pub open spec fn works_on_path(name: Seq<char>) -> bool {
    ||| name == "read_file"@
    ||| name == "write_file"@
    ||| name == "edit_file"@
    ||| name == "notebook_edit"@
    ||| name == "multi_edit"@
    ||| name == "create_directory"@
}

/// Whether there is a skill of that name with commands.
pub open spec fn has_shell_skill(ss: Seq<SkillInfoView>, name: Seq<char>) -> bool {
    exists|k: int| 0 <= k < ss.len() && (#[trigger] ss[k]).name == name && ss[k].shell
}

/// What has to be found out before a call may run. Nothing, where the user
/// asked for no checks; and nothing for a skill that a subagent runs, which
/// makes its own.
pub open spec fn check_for(e: EngineView, c: ToolCallView) -> CheckView {
    if e.cfg.skip_permissions {
        CheckView::Free
    } else if c.name == "run_command"@ {
        CheckView::Command(calls::arg_or_empty(c.input, "command"@))
    } else if c.name == "run_skill"@ && !e.cfg.skill_subagents {
        if has_shell_skill(e.skills, member_or_empty(c.input, "name"@)) {
            CheckView::Skill {
                name: member_or_empty(c.input, "name"@),
                query: member_or_empty(c.input, "query"@),
            }
        } else {
            CheckView::Free
        }
    } else if works_on_path(c.name) {
        match json::json_field(c.input, "path"@) {
            Some(p) => CheckView::Path(p),
            None => CheckView::Free,
        }
    } else {
        CheckView::Free
    }
}

fn member_text(input: &str, key: &str) -> (r: String)
    ensures
        r@ == member_or_empty(input@, key@),
{
    match member(input, key) {
        Some(s) => s,
        None => empty(),
    }
}

fn find_shell_skill(ss: &Vec<SkillInfo>, name: &str) -> (r: bool)
    ensures
        r == has_shell_skill(split::views(ss@), name@),
{
    let ghost all = split::views(ss@);
    let mut i: usize = 0;
    while i < ss.len()
        invariant
            i <= ss@.len(),
            all == split::views(ss@),
            forall|k: int| 0 <= k < i ==> !((#[trigger] all[k]).name == name@ && all[k].shell),
        decreases ss@.len() - i,
    {
        assert(all[i as int] == ss@[i as int]@);
        if same(ss[i].name.as_str(), name) && ss[i].shell {
            assert(all[i as int].name == name@);
            return true;
        }
        i += 1;
    }
    false
}

impl Engine {
    /// What has to be found out before a call may run.
    pub fn check_needed(&self, c: &ToolCall) -> (r: Check)
        ensures
            r@ == check_for(self@, c@),
    {
        let name = c.name.as_str();
        if self.cfg.skip_permissions {
            return Check::Free;
        }
        if same(name, "run_command") {
            return Check::Command(calls::extract_cmd_str(c.input.as_str()));
        }
        if same(name, "run_skill") && !self.cfg.skill_subagents {
            let skill = member_text(c.input.as_str(), "name");
            if find_shell_skill(&self.skills, skill.as_str()) {
                let query = member_text(c.input.as_str(), "query");
                return Check::Skill { name: skill, query };
            }
            return Check::Free;
        }
        if same(name, "read_file") || same(name, "write_file") || same(name, "edit_file") || same(
            name,
            "notebook_edit",
        ) || same(name, "multi_edit") || same(name, "create_directory") {
            return match calls::extract_path_field(c.input.as_str()) {
                Some(p) => Check::Path(p),
                None => Check::Free,
            };
        }
        Check::Free
    }
}

impl Engine {
    /// Whether commands run without a look at those that are allowed: where the
    /// sandbox allows all of them, or the user asked for no checks.
    pub fn unrestricted(&self, mode_allows_all: bool) -> (r: bool)
        ensures
            r == (mode_allows_all || self@.cfg.skip_permissions),
    {
        mode_allows_all || self.cfg.skip_permissions
    }
}

/// The verdict on a command: one that does damage needs the user's word.
pub fn judge_command(cmd: &str, destructive: bool) -> (r: Verdict)
    ensures
        r@ == (if destructive {
            VerdictView::NeedApproval("destructive command: "@ + cmd@)
        } else {
            VerdictView::Allow
        }),
{
    if destructive {
        Verdict::NeedApproval(cat2("destructive command: ", cmd))
    } else {
        Verdict::Allow
    }
}

/// The first of some commands that does damage; `ds` says of each whether it
/// does.
pub open spec fn first_damaging(cmds: Seq<Seq<char>>, ds: Seq<bool>) -> Option<Seq<char>>
    decreases cmds.len(),
{
    if cmds.len() == 0 {
        None
    } else if ds[0] {
        Some(cmds[0])
    } else {
        first_damaging(cmds.drop_first(), ds.drop_first())
    }
}

/// The verdict on a skill: the first of its commands that does damage needs the
/// user's word.
pub open spec fn skill_verdict(cmds: Seq<Seq<char>>, ds: Seq<bool>) -> VerdictView {
    match first_damaging(cmds, ds) {
        Some(cmd) => VerdictView::NeedApproval("destructive skill command: "@ + cmd),
        None => VerdictView::Allow,
    }
}

/// The verdict on a skill with these commands; `destructive` says of each
/// whether it does damage.
pub fn judge_skill(cmds: &Vec<String>, destructive: &Vec<bool>) -> (r: Verdict)
    requires
        destructive@.len() == cmds@.len(),
    ensures
        r@ == skill_verdict(split::texts(cmds@), destructive@),
{
    let ghost all = split::texts(cmds@);
    let ghost ds = destructive@;
    let mut i: usize = 0;
    assert(all.skip(0) =~= all);
    assert(ds.skip(0) =~= ds);
    while i < cmds.len()
        invariant
            i <= cmds@.len(),
            all == split::texts(cmds@),
            ds == destructive@,
            ds.len() == cmds@.len(),
            first_damaging(all, ds) == first_damaging(all.skip(i as int), ds.skip(i as int)),
        decreases cmds@.len() - i,
    {
        assert(all[i as int] == cmds@[i as int]@);
        assert(all.skip(i as int).drop_first() =~= all.skip(i + 1));
        assert(ds.skip(i as int).drop_first() =~= ds.skip(i + 1));
        if destructive[i] {
            return Verdict::NeedApproval(
                cat2("destructive skill command: ", cmds[i].as_str()),
            );
        }
        i += 1;
    }
    Verdict::Allow
}

/// What follows a verdict.
#[derive(Clone, Copy, Debug, PartialEq, Eq, Structural)]
pub enum Ruling {
    /// The call may run.
    Run,
    /// The call does not run.
    Refuse,
    /// The user is asked.
    Ask,
}

/// What follows a verdict.
pub open spec fn ruling_of(v: VerdictView) -> Ruling {
    match v {
        VerdictView::Allow => Ruling::Run,
        VerdictView::Deny(_) => Ruling::Refuse,
        VerdictView::NeedApproval(_) => Ruling::Ask,
    }
}

/// What the front end is told of a verdict.
pub open spec fn told_of_verdict(s: Seq<EffectView>, v: VerdictView) -> Seq<EffectView> {
    match v {
        VerdictView::Allow => s,
        VerdictView::Deny(reason) => s.push(outbox::warns("Denied: "@ + reason)),
        VerdictView::NeedApproval(reason) => s.push(
            EffectView::Send(UiUpdateView::AwaitingApproval { cmd: reason }),
        ),
    }
}

/// Acts on the verdict on a call.
pub fn rule(v: Verdict, out: &mut Outbox) -> (r: Ruling)
    ensures
        r == ruling_of(v@),
        final(out)@ == told_of_verdict(old(out)@, v@),
{
    match v {
        Verdict::Allow => Ruling::Run,
        Verdict::Deny(reason) => {
            out.err(cat2("Denied: ", reason.as_str()));
            Ruling::Refuse
        },
        Verdict::NeedApproval(reason) => {
            out.send(UiUpdate::AwaitingApproval { cmd: reason });
            Ruling::Ask
        },
    }
}

/// What an action means while the user is asked for approval; no action means
/// that none will come. None if the wait goes on.
pub open spec fn approval_of(a: Option<ActionView>) -> Option<bool> {
    match a {
        Some(ActionView::Approve) => Some(true),
        Some(ActionView::Deny) => Some(false),
        Some(ActionView::CancelStream) => Some(false),
        None => Some(false),
        _ => None,
    }
}

/// The engine after such an action: asking to stop stops the turn too.
pub open spec fn after_wait(e: EngineView, a: Option<ActionView>) -> EngineView {
    if a == Some(ActionView::CancelStream) {
        EngineView { cancelled: true, ..e }
    } else {
        e
    }
}

/// The view of an optional action.
pub open spec fn opt_action(a: Option<Action>) -> Option<ActionView> {
    match a {
        Some(a) => Some(a@),
        None => None,
    }
}

/// What an action means while the user is asked a question of the model: the
/// answer, or that there is none. None if the wait goes on.
pub open spec fn answer_of(a: Option<ActionView>) -> Option<Option<Seq<char>>> {
    match a {
        Some(ActionView::UserAnswer(s)) => Some(Some(s)),
        Some(ActionView::CancelStream) => Some(None),
        None => Some(None),
        _ => None,
    }
}

impl Engine {
    /// Takes an action while the user is asked for approval.
    pub fn on_approval(&mut self, a: &Option<Action>) -> (r: Option<bool>)
        ensures
            r == approval_of(opt_action(*a)),
            final(self)@ == after_wait(old(self)@, opt_action(*a)),
    {
        match a {
            Some(Action::Approve) => Some(true),
            Some(Action::Deny) => Some(false),
            Some(Action::CancelStream) => {
                self.cancelled = true;
                Some(false)
            },
            None => Some(false),
            _ => None,
        }
    }

    /// Takes an action while the user is asked a question of the model.
    pub fn on_question(&mut self, a: &Option<Action>) -> (r: Option<Option<String>>)
        ensures
            (match r {
                Some(s) => Some(split::opt_text(s)),
                None => None,
            }) == answer_of(opt_action(*a)),
            final(self)@ == after_wait(old(self)@, opt_action(*a)),
    {
        match a {
            Some(Action::UserAnswer(s)) => Some(Some(s.as_str().to_string())),
            Some(Action::CancelStream) => {
                self.cancelled = true;
                Some(None)
            },
            None => Some(None),
            _ => None,
        }
    }

    /// Takes an action while a tool runs: asking to stop stops the turn, and a
    /// note or command is handled, after which the tool is waited for.
    pub fn on_action_in_tool(&mut self, a: &Option<Action>) -> (r: Interrupt)
        ensures
            r@ == (match opt_action(*a) {
                Some(a) => turn::interrupt_of(a),
                None => InterruptView::Ignore,
            }),
            final(self)@ == after_wait(old(self)@, opt_action(*a)),
    {
        match a {
            Some(Action::CancelStream) => {
                self.cancelled = true;
                Interrupt::Stop
            },
            Some(Action::Steer(s)) => Interrupt::Steer(s.as_str().to_string()),
            _ => Interrupt::Ignore,
        }
    }
}

/// What an action means while the user looks at the edit of call `id`: whether
/// it was accepted. None if the wait goes on.
pub open spec fn review_of(a: Option<ActionView>, id: Seq<char>) -> Option<bool> {
    match a {
        Some(ActionView::AcceptDiff { tool_id }) => if tool_id == id {
            Some(true)
        } else {
            None
        },
        Some(ActionView::RejectDiff { tool_id }) => if tool_id == id {
            Some(false)
        } else {
            None
        },
        Some(ActionView::CancelStream) => Some(false),
        None => Some(false),
        _ => None,
    }
}

/// Takes an action while the user looks at the edit of call `id`.
pub fn on_review(a: &Option<Action>, id: &str) -> (r: Option<bool>)
    ensures
        r == review_of(opt_action(*a), id@),
{
    match a {
        Some(Action::AcceptDiff { tool_id }) => if same(tool_id.as_str(), id) {
            Some(true)
        } else {
            None
        },
        Some(Action::RejectDiff { tool_id }) => if same(tool_id.as_str(), id) {
            Some(false)
        } else {
            None
        },
        Some(Action::CancelStream) => Some(false),
        None => Some(false),
        _ => None,
    }
}

// ── Carrying out ────────────────────────────────────────────────────────────

/// A call of a tool of a connected server.
pub struct McpRoute {
    pub server: String,
    pub tool: String,
}

/// The model of a call of a server's tool.
#[verifier::ext_equal]
pub struct McpRouteView {
    pub server: Seq<char>,
    pub tool: Seq<char>,
}

impl View for McpRoute {
    type V = McpRouteView;

    open spec fn view(&self) -> McpRouteView {
        McpRouteView { server: self.server@, tool: self.tool@ }
    }
}

/// How a call is carried out.
pub enum How {
    /// Not at all: the user refused it.
    Refused,
    /// By the executor of the tools.
    Run,
    /// By the executor, after the user has seen what it would change.
    Review,
    /// It says that the task is complete.
    Complete,
    /// The user is asked.
    Ask { question: String },
    /// By a skill.
    Skill { name: String, query: String },
    BgStart { command: String },
    BgStatus { id: String },
    BgLog { id: String },
    BgKill { id: String },
    /// By a connected server.
    Mcp { server: String, tool: String },
}

/// The model of how a call is carried out.
#[verifier::ext_equal]
pub enum HowView {
    Refused,
    Run,
    Review,
    Complete,
    Ask { question: Seq<char> },
    Skill { name: Seq<char>, query: Seq<char> },
    BgStart { command: Seq<char> },
    BgStatus { id: Seq<char> },
    BgLog { id: Seq<char> },
    BgKill { id: Seq<char> },
    Mcp { server: Seq<char>, tool: Seq<char> },
}

impl View for How {
    type V = HowView;

    open spec fn view(&self) -> HowView {
        match self {
            How::Refused => HowView::Refused,
            How::Run => HowView::Run,
            How::Review => HowView::Review,
            How::Complete => HowView::Complete,
            How::Ask { question } => HowView::Ask { question: question@ },
            How::Skill { name, query } => HowView::Skill { name: name@, query: query@ },
            How::BgStart { command } => HowView::BgStart { command: command@ },
            How::BgStatus { id } => HowView::BgStatus { id: id@ },
            How::BgLog { id } => HowView::BgLog { id: id@ },
            How::BgKill { id } => HowView::BgKill { id: id@ },
            How::Mcp { server, tool } => HowView::Mcp { server: server@, tool: tool@ },
        }
    }
}

/// The question of a call.
pub open spec fn question_of(input: Seq<char>) -> Seq<char> {
    match json::json_member(input, "question"@) {
        Some(s) => s,
        None => "Please answer:"@,
    }
}

/// How a call is carried out. A refused one is not; a tool without side effects
/// just runs; an edit of a file is shown first, unless the user asked for no
/// checks.
pub open spec fn how_for(
    e: EngineView,
    c: ToolCallView,
    refused: bool,
    route: Option<McpRouteView>,
) -> HowView {
    if refused {
        HowView::Refused
    } else if calls::parallel_safe(c.name) {
        HowView::Run
    } else if c.name == "mark_complete"@ {
        HowView::Complete
    } else if c.name == "ask_user"@ {
        HowView::Ask { question: question_of(c.input) }
    } else if c.name == "run_skill"@ {
        HowView::Skill {
            name: member_or_empty(c.input, "name"@),
            query: member_or_empty(c.input, "query"@),
        }
    } else if c.name == "bg_start"@ {
        HowView::BgStart { command: member_or_empty(c.input, "command"@) }
    } else if c.name == "bg_status"@ {
        HowView::BgStatus { id: member_or_empty(c.input, "id"@) }
    } else if c.name == "bg_log"@ {
        HowView::BgLog { id: member_or_empty(c.input, "id"@) }
    } else if c.name == "bg_kill"@ {
        HowView::BgKill { id: member_or_empty(c.input, "id"@) }
    } else if let Some(r) = route {
        HowView::Mcp { server: r.server, tool: r.tool }
    } else if !e.cfg.skip_permissions && calls::edits_file(c.name) && calls::edited_path(
        c.input,
    ) is Some {
        HowView::Review
    } else {
        HowView::Run
    }
}

impl Engine {
    /// How a call is carried out. `refused` says whether the user refused it,
    /// `route` which server's tool it names, if it names one.
    pub fn how(&self, c: &ToolCall, refused: bool, route: &Option<McpRoute>) -> (r: How)
        ensures
            r@ == how_for(self@, c@, refused, crate::dup::opt_view(*route)),
    {
        let name = c.name.as_str();
        let input = c.input.as_str();
        if refused {
            return How::Refused;
        }
        if is_parallel_safe(name) {
            return How::Run;
        }
        if same(name, "mark_complete") {
            return How::Complete;
        }
        if same(name, "ask_user") {
            let question = match member(input, "question") {
                Some(s) => s,
                None => "Please answer:".to_string(),
            };
            return How::Ask { question };
        }
        if same(name, "run_skill") {
            return How::Skill {
                name: member_text(input, "name"),
                query: member_text(input, "query"),
            };
        }
        if same(name, "bg_start") {
            return How::BgStart { command: member_text(input, "command") };
        }
        if same(name, "bg_status") {
            return How::BgStatus { id: member_text(input, "id") };
        }
        if same(name, "bg_log") {
            return How::BgLog { id: member_text(input, "id") };
        }
        if same(name, "bg_kill") {
            return How::BgKill { id: member_text(input, "id") };
        }
        if let Some(r) = route {
            return How::Mcp {
                server: r.server.as_str().to_string(),
                tool: r.tool.as_str().to_string(),
            };
        }
        if !self.cfg.skip_permissions && calls::is_file_edit(name) && calls::extract_file_path(
            input,
        ).is_some() {
            return How::Review;
        }
        How::Run
    }
}

/// Whether the call at `i` was refused.
pub open spec fn refused_at(cs: Seq<ToolCallView>, denied: Seq<Seq<char>>, i: int) -> bool {
    denied.contains(cs[i].id)
}

/// Whether another call of the run that holds `i` ran beside it.
pub open spec fn has_companion(cs: Seq<ToolCallView>, denied: Seq<Seq<char>>, i: int) -> bool {
    exists|j: int|
        j != i && #[trigger] calls::safe_at(cs, j) && !refused_at(cs, denied, j)
            && calls::run_start(cs, j) == calls::run_start(cs, i)
}

/// The group of the call at `i` after the user's word: the start of its run, if
/// two calls of the run or more did run at the same time and it is one of them.
pub open spec fn ran_group(
    cs: Seq<ToolCallView>,
    denied: Seq<Seq<char>>,
    i: int,
) -> Option<usize> {
    if calls::safe_at(cs, i) && !refused_at(cs, denied, i) && has_companion(cs, denied, i) {
        Some(calls::run_start(cs, i) as usize)
    } else {
        None
    }
}

/// The groups of all calls after the user's word.
pub open spec fn ran_groups(
    cs: Seq<ToolCallView>,
    denied: Seq<Seq<char>>,
) -> Seq<Option<usize>> {
    Seq::new(cs.len(), |i: int| ran_group(cs, denied, i))
}

/// Where the run of safe calls that starts at `s` ends.
pub open spec fn run_end(cs: Seq<ToolCallView>, s: int) -> int
    decreases cs.len() - s,
{
    if calls::safe_at(cs, s) {
        run_end(cs, s + 1)
    } else {
        s
    }
}

/// Whether the user refused the call with this id.
pub fn is_refused(denied: &Vec<String>, id: &str) -> (r: bool)
    ensures
        r == split::texts(denied@).contains(id@),
{
    let ghost all = split::texts(denied@);
    let mut i: usize = 0;
    while i < denied.len()
        invariant
            i <= denied@.len(),
            all == split::texts(denied@),
            forall|k: int| 0 <= k < i ==> #[trigger] all[k] != id@,
        decreases denied@.len() - i,
    {
        assert(all[i as int] == denied@[i as int]@);
        if same(denied[i].as_str(), id) {
            assert(all[i as int] == id@);
            return true;
        }
        i += 1;
    }
    false
}

fn find_start(cs: &Vec<ToolCall>, i: usize) -> (r: usize)
    requires
        calls::safe_at(split::views(cs@), i as int),
    ensures
        r == calls::run_start(split::views(cs@), i as int),
        r <= i,
{
    let ghost all = split::views(cs@);
    let mut s: usize = i;
    while s > 0 && is_parallel_safe(cs[s - 1].name.as_str())
        invariant
            s <= i < cs@.len(),
            all == split::views(cs@),
            calls::run_start(all, i as int) == calls::run_start(all, s as int),
        ensures
            s <= i,
            calls::run_start(all, i as int) == s,
        decreases s,
    {
        assert(all[s - 1] == cs@[s - 1]@);
        s -= 1;
        proof {
            if s > 0 {
                assert(all[s - 1] == cs@[s - 1]@);
            }
        }
    }
    s
}

fn find_companion(cs: &Vec<ToolCall>, denied: &Vec<String>, i: usize) -> (r: bool)
    requires
        calls::safe_at(split::views(cs@), i as int),
    ensures
        r == has_companion(split::views(cs@), split::texts(denied@), i as int),
{
    let ghost all = split::views(cs@);
    let ghost ds = split::texts(denied@);
    let s = find_start(cs, i);
    proof {
        calls::lemma_run(all, i as int);
    }
    let mut j: usize = s;
    while j < cs.len() && is_parallel_safe(cs[j].name.as_str())
        invariant
            s <= j <= cs@.len(),
            i < cs@.len(),
            all == split::views(cs@),
            ds == split::texts(denied@),
            s == calls::run_start(all, i as int),
            !calls::safe_at(all, s - 1),
            calls::safe_at(all, i as int),
            forall|k: int| s <= k <= i ==> #[trigger] calls::safe_at(all, k),
            forall|k: int| s <= k < j ==> #[trigger] calls::safe_at(all, k),
            forall|k: int|
                s <= k < j && k != i ==> #[trigger] calls::safe_at(all, k) ==> refused_at(
                    all,
                    ds,
                    k,
                ),
        ensures
            s <= j <= cs@.len(),
            !calls::safe_at(all, j as int),
            forall|k: int| s <= k < j ==> #[trigger] calls::safe_at(all, k),
            forall|k: int|
                s <= k < j && k != i ==> #[trigger] calls::safe_at(all, k) ==> refused_at(
                    all,
                    ds,
                    k,
                ),
        decreases cs@.len() - j,
    {
        assert(all[j as int] == cs@[j as int]@);
        assert(calls::safe_at(all, j as int));
        if j != i && !is_refused(denied, cs[j].id.as_str()) {
            proof {
                calls::lemma_run(all, j as int);
                calls::lemma_run_from(all, s as int, j as int);
                assert(!refused_at(all, ds, j as int));
            }
            return true;
        }
        j += 1;
        proof {
            if j < cs@.len() {
                assert(all[j as int] == cs@[j as int]@);
            }
        }
    }
    proof {
        assert forall|k: int|
            k != i && #[trigger] calls::safe_at(all, k) && calls::run_start(all, k)
                == calls::run_start(all, i as int) implies refused_at(all, ds, k) by {
            calls::lemma_run(all, k);
            if k >= j {
                assert(calls::safe_at(all, j as int));
            }
        }
    }
    false
}

/// The groups of the calls that did run at the same time, one for each call.
pub fn real_groups(cs: &Vec<ToolCall>, denied: &Vec<String>) -> (r: Vec<Option<usize>>)
    ensures
        r@ == ran_groups(split::views(cs@), split::texts(denied@)),
{
    let ghost all = split::views(cs@);
    let ghost ds = split::texts(denied@);
    let mut out: Vec<Option<usize>> = Vec::new();
    let mut i: usize = 0;
    while i < cs.len()
        invariant
            i <= cs@.len(),
            all == split::views(cs@),
            ds == split::texts(denied@),
            out@ =~= ran_groups(all, ds).take(i as int),
        decreases cs@.len() - i,
    {
        assert(all[i as int] == cs@[i as int]@);
        let g = if is_parallel_safe(cs[i].name.as_str()) && !is_refused(
            denied,
            cs[i].id.as_str(),
        ) && find_companion(cs, denied, i) {
            Some(find_start(cs, i))
        } else {
            None
        };
        out.push(g);
        i += 1;
    }
    out
}

/// The end of the run of calls that start together with the one at `start`; of
/// a call that runs by itself, the place behind it.
pub fn batch_end(cs: &Vec<ToolCall>, start: usize) -> (r: usize)
    requires
        start < cs@.len(),
    ensures
        start < r <= cs@.len(),
        calls::safe_at(split::views(cs@), start as int) ==> r == run_end(
            split::views(cs@),
            start as int,
        ),
        !calls::safe_at(split::views(cs@), start as int) ==> r == start + 1,
{
    let ghost all = split::views(cs@);
    let total = cs.len();
    let mut i: usize = start;
    assert(start < total && all[start as int] == cs@[start as int]@);
    while i < cs.len() && is_parallel_safe(cs[i].name.as_str())
        invariant
            start <= i <= cs@.len(),
            all == split::views(cs@),
            run_end(all, start as int) == run_end(all, i as int),
            i > start ==> calls::safe_at(all, start as int),
        ensures
            start <= i <= cs@.len(),
            run_end(all, start as int) == i,
            !calls::safe_at(all, i as int),
            i > start ==> calls::safe_at(all, start as int),
        decreases cs@.len() - i,
    {
        assert(all[i as int] == cs@[i as int]@);
        i += 1;
        proof {
            if i < cs@.len() {
                assert(all[i as int] == cs@[i as int]@);
            }
        }
    }
    if i == start {
        start + 1
    } else {
        i
    }
}

/// A call has a group after the user's word only where it ran, and shares it
/// only with calls that ran in the same run; a call that ran alone has none.
pub proof fn law_ran_groups(cs: Seq<ToolCallView>, denied: Seq<Seq<char>>, i: int, j: int)
    requires
        0 <= i < j < cs.len(),
        cs.len() <= usize::MAX,
    ensures
        ran_group(cs, denied, i) is Some ==> !refused_at(cs, denied, i) && calls::group_of(cs, i)
            == ran_group(cs, denied, i),
        (calls::group_of(cs, i) is Some && calls::group_of(cs, i) == calls::group_of(cs, j)
            && !refused_at(cs, denied, i) && !refused_at(cs, denied, j)) ==> ran_group(
            cs,
            denied,
            i,
        ) is Some && ran_group(cs, denied, i) == ran_group(cs, denied, j),
{
    if ran_group(cs, denied, i) is Some {
        let k = choose|k: int|
            k != i && #[trigger] calls::safe_at(cs, k) && !refused_at(cs, denied, k)
                && calls::run_start(cs, k) == calls::run_start(cs, i);
        calls::lemma_run(cs, i);
        calls::lemma_run(cs, k);
        if k < i {
            assert(calls::safe_at(cs, i - 1));
        } else {
            assert(calls::safe_at(cs, i + 1));
        }
    }
    if calls::group_of(cs, i) is Some && calls::group_of(cs, i) == calls::group_of(cs, j)
        && !refused_at(cs, denied, i) && !refused_at(cs, denied, j) {
        calls::lemma_run(cs, i);
        calls::lemma_run(cs, j);
        assert(calls::safe_at(cs, i));
        assert(calls::safe_at(cs, j));
        assert(calls::run_start(cs, i) == calls::run_start(cs, j));
    }
}

// ── What calls come to ──────────────────────────────────────────────────────

/// An outcome.
pub open spec fn outcome(output: Seq<char>, is_error: bool) -> ToolOutcomeView {
    ToolOutcomeView { output, is_error }
}

fn came_to(output: String, is_error: bool) -> (r: ToolOutcome)
    ensures
        r@ == outcome(output@, is_error),
{
    ToolOutcome { output, is_error }
}

/// What a call comes to that the user refused.
pub fn refused_outcome() -> (r: ToolOutcome)
    ensures
        r@ == outcome("Command denied by user."@, true),
{
    came_to("Command denied by user.".to_string(), true)
}

/// What a call comes to whose turn the user stopped.
pub fn cancelled_outcome() -> (r: ToolOutcome)
    ensures
        r@ == outcome("Cancelled by user."@, true),
{
    came_to("Cancelled by user.".to_string(), true)
}

/// What a call comes to that says the task is complete.
pub fn complete_outcome() -> (r: ToolOutcome)
    ensures
        r@ == outcome("Acknowledged."@, false),
{
    came_to("Acknowledged.".to_string(), false)
}

/// What an edit comes to that the user rejected.
pub fn rejected_outcome() -> (r: ToolOutcome)
    ensures
        r@ == outcome("Edit rejected by user — diff was not accepted."@, true),
{
    came_to("Edit rejected by user — diff was not accepted.".to_string(), true)
}

/// What a question comes to, given the user's answer.
pub open spec fn answered(a: Option<Seq<char>>) -> ToolOutcomeView {
    match a {
        Some(s) => if text::trimmed(s).len() > 0 {
            outcome(text::trimmed(s), false)
        } else {
            outcome("(no answer)"@, false)
        },
        None => outcome("User cancelled."@, true),
    }
}

/// What a question comes to, given the user's answer.
pub fn answer_outcome(a: &Option<String>) -> (r: ToolOutcome)
    ensures
        r@ == answered(split::opt_text(*a)),
{
    match a {
        Some(s) => {
            let t = trim_str(s.as_str());
            if t.as_str().is_empty() {
                came_to("(no answer)".to_string(), false)
            } else {
                came_to(t, false)
            }
        },
        None => came_to("User cancelled.".to_string(), true),
    }
}

/// What a call of a server's tool comes to where the server is not connected.
pub fn unconnected_outcome(server: &str) -> (r: ToolOutcome)
    ensures
        r@ == outcome("mcp server '"@ + server@ + "' is not connected"@, true),
{
    came_to(cat3("mcp server '", server, "' is not connected"), true)
}

// ── Skills ──────────────────────────────────────────────────────────────────

/// How a skill is run.
pub enum SkillRun {
    /// By a subagent: the skill at this place.
    Subagent(usize),
    /// Its commands: the skill at this place.
    Shell(usize),
    /// Its text: the skill at this place.
    Prompt(usize),
    /// Not at all.
    Fail(ToolOutcome),
}

/// The model of how a skill is run.
#[verifier::ext_equal]
pub enum SkillRunView {
    Subagent(int),
    Shell(int),
    Prompt(int),
    Fail(ToolOutcomeView),
}

impl View for SkillRun {
    type V = SkillRunView;

    open spec fn view(&self) -> SkillRunView {
        match self {
            SkillRun::Subagent(i) => SkillRunView::Subagent(*i as int),
            SkillRun::Shell(i) => SkillRunView::Shell(*i as int),
            SkillRun::Prompt(i) => SkillRunView::Prompt(*i as int),
            SkillRun::Fail(o) => SkillRunView::Fail(o@),
        }
    }
}

/// The first skill of a name; the number of skills if there is none.
pub open spec fn skill_at(ss: Seq<SkillInfoView>, name: Seq<char>) -> int
    decreases ss.len(),
{
    if ss.len() == 0 {
        0
    } else if ss[0].name == name {
        0
    } else {
        1 + skill_at(ss.drop_first(), name)
    }
}

/// How a skill is run: by a subagent where those are on, else by its commands,
/// else by its text.
pub open spec fn skill_run(e: EngineView, name: Seq<char>) -> SkillRunView {
    let k = skill_at(e.skills, name);
    if k >= e.skills.len() {
        SkillRunView::Fail(outcome("skill '"@ + name + "' not found"@, true))
    } else if e.cfg.skill_subagents {
        SkillRunView::Subagent(k)
    } else if e.skills[k].shell {
        SkillRunView::Shell(k)
    } else if e.skills[k].prompt {
        SkillRunView::Prompt(k)
    } else {
        SkillRunView::Fail(
            outcome(
                "skill '"@ + name + "' has neither a shell chunk nor a prompt body"@,
                true,
            ),
        )
    }
}

/// Finds a skill by its name.
pub fn find_skill(ss: &Vec<SkillInfo>, name: &str) -> (r: usize)
    ensures
        r == skill_at(split::views(ss@), name@),
        r <= ss@.len(),
{
    let ghost all = split::views(ss@);
    let mut i: usize = 0;
    assert(all.skip(0) =~= all);
    while i < ss.len()
        invariant
            i <= ss@.len(),
            all == split::views(ss@),
            skill_at(all, name@) == i + skill_at(all.skip(i as int), name@),
        decreases ss@.len() - i,
    {
        assert(all[i as int] == ss@[i as int]@);
        assert(all.skip(i as int).drop_first() =~= all.skip(i + 1));
        if same(ss[i].name.as_str(), name) {
            return i;
        }
        i += 1;
    }
    i
}

/// What a command comes to that a check denied, so that it never runs. None if
/// it may run, at once or once the user has allowed it.
pub fn preflight_shell(v: &Verdict) -> (r: Option<ToolOutcome>)
    ensures
        crate::dup::opt_view(r) == (match v@ {
            VerdictView::Deny(reason) => Some(outcome(reason, true)),
            _ => None,
        }),
{
    match v {
        Verdict::Deny(reason) => Some(came_to(reason.as_str().to_string(), true)),
        _ => None,
    }
}

/// Takes what a command of a skill came to, beside the outputs of those before
/// it. A failure is what the whole skill comes to, and no further command runs.
pub fn after_command(outputs: &mut Vec<String>, o: ToolOutcome) -> (r: Option<ToolOutcome>)
    ensures
        o@.is_error ==> r == Some(o) && final(outputs)@ == old(outputs)@,
        !o@.is_error ==> r is None && split::texts(final(outputs)@) == split::texts(
            old(outputs)@,
        ).push(o@.output),
{
    if o.is_error {
        return Some(o);
    }
    outputs.push(o.output);
    None
}

/// What the commands of a skill come to together: their outputs, behind its
/// text where it has one.
pub open spec fn skill_output(outputs: Seq<Seq<char>>, prose: Seq<char>) -> Seq<char> {
    if prose.len() == 0 {
        split::joined(outputs, "\n\n"@)
    } else {
        prose + "\n\n"@ + split::joined(outputs, "\n\n"@)
    }
}

/// What the commands of a skill come to together.
pub fn combine_outputs(outputs: &Vec<String>, prose: &str) -> (r: String)
    ensures
        r@ == skill_output(split::texts(outputs@), prose@),
{
    let body = join(outputs, "\n\n");
    if prose.is_empty() {
        body
    } else {
        cat3(prose, "\n\n", body.as_str())
    }
}

/// Who runs a subagent: the model for ordinary tasks where there are tiers,
/// whether or not tasks are routed by them; else the active one.
pub open spec fn subagent_of(e: EngineView) -> (Seq<char>, Seq<char>) {
    match e.cfg.model_tiers {
        Some(t) => (t.default.provider, t.default.model),
        None => (e.cfg.active_provider, e.cfg.active_model),
    }
}

impl Engine {
    /// How a skill is run.
    pub fn dispatch_skill(&self, name: &str) -> (r: SkillRun)
        ensures
            r@ == skill_run(self@, name@),
    {
        assert(split::views(self.skills@).len() == self.skills@.len());
        let k = find_skill(&self.skills, name);
        if k >= self.skills.len() {
            return SkillRun::Fail(came_to(cat3("skill '", name, "' not found"), true));
        }
        assert(split::views(self.skills@)[k as int] == self.skills@[k as int]@);
        if self.cfg.skill_subagents {
            SkillRun::Subagent(k)
        } else if self.skills[k].shell {
            SkillRun::Shell(k)
        } else if self.skills[k].prompt {
            SkillRun::Prompt(k)
        } else {
            SkillRun::Fail(
                came_to(
                    cat3("skill '", name, "' has neither a shell chunk nor a prompt body"),
                    true,
                ),
            )
        }
    }

    /// The provider and model of a subagent.
    pub fn subagent_model(&self) -> (r: (String, String))
        ensures
            (r.0@, r.1@) == subagent_of(self@),
    {
        match &self.cfg.model_tiers {
            Some(t) => (
                t.default.provider.as_str().to_string(),
                t.default.model.as_str().to_string(),
            ),
            None => (
                self.cfg.active_provider.as_str().to_string(),
                self.cfg.active_model.as_str().to_string(),
            ),
        }
    }
}

// ── Background processes ────────────────────────────────────────────────────

/// How a background process stands.
pub struct BgStatus {
    pub id: String,
    pub cmd: String,
    pub running: bool,
    pub exit_code: Option<i32>,
    pub elapsed_secs: u64,
    pub stdout_len: usize,
    pub stderr_len: usize,
}

/// The model of how a background process stands.
#[verifier::ext_equal]
pub struct BgStatusView {
    pub id: Seq<char>,
    pub cmd: Seq<char>,
    pub running: bool,
    pub exit_code: Option<i32>,
    pub elapsed_secs: u64,
    pub stdout_len: usize,
    pub stderr_len: usize,
}

impl View for BgStatus {
    type V = BgStatusView;

    open spec fn view(&self) -> BgStatusView {
        BgStatusView {
            id: self.id@,
            cmd: self.cmd@,
            running: self.running,
            exit_code: self.exit_code,
            elapsed_secs: self.elapsed_secs,
            stdout_len: self.stdout_len,
            stderr_len: self.stderr_len,
        }
    }
}

/// The state of a process in words.
pub open spec fn bg_state(s: BgStatusView) -> Seq<char> {
    if s.running {
        "RUNNING"@
    } else {
        match s.exit_code {
            Some(c) => "exited (code "@ + number::signed_decimal(c as int) + ")"@,
            None => "exited (no code)"@,
        }
    }
}

/// The line of a process.
pub open spec fn bg_line(s: BgStatusView) -> Seq<char> {
    ("id="@ + s.id + "  "@ + bg_state(s) + "  ~"@ + number::decimal(s.elapsed_secs as nat)
        + "s  stdout="@) + (number::decimal(s.stdout_len as nat) + "B stderr="@
        + number::decimal(s.stderr_len as nat) + "B  cmd="@ + shown::quoted(s.cmd))
}

/// The lines of some processes.
pub open spec fn bg_lines(s: Seq<BgStatusView>) -> Seq<Seq<char>> {
    s.map_values(|x: BgStatusView| bg_line(x))
}

/// What a look at the background processes comes to.
pub open spec fn bg_report(id: Seq<char>, s: Seq<BgStatusView>) -> ToolOutcomeView {
    if s.len() == 0 {
        if id.len() == 0 {
            outcome("no background processes running"@, false)
        } else {
            outcome("no background process with id '"@ + id + "'"@, false)
        }
    } else {
        outcome(split::joined(bg_lines(s), "\n"@), false)
    }
}

/// What a look at the output of a process comes to.
pub open spec fn bg_output(stdout: Seq<char>, stderr: Seq<char>) -> Seq<char> {
    let o = text::trimmed(stdout).len() > 0;
    let e = text::trimmed(stderr).len() > 0;
    if !o && !e {
        "(no new output since last poll)"@
    } else {
        (if o {
            "[stdout]\n"@ + stdout
        } else {
            Seq::empty()
        }) + (if e {
            "[stderr]\n"@ + stderr
        } else {
            Seq::empty()
        })
    }
}

/// What the model is told of a process that was started.
pub open spec fn bg_started(id: Seq<char>, cmd: Seq<char>) -> Seq<char> {
    ("background process started: id="@ + id + "  cmd="@ + shown::quoted(cmd)
        + "\nPoll with bg_status id="@) + (id + " and bg_log id="@ + id + "; stop with bg_kill id="@
        + id + "."@)
}

fn show_bg(s: &BgStatus) -> (r: String)
    ensures
        r@ == bg_line(s@),
{
    let state = if s.running {
        "RUNNING".to_string()
    } else {
        match s.exit_code {
            Some(c) => {
                let n = show_i32(c);
                cat3("exited (code ", n.as_str(), ")")
            },
            None => "exited (no code)".to_string(),
        }
    };
    let secs = show_u64(s.elapsed_secs);
    let o = show(s.stdout_len);
    let e = show(s.stderr_len);
    let cmd = quote(s.cmd.as_str());
    let a = cat7(
        "id=",
        s.id.as_str(),
        "  ",
        state.as_str(),
        "  ~",
        secs.as_str(),
        "s  stdout=",
    );
    let b = cat5(o.as_str(), "B stderr=", e.as_str(), "B  cmd=", cmd.as_str());
    cat2(a.as_str(), b.as_str())
}

/// What a look at the background processes comes to: `s` are those with the id,
/// or all of them where the id is empty.
pub fn bg_status_outcome(id: &str, s: &Vec<BgStatus>) -> (r: ToolOutcome)
    ensures
        r@ == bg_report(id@, split::views(s@)),
{
    let ghost all = split::views(s@);
    if s.len() == 0 {
        return if id.is_empty() {
            came_to("no background processes running".to_string(), false)
        } else {
            came_to(cat3("no background process with id '", id, "'"), false)
        };
    }
    let ghost want = bg_lines(all);
    let mut lines: Vec<String> = Vec::new();
    let mut i: usize = 0;
    while i < s.len()
        invariant
            i <= s@.len(),
            all == split::views(s@),
            want == bg_lines(all),
            split::texts(lines@) =~= want.take(i as int),
        decreases s@.len() - i,
    {
        assert(all[i as int] == s@[i as int]@);
        lines.push(show_bg(&s[i]));
        assert(want[i as int] == lines@.last()@);
        i += 1;
    }
    assert(want.take(i as int) =~= want);
    came_to(join(&lines, "\n"), false)
}

/// What a look at the output of a process comes to, given what it has written
/// since the last look, or why that is not known.
pub fn bg_log_outcome(log: &Result<(String, String), String>) -> (r: ToolOutcome)
    ensures
        r@ == (match log {
            Ok(p) => outcome(bg_output(p.0@, p.1@), false),
            Err(e) => outcome(e@, true),
        }),
{
    match log {
        Ok(p) => {
            let o = trim_str(p.0.as_str());
            let e = trim_str(p.1.as_str());
            if o.as_str().is_empty() && e.as_str().is_empty() {
                return came_to("(no new output since last poll)".to_string(), false);
            }
            let a = if o.as_str().is_empty() {
                empty()
            } else {
                cat2("[stdout]\n", p.0.as_str())
            };
            let b = if e.as_str().is_empty() {
                empty()
            } else {
                cat2("[stderr]\n", p.1.as_str())
            };
            came_to(cat2(a.as_str(), b.as_str()), false)
        },
        Err(e) => came_to(e.as_str().to_string(), true),
    }
}

/// Whether a background process is to be started at all: not without a command.
pub fn bg_start_refused(cmd: &str) -> (r: Option<ToolOutcome>)
    ensures
        r is Some == (text::trimmed(cmd@).len() == 0),
        r matches Some(o) ==> o@ == outcome("bg_start requires 'command'"@, true),
{
    let t = trim_str(cmd);
    if t.as_str().is_empty() {
        Some(came_to("bg_start requires 'command'".to_string(), true))
    } else {
        None
    }
}

/// What starting a background process comes to.
pub fn bg_start_outcome(cmd: &str, started: &Result<String, String>) -> (r: ToolOutcome)
    ensures
        r@ == (match started {
            Ok(id) => outcome(bg_started(id@, cmd@), false),
            Err(e) => outcome(e@, true),
        }),
{
    match started {
        Ok(id) => {
            let q = quote(cmd);
            let i = id.as_str();
            let a = cat5(
                "background process started: id=",
                i,
                "  cmd=",
                q.as_str(),
                "\nPoll with bg_status id=",
            );
            let b = cat6(i, " and bg_log id=", i, "; stop with bg_kill id=", i, ".");
            came_to(cat2(a.as_str(), b.as_str()), false)
        },
        Err(e) => came_to(e.as_str().to_string(), true),
    }
}

/// What a call comes to that only succeeds or fails with a message.
pub fn result_outcome(res: &Result<String, String>) -> (r: ToolOutcome)
    ensures
        r@ == (match res {
            Ok(s) => outcome(s@, false),
            Err(e) => outcome(e@, true),
        }),
{
    match res {
        Ok(s) => came_to(s.as_str().to_string(), false),
        Err(e) => came_to(e.as_str().to_string(), true),
    }
}

// ── What an edit would change ───────────────────────────────────────────────

/// A text with some edits made one after the other, up to one that names no
/// text to replace.
pub open spec fn edited(s: Seq<char>, es: Seq<json::EditView>) -> Seq<char>
    decreases es.len(),
{
    if es.len() == 0 {
        s
    } else {
        let old = match es[0].old {
            Some(t) => t,
            None => Seq::empty(),
        };
        let new = match es[0].new {
            Some(t) => t,
            None => Seq::empty(),
        };
        if old.len() == 0 {
            s
        } else {
            edited(split::replaced_first(s, old, new), es.drop_first())
        }
    }
}

/// The content of a file after a call that edits it.
pub open spec fn preview_of(name: Seq<char>, input: Seq<char>, before: Seq<char>) -> Seq<char> {
    if name == "write_file"@ {
        member_or_empty(input, "content"@)
    } else if name == "edit_file"@ {
        split::replaced_first(
            before,
            member_or_empty(input, "old_string"@),
            member_or_empty(input, "new_string"@),
        )
    } else if name == "multi_edit"@ {
        match json::json_edits(input, "edits"@, "old_string"@, "new_string"@) {
            Some(es) => edited(before, es),
            None => before,
        }
    } else if name == "notebook_edit"@ {
        member_or_empty(input, "new_source"@)
    } else {
        Seq::empty()
    }
}

/// Makes some edits one after the other, up to one that names no text to
/// replace.
pub fn apply_edits(s: &str, es: &Vec<json::Edit>) -> (r: String)
    ensures
        r@ == edited(s@, split::views(es@)),
{
    let ghost all = split::views(es@);
    let mut cur = s.to_string();
    let mut i: usize = 0;
    assert(all.skip(0) =~= all);
    while i < es.len()
        invariant
            i <= es@.len(),
            all == split::views(es@),
            edited(s@, all) == edited(cur@, all.skip(i as int)),
        decreases es@.len() - i,
    {
        let e = &es[i];
        assert(all[i as int] == e@);
        assert(all.skip(i as int).drop_first() =~= all.skip(i + 1));
        let old = match &e.old {
            Some(t) => t.as_str().to_string(),
            None => empty(),
        };
        let new = match &e.new {
            Some(t) => t.as_str().to_string(),
            None => empty(),
        };
        if old.as_str().is_empty() {
            return cur;
        }
        cur = replace_first(cur.as_str(), old.as_str(), new.as_str());
        i += 1;
    }
    cur
}

/// What a file would hold after a call that edits it, for the user to see.
pub fn preview(name: &str, input: &str, before: &str) -> (r: String)
    ensures
        r@ == preview_of(name@, input@, before@),
{
    if same(name, "write_file") {
        member_text(input, "content")
    } else if same(name, "edit_file") {
        let old = member_text(input, "old_string");
        let new = member_text(input, "new_string");
        replace_first(before, old.as_str(), new.as_str())
    } else if same(name, "multi_edit") {
        match json::edits(input, "edits", "old_string", "new_string") {
            Some(es) => apply_edits(before, &es),
            None => before.to_string(),
        }
    } else if same(name, "notebook_edit") {
        member_text(input, "new_source")
    } else {
        empty()
    }
}

// ── Laws of tools ───────────────────────────────────────────────────────────

proof fn lemma_tool_names()
    ensures
        "run_command"@.len() == 11,
        "run_skill"@.len() == 9 && "run_skill"@[1] == 'u',
        "read_file"@.len() == 9 && "read_file"@[1] == 'e',
        "write_file"@.len() == 10,
        "edit_file"@.len() == 9 && "edit_file"@[0] == 'e',
        "notebook_edit"@.len() == 13,
        "multi_edit"@.len() == 10 && "multi_edit"@[0] == 'm',
        "write_file"@[0] == 'w',
        "create_directory"@.len() == 16,
        "run_skill"@[0] == 'r' && "read_file"@[0] == 'r',
{
    reveal_strlit("run_command");
    reveal_strlit("run_skill");
    reveal_strlit("read_file");
    reveal_strlit("write_file");
    reveal_strlit("edit_file");
    reveal_strlit("notebook_edit");
    reveal_strlit("multi_edit");
    reveal_strlit("create_directory");
}

/// Unless permissions are skipped, a shell call is checked for its command and a
/// call on a path for its path; with them skipped nothing is checked.
pub proof fn law_what_is_checked(e: EngineView, c: ToolCallView, x: Seq<char>)
    ensures
        e.cfg.skip_permissions ==> check_for(e, c) is Free,
        !e.cfg.skip_permissions && c.name == "run_command"@ && json::json_field(
            c.input,
            "command"@,
        ) == Some(x) ==> check_for(e, c) == CheckView::Command(x),
        !e.cfg.skip_permissions && (c.name == "read_file"@ || c.name == "write_file"@ || c.name
            == "edit_file"@ || c.name == "notebook_edit"@ || c.name == "multi_edit"@ || c.name
            == "create_directory"@) && json::json_field(c.input, "path"@) == Some(x) ==> check_for(
            e,
            c,
        ) == CheckView::Path(x),
{
    lemma_tool_names();
}

/// A skill that runs shell commands itself is checked before it runs, under the
/// name and with the query of the call; one for a subagent is not.
pub proof fn law_shell_skills_are_checked(e: EngineView, c: ToolCallView, k: int)
    requires
        !e.cfg.skip_permissions,
        c.name == "run_skill"@,
        0 <= k < e.skills.len(),
        e.skills[k].shell,
        json::json_member(c.input, "name"@) == Some(e.skills[k].name),
    ensures
        e.cfg.skill_subagents ==> check_for(e, c) is Free,
        !e.cfg.skill_subagents ==> (check_for(e, c) matches CheckView::Skill { name, query } && name
            == e.skills[k].name),
{
    lemma_tool_names();
    assert(e.skills[k].name == member_or_empty(c.input, "name"@));
}

/// The first command that does damage is the one that is asked about; without one
/// the skill runs.
pub proof fn law_first_damaging(
    a: Seq<Seq<char>>,
    x: Seq<char>,
    b: Seq<Seq<char>>,
    ds: Seq<bool>,
)
    requires
        ds.len() == (a.push(x) + b).len(),
        forall|k: int| 0 <= k < a.len() ==> !#[trigger] ds[k],
    ensures
        ds[a.len() as int] ==> first_damaging(a.push(x) + b, ds) == Some(x),
        ds[a.len() as int] ==> skill_verdict(a.push(x) + b, ds) is NeedApproval,
        first_damaging(a, ds) is None,
        skill_verdict(a, ds) is Allow,
    decreases a.len(),
{
    let all = a.push(x) + b;
    if a.len() == 0 {
        assert(all[0] == x);
    } else {
        assert(!ds[0]);
        let r = a.drop_first();
        let rd = ds.drop_first();
        assert(all.drop_first() =~= r.push(x) + b);
        assert forall|k: int| 0 <= k < r.len() implies !#[trigger] rd[k] by {
            assert(rd[k] == ds[k + 1]);
        }
        law_first_damaging(r, x, b, rd);
        assert(rd[r.len() as int] == ds[a.len() as int]);
    }
}

/// A call waits for a yes: it runs exactly after an approval. A no, a stop and a
/// closed channel refuse it, and only a stop cancels the turn; anything else keeps
/// it waiting.
pub proof fn law_only_approval_runs(e: EngineView, a: Option<ActionView>)
    ensures
        approval_of(a) == Some(true) <==> a == Some(ActionView::Approve),
        a == Some(ActionView::Deny) || a == Some(ActionView::CancelStream) || a is None
            ==> approval_of(a) == Some(false),
        approval_of(a) is None ==> answer_of(a) is Some || a is Some,
        after_wait(e, a).cancelled <==> e.cancelled || a == Some(ActionView::CancelStream),
        after_wait(e, a).history == e.history,
{
}

/// An edit is made exactly after its own diff was accepted; a decision on another
/// diff keeps it waiting.
pub proof fn law_review_is_of_one_edit(a: Option<ActionView>, id: Seq<char>, other: Seq<char>)
    ensures
        review_of(a, id) == Some(true) <==> a == Some(ActionView::AcceptDiff { tool_id: id }),
        review_of(Some(ActionView::RejectDiff { tool_id: id }), id) == Some(false),
        other != id ==> review_of(Some(ActionView::AcceptDiff { tool_id: other }), id) is None,
        other != id ==> review_of(Some(ActionView::RejectDiff { tool_id: other }), id) is None,
        review_of(Some(ActionView::CancelStream), id) == Some(false),
        review_of(None, id) == Some(false),
{
}

/// The user's answer is handed on without whitespace around it; an empty one is
/// told as such, and a stop is an error.
pub proof fn law_answers(before: Seq<char>, s: Seq<char>, after: Seq<char>)
    requires
        text::all_in(before, |c: char| text::char_whitespace(c)),
        text::all_in(after, |c: char| text::char_whitespace(c)),
        s.len() > 0 ==> !text::char_whitespace(s[0]) && !text::char_whitespace(s.last()),
    ensures
        answer_of(Some(ActionView::UserAnswer(s))) == Some(Some(s)),
        answer_of(None) == Some(None::<Seq<char>>),
        s.len() > 0 ==> answered(Some(before + s + after)) == (ToolOutcomeView {
            output: s,
            is_error: false,
        }),
        s.len() == 0 ==> !answered(Some(before + s + after)).is_error,
        answered(None).is_error,
{
    text::law_trimmed(before, s, after);
}

/// A refused call is never run. An edit with a path is reviewed first, unless
/// permissions are skipped.
pub proof fn law_how_calls_go(
    e: EngineView,
    c: ToolCallView,
    refused: bool,
    route: Option<McpRouteView>,
)
    ensures
        how_for(e, c, refused, route) is Refused <==> refused,
        how_for(e, c, refused, route) is Review ==> !e.cfg.skip_permissions && calls::edits_file(
            c.name,
        ),
        !refused && c.name == "read_file"@ ==> how_for(e, c, refused, route) is Run,
        how_for(e, c, refused, route) matches HowView::Mcp { server, tool } ==> route == Some(
            McpRouteView { server, tool },
        ),
{
}

/// A skill is looked up by its name, the first of that name; an unknown one fails.
/// With subagents on, every skill goes to one; else one with shell commands runs
/// them, and one with only a prompt is read out.
pub proof fn law_skill_run(
    e: EngineView,
    a: Seq<SkillInfoView>,
    s: SkillInfoView,
    b: Seq<SkillInfoView>,
)
    requires
        e.skills == a.push(s) + b,
        forall|k: int| 0 <= k < a.len() ==> (#[trigger] a[k]).name != s.name,
    ensures
        e.cfg.skill_subagents ==> skill_run(e, s.name) == SkillRunView::Subagent(a.len() as int),
        !e.cfg.skill_subagents && s.shell ==> skill_run(e, s.name) == SkillRunView::Shell(
            a.len() as int,
        ),
        !e.cfg.skill_subagents && !s.shell && s.prompt ==> skill_run(e, s.name)
            == SkillRunView::Prompt(a.len() as int),
        !e.cfg.skill_subagents && !s.shell && !s.prompt ==> (skill_run(
            e,
            s.name,
        ) matches SkillRunView::Fail(o) && o.is_error),
        skill_run((EngineView { skills: a, ..e }), s.name) matches SkillRunView::Fail(o)
            && o.is_error,
{
    lemma_skill_at(a, s, b);
    assert(e.skills[a.len() as int] == s);
}

proof fn lemma_skill_at(a: Seq<SkillInfoView>, s: SkillInfoView, b: Seq<SkillInfoView>)
    requires
        forall|k: int| 0 <= k < a.len() ==> (#[trigger] a[k]).name != s.name,
    ensures
        skill_at(a.push(s) + b, s.name) == a.len(),
        skill_at(a, s.name) == a.len(),
    decreases a.len(),
{
    let all = a.push(s) + b;
    if a.len() == 0 {
        assert(all[0] == s);
    } else {
        assert(all[0] == a[0]);
        assert(a[0].name != s.name);
        let r = a.drop_first();
        assert(all.drop_first() =~= r.push(s) + b);
        assert forall|k: int| 0 <= k < r.len() implies (#[trigger] r[k]).name != s.name by {
            assert(r[k] == a[k + 1]);
        }
        lemma_skill_at(r, s, b);
    }
}

/// What a skill came to has its prose in front and holds the output of each of its
/// commands.
pub proof fn law_skill_output(outputs: Seq<Seq<char>>, prose: Seq<char>, i: int)
    requires
        0 <= i < outputs.len(),
    ensures
        prose.is_prefix_of(skill_output(outputs, prose)),
        text::occurs(skill_output(outputs, prose), outputs[i]),
{
    let j = split::joined(outputs, "\n\n"@);
    split::law_joined_holds_each(outputs, "\n\n"@, i);
    let none = Seq::<char>::empty();
    let head = if prose.len() == 0 {
        none
    } else {
        prose + "\n\n"@
    };
    let all = skill_output(outputs, prose);
    assert(all =~= head + j + none);
    text::law_occurs_within(head, j, none, outputs[i]);
    assert(all.subrange(0, prose.len() as int) =~= prose);
}

/// New output of a background process is told under its stream; whitespace alone
/// does not count as output.
pub proof fn law_background_output(a: Seq<char>, b: Seq<char>)
    ensures
        text::trimmed(a).len() > 0 && text::trimmed(b).len() > 0 ==> bg_output(a, b)
            == "[stdout]\n"@ + a + ("[stderr]\n"@ + b),
        text::trimmed(a).len() > 0 && text::trimmed(b).len() == 0 ==> bg_output(a, b)
            == "[stdout]\n"@ + a,
        text::trimmed(a).len() == 0 && text::trimmed(b).len() > 0 ==> bg_output(a, b)
            == "[stderr]\n"@ + b,
{
    let none = Seq::<char>::empty();
    assert("[stdout]\n"@ + a + none =~= "[stdout]\n"@ + a);
    assert(none + ("[stderr]\n"@ + b) =~= "[stderr]\n"@ + b);
}

/// Each background process has its own line in a report, with its id.
pub proof fn law_background_report(id: Seq<char>, s: Seq<BgStatusView>, i: int)
    requires
        0 <= i < s.len(),
    ensures
        text::occurs(bg_report(id, s).output, bg_line(s[i])),
        ("id="@ + s[i].id).is_prefix_of(bg_line(s[i])),
        !bg_report(id, s).is_error,
{
    split::law_joined_holds_each(bg_lines(s), "\n"@, i);
    let l = bg_line(s[i]);
    let h = "id="@ + s[i].id;
    assert(l.subrange(0, h.len() as int) =~= h);
}

/// Edits are made one behind the other, each on what the one before came to: those
/// of two lists are those of the first and then those of the second. One without a
/// text to replace ends them.
pub proof fn law_edits_follow_each_other(
    s: Seq<char>,
    a: Seq<json::EditView>,
    b: Seq<json::EditView>,
    e: json::EditView,
)
    requires
        forall|k: int|
            0 <= k < a.len() ==> ((#[trigger] a[k]).old matches Some(t) && t.len() > 0),
        e.old is None,
    ensures
        edited(s, a + b) == edited(edited(s, a), b),
        edited(s, a + (seq![e] + b)) == edited(s, a),
    decreases a.len(),
{
    if a.len() == 0 {
        assert(a + b =~= b);
        assert(a + (seq![e] + b) =~= seq![e] + b);
        assert((seq![e] + b)[0] == e);
    } else {
        let old = a[0].old.unwrap();
        let new = match a[0].new {
            Some(t) => t,
            None => Seq::empty(),
        };
        let r = a.drop_first();
        assert((a + b)[0] == a[0] && (a + b).drop_first() =~= r + b);
        let c = seq![e] + b;
        assert((a + c)[0] == a[0] && (a + c).drop_first() =~= r + c);
        assert forall|k: int| 0 <= k < r.len() implies ((#[trigger] r[k]).old matches Some(t)
            && t.len() > 0) by {
            assert(r[k] == a[k + 1]);
        }
        law_edits_follow_each_other(split::replaced_first(s, old, new), r, b, e);
    }
}

/// The preview of an edit puts the new text in the place of the first occurrence of
/// the old one and leaves the rest; that of a new file is its content.
pub proof fn law_preview(
    input: Seq<char>,
    a: Seq<char>,
    old: Seq<char>,
    b: Seq<char>,
    new: Seq<char>,
)
    requires
        json::json_member(input, "old_string"@) == Some(old),
        json::json_member(input, "new_string"@) == Some(new),
        old.len() > 0,
        forall|i: int| 0 <= i < a.len() ==> !text::occurs_at(a + old + b, old, i),
    ensures
        preview_of("edit_file"@, input, a + old + b) == a + new + b,
        json::json_member(input, "content"@) == Some(new) ==> preview_of(
            "write_file"@,
            input,
            a,
        ) == new,
        json::json_member(input, "new_source"@) == Some(new) ==> preview_of(
            "notebook_edit"@,
            input,
            a,
        ) == new,
{
    lemma_tool_names();
    split::law_replaced_first(a, old, b, new);
}

/// A verdict is followed: what is allowed runs without a word, what is denied is
/// told and does not run, and what needs approval is asked.
pub proof fn law_verdicts(s: Seq<EffectView>, reason: Seq<char>)
    ensures
        ruling_of(VerdictView::Allow) == Ruling::Run,
        told_of_verdict(s, VerdictView::Allow) == s,
        ruling_of(VerdictView::Deny(reason)) == Ruling::Refuse,
        told_of_verdict(s, VerdictView::Deny(reason)) == s.push(
            outbox::warns("Denied: "@ + reason),
        ),
        ruling_of(VerdictView::NeedApproval(reason)) == Ruling::Ask,
        told_of_verdict(s, VerdictView::NeedApproval(reason)) == s.push(
            EffectView::Send(UiUpdateView::AwaitingApproval { cmd: reason }),
        ),
{
}

/// A subagent works with the tier for easy tasks where there are tiers, else with the
/// model in use.
pub proof fn law_subagent(e: EngineView, t: crate::config::ModelTiersView)
    ensures
        e.cfg.model_tiers == Some(t) ==> subagent_of(e).0 == t.default.provider && subagent_of(
            e,
        ).1 == t.default.model,
        e.cfg.model_tiers is None ==> subagent_of(e).0 == e.cfg.active_provider && subagent_of(
            e,
        ).1 == e.cfg.active_model,
{
}

/// The question of a call is asked in its words; without one the user is asked to
/// answer.
pub proof fn law_question(input: Seq<char>, q: Seq<char>)
    ensures
        json::json_member(input, "question"@) == Some(q) ==> question_of(input) == q,
        json::json_member(input, "question"@) is None ==> question_of(input)
            == "Please answer:"@,
{
}

/// A process that ended is told with its code.
pub proof fn law_background_state(s: BgStatusView, c: i32)
    ensures
        s.running ==> bg_state(s) == "RUNNING"@,
        !s.running && s.exit_code == Some(c) ==> text::occurs(
            bg_state(s),
            number::signed_decimal(c as int),
        ),
        !s.running && s.exit_code is None ==> bg_state(s) == "exited (no code)"@,
{
    if !s.running && s.exit_code == Some(c) {
        text::law_occurs_in_middle("exited (code "@, number::signed_decimal(c as int), ")"@);
    }
}

proof fn lemma_special_names()
    ensures
        "mark_complete"@.len() == 13 && "mark_complete"@[0] == 'm',
        "notebook_edit"@.len() == 13 && "notebook_edit"@[0] == 'n',
        "ask_user"@.len() == 8 && "ask_user"@[0] == 'a',
        "bg_start"@.len() == 8 && "bg_start"@[0] == 'b',
        "run_skill"@.len() == 9 && "run_skill"@[0] == 'r' && "run_skill"@[1] == 'u',
        "read_file"@.len() == 9 && "read_file"@[0] == 'r' && "read_file"@[1] == 'e',
        "bg_status"@.len() == 9 && "bg_status"@[0] == 'b',
        "bg_log"@.len() == 6,
        "bg_kill"@.len() == 7,
        "list_directory"@.len() == 14,
        "search_codebase"@.len() == 15,
        "search_symbols"@.len() == 14,
        "grep"@.len() == 4,
        "glob"@.len() == 4,
        "ast_skeleton"@.len() == 12,
        "ast_get_node"@.len() == 12,
        "edit_file"@.len() == 9 && "edit_file"@[0] == 'e',
        "write_file"@.len() == 10 && "write_file"@[0] == 'w',
        "multi_edit"@.len() == 10 && "multi_edit"@[0] == 'm',
        "run_command"@.len() == 11,
{
    reveal_strlit("mark_complete");
    reveal_strlit("notebook_edit");
    reveal_strlit("ask_user");
    reveal_strlit("bg_start");
    reveal_strlit("run_skill");
    reveal_strlit("read_file");
    reveal_strlit("bg_status");
    reveal_strlit("bg_log");
    reveal_strlit("bg_kill");
    reveal_strlit("list_directory");
    reveal_strlit("search_codebase");
    reveal_strlit("search_symbols");
    reveal_strlit("grep");
    reveal_strlit("glob");
    reveal_strlit("ast_skeleton");
    reveal_strlit("ast_get_node");
    reveal_strlit("edit_file");
    reveal_strlit("write_file");
    reveal_strlit("multi_edit");
    reveal_strlit("run_command");
}

/// Each of the engine's own tools is carried out by itself, with the words of its
/// call; edits with a path are reviewed, and a tool of a server goes to the server.
pub proof fn law_own_tools(
    e: EngineView,
    c: ToolCallView,
    x: Seq<char>,
    y: Seq<char>,
    r: McpRouteView,
)
    requires
        json::json_member(c.input, "id"@) == Some(x),
        json::json_member(c.input, "command"@) == Some(x),
        json::json_member(c.input, "question"@) == Some(x),
        json::json_member(c.input, "name"@) == Some(x),
        json::json_member(c.input, "query"@) == Some(y),
    ensures
        c.name == "mark_complete"@ ==> how_for(e, c, false, None) is Complete,
        c.name == "ask_user"@ ==> how_for(e, c, false, None) == (HowView::Ask { question: x }),
        c.name == "run_skill"@ ==> how_for(e, c, false, None) == (HowView::Skill {
            name: x,
            query: y,
        }),
        c.name == "bg_start"@ ==> how_for(e, c, false, None) == (HowView::BgStart { command: x }),
        c.name == "bg_status"@ ==> how_for(e, c, false, None) == (HowView::BgStatus { id: x }),
        c.name == "bg_log"@ ==> how_for(e, c, false, None) == (HowView::BgLog { id: x }),
        c.name == "bg_kill"@ ==> how_for(e, c, false, None) == (HowView::BgKill { id: x }),
        c.name == "run_command"@ ==> how_for(e, c, false, None) is Run,
        c.name == "run_command"@ ==> how_for(e, c, false, Some(r)) == (HowView::Mcp {
            server: r.server,
            tool: r.tool,
        }),
{
    lemma_special_names();
}

/// An edit with a path is reviewed before it is made, unless permissions are
/// skipped.
pub proof fn law_edits_are_reviewed(e: EngineView, c: ToolCallView, path: Seq<char>)
    requires
        c.name == "write_file"@ || c.name == "edit_file"@ || c.name == "multi_edit"@ || c.name
            == "notebook_edit"@,
        json::json_field(c.input, "path"@) == Some(path),
        path.len() > 0,
    ensures
        !e.cfg.skip_permissions ==> how_for(e, c, false, None) is Review,
        e.cfg.skip_permissions ==> how_for(e, c, false, None) is Run,
{
    lemma_special_names();
}

} // verus!
