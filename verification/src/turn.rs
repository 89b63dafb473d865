//! A turn: from the user's message through the model's answers and tool calls
//! to its end.

use crate::calls::{self, error_hint, is_file_edit, parallel_group_ids, tool_short_desc};
use crate::dup::{dup_all, Dup};
use crate::engine::{self, Engine, EngineView, RateLimit};
use crate::index::Timestamp;
use crate::message::{self, Message, MessageView, ToolCall, ToolCallView};
use crate::net::{self, is_transient_network_error};
use crate::number::{self, show, take_chars};
use crate::outbox::{self, Effect, EffectView, Outbox};
use crate::prompt;
use crate::split;
use crate::stall::{self, looks_like_unfinished_stall};
use crate::text::{self, cat2, cat3, cat4, cat5, empty, same, trim_str};
use crate::ui::{
    Action, ActionView, Named, TaskStatus, TaskStep, TaskStepView, UiUpdate, UiUpdateView,
};
use vstd::prelude::*;
use vstd::string::*;

verus! {

broadcast use {split::lemma_texts_push, split::lemma_views_push};

// ── Beginning and stopping ──────────────────────────────────────────────────

/// An empty plan, as the front end is told of it.
pub open spec fn no_plan() -> EffectView {
    EffectView::Send(UiUpdateView::PlanUpdate(Seq::empty()))
}

/// The engine at the beginning of a turn on `t`: the message with what was
/// attached is part of the conversation, and all that belonged to the turn
/// before is gone.
pub open spec fn begun(e: EngineView, t: Seq<char>) -> EngineView {
    EngineView {
        history: e.history.push(prompt::message_of(e, t)),
        active_goal: t,
        tool_iterations: 0,
        stall_nudges: 0,
        mid_stream_retries: 0,
        task_steps: Seq::empty(),
        plan_steps: Seq::empty(),
        plan_cursor: 0,
        cancelled: false,
        ..prompt::detached(e)
    }
}

/// The engine after the user stopped the turn.
pub open spec fn stopped(e: EngineView) -> EngineView {
    EngineView {
        cancelled: true,
        active_goal: Seq::empty(),
        tool_iterations: 0,
        stall_nudges: 0,
        plan_steps: Seq::empty(),
        plan_cursor: 0,
        ..e
    }
}

/// The note that marks an answer as broken off.
pub open spec fn broken_off() -> EffectView {
    EffectView::Send(UiUpdateView::StreamChunk("\n\n*[cancelled]*"@))
}

impl Engine {
    /// Begins a turn on a message. `fitting` are the skills that fit it, which
    /// the front end is told of first.
    pub fn begin_turn(&mut self, t: &str, fitting: Vec<Named>, out: &mut Outbox)
        ensures
            final(self)@ == begun(old(self)@, t@),
            final(out)@ == engine::push_if(
                old(out)@,
                fitting@.len() > 0,
                EffectView::Send(UiUpdateView::SkillMatches(split::views(fitting@))),
            ).push(no_plan()),
    {
        if fitting.len() > 0 {
            out.send(UiUpdate::SkillMatches(fitting));
        }
        let m = self.take_attachments(t);
        self.history.push(m);
        self.active_goal = t.to_string();
        self.tool_iterations = 0;
        self.stall_nudges = 0;
        self.mid_stream_retries = 0;
        self.task_steps = Vec::new();
        self.plan_steps = Vec::new();
        self.plan_cursor = 0;
        self.cancelled = false;
        let none: Vec<TaskStep> = Vec::new();
        proof {
            assert(split::views(self.task_steps@) =~= Seq::<TaskStepView>::empty());
            assert(split::views(self.plan_steps@) =~= Seq::<TaskStepView>::empty());
            assert(split::views(none@) =~= Seq::<TaskStepView>::empty());
        }
        out.send(UiUpdate::PlanUpdate(none));
    }

    /// Stops the turn, and takes the plan off the display, so that it does not
    /// look as if it were still to be done.
    pub fn stop_turn(&mut self, out: &mut Outbox)
        ensures
            final(self)@ == stopped(old(self)@),
            final(out)@ == old(out)@.push(no_plan()),
    {
        self.cancelled = true;
        self.active_goal = empty();
        self.tool_iterations = 0;
        self.stall_nudges = 0;
        self.plan_steps = Vec::new();
        self.plan_cursor = 0;
        let none: Vec<TaskStep> = Vec::new();
        proof {
            assert(split::views(self.plan_steps@) =~= Seq::<TaskStepView>::empty());
            assert(split::views(none@) =~= Seq::<TaskStepView>::empty());
        }
        out.send(UiUpdate::PlanUpdate(none));
    }

    /// The user asks to stop while no turn is under way.
    pub fn cancel(&mut self, out: &mut Outbox)
        ensures
            final(self)@ == stopped(old(self)@),
            final(out)@ == old(out)@.push(no_plan()).push(outbox::says("Cancelled."@)),
    {
        self.stop_turn(out);
        out.say("Cancelled.");
    }
}

/// What an action means to the engine while a turn is under way.
pub enum Interrupt {
    /// Nothing: it is dropped.
    Ignore,
    /// The turn ends.
    Stop,
    /// A note or command is to be handled; the turn goes on.
    Steer(String),
}

/// The model of what an action means while a turn is under way.
#[verifier::ext_equal]
pub enum InterruptView {
    Ignore,
    Stop,
    Steer(Seq<char>),
}

impl View for Interrupt {
    type V = InterruptView;

    open spec fn view(&self) -> InterruptView {
        match self {
            Interrupt::Ignore => InterruptView::Ignore,
            Interrupt::Stop => InterruptView::Stop,
            Interrupt::Steer(s) => InterruptView::Steer(s@),
        }
    }
}

/// What an action means while a turn is under way.
pub open spec fn interrupt_of(a: ActionView) -> InterruptView {
    match a {
        ActionView::CancelStream => InterruptView::Stop,
        ActionView::Steer(s) => InterruptView::Steer(s),
        _ => InterruptView::Ignore,
    }
}

impl Engine {
    /// Takes an action that came while a turn was under way, between two
    /// requests or while a tool ran.
    pub fn on_pending(&mut self, a: Action, out: &mut Outbox) -> (r: Interrupt)
        ensures
            r@ == interrupt_of(a@),
            r@ is Stop ==> final(self)@ == stopped(old(self)@) && final(out)@ == old(out)@.push(
                no_plan(),
            ),
            !(r@ is Stop) ==> final(self)@ == old(self)@ && final(out)@ == old(out)@,
    {
        match a {
            Action::CancelStream => {
                self.stop_turn(out);
                Interrupt::Stop
            },
            Action::Steer(s) => Interrupt::Steer(s),
            _ => Interrupt::Ignore,
        }
    }

    /// Takes an action that came while an answer streamed in, of which `so_far`
    /// has arrived.
    pub fn on_action_in_stream(&mut self, a: Action, so_far: &str, out: &mut Outbox) -> (r:
        Interrupt)
        ensures
            r@ == interrupt_of(a@),
            r@ is Stop ==> final(self)@ == stopped(old(self)@) && final(out)@ == engine::push_if(
                old(out)@.push(no_plan()),
                so_far@.len() > 0,
                broken_off(),
            ),
            !(r@ is Stop) ==> final(self)@ == old(self)@ && final(out)@ == old(out)@,
    {
        let r = self.on_pending(a, out);
        if let Interrupt::Stop = &r {
            if !so_far.is_empty() {
                out.send(UiUpdate::StreamChunk("\n\n*[cancelled]*".to_string()));
            }
        }
        r
    }

    /// Looks, while an answer streams in, whether the turn was stopped.
    pub fn on_poll(&self, so_far: &str, out: &mut Outbox) -> (r: bool)
        ensures
            r == self@.cancelled,
            final(out)@ == engine::push_if(
                old(out)@,
                self@.cancelled && so_far@.len() > 0,
                broken_off(),
            ),
    {
        if self.cancelled {
            if !so_far.is_empty() {
                out.send(UiUpdate::StreamChunk("\n\n*[cancelled]*".to_string()));
            }
            true
        } else {
            false
        }
    }
}

// ── Limits of the provider ──────────────────────────────────────────────────

/// The whole seconds from `now` until `t`; None if it has passed.
pub open spec fn seconds_until(t: Timestamp, now: Timestamp) -> Option<int> {
    if t.secs < now.secs || (t.secs == now.secs && t.nanos < now.nanos) {
        None
    } else if t.nanos < now.nanos {
        Some(t.secs - now.secs - 1)
    } else {
        Some(t.secs - now.secs)
    }
}

/// One second more than the whole seconds until `t`, of which the low 32 bits
/// count; 0 if it has passed or is not known.
pub open spec fn wait_for(t: Option<Timestamp>, now: Timestamp) -> int {
    match t {
        Some(t) => match seconds_until(t, now) {
            Some(d) => d % 0x1_0000_0000 + 1,
            None => 0,
        },
        None => 0,
    }
}

/// How long to wait until a request of about `tokens` tokens passes no limit on
/// tokens.
pub open spec fn token_wait(rl: RateLimit, tokens: int, now: Timestamp) -> int {
    if rl.remaining_tokens >= 0 && tokens > rl.remaining_tokens {
        wait_for(rl.reset_tokens_at, now)
    } else {
        0
    }
}

/// How long to wait until there is a request left.
pub open spec fn request_wait(rl: RateLimit, now: Timestamp) -> int {
    if rl.remaining_requests == 0 {
        wait_for(rl.reset_requests_at, now)
    } else {
        0
    }
}

/// How long to wait before a request of about `tokens` tokens: until the limit
/// that it would pass is lifted; where two limits are passed, the longer time.
pub open spec fn limit_wait(rl: Option<RateLimit>, tokens: int, now: Timestamp) -> int {
    match rl {
        Some(rl) => if request_wait(rl, now) > token_wait(rl, tokens, now) {
            request_wait(rl, now)
        } else {
            token_wait(rl, tokens, now)
        },
        None => 0,
    }
}

/// The times to wait fit their type.
pub open spec fn waits_fit(rl: Option<RateLimit>, tokens: int, now: Timestamp) -> bool {
    rl matches Some(rl) ==> token_wait(rl, tokens, now) <= u32::MAX && request_wait(rl, now)
        <= u32::MAX
}

fn until(t: Option<Timestamp>, now: Timestamp) -> (r: u32)
    requires
        wait_for(t, now) <= u32::MAX,
    ensures
        r == wait_for(t, now),
{
    match t {
        Some(t) => {
            if t.secs < now.secs || (t.secs == now.secs && t.nanos < now.nanos) {
                0
            } else {
                let d: i128 = t.secs as i128 - now.secs as i128;
                let whole: i128 = if t.nanos < now.nanos {
                    d - 1
                } else {
                    d
                };
                (whole % 0x1_0000_0000) as u32 + 1
            }
        },
        None => 0,
    }
}

/// The seconds to wait are over.
pub open spec fn limit_cleared() -> EffectView {
    outbox::says("Rate limit cleared — resuming..."@)
}

impl Engine {
    /// Checks, before a request of about `tokens` tokens, whether it would pass
    /// a limit. The result is how many seconds to wait first; what was known of
    /// the limits is then forgotten.
    pub fn check_rate_limit(&mut self, tokens: i64, now: Timestamp, out: &mut Outbox) -> (r: u32)
        requires
            waits_fit(old(self)@.rate_limit_state, tokens as int, now),
        ensures
            r == limit_wait(old(self)@.rate_limit_state, tokens as int, now),
            r == 0 ==> final(self)@ == old(self)@ && final(out)@ == old(out)@,
            r > 0 ==> final(self)@ == (EngineView { rate_limit_state: None, ..old(self)@ })
                && final(out)@ == old(out)@.push(
                EffectView::Send(UiUpdateView::RateLimited { secs: r }),
            ),
    {
        let wait: u32 = match self.rate_limit_state {
            Some(rl) => {
                let a: u32 = if rl.remaining_tokens >= 0 && tokens > rl.remaining_tokens {
                    until(rl.reset_tokens_at, now)
                } else {
                    0
                };
                let b: u32 = if rl.remaining_requests == 0 {
                    until(rl.reset_requests_at, now)
                } else {
                    0
                };
                if b > a {
                    b
                } else {
                    a
                }
            },
            None => 0,
        };
        if wait > 0 {
            self.rate_limit_state = None;
            out.send(UiUpdate::RateLimited { secs: wait });
        }
        wait
    }

    /// The wait is over.
    pub fn rate_limit_over(&self, out: &mut Outbox)
        ensures
            final(out)@ == old(out)@.push(limit_cleared()),
    {
        out.say("Rate limit cleared — resuming...");
    }

    /// Tells the user that the conversation was shortened, if it was.
    pub fn report_pruned(&self, compressed: usize, dropped: usize, out: &mut Outbox)
        ensures
            final(out)@ == engine::push_if(
                old(out)@,
                compressed > 0 || dropped > 0,
                outbox::says(
                    "Context managed: compressed "@ + number::decimal(compressed as nat)
                        + " messages, dropped "@ + number::decimal(dropped as nat)
                        + " oldest turns."@,
                ),
            ),
    {
        if compressed > 0 || dropped > 0 {
            let c = show(compressed);
            let d = show(dropped);
            out.sys(
                cat5(
                    "Context managed: compressed ",
                    c.as_str(),
                    " messages, dropped ",
                    d.as_str(),
                    " oldest turns.",
                ),
            );
        }
    }
}

// ── The stream ──────────────────────────────────────────────────────────────

/// A piece of an answer.
pub struct Chunk {
    pub content: String,
    pub done: bool,
    /// Above 0, how many seconds the provider asks to wait.
    pub retry_after: u32,
    pub error: Option<String>,
    pub rate_limit: Option<RateLimit>,
    pub tool_calls: Vec<ToolCall>,
}

/// The model of a piece of an answer.
#[verifier::ext_equal]
pub struct ChunkView {
    pub content: Seq<char>,
    pub done: bool,
    pub retry_after: u32,
    pub error: Option<Seq<char>>,
    pub rate_limit: Option<RateLimit>,
    pub tool_calls: Seq<ToolCallView>,
}

impl View for Chunk {
    type V = ChunkView;

    open spec fn view(&self) -> ChunkView {
        ChunkView {
            content: self.content@,
            done: self.done,
            retry_after: self.retry_after,
            error: split::opt_text(self.error),
            rate_limit: self.rate_limit,
            tool_calls: split::views(self.tool_calls@),
        }
    }
}

/// What follows a piece of an answer.
pub enum StreamStep {
    /// More is to come.
    More,
    /// The request is made again, after so many milliseconds.
    Again { wait_ms: u64 },
    /// The request is made again once the provider's limit is lifted.
    Limited { secs: u32 },
    /// The turn is given up.
    Fail,
    /// The answer is complete, with these calls.
    Complete(Vec<ToolCall>),
}

/// The model of what follows a piece of an answer.
#[verifier::ext_equal]
pub enum StreamStepView {
    More,
    Again { wait_ms: u64 },
    Limited { secs: u32 },
    Fail,
    Complete(Seq<ToolCallView>),
}

impl View for StreamStep {
    type V = StreamStepView;

    open spec fn view(&self) -> StreamStepView {
        match self {
            StreamStep::More => StreamStepView::More,
            StreamStep::Again { wait_ms } => StreamStepView::Again { wait_ms: *wait_ms },
            StreamStep::Limited { secs } => StreamStepView::Limited { secs: *secs },
            StreamStep::Fail => StreamStepView::Fail,
            StreamStep::Complete(c) => StreamStepView::Complete(split::views(c@)),
        }
    }
}

/// How often a broken stream is begun anew in a turn.
pub const MID_STREAM_RETRIES: usize = 2;

/// What follows a piece of an answer. A wait that the provider asks for goes
/// before an error, and an error before what the piece holds.
pub open spec fn after_chunk(e: EngineView, c: ChunkView) -> StreamStepView {
    if c.retry_after > 0 {
        if e.req_backup_provider.len() > 0 {
            StreamStepView::Again { wait_ms: 0 }
        } else {
            StreamStepView::Limited { secs: c.retry_after }
        }
    } else if let Some(err) = c.error {
        if net::is_transient(err) && e.mid_stream_retries < MID_STREAM_RETRIES {
            StreamStepView::Again { wait_ms: 600 }
        } else {
            StreamStepView::Fail
        }
    } else if c.done {
        StreamStepView::Complete(c.tool_calls)
    } else {
        StreamStepView::More
    }
}

/// The engine after a piece of an answer: on the backup where one was set for
/// a provider over its limit, with one more retry after a broken stream, and
/// with what the last piece says of the limits.
pub open spec fn engine_after_chunk(e: EngineView, c: ChunkView) -> EngineView {
    if c.retry_after > 0 {
        if e.req_backup_provider.len() > 0 {
            EngineView {
                req_provider: e.req_backup_provider,
                req_model: e.req_backup_model,
                req_backup_provider: Seq::empty(),
                req_backup_model: Seq::empty(),
                ..e
            }
        } else {
            e
        }
    } else if let Some(err) = c.error {
        if net::is_transient(err) && e.mid_stream_retries < MID_STREAM_RETRIES {
            EngineView { mid_stream_retries: (e.mid_stream_retries + 1) as usize, ..e }
        } else {
            e
        }
    } else if c.done && c.rate_limit is Some {
        EngineView { rate_limit_state: c.rate_limit, ..e }
    } else {
        e
    }
}

/// What the front end is told of a piece of an answer.
pub open spec fn told_of_chunk(
    s: Seq<EffectView>,
    e: EngineView,
    c: ChunkView,
) -> Seq<EffectView> {
    if c.retry_after > 0 {
        if e.req_backup_provider.len() > 0 {
            s.push(
                outbox::says(
                    "Rate limited — switching to backup: "@ + e.req_backup_provider + " / "@
                        + e.req_backup_model,
                ),
            )
        } else {
            s.push(EffectView::Send(UiUpdateView::RateLimited { secs: c.retry_after }))
        }
    } else if let Some(err) = c.error {
        if net::is_transient(err) && e.mid_stream_retries < MID_STREAM_RETRIES {
            s.push(
                outbox::says(
                    "Stream interrupted — retrying ("@ + number::decimal(
                        (e.mid_stream_retries + 1) as nat,
                    ) + "/2): "@ + err,
                ),
            )
        } else {
            s.push(outbox::warns(err))
        }
    } else {
        engine::push_if(
            s,
            c.content.len() > 0,
            EffectView::Send(UiUpdateView::StreamChunk(c.content)),
        )
    }
}

/// The answer so far, after one more piece.
pub open spec fn text_after_chunk(t: Seq<char>, c: ChunkView) -> Seq<char> {
    if c.retry_after == 0 && c.error is None {
        t + c.content
    } else {
        t
    }
}

impl Engine {
    /// Takes a piece of an answer, of which `so_far` had arrived.
    pub fn on_chunk(&mut self, c: Chunk, so_far: &mut String, out: &mut Outbox) -> (r: StreamStep)
        ensures
            r@ == after_chunk(old(self)@, c@),
            final(self)@ == engine_after_chunk(old(self)@, c@),
            final(out)@ == told_of_chunk(old(out)@, old(self)@, c@),
            final(so_far)@ == text_after_chunk(old(so_far)@, c@),
    {
        if c.retry_after > 0 {
            if !self.req_backup_provider.as_str().is_empty() {
                let p = self.req_backup_provider.as_str().to_string();
                let m = self.req_backup_model.as_str().to_string();
                out.sys(
                    cat4("Rate limited — switching to backup: ", p.as_str(), " / ", m.as_str()),
                );
                self.req_provider = p;
                self.req_model = m;
                self.req_backup_provider = empty();
                self.req_backup_model = empty();
                return StreamStep::Again { wait_ms: 0 };
            }
            out.send(UiUpdate::RateLimited { secs: c.retry_after });
            return StreamStep::Limited { secs: c.retry_after };
        }
        if let Some(e) = &c.error {
            if is_transient_network_error(e.as_str()) && self.mid_stream_retries
                < MID_STREAM_RETRIES {
                let n: usize = self.mid_stream_retries + 1;
                self.mid_stream_retries = n;
                let shown = show(n);
                out.sys(
                    cat4(
                        "Stream interrupted — retrying (",
                        shown.as_str(),
                        "/2): ",
                        e.as_str(),
                    ),
                );
                return StreamStep::Again { wait_ms: 600 };
            }
            out.err(e.as_str().to_string());
            return StreamStep::Fail;
        }
        if !c.content.as_str().is_empty() {
            so_far.append(c.content.as_str());
            out.send(UiUpdate::StreamChunk(c.content));
        } else {
            assert(so_far@ + c.content@ =~= so_far@);
        }
        if c.done {
            if c.rate_limit.is_some() {
                self.rate_limit_state = c.rate_limit;
            }
            StreamStep::Complete(c.tool_calls)
        } else {
            StreamStep::More
        }
    }
}

/// A broken stream is begun anew at most twice in a turn.
pub proof fn law_stream_retries(e: EngineView, c: ChunkView)
    requires
        e.mid_stream_retries <= MID_STREAM_RETRIES,
    ensures
        engine_after_chunk(e, c).mid_stream_retries <= MID_STREAM_RETRIES,
        c.retry_after == 0 && c.error is Some && after_chunk(e, c) is Again
            ==> engine_after_chunk(e, c).mid_stream_retries == e.mid_stream_retries + 1,
{
}

// ── Tool calls ──────────────────────────────────────────────────────────────

/// The step of the task list for a call.
pub open spec fn pending_step(c: ToolCallView, group: Option<usize>) -> TaskStepView {
    TaskStepView {
        tool: c.name,
        description: calls::short_desc(c.name, c.input),
        status: TaskStatus::Pending,
        parallel_group: group,
    }
}

/// The steps of the first `n` calls.
pub open spec fn pending_steps(cs: Seq<ToolCallView>, n: int) -> Seq<TaskStepView> {
    Seq::new(n as nat, |i: int| pending_step(cs[i], calls::group_of(cs, i)))
}

/// The front end is told of the first `n` calls.
pub open spec fn told_of_calls(cs: Seq<ToolCallView>, n: int) -> Seq<EffectView> {
    Seq::new(
        n as nat,
        |i: int|
            EffectView::Send(UiUpdateView::ToolCall { name: cs[i].name, input: cs[i].input }),
    )
}

/// The task list, as the front end is told of it.
pub open spec fn shown_tasks(s: Seq<TaskStepView>) -> EffectView {
    EffectView::Send(UiUpdateView::TaskUpdate(s))
}

/// An answer with calls, as part of the conversation.
pub open spec fn calling_message(t: Seq<char>, cs: Seq<ToolCallView>) -> MessageView {
    MessageView { tool_calls: cs, ..message::plain_message("assistant"@, text::trimmed(t)) }
}

/// The engine after it took the calls of an answer.
pub open spec fn calls_accepted(
    e: EngineView,
    answer: Seq<char>,
    cs: Seq<ToolCallView>,
) -> EngineView {
    EngineView {
        history: e.history.push(calling_message(answer, cs)),
        task_steps: e.task_steps + pending_steps(cs, cs.len() as int),
        ..e
    }
}

impl Engine {
    /// Takes the calls of a complete answer. The result says whether they may
    /// run: not where the turn has reached its limit of calls.
    pub fn accept_calls(&mut self, answer: &str, cs: &Vec<ToolCall>, out: &mut Outbox) -> (r: bool)
        ensures
            r == (old(self)@.tool_iterations < old(self)@.cfg.tool_call_limit),
            !r ==> final(self)@ == (EngineView { active_goal: Seq::empty(), ..old(self)@ })
                && final(out)@ == old(out)@.push(
                outbox::warns(
                    "Safety cap reached ("@ + number::decimal(
                        old(self)@.cfg.tool_call_limit as nat,
                    ) + " tool calls). Send a new message to continue."@,
                ),
            ),
            r ==> final(self)@ == calls_accepted(old(self)@, answer@, split::views(cs@)),
            r ==> final(out)@ == (old(out)@ + told_of_calls(
                split::views(cs@),
                cs@.len() as int,
            )).push(shown_tasks(final(self)@.task_steps)),
            r == may_call(old(self)@),
    {
        if self.tool_iterations >= self.cfg.tool_call_limit {
            let n = show(self.cfg.tool_call_limit);
            out.err(
                cat3(
                    "Safety cap reached (",
                    n.as_str(),
                    " tool calls). Send a new message to continue.",
                ),
            );
            self.active_goal = empty();
            return false;
        }
        let ghost all = split::views(cs@);
        let content = trim_str(answer);
        let mut m = Message::plain("assistant", content);
        m.tool_calls = dup_all(cs);
        self.history.push(m);
        let groups = parallel_group_ids(cs);
        let mut steps = dup_all(&self.task_steps);
        let ghost before = split::views(self.task_steps@);
        let ghost told = out@;
        let mut i: usize = 0;
        assert(before + pending_steps(all, 0) =~= before);
        assert(told + told_of_calls(all, 0) =~= told);
        while i < cs.len()
            invariant
                i <= cs@.len(),
                all == split::views(cs@),
                groups@ == calls::groups(all),
                split::views(steps@) == before + pending_steps(all, i as int),
                out@ == told + told_of_calls(all, i as int),
            decreases cs@.len() - i,
        {
            let c = &cs[i];
            assert(all[i as int] == c@);
            out.send(
                UiUpdate::ToolCall {
                    name: c.name.as_str().to_string(),
                    input: c.input.as_str().to_string(),
                },
            );
            let description = tool_short_desc(c.name.as_str(), c.input.as_str());
            let g = groups[i];
            steps.push(
                TaskStep {
                    tool: c.name.as_str().to_string(),
                    description,
                    status: TaskStatus::Pending,
                    parallel_group: g,
                },
            );
            proof {
                assert(pending_steps(all, i + 1) =~= pending_steps(all, i as int).push(
                    pending_step(all[i as int], calls::group_of(all, i as int)),
                ));
                assert(split::views(steps@) =~= before + pending_steps(all, i + 1));
                assert(out@ =~= told + told_of_calls(all, i + 1));
            }
            i += 1;
        }
        self.task_steps = steps;
        let shown = dup_all(&self.task_steps);
        out.send(UiUpdate::TaskUpdate(shown));
        true
    }
}

/// What a tool call came to.
pub struct ToolOutcome {
    pub output: String,
    pub is_error: bool,
}

/// The model of what a tool call came to.
#[verifier::ext_equal]
pub struct ToolOutcomeView {
    pub output: Seq<char>,
    pub is_error: bool,
}

impl View for ToolOutcome {
    type V = ToolOutcomeView;

    open spec fn view(&self) -> ToolOutcomeView {
        ToolOutcomeView { output: self.output@, is_error: self.is_error }
    }
}

impl Dup for ToolOutcome {
    fn dup(&self) -> (r: ToolOutcome) {
        ToolOutcome { output: self.output.as_str().to_string(), is_error: self.is_error }
    }
}

/// The status of a step whose call has ended.
pub open spec fn ended(is_error: bool) -> TaskStatus {
    if is_error {
        TaskStatus::Failed
    } else {
        TaskStatus::Completed
    }
}

/// The step of the task list that belongs to call `i` of a batch of `n`.
pub open spec fn step_of(steps: nat, n: nat, i: int) -> int {
    (if steps >= n {
        steps - n
    } else {
        0
    }) + i
}

/// The task list after the call of a step has ended.
pub open spec fn steps_after(
    s: Seq<TaskStepView>,
    k: int,
    is_error: bool,
    group: Option<usize>,
) -> Seq<TaskStepView> {
    if k < s.len() {
        s.update(
            k,
            TaskStepView { status: ended(is_error), parallel_group: group, ..s[k] },
        )
    } else {
        s
    }
}

/// What the front end is told of a call's end: its result, a hint where it
/// failed and there is one, and why it was stopped where it was.
pub open spec fn told_of_result(
    s: Seq<EffectView>,
    c: ToolCallView,
    o: ToolOutcomeView,
    intercept: Option<Seq<char>>,
) -> Seq<EffectView> {
    let hint = calls::hint_for(c.name, o.output);
    let s = s.push(
        EffectView::Send(
            UiUpdateView::ToolResult { name: c.name, output: o.output, is_error: o.is_error },
        ),
    );
    let s = engine::push_if(s, o.is_error && hint.len() > 0, outbox::says("💡 "@ + hint));
    match intercept {
        Some(m) => s.push(outbox::says(m)),
        None => s,
    }
}

/// The result of a call as part of the conversation: its output, or the message
/// of the guard that stopped it.
pub open spec fn result_message(
    c: ToolCallView,
    o: ToolOutcomeView,
    intercept: Option<Seq<char>>,
) -> MessageView {
    match intercept {
        Some(m) => message::tool_message(c.id, m, true),
        None => message::tool_message(c.id, o.output, o.is_error),
    }
}

/// The engine after the result of call `i` of a batch of `n`.
pub open spec fn result_recorded(
    e: EngineView,
    n: nat,
    i: int,
    c: ToolCallView,
    o: ToolOutcomeView,
    group: Option<usize>,
    intercept: Option<Seq<char>>,
) -> EngineView {
    EngineView {
        task_steps: steps_after(
            e.task_steps,
            step_of(e.task_steps.len(), n, i),
            o.is_error,
            group,
        ),
        history: e.history.push(result_message(c, o, intercept)),
        ..e
    }
}

impl Engine {
    /// Takes the result of call `i` of a batch of `n`. `group` is shared by
    /// calls that did run at the same time; `intercept` is what the guard
    /// against endless loops says, if it steps in. The result says whether the
    /// index is to be brought up to date with the file that the call edited.
    pub fn record_result(
        &mut self,
        n: usize,
        i: usize,
        c: &ToolCall,
        o: &ToolOutcome,
        group: Option<usize>,
        intercept: &Option<String>,
        out: &mut Outbox,
    ) -> (r: bool)
        requires
            i < n,
        ensures
            r == (calls::edits_file(c@.name) && !o.is_error),
            final(out)@ == told_of_result(old(out)@, c@, o@, split::opt_text(*intercept)),
            final(self)@ == result_recorded(
                old(self)@,
                n as nat,
                i as int,
                c@,
                o@,
                group,
                split::opt_text(*intercept),
            ),
    {
        assert(split::views(self.task_steps@).len() == self.task_steps@.len());
        out.send(
            UiUpdate::ToolResult {
                name: c.name.as_str().to_string(),
                output: o.output.as_str().to_string(),
                is_error: o.is_error,
            },
        );
        if o.is_error {
            let hint = error_hint(c.name.as_str(), o.output.as_str());
            if !hint.as_str().is_empty() {
                out.sys(cat2("💡 ", hint.as_str()));
            }
        }
        let ghost before = split::views(self.task_steps@);
        let mut steps = dup_all(&self.task_steps);
        assert(split::views(steps@).len() == steps@.len());
        let len = steps.len();
        let start: usize = len.saturating_sub(n);
        if i < len - start {
            let k: usize = start + i;
            let old_step = steps[k].dup();
            assert(before[k as int] == old_step@);
            let status = if o.is_error {
                TaskStatus::Failed
            } else {
                TaskStatus::Completed
            };
            steps.set(
                k,
                TaskStep {
                    tool: old_step.tool,
                    description: old_step.description,
                    status,
                    parallel_group: group,
                },
            );
            assert(split::views(steps@) =~= steps_after(before, k as int, o.is_error, group));
        }
        self.task_steps = steps;
        let m = match intercept {
            Some(s) => {
                out.say(s.as_str());
                Message::tool(c.id.as_str(), s.as_str().to_string(), true)
            },
            None => Message::tool(c.id.as_str(), o.output.as_str().to_string(), o.is_error),
        };
        self.history.push(m);
        is_file_edit(c.name.as_str()) && !o.is_error
    }
}

/// What the calls of a batch came to: the outcome, group and interception of
/// each.
pub struct BatchView {
    pub outcomes: Seq<ToolOutcomeView>,
    pub groups: Seq<Option<usize>>,
    pub intercepts: Seq<Option<Seq<char>>>,
}

/// The engine after the results of the first `k` calls of a batch, one by one.
pub open spec fn results_recorded(
    e: EngineView,
    cs: Seq<ToolCallView>,
    b: BatchView,
    k: int,
) -> EngineView
    decreases k,
{
    if k <= 0 {
        e
    } else {
        result_recorded(
            results_recorded(e, cs, b, k - 1),
            cs.len(),
            k - 1,
            cs[k - 1],
            b.outcomes[k - 1],
            b.groups[k - 1],
            b.intercepts[k - 1],
        )
    }
}

/// The results of the first `k` calls as part of the conversation.
pub open spec fn result_messages(cs: Seq<ToolCallView>, b: BatchView, k: int) -> Seq<MessageView> {
    Seq::new(k as nat, |i: int| result_message(cs[i], b.outcomes[i], b.intercepts[i]))
}

/// The steps of a batch of which the first `k` calls have ended.
pub open spec fn ended_steps(cs: Seq<ToolCallView>, b: BatchView, k: int) -> Seq<TaskStepView> {
    Seq::new(
        cs.len(),
        |i: int|
            if i < k {
                TaskStepView {
                    status: ended(b.outcomes[i].is_error),
                    parallel_group: b.groups[i],
                    ..pending_step(cs[i], calls::group_of(cs, i))
                }
            } else {
                pending_step(cs[i], calls::group_of(cs, i))
            },
    )
}

proof fn lemma_batch(
    e: EngineView,
    answer: Seq<char>,
    cs: Seq<ToolCallView>,
    b: BatchView,
    k: int,
)
    requires
        0 <= k <= cs.len(),
    ensures
        ({
            let r = results_recorded(calls_accepted(e, answer, cs), cs, b, k);
            &&& r.history == e.history.push(calling_message(answer, cs)) + result_messages(
                cs,
                b,
                k,
            )
            &&& r.task_steps == e.task_steps + ended_steps(cs, b, k)
        }),
    decreases k,
{
    let start = calls_accepted(e, answer, cs);
    let r = results_recorded(start, cs, b, k);
    if k == 0 {
        assert(r.history =~= e.history.push(calling_message(answer, cs)) + result_messages(
            cs,
            b,
            0,
        ));
        assert(r.task_steps =~= e.task_steps + ended_steps(cs, b, 0));
    } else {
        lemma_batch(e, answer, cs, b, k - 1);
        let p = results_recorded(start, cs, b, k - 1);
        assert(r.history =~= e.history.push(calling_message(answer, cs)) + result_messages(
            cs,
            b,
            k,
        ));
        let at = step_of(p.task_steps.len(), cs.len(), k - 1);
        assert(at == e.task_steps.len() + k - 1);
        assert(p.task_steps[at] == ended_steps(cs, b, k - 1)[k - 1]);
        assert(r.task_steps =~= e.task_steps + ended_steps(cs, b, k));
    }
}

/// After the calls of an answer were taken and the result of each was recorded,
/// the conversation goes on with the answer and then one message for each call,
/// in their order; and of the task list each new step is that of one call, with
/// what it came to and the group that it ran in.
pub proof fn law_each_call_is_answered(
    e: EngineView,
    answer: Seq<char>,
    cs: Seq<ToolCallView>,
    b: BatchView,
)
    ensures
        ({
            let n = cs.len() as int;
            let r = results_recorded(calls_accepted(e, answer, cs), cs, b, n);
            &&& r.history == e.history.push(calling_message(answer, cs)) + result_messages(
                cs,
                b,
                n,
            )
            &&& r.task_steps == e.task_steps + ended_steps(cs, b, n)
            &&& forall|i: int|
                0 <= i < n ==> (#[trigger] result_messages(cs, b, n)[i]).tool_call_id == cs[i].id
        }),
{
    lemma_batch(e, answer, cs, b, cs.len() as int);
}

// ── The end of a batch ──────────────────────────────────────────────────────

/// Whether one of the calls failed.
pub open spec fn any_failed(os: Seq<ToolOutcomeView>) -> bool {
    exists|k: int| 0 <= k < os.len() && (#[trigger] os[k]).is_error
}

/// Whether one of the calls edited a file.
pub open spec fn any_edit(cs: Seq<ToolCallView>, os: Seq<ToolOutcomeView>) -> bool {
    exists|k: int|
        0 <= k < cs.len() && k < os.len() && calls::edits_file((#[trigger] cs[k]).name)
            && !os[k].is_error
}

/// The plan, with the next step resolved.
pub open spec fn plan_advanced(e: EngineView, failed: bool) -> EngineView {
    if e.plan_cursor < e.plan_steps.len() {
        EngineView {
            plan_steps: e.plan_steps.update(
                e.plan_cursor as int,
                TaskStepView { status: ended(failed), ..e.plan_steps[e.plan_cursor as int] },
            ),
            plan_cursor: (e.plan_cursor + 1) as usize,
            ..e
        }
    } else {
        e
    }
}

/// The plan, as the front end is told of it.
pub open spec fn shown_plan(s: Seq<TaskStepView>) -> EffectView {
    EffectView::Send(UiUpdateView::PlanUpdate(s))
}

fn has_failed(os: &Vec<ToolOutcome>) -> (r: bool)
    ensures
        r == any_failed(split::views(os@)),
{
    let ghost all = split::views(os@);
    let mut i: usize = 0;
    while i < os.len()
        invariant
            i <= os@.len(),
            all == split::views(os@),
            forall|k: int| 0 <= k < i ==> !(#[trigger] all[k]).is_error,
        decreases os@.len() - i,
    {
        assert(all[i as int] == os@[i as int]@);
        if os[i].is_error {
            assert(all[i as int].is_error);
            return true;
        }
        i += 1;
    }
    false
}

fn has_edit(cs: &Vec<ToolCall>, os: &Vec<ToolOutcome>) -> (r: bool)
    ensures
        r == any_edit(split::views(cs@), split::views(os@)),
{
    let ghost all = split::views(cs@);
    let ghost res = split::views(os@);
    let mut i: usize = 0;
    while i < cs.len() && i < os.len()
        invariant
            i <= cs@.len(),
            i <= os@.len(),
            all == split::views(cs@),
            res == split::views(os@),
            forall|k: int|
                0 <= k < i ==> !(calls::edits_file((#[trigger] all[k]).name) && !res[k].is_error),
        decreases cs@.len() - i,
    {
        assert(all[i as int] == cs@[i as int]@);
        assert(res[i as int] == os@[i as int]@);
        if is_file_edit(cs[i].name.as_str()) && !os[i].is_error {
            assert(calls::edits_file(all[i as int].name));
            return true;
        }
        i += 1;
    }
    false
}

impl Engine {
    /// Resolves the next step of the plan.
    fn advance_plan(&mut self, failed: bool, out: &mut Outbox)
        ensures
            final(self)@ == plan_advanced(old(self)@, failed),
            final(out)@ == engine::push_if(
                old(out)@,
                old(self)@.plan_cursor < old(self)@.plan_steps.len(),
                shown_plan(final(self)@.plan_steps),
            ),
    {
        assert(split::views(self.plan_steps@).len() == self.plan_steps@.len());
        if self.plan_cursor < self.plan_steps.len() {
            let ghost before = split::views(self.plan_steps@);
            let k = self.plan_cursor;
            let mut steps = dup_all(&self.plan_steps);
            assert(split::views(steps@).len() == steps@.len());
            let s = steps[k].dup();
            assert(before[k as int] == s@);
            let status = if failed {
                TaskStatus::Failed
            } else {
                TaskStatus::Completed
            };
            steps.set(
                k,
                TaskStep {
                    tool: s.tool,
                    description: s.description,
                    status,
                    parallel_group: s.parallel_group,
                },
            );
            assert(split::views(steps@) =~= before.update(
                k as int,
                TaskStepView { status: ended(failed), ..before[k as int] },
            ));
            self.plan_steps = steps;
            self.plan_cursor = k + 1;
            let shown = dup_all(&self.plan_steps);
            out.send(UiUpdate::PlanUpdate(shown));
        }
    }

    /// Shows the task list after a batch and resolves a step of the plan: a
    /// batch stands for a step, which failed if one of its calls did. The
    /// result says whether a file was edited, so that the edit is verified.
    pub fn settle_batch(&mut self, cs: &Vec<ToolCall>, os: &Vec<ToolOutcome>, out: &mut Outbox) -> (r:
        bool)
        ensures
            r == any_edit(split::views(cs@), split::views(os@)),
            final(self)@ == plan_advanced(old(self)@, any_failed(split::views(os@))),
            final(out)@ == engine::push_if(
                old(out)@.push(shown_tasks(old(self)@.task_steps)),
                old(self)@.plan_cursor < old(self)@.plan_steps.len(),
                shown_plan(final(self)@.plan_steps),
            ),
    {
        let shown = dup_all(&self.task_steps);
        out.send(UiUpdate::TaskUpdate(shown));
        let failed = has_failed(os);
        self.advance_plan(failed, out);
        has_edit(cs, os)
    }
}

/// Every step from `k` on is done.
pub open spec fn completed_from(s: Seq<TaskStepView>, k: int) -> Seq<TaskStepView> {
    Seq::new(
        s.len(),
        |i: int|
            if i >= k {
                TaskStepView { status: TaskStatus::Completed, ..s[i] }
            } else {
                s[i]
            },
    )
}

/// The engine at the end of a turn.
pub open spec fn turn_ended(e: EngineView) -> EngineView {
    EngineView {
        tool_iterations: 0,
        stall_nudges: 0,
        active_goal: Seq::empty(),
        plan_steps: if e.plan_cursor < e.plan_steps.len() {
            completed_from(e.plan_steps, e.plan_cursor as int)
        } else {
            e.plan_steps
        },
        plan_cursor: if e.plan_cursor < e.plan_steps.len() {
            e.plan_steps.len() as usize
        } else {
            e.plan_cursor
        },
        ..e
    }
}

/// What is done at the end of a turn: the conversation is saved, what is left
/// of the plan is shown as done, and the front end learns how many batches the
/// turn had.
pub open spec fn turn_end(s: Seq<EffectView>, e: EngineView) -> Seq<EffectView> {
    engine::push_if(
        s.push(EffectView::SaveSession),
        e.plan_cursor < e.plan_steps.len(),
        shown_plan(turn_ended(e).plan_steps),
    ).push(EffectView::Send(UiUpdateView::GoalComplete { tool_count: e.tool_iterations }))
}

fn complete_from(s: &Vec<TaskStep>, k: usize) -> (r: Vec<TaskStep>)
    ensures
        split::views(r@) == completed_from(split::views(s@), k as int),
{
    let ghost all = split::views(s@);
    let ghost want = completed_from(all, k as int);
    let mut out: Vec<TaskStep> = Vec::new();
    let mut i: usize = 0;
    while i < s.len()
        invariant
            i <= s@.len(),
            all == split::views(s@),
            want == completed_from(all, k as int),
            split::views(out@) =~= want.take(i as int),
        decreases s@.len() - i,
    {
        let mut step = s[i].dup();
        assert(all[i as int] == s@[i as int]@);
        if i >= k {
            step.status = TaskStatus::Completed;
        }
        assert(want[i as int] == step@);
        out.push(step);
        i += 1;
    }
    out
}

/// The first `mark_complete` call.
pub open spec fn completion_at(cs: Seq<ToolCallView>) -> int
    decreases cs.len(),
{
    if cs.len() == 0 {
        0
    } else if cs[0].name == "mark_complete"@ {
        0
    } else {
        1 + completion_at(cs.drop_first())
    }
}

/// `completion_at` lies within the calls or just behind them.
pub proof fn lemma_completion_at(cs: Seq<ToolCallView>)
    ensures
        0 <= completion_at(cs) <= cs.len(),
        completion_at(cs) < cs.len() ==> cs[completion_at(cs)].name == "mark_complete"@,
        forall|k: int| 0 <= k < completion_at(cs) ==> (#[trigger] cs[k]).name != "mark_complete"@,
    decreases cs.len(),
{
    if cs.len() > 0 && cs[0].name != "mark_complete"@ {
        lemma_completion_at(cs.drop_first());
        let p = completion_at(cs.drop_first());
        if p < cs.drop_first().len() {
            assert(cs.drop_first()[p] == cs[p + 1]);
        }
        assert forall|k: int| 0 <= k < p + 1 implies (#[trigger] cs[k]).name
            != "mark_complete"@ by {
            if k > 0 {
                assert(cs.drop_first()[k - 1] == cs[k]);
            }
        }
    }
}

fn find_completion(cs: &Vec<ToolCall>) -> (r: usize)
    ensures
        r == completion_at(split::views(cs@)),
        r <= cs@.len(),
{
    let ghost all = split::views(cs@);
    let mut i: usize = 0;
    assert(all.skip(0) =~= all);
    while i < cs.len()
        invariant
            i <= cs@.len(),
            all == split::views(cs@),
            completion_at(all) == i + completion_at(all.skip(i as int)),
        decreases cs@.len() - i,
    {
        assert(all[i as int] == cs@[i as int]@);
        assert(all.skip(i as int).drop_first() =~= all.skip(i + 1));
        if same(cs[i].name.as_str(), "mark_complete") {
            return i;
        }
        i += 1;
    }
    i
}

/// The engine with one batch more.
pub open spec fn one_batch_more(e: EngineView) -> EngineView {
    EngineView { tool_iterations: (e.tool_iterations + 1) as usize, ..e }
}

/// What is done where a batch holds the call that ends the turn: its summary is
/// shown, after five batches or more a notification, and the turn ends.
pub open spec fn batch_end(
    s: Seq<EffectView>,
    e: EngineView,
    cs: Seq<ToolCallView>,
) -> Seq<EffectView> {
    let summary = calls::arg_or_empty(cs[completion_at(cs)].input, "summary"@);
    let s = engine::push_if(
        s,
        summary.len() > 0,
        EffectView::Send(UiUpdateView::Summary(summary)),
    );
    let s = engine::push_if(
        s,
        e.tool_iterations >= 5,
        EffectView::Notify {
            title: "Marlin task complete"@,
            body: number::first_chars(e.active_goal, 120),
        },
    );
    turn_end(s, e)
}

impl Engine {
    /// Ends the turn.
    pub fn finish_turn(&mut self, out: &mut Outbox)
        ensures
            final(self)@ == turn_ended(old(self)@),
            final(out)@ == turn_end(old(out)@, old(self)@),
    {
        assert(split::views(self.plan_steps@).len() == self.plan_steps@.len());
        let count = self.tool_iterations;
        self.tool_iterations = 0;
        self.stall_nudges = 0;
        self.active_goal = empty();
        out.add(Effect::SaveSession);
        if self.plan_cursor < self.plan_steps.len() {
            let steps = complete_from(&self.plan_steps, self.plan_cursor);
            self.plan_cursor = self.plan_steps.len();
            self.plan_steps = steps;
            let shown = dup_all(&self.plan_steps);
            out.send(UiUpdate::PlanUpdate(shown));
        }
        out.send(UiUpdate::GoalComplete { tool_count: count });
    }

    /// Closes a batch: it counts, and the turn ends if one of its calls says
    /// that the task is complete. The result says whether it did.
    pub fn close_batch(&mut self, cs: &Vec<ToolCall>, out: &mut Outbox) -> (r: bool)
        requires
            old(self)@.tool_iterations < usize::MAX,
        ensures
            r == (completion_at(split::views(cs@)) < cs@.len()),
            !r ==> final(self)@ == one_batch_more(old(self)@) && final(out)@ == old(out)@,
            r ==> final(self)@ == turn_ended(one_batch_more(old(self)@)) && final(out)@
                == batch_end(old(out)@, one_batch_more(old(self)@), split::views(cs@)),
    {
        self.tool_iterations = self.tool_iterations + 1;
        let k = find_completion(cs);
        if k < cs.len() {
            let summary = calls::extract_summary_field(cs[k].input.as_str());
            assert(split::views(cs@)[k as int] == cs@[k as int]@);
            if !summary.as_str().is_empty() {
                out.send(UiUpdate::Summary(summary));
            }
            if self.tool_iterations >= 5 {
                let body = take_chars(self.active_goal.as_str(), 120);
                out.add(Effect::Notify { title: "Marlin task complete".to_string(), body });
            }
            self.finish_turn(out);
            true
        } else {
            false
        }
    }
}

// ── An answer without calls ─────────────────────────────────────────────────

/// How often the model is told to act on what it announced.
pub const MAX_STALL_NUDGES: usize = 2;

/// What the model is told where it announced an action and took none.
pub const NUDGE: &'static str = "You said you would do that but made no tool call. Either make the tool call now to actually do it, or say plainly that you're done or blocked.";

/// Whether an answer without calls is met with a nudge.
pub open spec fn is_nudged(e: EngineView, t: Seq<char>) -> bool {
    &&& text::trimmed(t).len() > 0
    &&& stall::is_stall(text::trimmed(t))
    &&& e.stall_nudges < MAX_STALL_NUDGES
}

/// The conversation with an answer, if it holds a text.
pub open spec fn with_answer(e: EngineView, t: Seq<char>) -> EngineView {
    if text::trimmed(t).len() > 0 {
        EngineView {
            history: e.history.push(message::plain_message("assistant"@, text::trimmed(t))),
            ..e
        }
    } else {
        e
    }
}

/// The conversation with an announcement and the nudge that answers it.
pub open spec fn nudged(e: EngineView, t: Seq<char>) -> EngineView {
    EngineView {
        stall_nudges: (e.stall_nudges + 1) as usize,
        history: e.history.push(
            message::plain_message("assistant"@, text::trimmed(t)),
        ).push(message::user_message(NUDGE@)),
        ..e
    }
}

impl Engine {
    /// Takes a complete answer without calls. The turn ends, unless the answer
    /// announces an action: then the model is told to take it, and the turn
    /// goes on. The result says whether it does.
    pub fn on_answer(&mut self, answer: &str, out: &mut Outbox) -> (r: bool)
        ensures
            r == is_nudged(old(self)@, answer@),
            r ==> final(self)@ == nudged(old(self)@, answer@) && final(out)@ == old(out)@,
            !r ==> final(self)@ == turn_ended(with_answer(old(self)@, answer@)),
            !r ==> final(out)@ == turn_end(
                engine::push_if(
                    old(out)@,
                    text::trimmed(answer@).len() == 0 && old(self)@.tool_iterations == 0,
                    outbox::warns(
                        "Model returned an empty response. Try rephrasing or check your API key/quota."@,
                    ),
                ),
                with_answer(old(self)@, answer@),
            ),
    {
        let t = trim_str(answer);
        let some = !t.as_str().is_empty();
        if some && looks_like_unfinished_stall(t.as_str()) && self.stall_nudges
            < MAX_STALL_NUDGES {
            self.stall_nudges = self.stall_nudges + 1;
            self.history.push(Message::plain("assistant", t));
            self.history.push(Message::new_user(NUDGE.to_string()));
            return true;
        }
        if some {
            self.history.push(Message::plain("assistant", t));
        } else if self.tool_iterations == 0 {
            out.warn(
                "Model returned an empty response. Try rephrasing or check your API key/quota.",
            );
        }
        self.finish_turn(out);
        false
    }
}

// ── Laws of a turn ──────────────────────────────────────────────────────────

/// The place in the plan never lies behind its end: no step of a turn moves it
/// there.
pub proof fn law_plan_cursor(e: EngineView, t: Seq<char>, failed: bool)
    requires
        e.plan_cursor <= e.plan_steps.len(),
        e.plan_steps.len() <= usize::MAX,
    ensures
        begun(e, t).plan_cursor <= begun(e, t).plan_steps.len(),
        stopped(e).plan_cursor <= stopped(e).plan_steps.len(),
        plan_advanced(e, failed).plan_cursor <= plan_advanced(e, failed).plan_steps.len(),
        turn_ended(e).plan_cursor <= turn_ended(e).plan_steps.len(),
{
}

/// A turn that has ended leaves no step of the plan pending behind its place:
/// the steps that were resolved keep their outcome, the others are done.
pub proof fn law_plan_is_done(e: EngineView, k: int)
    requires
        e.plan_cursor <= e.plan_steps.len(),
        0 <= k < e.plan_steps.len(),
    ensures
        turn_ended(e).plan_steps.len() == e.plan_steps.len(),
        k >= e.plan_cursor ==> turn_ended(e).plan_steps[k].status == TaskStatus::Completed,
        k < e.plan_cursor ==> turn_ended(e).plan_steps[k] == e.plan_steps[k],
{
}

/// In one turn the model is nudged at most twice: a nudge raises the count,
/// which starts at nothing, and at two there is none.
pub proof fn law_nudges(e: EngineView, t: Seq<char>)
    ensures
        begun(e, t).stall_nudges == 0,
        is_nudged(e, t) ==> nudged(e, t).stall_nudges == e.stall_nudges + 1,
        e.stall_nudges >= 2 ==> !is_nudged(e, t),
{
}

/// What is attached goes into exactly one message: after a turn has begun
/// nothing is attached, and the last message of the conversation holds the
/// user's text behind the attached files.
pub proof fn law_attachments_are_taken(e: EngineView, t: Seq<char>)
    ensures
        begun(e, t).attachments.len() == 0,
        begun(e, t).image_attachments.len() == 0,
        begun(e, t).history.last().content == prompt::content_of(e.attachments, t),
        begun(e, t).history.last().images == prompt::images_of(e.image_attachments),
        begun(e, t).history.drop_last() == e.history,
{
    assert(begun(e, t).history.drop_last() =~= e.history);
}

/// A request waits for the tokens exactly if it has more than are left, and never
/// longer for having fewer: with a known limit, requests left and a time ahead at
/// which the limit is lifted.
pub proof fn law_waits_for_tokens(rl: RateLimit, few: int, many: int, now: Timestamp)
    requires
        rl.remaining_tokens >= 0,
        rl.remaining_requests != 0,
        rl.reset_tokens_at matches Some(t) && (t.secs > now.secs || (t.secs == now.secs && t.nanos
            >= now.nanos)),
        few <= many,
    ensures
        limit_wait(Some(rl), many, now) > 0 <==> many > rl.remaining_tokens,
        limit_wait(Some(rl), few, now) <= limit_wait(Some(rl), many, now),
{
}

/// A request waits where no request is left, whatever its size, until there is one
/// again; and where two limits are passed, for the one that is lifted later.
pub proof fn law_waits_for_requests(rl: RateLimit, tokens: int, now: Timestamp)
    ensures
        ({
            let w = limit_wait(Some(rl), tokens, now);
            let no_requests = RateLimit { remaining_tokens: -1 as i64, ..rl };
            let no_tokens = RateLimit { remaining_requests: -1 as i64, ..rl };
            &&& w >= limit_wait(Some(no_requests), tokens, now)
            &&& w >= limit_wait(Some(no_tokens), tokens, now)
            &&& w == limit_wait(Some(no_requests), tokens, now) || w == limit_wait(
                Some(no_tokens),
                tokens,
                now,
            )
            &&& rl.remaining_requests == 0 && (rl.reset_requests_at matches Some(t) && t.secs
                > now.secs) ==> w > 0
            &&& rl.remaining_requests != 0 && rl.remaining_tokens < 0 ==> w == 0
        }),
        limit_wait(None, tokens, now) == 0,
{
}

/// The wait covers the time until the limit is lifted, by at most a second more,
/// where that is less than the type of a wait holds.
pub proof fn law_wait_is_long_enough(t: Timestamp, now: Timestamp)
    requires
        now.secs <= t.secs < now.secs + 0x1_0000_0000,
        now.nanos < 1_000_000_000,
        t.nanos < 1_000_000_000,
        t.secs == now.secs ==> t.nanos >= now.nanos,
    ensures
        ({
            let left = (t.secs - now.secs) * 1_000_000_000 + (t.nanos - now.nanos);
            let w = wait_for(Some(t), now) * 1_000_000_000;
            left < w <= left + 1_000_000_000
        }),
{
}

/// A limit that was lifted already asks for no wait.
pub proof fn law_no_wait_for_the_past(t: Timestamp, now: Timestamp)
    requires
        t.secs < now.secs || (t.secs == now.secs && t.nanos < now.nanos),
    ensures
        wait_for(Some(t), now) == 0,
        wait_for(None, now) == 0,
{
}

/// A provider over its limit hands the request to the backup, once: the backup
/// takes it, and the next time there is none.
pub proof fn law_backup_is_used_once(e: EngineView, c: ChunkView)
    requires
        c.retry_after > 0,
    ensures
        ({
            let r = engine_after_chunk(e, c);
            &&& e.req_backup_provider.len() > 0 ==> r.req_provider == e.req_backup_provider
                && r.req_model == e.req_backup_model && r.req_backup_provider.len() == 0
                && after_chunk(e, c) == (StreamStepView::Again { wait_ms: 0 })
            &&& e.req_backup_provider.len() == 0 ==> r == e && after_chunk(e, c) == (
            StreamStepView::Limited { secs: c.retry_after })
            &&& after_chunk(r, c) == (StreamStepView::Limited { secs: c.retry_after })
        }),
{
}

/// An answer is what its pieces hold, one after the other, and is complete with
/// the last of them; its calls are those of the last piece.
pub proof fn law_answer_is_its_pieces(e: EngineView, a: ChunkView, b: ChunkView, t: Seq<char>)
    requires
        a.retry_after == 0,
        a.error is None,
        b.retry_after == 0,
        b.error is None,
    ensures
        text_after_chunk(text_after_chunk(t, a), b) == t + (a.content + b.content),
        after_chunk(e, a) is More <==> !a.done,
        a.done ==> after_chunk(e, a) == StreamStepView::Complete(a.tool_calls),
        a.done && a.rate_limit is Some ==> engine_after_chunk(e, a).rate_limit_state
            == a.rate_limit,
        engine_after_chunk(e, a).history == e.history,
{
    assert(text_after_chunk(text_after_chunk(t, a), b) =~= t + (a.content + b.content));
}

/// An error that is not of the network ends the turn, and is shown.
pub proof fn law_errors_end_the_turn(e: EngineView, c: ChunkView, s: Seq<EffectView>)
    requires
        c.retry_after == 0,
        c.error matches Some(err) && !net::is_transient(err),
    ensures
        after_chunk(e, c) is Fail,
        engine_after_chunk(e, c) == e,
        told_of_chunk(s, e, c) == s.push(
            EffectView::Send(UiUpdateView::ErrorMsg(c.error.unwrap())),
        ),
{
}

/// A turn begins with the user's words as its goal, nothing done and nothing
/// planned; stopping it drops the goal and the plan and keeps the conversation.
pub proof fn law_begin_and_stop(e: EngineView, t: Seq<char>)
    ensures
        begun(e, t).active_goal == t,
        begun(e, t).tool_iterations == 0,
        begun(e, t).mid_stream_retries == 0,
        begun(e, t).task_steps.len() == 0,
        begun(e, t).plan_steps.len() == 0,
        !begun(e, t).cancelled,
        stopped(e).cancelled,
        stopped(e).active_goal.len() == 0,
        stopped(e).plan_steps.len() == 0,
        stopped(e).history == e.history,
        turn_ended(e).history == e.history,
        turn_ended(e).active_goal.len() == 0,
        turn_ended(e).tool_iterations == 0,
{
}

/// The user's word to stop stops, a note is passed on, and any other action is
/// dropped while a turn is under way.
pub proof fn law_interrupts(s: Seq<char>)
    ensures
        interrupt_of(ActionView::CancelStream) is Stop,
        interrupt_of(ActionView::Steer(s)) == InterruptView::Steer(s),
        interrupt_of(ActionView::SendMessage(s)) is Ignore,
        interrupt_of(ActionView::SlashCommand(s)) is Ignore,
        interrupt_of(ActionView::UserAnswer(s)) is Ignore,
        interrupt_of(ActionView::Approve) is Ignore,
        interrupt_of(ActionView::Deny) is Ignore,
{
}

/// The plan moves by one step a batch, which failed exactly if a call did, and no
/// other step changes.
pub proof fn law_plan_moves_by_one(e: EngineView, os: Seq<ToolOutcomeView>, k: int)
    requires
        e.plan_cursor < e.plan_steps.len() <= usize::MAX,
        0 <= k < e.plan_steps.len(),
    ensures
        ({
            let r = plan_advanced(e, any_failed(os));
            &&& r.plan_cursor == e.plan_cursor + 1
            &&& r.plan_steps.len() == e.plan_steps.len()
            &&& r.plan_steps[e.plan_cursor as int].status == TaskStatus::Failed <==> (exists|i: int|
                0 <= i < os.len() && (#[trigger] os[i]).is_error)
            &&& r.plan_steps[e.plan_cursor as int].status == TaskStatus::Failed
                || r.plan_steps[e.plan_cursor as int].status == TaskStatus::Completed
            &&& k != e.plan_cursor ==> r.plan_steps[k] == e.plan_steps[k]
        }),
{
}

/// A batch is verified exactly if a call that writes a file succeeded in it.
pub proof fn law_edits_are_verified(cs: Seq<ToolCallView>, os: Seq<ToolOutcomeView>)
    requires
        cs.len() == os.len(),
    ensures
        any_edit(cs, os) <==> exists|i: int|
            0 <= i < cs.len() && !(#[trigger] os[i]).is_error && (cs[i].name == "write_file"@
                || cs[i].name == "edit_file"@ || cs[i].name == "notebook_edit"@ || cs[i].name
                == "multi_edit"@),
{
    if any_edit(cs, os) {
        let k = choose|k: int|
            0 <= k < cs.len() && k < os.len() && calls::edits_file((#[trigger] cs[k]).name)
                && !os[k].is_error;
        assert(!os[k].is_error);
    }
    if exists|i: int|
        0 <= i < cs.len() && !(#[trigger] os[i]).is_error && (cs[i].name == "write_file"@
            || cs[i].name == "edit_file"@ || cs[i].name == "notebook_edit"@ || cs[i].name
            == "multi_edit"@) {
        let i = choose|i: int|
            0 <= i < cs.len() && !(#[trigger] os[i]).is_error && (cs[i].name == "write_file"@
                || cs[i].name == "edit_file"@ || cs[i].name == "notebook_edit"@ || cs[i].name
                == "multi_edit"@);
        assert(calls::edits_file(cs[i].name));
    }
}

/// An answer that announces an action in any of its sentences is met with a nudge,
/// as long as there were fewer than two; what is nudged stands in the conversation
/// with the nudge behind it. Any other answer ends the turn.
pub proof fn law_announcements_are_nudged(e: EngineView, a: Seq<char>, b: Seq<char>, c: Seq<char>)
    requires
        stall::is_sentence(text::trimmed(a + b + c), b),
        stall::announces(b),
        text::trimmed(a + b + c).len() > 0,
    ensures
        is_nudged(e, a + b + c) <==> e.stall_nudges < 2,
        nudged(e, a + b + c).history.len() == e.history.len() + 2,
        nudged(e, a + b + c).history.last().role == "user"@,
        nudged(e, a + b + c).history[e.history.len() as int].content == text::trimmed(a + b + c),
        nudged(e, a + b + c).active_goal == e.active_goal,
{
    let t = text::trimmed(a + b + c);
    stall::law_any_sentence_counts(t);
    assert(stall::is_sentence(t, b) && stall::announces(b));
}

// ── More laws of turns ──────────────────────────────────────────────────────

/// The wait for a limit is the longer of the two waits; without a known limit there
/// is none.
pub proof fn law_longer_wait(rl: RateLimit, tokens: int, now: Timestamp)
    ensures
        limit_wait(Some(rl), tokens, now) >= token_wait(rl, tokens, now),
        limit_wait(Some(rl), tokens, now) >= request_wait(rl, now),
        limit_wait(Some(rl), tokens, now) == token_wait(rl, tokens, now) || limit_wait(
            Some(rl),
            tokens,
            now,
        ) == request_wait(rl, now),
        limit_wait(None, tokens, now) == 0,
{
}

/// Accepted calls are kept in one message with the answer, and each gets a step that
/// is yet to be done, in their order, behind the steps there are.
pub proof fn law_calls_are_accepted(
    e: EngineView,
    answer: Seq<char>,
    cs: Seq<ToolCallView>,
    i: int,
)
    requires
        0 <= i < cs.len(),
    ensures
        ({
            let w = calls_accepted(e, answer, cs);
            let n = e.task_steps.len() as int;
            &&& w.history.drop_last() == e.history
            &&& w.history.last().role == "assistant"@
            &&& w.history.last().tool_calls == cs
            &&& w.history.last().content == text::trimmed(answer)
            &&& w.task_steps.len() == n + cs.len()
            &&& w.task_steps.take(n) == e.task_steps
            &&& w.task_steps[n + i].tool == cs[i].name
            &&& w.task_steps[n + i].status == TaskStatus::Pending
            &&& w.task_steps[n + i].description == calls::short_desc(cs[i].name, cs[i].input)
        }),
        told_of_calls(cs, cs.len() as int).len() == cs.len(),
        told_of_calls(cs, cs.len() as int)[i] == EffectView::Send(
            UiUpdateView::ToolCall { name: cs[i].name, input: cs[i].input },
        ),
{
    let w = calls_accepted(e, answer, cs);
    assert(w.history.drop_last() =~= e.history);
    assert(w.task_steps.take(e.task_steps.len() as int) =~= e.task_steps);
}

/// A result is recorded under the id of its call, and the step of the call, and no
/// other, is done or failed by it. What stopped the call stands in for its output,
/// as a failure.
pub proof fn law_result_is_recorded(
    e: EngineView,
    n: nat,
    i: int,
    c: ToolCallView,
    o: ToolOutcomeView,
    group: Option<usize>,
    stop: Seq<char>,
    j: int,
)
    requires
        0 <= i < n <= e.task_steps.len(),
        0 <= j < e.task_steps.len(),
        j != e.task_steps.len() - n + i,
    ensures
        ({
            let w = result_recorded(e, n, i, c, o, group, None);
            let k = e.task_steps.len() - n + i;
            &&& w.history.drop_last() == e.history
            &&& w.history.last().tool_call_id == c.id
            &&& w.history.last().tool_use_id == c.id
            &&& w.history.last().content == o.output
            &&& w.history.last().is_error == o.is_error
            &&& w.task_steps.len() == e.task_steps.len()
            &&& w.task_steps[k].status == (if o.is_error {
                TaskStatus::Failed
            } else {
                TaskStatus::Completed
            })
            &&& w.task_steps[k].tool == e.task_steps[k].tool
            &&& w.task_steps[j] == e.task_steps[j]
        }),
        ({
            let m = result_message(c, o, Some(stop));
            m.content == stop && m.is_error && m.tool_call_id == c.id
        }),
{
    let w = result_recorded(e, n, i, c, o, group, None);
    assert(w.history.drop_last() =~= e.history);
}

/// A result is told first with its output; a hint follows only a failure, and what
/// stopped the call comes last.
pub proof fn law_result_is_told(
    s: Seq<EffectView>,
    c: ToolCallView,
    o: ToolOutcomeView,
    stop: Seq<char>,
)
    ensures
        s.is_prefix_of(told_of_result(s, c, o, None)),
        told_of_result(s, c, o, None)[s.len() as int] == EffectView::Send(
            UiUpdateView::ToolResult { name: c.name, output: o.output, is_error: o.is_error },
        ),
        !o.is_error ==> told_of_result(s, c, o, None).len() == s.len() + 1,
        o.is_error && calls::hint_for(c.name, o.output).len() > 0 ==> told_of_result(
            s,
            c,
            o,
            None,
        ).last() == outbox::says("💡 "@ + calls::hint_for(c.name, o.output)),
        told_of_result(s, c, o, Some(stop)) == told_of_result(s, c, o, None).push(
            outbox::says(stop),
        ),
{
    let t = told_of_result(s, c, o, None);
    assert(t.subrange(0, s.len() as int) =~= s);
}

/// At the end of a turn every step of the plan that was still open is done, those
/// before stay as they came out, and the goal is closed.
pub proof fn law_turn_end(e: EngineView, s: Seq<EffectView>, i: int)
    requires
        0 <= i < e.plan_steps.len(),
    ensures
        ({
            let w = turn_ended(e);
            &&& w.active_goal.len() == 0
            &&& w.tool_iterations == 0
            &&& w.stall_nudges == 0
            &&& w.history == e.history
            &&& w.plan_steps.len() == e.plan_steps.len()
            &&& i >= e.plan_cursor ==> w.plan_steps[i].status == TaskStatus::Completed
            &&& i < e.plan_cursor ==> w.plan_steps[i] == e.plan_steps[i]
            &&& w.plan_steps[i].description == e.plan_steps[i].description
        }),
        turn_end(s, e)[s.len() as int] == EffectView::SaveSession,
        turn_end(s, e).last() == EffectView::Send(
            UiUpdateView::GoalComplete { tool_count: e.tool_iterations },
        ),
{
}

/// The goal is reached at the first call that says so.
pub proof fn law_completion_at(a: Seq<ToolCallView>, c: ToolCallView, b: Seq<ToolCallView>)
    requires
        c.name == "mark_complete"@,
        forall|k: int| 0 <= k < a.len() ==> (#[trigger] a[k]).name != "mark_complete"@,
    ensures
        completion_at(a.push(c) + b) == a.len(),
        completion_at(a) == a.len(),
    decreases a.len(),
{
    let all = a.push(c) + b;
    if a.len() == 0 {
        assert(all[0] == c);
    } else {
        assert(all[0] == a[0]);
        assert(a[0].name != "mark_complete"@);
        let r = a.drop_first();
        assert(all.drop_first() =~= r.push(c) + b);
        assert forall|k: int| 0 <= k < r.len() implies (#[trigger] r[k]).name
            != "mark_complete"@ by {
            assert(r[k] == a[k + 1]);
        }
        law_completion_at(r, c, b);
    }
}

/// A reached goal is told with the summary of the call, where it gives one; after
/// five batches or more the user is notified, with the goal.
pub proof fn law_completion_is_told(
    s: Seq<EffectView>,
    e: EngineView,
    a: Seq<ToolCallView>,
    c: ToolCallView,
    b: Seq<ToolCallView>,
    summary: Seq<char>,
)
    requires
        c.name == "mark_complete"@,
        forall|k: int| 0 <= k < a.len() ==> (#[trigger] a[k]).name != "mark_complete"@,
        crate::json::json_field(c.input, "summary"@) == Some(summary),
    ensures
        summary.len() > 0 ==> batch_end(s, e, a.push(c) + b)[s.len() as int] == EffectView::Send(
            UiUpdateView::Summary(summary),
        ),
        summary.len() == 0 && e.tool_iterations >= 5 ==> batch_end(
            s,
            e,
            a.push(c) + b,
        )[s.len() as int] is Notify,
        summary.len() > 0 && e.tool_iterations >= 5 ==> batch_end(
            s,
            e,
            a.push(c) + b,
        )[s.len() as int + 1] is Notify,
        summary.len() == 0 && e.tool_iterations < 5 ==> batch_end(s, e, a.push(c) + b) == turn_end(
            s,
            e,
        ),
{
    law_completion_at(a, c, b);
    let cs = a.push(c) + b;
    assert(cs[a.len() as int] == c);
    let s1 = engine::push_if(
        s,
        summary.len() > 0,
        EffectView::Send(UiUpdateView::Summary(summary)),
    );
    let note = EffectView::Notify {
        title: "Marlin task complete"@,
        body: number::first_chars(e.active_goal, 120),
    };
    let s2 = engine::push_if(s1, e.tool_iterations >= 5, note);
    assert(batch_end(s, e, cs) == turn_end(s2, e));
    assert(s2.is_prefix_of(turn_end(s2, e))) by {
        assert(turn_end(s2, e).subrange(0, s2.len() as int) =~= s2);
    }
    let w = batch_end(s, e, cs);
    assert forall|k: int| 0 <= k < s2.len() implies w[k] == s2[k] by {
        assert(w.subrange(0, s2.len() as int)[k] == s2[k]);
    }
}

/// An answer is kept without whitespace around it, and a blank one is not kept; a
/// nudge keeps it too, puts the reminder behind it and is counted.
pub proof fn law_answers_are_kept(e: EngineView, t: Seq<char>)
    requires
        e.stall_nudges < usize::MAX,
    ensures
        text::trimmed(t).len() == 0 ==> with_answer(e, t) == e,
        text::trimmed(t).len() > 0 ==> with_answer(e, t).history.drop_last() == e.history
            && with_answer(e, t).history.last().content == text::trimmed(t) && with_answer(
            e,
            t,
        ).history.last().role == "assistant"@,
        nudged(e, t).stall_nudges == e.stall_nudges + 1,
        nudged(e, t).history.len() == e.history.len() + 2,
        nudged(e, t).history[e.history.len() as int].content == text::trimmed(t),
        nudged(e, t).history.last().role == "user"@,
        nudged(e, t).history.take(e.history.len() as int) == e.history,
{
    assert(with_answer(e, t).history.drop_last() =~= e.history || text::trimmed(t).len() == 0);
    assert(nudged(e, t).history.take(e.history.len() as int) =~= e.history);
}

/// Each batch of calls counts once.
pub proof fn law_batches_are_counted(e: EngineView)
    requires
        e.tool_iterations < usize::MAX,
    ensures
        one_batch_more(e).tool_iterations == e.tool_iterations + 1,
        one_batch_more(e).history == e.history,
        one_batch_more(e).active_goal == e.active_goal,
{
}

/// Whether the turn may make another batch of calls.
pub open spec fn may_call(e: EngineView) -> bool {
    e.tool_iterations < e.cfg.tool_call_limit
}

/// A turn makes as many batches of calls as the limit says and not one more.
pub proof fn law_call_limit(e: EngineView)
    requires
        e.tool_iterations < usize::MAX,
    ensures
        may_call(e) <==> e.cfg.tool_call_limit - e.tool_iterations >= 1,
        e.tool_iterations == e.cfg.tool_call_limit ==> !may_call(e),
        e.tool_iterations + 1 == e.cfg.tool_call_limit ==> may_call(e) && !may_call(
            one_batch_more(e),
        ),
{
}

/// A new message opens a turn with nothing done for it yet: the goal is the message,
/// nothing is counted, and no step of an earlier turn is left.
pub proof fn law_new_turn(e: EngineView, t: Seq<char>)
    ensures
        begun(e, t).active_goal == t,
        begun(e, t).history.drop_last() == e.history,
        begun(e, t).history.last().role == "user"@,
        begun(e, t).tool_iterations == 0,
        begun(e, t).stall_nudges == 0,
        begun(e, t).mid_stream_retries == 0,
        begun(e, t).task_steps.len() == 0,
        begun(e, t).plan_steps.len() == 0,
        !begun(e, t).cancelled,
        begun(e, t).cfg == e.cfg,
        stopped(begun(e, t)).cancelled,
        stopped(begun(e, t)).active_goal.len() == 0,
        stopped(begun(e, t)).history == begun(e, t).history,
{
    assert(begun(e, t).history.drop_last() =~= e.history);
}

/// Each piece of an answer is shown as it comes; an error is told with its words, and
/// so is a limit, or the backup that stands in.
pub proof fn law_pieces_are_shown(s: Seq<EffectView>, e: EngineView, c: ChunkView, err: Seq<char>)
    ensures
        c.retry_after == 0 && c.error is None && c.content.len() > 0 ==> told_of_chunk(s, e, c)
            == s.push(EffectView::Send(UiUpdateView::StreamChunk(c.content))),
        c.retry_after == 0 && c.error is None && c.content.len() == 0 ==> told_of_chunk(s, e, c)
            == s,
        c.retry_after == 0 && c.error == Some(err) && after_chunk(e, c) is Fail ==> told_of_chunk(
            s,
            e,
            c,
        ) == s.push(outbox::warns(err)),
        c.retry_after > 0 && e.req_backup_provider.len() == 0 ==> told_of_chunk(s, e, c) == s.push(
            EffectView::Send(UiUpdateView::RateLimited { secs: c.retry_after }),
        ),
        c.retry_after > 0 && e.req_backup_provider.len() > 0 ==> told_of_chunk(s, e, c) == s.push(
            outbox::says(
                "Rate limited — switching to backup: "@ + e.req_backup_provider + " / "@
                    + e.req_backup_model,
            ),
        ),
{
}

/// A stream that breaks off is tried again twice, and an announcement without a call
/// is answered by a reminder twice, and not more often.
pub proof fn law_twice_and_not_more(e: EngineView, c: ChunkView, err: Seq<char>, t: Seq<char>)
    requires
        c.retry_after == 0,
        c.error == Some(err),
        net::is_transient(err),
        text::trimmed(t).len() > 0,
        stall::is_stall(text::trimmed(t)),
    ensures
        after_chunk(e, c) is Again <==> e.mid_stream_retries < 2,
        after_chunk(e, c) is Fail <==> e.mid_stream_retries >= 2,
        is_nudged(e, t) <==> e.stall_nudges < 2,
{
}

} // verus!
