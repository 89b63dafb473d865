//! The order of a turn: what comes after what between a message of the user and
//! the end of the model's work on it.

use crate::turn::{StreamStep, StreamStepView};
use crate::ui::{self, Action};
use vstd::prelude::*;

verus! {

/// A stage of a turn. Each is one piece of work that comes to an [`Outcome`].
#[derive(Clone, Copy, Debug, PartialEq, Eq, Structural)]
pub enum Stage {
    /// Was the turn cancelled?
    Start,
    /// Is there a cancellation among the actions that came in meanwhile?
    DrainBefore,
    /// A pause, where the provider is known to refuse the next request.
    Limit,
    /// Older messages are summarised, where the conversation is too long.
    Compact,
    /// Messages are cut or dropped, where it still is.
    Prune,
    /// The front end is told how much of the budget is used.
    Measure,
    /// Is there a cancellation among the actions that came in meanwhile?
    DrainAfter,
    /// Is there such a provider?
    Provider,
    /// Did the request go through?
    Open,
    /// The answer comes in.
    Receive,
    /// May the calls of the answer be made, or is their number used up?
    Accept,
    /// The user is asked about calls that need it.
    Approve,
    /// Was the turn cancelled?
    AfterApproval,
    /// The calls are made.
    Execute,
    /// Was the turn cancelled?
    AfterExecution,
    /// The results go into the conversation.
    Record,
    /// The plan moves on. Was a file edited?
    Settle,
    /// The edit is verified.
    Verify,
    /// Does one of the calls say that the task is complete?
    Close,
    /// The answer has no calls. Is the model to go on all the same?
    Answer,
    /// The turn is over.
    Stop,
}

/// What a stage came to.
#[derive(Clone, Copy, Debug, PartialEq, Eq, Structural)]
pub enum Outcome {
    /// The work is done, or the answer to the question is no.
    No,
    /// The answer to the question is yes.
    Yes,
    /// The stream broke off or is to be tried again.
    Again,
    /// The answer is complete and holds calls.
    Calls,
    /// The answer is complete and holds none.
    Text,
}

/// The stage that comes after one with the given outcome.
pub open spec fn after(s: Stage, o: Outcome) -> Stage {
    match s {
        Stage::Start => if o == Outcome::Yes { Stage::Stop } else { Stage::DrainBefore },
        Stage::DrainBefore => if o == Outcome::Yes { Stage::Stop } else { Stage::Limit },
        Stage::Limit => Stage::Compact,
        Stage::Compact => Stage::Prune,
        Stage::Prune => Stage::Measure,
        Stage::Measure => Stage::DrainAfter,
        Stage::DrainAfter => if o == Outcome::Yes { Stage::Stop } else { Stage::Provider },
        Stage::Provider => if o == Outcome::Yes { Stage::Open } else { Stage::Stop },
        Stage::Open => if o == Outcome::Yes { Stage::Receive } else { Stage::Stop },
        Stage::Receive => match o {
            Outcome::Again => Stage::Start,
            Outcome::Calls => Stage::Accept,
            Outcome::Text => Stage::Answer,
            _ => Stage::Stop,
        },
        Stage::Accept => if o == Outcome::Yes { Stage::Approve } else { Stage::Stop },
        Stage::Approve => Stage::AfterApproval,
        Stage::AfterApproval => if o == Outcome::Yes { Stage::Stop } else { Stage::Execute },
        Stage::Execute => Stage::AfterExecution,
        Stage::AfterExecution => if o == Outcome::Yes { Stage::Stop } else { Stage::Record },
        Stage::Record => Stage::Settle,
        Stage::Settle => if o == Outcome::Yes { Stage::Verify } else { Stage::Close },
        Stage::Verify => Stage::Close,
        Stage::Close => if o == Outcome::Yes { Stage::Stop } else { Stage::Start },
        Stage::Answer => if o == Outcome::Yes { Stage::Start } else { Stage::Stop },
        Stage::Stop => Stage::Stop,
    }
}

/// The stage that comes after one with the given outcome.
pub fn next_stage(s: Stage, o: Outcome) -> (r: Stage)
    ensures
        r == after(s, o),
{
    let yes = o == Outcome::Yes;
    match s {
        Stage::Start => if yes { Stage::Stop } else { Stage::DrainBefore },
        Stage::DrainBefore => if yes { Stage::Stop } else { Stage::Limit },
        Stage::Limit => Stage::Compact,
        Stage::Compact => Stage::Prune,
        Stage::Prune => Stage::Measure,
        Stage::Measure => Stage::DrainAfter,
        Stage::DrainAfter => if yes { Stage::Stop } else { Stage::Provider },
        Stage::Provider => if yes { Stage::Open } else { Stage::Stop },
        Stage::Open => if yes { Stage::Receive } else { Stage::Stop },
        Stage::Receive => match o {
            Outcome::Again => Stage::Start,
            Outcome::Calls => Stage::Accept,
            Outcome::Text => Stage::Answer,
            _ => Stage::Stop,
        },
        Stage::Accept => if yes { Stage::Approve } else { Stage::Stop },
        Stage::Approve => Stage::AfterApproval,
        Stage::AfterApproval => if yes { Stage::Stop } else { Stage::Execute },
        Stage::Execute => Stage::AfterExecution,
        Stage::AfterExecution => if yes { Stage::Stop } else { Stage::Record },
        Stage::Record => Stage::Settle,
        Stage::Settle => if yes { Stage::Verify } else { Stage::Close },
        Stage::Verify => Stage::Close,
        Stage::Close => if yes { Stage::Stop } else { Stage::Start },
        Stage::Answer => if yes { Stage::Start } else { Stage::Stop },
        Stage::Stop => Stage::Stop,
    }
}

/// What the stage that receives an answer comes to after a step of the stream;
/// nothing yet where more is to come.
pub open spec fn received(step: StreamStepView) -> Option<Outcome> {
    match step {
        StreamStepView::More => None,
        StreamStepView::Again { .. } => Some(Outcome::Again),
        StreamStepView::Limited { .. } => Some(Outcome::Again),
        StreamStepView::Fail => Some(Outcome::No),
        StreamStepView::Complete(calls) => if calls.len() > 0 {
            Some(Outcome::Calls)
        } else {
            Some(Outcome::Text)
        },
    }
}

/// What the stage that receives an answer comes to after a step of the stream.
pub fn outcome_of(step: &StreamStep) -> (r: Option<Outcome>)
    ensures
        r == received(step@),
{
    match step {
        StreamStep::More => None,
        StreamStep::Again { .. } => Some(Outcome::Again),
        StreamStep::Limited { .. } => Some(Outcome::Again),
        StreamStep::Fail => Some(Outcome::No),
        StreamStep::Complete(calls) => if calls.len() > 0 {
            Some(Outcome::Calls)
        } else {
            Some(Outcome::Text)
        },
    }
}

/// Whether `t` is a run of stages, each with the outcome that led to the next.
pub open spec fn is_run(t: Seq<Stage>, os: Seq<Outcome>) -> bool {
    &&& t.len() == os.len() + 1
    &&& forall|i: int| #![trigger os[i]] 0 <= i < os.len() ==> t[i + 1] == after(t[i], os[i])
}

/// A cancelled turn stops wherever it is asked about: no request goes out and no
/// call is made any more.
pub proof fn law_cancel_stops(s: Stage)
    requires
        s == Stage::Start || s == Stage::DrainBefore || s == Stage::DrainAfter || s
            == Stage::AfterApproval || s == Stage::AfterExecution,
    ensures
        after(s, Outcome::Yes) == Stage::Stop,
{
}

/// A turn that stopped stays so.
pub proof fn law_stop_is_final(o: Outcome)
    ensures
        after(Stage::Stop, o) == Stage::Stop,
{
}

/// A request goes out only where no cancellation was waiting right before, and
/// calls are made only where the user was asked about them right before and did
/// not cancel.
pub proof fn law_work_follows_its_check(t: Seq<Stage>, os: Seq<Outcome>, i: int)
    requires
        is_run(t, os),
        t[0] == Stage::Start,
        0 <= i < t.len(),
    ensures
        t[i] == Stage::Open ==> i >= 2 && t[i - 2] == Stage::DrainAfter && os[i - 2]
            != Outcome::Yes,
        t[i] == Stage::Execute ==> i >= 2 && t[i - 2] == Stage::Approve && os[i - 1]
            != Outcome::Yes,
{
    if i >= 1 {
        assert(t[i - 1 + 1] == after(t[i - 1], os[i - 1]));
        if i >= 2 {
            assert(t[i - 2 + 1] == after(t[i - 2], os[i - 2]));
        }
    }
}

/// Between two requests every call that was made has had its result recorded.
pub proof fn law_results_are_recorded(t: Seq<Stage>, os: Seq<Outcome>, i: int, j: int)
    requires
        is_run(t, os),
        0 <= i < j < t.len(),
        t[i] == Stage::Execute,
        t[j] == Stage::Open,
    ensures
        exists|k: int| i < k < j && #[trigger] t[k] == Stage::Record,
{
    if forall|k: int| i < k < j ==> #[trigger] t[k] != Stage::Record {
        lemma_no_way_round(t, os, i, j);
    }
}

proof fn lemma_no_way_round(t: Seq<Stage>, os: Seq<Outcome>, i: int, j: int)
    requires
        is_run(t, os),
        0 <= i <= j < t.len(),
        t[i] == Stage::Execute,
        forall|k: int| i < k < j ==> #[trigger] t[k] != Stage::Record,
    ensures
        t[j] == Stage::Execute || t[j] == Stage::AfterExecution || t[j] == Stage::Record || t[j]
            == Stage::Stop,
    decreases j - i,
{
    if i < j {
        lemma_no_way_round(t, os, i, j - 1);
        assert(t[j - 1 + 1] == after(t[j - 1], os[j - 1]));
        if j - 1 > i {
            assert(t[j - 1] != Stage::Record);
        }
    }
}

/// What an action asks of an engine that is not at work.
#[derive(Debug)]
pub enum Task {
    Quit,
    Cancel,
    /// An answer to a question that nobody asked any more.
    Nothing,
    Configure { key: String, value: String },
    Save { path: String, content: String },
    Message(String),
    Command(String),
    Steer(String),
}

/// The model of [`Task`].
#[verifier::ext_equal]
pub enum TaskView {
    Quit,
    Cancel,
    Nothing,
    Configure { key: Seq<char>, value: Seq<char> },
    Save { path: Seq<char>, content: Seq<char> },
    Message(Seq<char>),
    Command(Seq<char>),
    Steer(Seq<char>),
}

impl View for Task {
    type V = TaskView;

    open spec fn view(&self) -> TaskView {
        match self {
            Task::Quit => TaskView::Quit,
            Task::Cancel => TaskView::Cancel,
            Task::Nothing => TaskView::Nothing,
            Task::Configure { key, value } => TaskView::Configure { key: key@, value: value@ },
            Task::Save { path, content } => TaskView::Save { path: path@, content: content@ },
            Task::Message(x) => TaskView::Message(x@),
            Task::Command(x) => TaskView::Command(x@),
            Task::Steer(x) => TaskView::Steer(x@),
        }
    }
}

/// What an action asks of an engine that is not at work.
pub open spec fn asked(a: ui::ActionView) -> TaskView {
    match a {
        ui::ActionView::Quit => TaskView::Quit,
        ui::ActionView::CancelStream => TaskView::Cancel,
        ui::ActionView::ConfigSet { key, value } => TaskView::Configure { key, value },
        ui::ActionView::SaveEditorFile { path, content } => TaskView::Save { path, content },
        ui::ActionView::SendMessage(x) => TaskView::Message(x),
        ui::ActionView::SlashCommand(x) => TaskView::Command(x),
        ui::ActionView::Steer(x) => TaskView::Steer(x),
        _ => TaskView::Nothing,
    }
}

/// What an action asks of an engine that is not at work.
pub fn task_of(a: Action) -> (r: Task)
    ensures
        r@ == asked(a@),
{
    match a {
        Action::Quit => Task::Quit,
        Action::CancelStream => Task::Cancel,
        Action::ConfigSet { key, value } => Task::Configure { key, value },
        Action::SaveEditorFile { path, content } => Task::Save { path, content },
        Action::SendMessage(x) => Task::Message(x),
        Action::SlashCommand(x) => Task::Command(x),
        Action::Steer(x) => Task::Steer(x),
        _ => Task::Nothing,
    }
}

/// A complete answer is one with calls or one of text, by whether there are any;
/// a failure ends the turn, and only an answer that goes on says nothing yet.
pub proof fn law_received(calls: Seq<crate::message::ToolCallView>, step: StreamStepView)
    ensures
        calls.len() > 0 ==> received(StreamStepView::Complete(calls)) == Some(Outcome::Calls),
        calls.len() == 0 ==> received(StreamStepView::Complete(calls)) == Some(Outcome::Text),
        received(step) is None <==> step is More,
        received(step) == Some(Outcome::No) <==> step is Fail,
        received(step) == Some(Outcome::Again) <==> step is Again || step is Limited,
{
}

/// What the user asks for is handed on with its words.
pub proof fn law_asked(x: Seq<char>, y: Seq<char>)
    ensures
        asked(ui::ActionView::SendMessage(x)) == TaskView::Message(x),
        asked(ui::ActionView::SlashCommand(x)) == TaskView::Command(x),
        asked(ui::ActionView::Steer(x)) == TaskView::Steer(x),
        asked(ui::ActionView::SaveEditorFile { path: x, content: y }) == (TaskView::Save {
            path: x,
            content: y,
        }),
        asked(ui::ActionView::ConfigSet { key: x, value: y }) == (TaskView::Configure {
            key: x,
            value: y,
        }),
        asked(ui::ActionView::Quit) is Quit,
        asked(ui::ActionView::CancelStream) is Cancel,
{
}

/// The order of a turn: before each request the user's input is taken, the rate
/// limit is waited for, the conversation is condensed and pruned and measured, and
/// the input is taken again. Calls are accepted, approved, carried out, recorded and
/// settled; an edit is verified; then the batch is closed, and the next request
/// begins unless the goal is reached.
pub proof fn law_order_of_a_turn(o: Outcome)
    ensures
        after(Stage::Start, Outcome::No) == Stage::DrainBefore,
        after(Stage::DrainBefore, Outcome::No) == Stage::Limit,
        after(Stage::Limit, o) == Stage::Compact,
        after(Stage::Compact, o) == Stage::Prune,
        after(Stage::Prune, o) == Stage::Measure,
        after(Stage::Measure, o) == Stage::DrainAfter,
        after(Stage::DrainAfter, Outcome::No) == Stage::Provider,
        after(Stage::Provider, Outcome::Yes) == Stage::Open,
        after(Stage::Provider, Outcome::No) == Stage::Stop,
        after(Stage::Open, Outcome::Yes) == Stage::Receive,
        after(Stage::Open, Outcome::No) == Stage::Stop,
        after(Stage::Receive, Outcome::Again) == Stage::Start,
        after(Stage::Receive, Outcome::Calls) == Stage::Accept,
        after(Stage::Receive, Outcome::Text) == Stage::Answer,
        after(Stage::Receive, Outcome::No) == Stage::Stop,
        after(Stage::Accept, Outcome::Yes) == Stage::Approve,
        after(Stage::Accept, Outcome::No) == Stage::Stop,
        after(Stage::Approve, o) == Stage::AfterApproval,
        after(Stage::AfterApproval, Outcome::No) == Stage::Execute,
        after(Stage::Execute, o) == Stage::AfterExecution,
        after(Stage::AfterExecution, Outcome::No) == Stage::Record,
        after(Stage::Record, o) == Stage::Settle,
        after(Stage::Settle, Outcome::Yes) == Stage::Verify,
        after(Stage::Settle, Outcome::No) == Stage::Close,
        after(Stage::Verify, o) == Stage::Close,
        after(Stage::Close, Outcome::Yes) == Stage::Stop,
        after(Stage::Close, Outcome::No) == Stage::Start,
        after(Stage::Answer, Outcome::Yes) == Stage::Start,
        after(Stage::Answer, Outcome::No) == Stage::Stop,
{
}

} // verus!
