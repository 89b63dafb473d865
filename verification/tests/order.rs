use marlin::agent::{next_stage, outcome_of, task_of, Outcome, Stage, Task};
use marlin::message::ToolCall;
use marlin::route::refresh_due;
use marlin::turn::StreamStep;
use marlin::ui::Action;

fn walk(start: Stage, outcomes: &[Outcome]) -> Stage {
    outcomes.iter().fold(start, |s, o| next_stage(s, *o))
}

#[test]
fn a_turn_goes_through_its_stages() {
    let (no, yes) = (Outcome::No, Outcome::Yes);
    let (again, calls, text) = (Outcome::Again, Outcome::Calls, Outcome::Text);
    // To the request, and through a batch of calls with an edit.
    let to_request = [no, no, no, no, no, no, no, yes];
    assert_eq!(walk(Stage::Start, &to_request), Stage::Open);
    assert_eq!(walk(Stage::Open, &[yes]), Stage::Receive);
    let batch = [calls, yes, no, no, no, no, no, yes, no, no];
    assert_eq!(walk(Stage::Receive, &batch), Stage::Start);
    // Without an edit nothing is verified, and a completed task ends the turn.
    assert_eq!(walk(Stage::Settle, &[no]), Stage::Close);
    assert_eq!(walk(Stage::Close, &[yes]), Stage::Stop);
    // An answer in words, with and without a nudge.
    assert_eq!(walk(Stage::Receive, &[text, yes]), Stage::Start);
    assert_eq!(walk(Stage::Receive, &[text, no]), Stage::Stop);
    assert_eq!(walk(Stage::Receive, &[again]), Stage::Start);
    assert_eq!(walk(Stage::Receive, &[no]), Stage::Stop);
}

#[test]
fn a_cancelled_turn_makes_no_request() {
    for s in [
        Stage::Start,
        Stage::DrainBefore,
        Stage::DrainAfter,
        Stage::AfterApproval,
        Stage::AfterExecution,
    ] {
        assert_eq!(next_stage(s, Outcome::Yes), Stage::Stop);
    }
    assert_eq!(next_stage(Stage::Provider, Outcome::No), Stage::Stop);
    assert_eq!(next_stage(Stage::Open, Outcome::No), Stage::Stop);
    assert_eq!(next_stage(Stage::Accept, Outcome::No), Stage::Stop);
    assert_eq!(next_stage(Stage::Stop, Outcome::Yes), Stage::Stop);
}

#[test]
fn an_idle_engine_knows_what_is_asked() {
    assert!(matches!(task_of(Action::Quit), Task::Quit));
    assert!(matches!(task_of(Action::CancelStream), Task::Cancel));
    assert!(matches!(task_of(Action::Approve), Task::Nothing));
    assert!(matches!(task_of(Action::UserAnswer("x".to_string())), Task::Nothing));
    assert!(matches!(
        task_of(Action::RejectDiff { tool_id: "x".to_string() }),
        Task::Nothing
    ));
    assert!(matches!(
        task_of(Action::SendMessage("hi".to_string())),
        Task::Message(t) if t == "hi"
    ));
    assert!(matches!(
        task_of(Action::ConfigSet { key: "k".to_string(), value: "v".to_string() }),
        Task::Configure { key, value } if key == "k" && value == "v"
    ));
}

#[test]
fn a_step_of_the_stream_decides_the_outcome() {
    assert_eq!(outcome_of(&StreamStep::More), None);
    assert_eq!(outcome_of(&StreamStep::Again { wait_ms: 600 }), Some(Outcome::Again));
    assert_eq!(outcome_of(&StreamStep::Limited { secs: 3 }), Some(Outcome::Again));
    assert_eq!(outcome_of(&StreamStep::Fail), Some(Outcome::No));
    assert_eq!(outcome_of(&StreamStep::Complete(vec![])), Some(Outcome::Text));
    let call = ToolCall { id: "1".into(), name: "grep".into(), input: "{}".into() };
    assert_eq!(outcome_of(&StreamStep::Complete(vec![call])), Some(Outcome::Calls));
}

#[test]
fn the_index_is_refreshed_every_half_minute() {
    assert!(!refresh_due(29));
    assert!(refresh_due(30));
}
