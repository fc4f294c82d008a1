//! Whole turns, driven by a script in place of a producer.
use chat_generation::generation::{Action, Event, Generation};
use chat_generation::json::Json;
use chat_generation::save::Message;
use chat_generation::turn::{
    Answer, Failure, Frame, ProducerEvent, Snapshot, Terminal, TurnRecord,
};

const PARTIAL: &str = "Checking the available evidence.\n";
const DRAFT: &str = "Unpublished final draft.";

fn items(text: &str) -> Vec<Json> {
    match Json::from_value(serde_json::from_str(text).unwrap()) {
        Json::Array(items) => items,
        other => panic!("not a list: {other:?}"),
    }
}

fn delta(text: &str) -> ProducerEvent {
    ProducerEvent::Progress(Frame::new("delta", text.to_string()))
}

fn context(tool_exchange: &str) -> ProducerEvent {
    ProducerEvent::Context {
        resolved: vec![],
        tool_exchange: items(tool_exchange),
        gathered: true,
    }
}

fn outcome(content: &str, final_text: Option<&str>) -> ProducerEvent {
    ProducerEvent::Outcome(Ok(Answer {
        content: content.to_string(),
        record: TurnRecord {
            stopped: false,
            steps: Json::Array(vec![]),
            sources: Json::Array(vec![]),
            resolved: Json::Array(vec![]),
            tool_exchange: Json::Array(vec![]),
        },
        final_text: final_text.map(|text| text.to_string()),
    }))
}

struct Turn {
    /// The names and data of all frames in their order, the last one with them.
    frames: Vec<(String, String)>,
    messages: Vec<Message>,
    /// How many events of the script were taken.
    taken: usize,
}

/// Runs a turn to its end. The user stops it once `stop_after` events were taken.
fn drive(script: Vec<ProducerEvent>, stop_after: Option<usize>, store_confirms: bool) -> Turn {
    let mut script = script.into_iter();
    let mut turn = Turn { frames: vec![], messages: vec![], taken: 0 };
    let mut shown = String::new();
    let (mut generation, mut action) = Generation::begin();
    loop {
        let event = match action {
            Action::Poll => {
                if stop_after == Some(turn.taken) {
                    Event::Cancelled
                } else {
                    let event = script.next();
                    turn.taken += 1;
                    Event::Produced { event, cancelled: false }
                }
            }
            Action::Publish(frame) => {
                if frame.event == "delta" {
                    shown.push_str(&frame.data);
                }
                turn.frames.push((frame.event.to_string(), frame.data));
                Event::Published
            }
            Action::PublishText(text) => {
                turn.frames.push(("delta".to_string(), text));
                Event::Published
            }
            Action::TakeSnapshot => Event::Shown(Snapshot {
                content: shown.clone(),
                steps: vec![],
                sources: vec![],
            }),
            Action::CarrySources(content) => {
                assert_eq!(content, shown);
                Event::Carried(vec![])
            }
            Action::Save(message) => {
                turn.messages.push(message);
                Event::Saved(store_confirms)
            }
            Action::Complete(Terminal::Done(frame)) => {
                turn.frames.push((frame.event.to_string(), frame.data));
                return turn;
            }
            Action::Complete(Terminal::Failed(Failure { code, .. })) => {
                turn.frames.push(("error".to_string(), code.to_string()));
                return turn;
            }
        };
        assert!(generation.accepts(&event), "{event:?} cannot come at {generation:?}");
        (generation, action) = generation.advance(event);
    }
}

fn assert_done(frames: &[(String, String)], stopped: bool) {
    let terminals: Vec<_> = frames
        .iter()
        .filter(|frame| matches!(frame.0.as_str(), "done" | "error"))
        .collect();
    assert_eq!(terminals.len(), 1, "{frames:?}");
    assert_eq!(terminals[0].0, "done", "{frames:?}");
    let data: serde_json::Value = serde_json::from_str(&terminals[0].1).unwrap();
    assert_eq!(data["stopped"].as_bool().unwrap_or(false), stopped);
}

/// A turn with a tool round, a text before it and a final text that waits for the save.
fn script() -> Vec<ProducerEvent> {
    vec![
        delta(PARTIAL),
        context(r#"[{"role":"assistant","tool_calls":[{"id":"call_1"}]}]"#),
        context(
            r#"[{"role":"assistant","tool_calls":[{"id":"call_1"}]},
                {"role":"tool","tool_call_id":"call_1","content":"ok"}]"#,
        ),
        outcome("Checking the available evidence.\nFirst answer.", Some(DRAFT)),
    ]
}

#[test]
fn a_stop_at_each_stage_saves_the_partial_text_once() {
    let expected_exchanges = [
        "[]",
        "[]",
        "[]",
        r#"[{"role":"assistant","tool_calls":[{"id":"call_1"}]},
            {"role":"tool","tool_call_id":"call_1","content":"ok"}]"#,
    ];
    for (stage, expected) in expected_exchanges.iter().enumerate() {
        let turn = drive(script(), Some(stage), true);
        assert_done(&turn.frames, true);
        assert_eq!(turn.taken, stage, "nothing is taken after a stop");
        assert_eq!(turn.messages.len(), 1);
        let message = &turn.messages[0];
        assert_eq!(message.role, "assistant");
        assert!(message.record.stopped);
        assert_eq!(message.content, if stage == 0 { "" } else { PARTIAL });
        assert_eq!(message.record.tool_exchange, Json::Array(items(expected)));
        for (_, data) in &turn.frames {
            assert!(!data.contains(DRAFT));
        }
    }
}

#[test]
fn an_undisturbed_turn_saves_one_complete_answer_then_shows_its_final_text() {
    let turn = drive(script(), None, true);
    assert_done(&turn.frames, false);
    assert_eq!(turn.messages.len(), 1);
    assert!(!turn.messages[0].record.stopped);
    assert!(turn.messages[0].content.ends_with("First answer."));
    let names: Vec<&str> = turn.frames.iter().map(|frame| frame.0.as_str()).collect();
    assert_eq!(names, ["delta", "sources", "delta", "done"]);
    assert_eq!(turn.frames[2].1, DRAFT);
}

#[test]
fn a_stop_after_the_outcome_leaves_the_complete_answer() {
    let turn = drive(script(), Some(4), true);
    assert_done(&turn.frames, false);
    assert_eq!(turn.messages.len(), 1);
    assert!(!turn.messages[0].record.stopped);
}

#[test]
fn a_store_that_does_not_confirm_is_never_reported_as_done() {
    for stop_after in [None, Some(0), Some(1), Some(3)] {
        let turn = drive(script(), stop_after, false);
        assert_eq!(turn.messages.len(), 1);
        let (name, code) = turn.frames.last().unwrap();
        assert_eq!(name, "error");
        assert_eq!(code, "answer_not_saved");
        assert!(turn.frames.iter().all(|frame| frame.0 != "done" && frame.0 != "sources"));
        assert!(turn.frames.iter().all(|frame| frame.1 != DRAFT));
    }
}

#[test]
fn a_producer_that_breaks_off_saves_nothing() {
    let turn = drive(vec![delta(PARTIAL)], None, true);
    assert!(turn.messages.is_empty());
    assert_eq!(turn.frames.last().unwrap().1, "stream_ended");

    let ends_by_itself = ProducerEvent::Progress(Frame::new("done", "{}".to_string()));
    let turn = drive(vec![delta(PARTIAL), ends_by_itself], None, true);
    assert!(turn.messages.is_empty());
    assert_eq!(turn.frames.len(), 2);
    assert_eq!(turn.frames.last().unwrap().1, "answer_failed");
}
