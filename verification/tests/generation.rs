use chat_generation::generation::{Action, Event, Generation};
use chat_generation::json::Json;
use chat_generation::save::Message;
use chat_generation::turn::{
    Answer, Failure, Frame, ProducerEvent, Snapshot, Terminal, TurnRecord,
};

fn parse(text: &str) -> Json {
    Json::from_value(serde_json::from_str(text).unwrap())
}

fn items(text: &str) -> Vec<Json> {
    match parse(text) {
        Json::Array(items) => items,
        other => panic!("not a list: {other:?}"),
    }
}

fn produced(event: ProducerEvent) -> Event {
    Event::Produced { event: Some(event), cancelled: false }
}

fn advance(generation: Generation, event: Event) -> (Generation, Action) {
    assert!(generation.accepts(&event), "{event:?} cannot come at {generation:?}");
    generation.advance(event)
}

fn delta(text: &str) -> Frame {
    Frame::new("delta", text.to_string())
}

fn answer(stopped: bool, final_text: Option<&str>) -> Answer {
    Answer {
        content: "The target is 95% [1].".to_string(),
        record: TurnRecord {
            stopped,
            steps: parse("[]"),
            sources: parse(r#"[{"n":1,"document_id":"d"}]"#),
            resolved: parse("[]"),
            tool_exchange: parse("[]"),
        },
        final_text: final_text.map(|text| text.to_string()),
    }
}

/// Lets a frame of the producer's go out and takes in that it did.
fn publish(generation: Generation, frame: Frame) -> Generation {
    let expected = Frame::new(frame.event, frame.data.clone());
    let (generation, action) = advance(generation, produced(ProducerEvent::Progress(frame)));
    assert_eq!(action, Action::Publish(expected));
    let (generation, action) = advance(generation, Event::Published);
    assert_eq!(action, Action::Poll);
    generation
}

#[test]
fn stopping_only_carries_sources_when_this_turn_did_not_gather() {
    let source = r#"[{"n":1, "document_id":"previous-document"}]"#;
    let cases = [
        (None, source),
        (
            Some(ProducerEvent::Progress(Frame::new("sources", "[]".into()))),
            "[]",
        ),
        (
            Some(ProducerEvent::Context {
                resolved: vec![],
                tool_exchange: vec![],
                gathered: true,
            }),
            "[]",
        ),
    ];
    for (before_text, expected_sources) in cases {
        let (mut generation, action) = Generation::begin();
        assert_eq!(action, Action::Poll);
        match before_text {
            Some(ProducerEvent::Progress(frame)) => generation = publish(generation, frame),
            Some(event) => {
                let (next, action) = advance(generation, produced(event));
                assert_eq!(action, Action::Poll);
                generation = next;
            }
            None => {}
        }
        generation = publish(generation, delta("Target: 95% [1].\n"));
        let (generation, action) = advance(generation, Event::Cancelled);
        assert_eq!(action, Action::TakeSnapshot);
        let shown = Snapshot {
            content: "Target: 95% [1].\n".to_string(),
            steps: vec![],
            sources: vec![],
        };
        let (mut generation, mut action) = advance(generation, Event::Shown(shown));
        if let Action::CarrySources(content) = action {
            assert_eq!(content, "Target: 95% [1].\n");
            (generation, action) = advance(generation, Event::Carried(items(source)));
        }
        match action {
            Action::Save(message) => {
                assert!(message.record.stopped);
                assert_eq!(message.record.sources, parse(expected_sources));
            }
            other => panic!("{other:?}"),
        }
        assert!(matches!(generation, Generation::Saving(_)));
    }
}

#[test]
fn a_step_counts_as_gathering_and_published_sources_are_kept() {
    let (generation, _) = Generation::begin();
    let generation = publish(generation, Frame::new("step", "{}".to_string()));
    let (generation, _) = advance(generation, Event::Cancelled);
    let shown = Snapshot { content: String::new(), steps: items("[1]"), sources: vec![] };
    let (_, action) = advance(generation, Event::Shown(shown));
    match action {
        Action::Save(message) => {
            assert_eq!(message.record.steps, parse("[1]"));
            assert_eq!(message.record.sources, parse("[]"));
        }
        other => panic!("{other:?}"),
    }

    let (generation, _) = Generation::begin();
    let (generation, _) = advance(generation, Event::Cancelled);
    let shown = Snapshot { content: String::new(), steps: vec![], sources: items("[2]") };
    let (_, action) = advance(generation, Event::Shown(shown));
    match action {
        Action::Save(message) => assert_eq!(message.record.sources, parse("[2]")),
        other => panic!("{other:?}"),
    }
}

#[test]
fn a_stop_keeps_what_was_published_and_the_completed_calls_of_the_last_context() {
    let (generation, _) = Generation::begin();
    let (generation, _) = advance(
        generation,
        produced(ProducerEvent::Context {
            resolved: items(r#"["old"]"#),
            tool_exchange: items(r#"[{"role":"tool","tool_call_id":"old"}]"#),
            gathered: true,
        }),
    );
    let (generation, action) = advance(
        generation,
        produced(ProducerEvent::Context {
            resolved: items(r#"["Acme"]"#),
            tool_exchange: items(
                r#"[{"role":"assistant","tool_calls":[{"id":"a"},{"id":"b"}]},
                    {"role":"tool","tool_call_id":"a"},
                    {"role":"assistant","tool_calls":[{"id":"c"}]}]"#,
            ),
            gathered: false,
        }),
    );
    assert_eq!(action, Action::Poll);
    let (generation, action) = advance(generation, Event::Cancelled);
    assert_eq!(action, Action::TakeSnapshot);
    let shown = Snapshot {
        content: "Checking the available evidence.\n".to_string(),
        steps: items(r#"["looked"]"#),
        sources: vec![],
    };
    let (generation, action) = advance(generation, Event::Shown(shown));
    assert_eq!(
        action,
        Action::Save(Message {
            role: "assistant",
            content: "Checking the available evidence.\n".to_string(),
            record: TurnRecord {
                stopped: true,
                steps: parse(r#"["looked"]"#),
                sources: parse("[]"),
                resolved: parse(r#"["Acme"]"#),
                tool_exchange: parse(
                    r#"[{"role":"assistant","tool_calls":[{"id":"a"}]},
                        {"role":"tool","tool_call_id":"a"}]"#,
                ),
            },
        })
    );
    let (generation, action) = advance(generation, Event::Saved(true));
    assert_eq!(action, Action::Publish(Frame::new("sources", "[]".to_string())));
    let (generation, action) = advance(generation, Event::Published);
    assert_eq!(
        action,
        Action::Complete(Terminal::Done(Frame::new("done", r#"{"stopped":true}"#.to_string())))
    );
    assert_eq!(generation, Generation::Ended);
}

#[test]
fn a_stop_before_the_first_text_saves_an_empty_answer() {
    let (generation, _) = Generation::begin();
    let (generation, _) = advance(generation, Event::Cancelled);
    let shown = Snapshot { content: String::new(), steps: vec![], sources: vec![] };
    let (generation, action) = advance(generation, Event::Shown(shown));
    assert_eq!(action, Action::CarrySources(String::new()));
    let (_, action) = advance(generation, Event::Carried(vec![]));
    match action {
        Action::Save(message) => {
            assert_eq!(message.content, "");
            assert!(message.record.stopped);
            assert_eq!(message.record.tool_exchange, parse("[]"));
        }
        other => panic!("{other:?}"),
    }
}

#[test]
fn a_complete_answer_is_saved_before_its_final_text_goes_out() {
    let (generation, _) = Generation::begin();
    let generation = publish(generation, delta("Checking."));
    let outcome = ProducerEvent::Outcome(Ok(answer(false, Some("First answer."))));
    let (generation, action) = advance(generation, produced(outcome));
    let expected = answer(false, None);
    assert_eq!(
        action,
        Action::Save(Message {
            role: "assistant",
            content: expected.content,
            record: expected.record,
        })
    );
    let (generation, action) = advance(generation, Event::Saved(true));
    assert_eq!(
        action,
        Action::Publish(Frame::new("sources", r#"[{"document_id":"d","n":1}]"#.to_string()))
    );
    let (generation, action) = advance(generation, Event::Published);
    assert_eq!(action, Action::PublishText("First answer.".to_string()));
    let (generation, action) = advance(generation, Event::Published);
    assert_eq!(
        action,
        Action::Complete(Terminal::Done(Frame::new("done", r#"{"stopped":false}"#.to_string())))
    );
    assert!(!generation.accepts(&Event::Published));
    assert!(!generation.accepts(&Event::Cancelled));
}

#[test]
fn an_answer_without_a_final_text_ends_after_its_sources() {
    let (generation, _) = Generation::begin();
    let outcome = ProducerEvent::Outcome(Ok(answer(false, None)));
    let (generation, _) = advance(generation, produced(outcome));
    let (generation, _) = advance(generation, Event::Saved(true));
    let (generation, action) = advance(generation, Event::Published);
    assert_eq!(
        action,
        Action::Complete(Terminal::Done(Frame::new("done", r#"{"stopped":false}"#.to_string())))
    );
    assert_eq!(generation, Generation::Ended);
}

#[test]
fn an_unconfirmed_save_is_reported_as_a_failure() {
    for stopped in [false, true] {
        let (generation, _) = Generation::begin();
        let outcome = ProducerEvent::Outcome(Ok(answer(stopped, Some("text"))));
        let (generation, _) = advance(generation, produced(outcome));
        let (generation, action) = advance(generation, Event::Saved(false));
        assert_eq!(
            action,
            Action::Complete(Terminal::Failed(Failure::new(
                "answer_not_saved",
                "Could not confirm that the answer was saved.",
            )))
        );
        assert_eq!(generation, Generation::Ended);
    }
}

#[test]
fn a_stop_after_the_save_has_started_comes_too_late() {
    let (generation, _) = Generation::begin();
    let outcome = ProducerEvent::Outcome(Ok(answer(false, None)));
    let (generation, _) = advance(generation, produced(outcome));
    assert!(!generation.accepts(&Event::Cancelled));
    assert!(!generation.accepts(&Event::Produced { event: None, cancelled: true }));
    assert!(generation.accepts(&Event::Saved(true)));
}

#[test]
fn an_outcome_that_comes_with_a_stop_is_dropped() {
    let (generation, _) = Generation::begin();
    let outcome = ProducerEvent::Outcome(Ok(answer(false, None)));
    let (generation, action) =
        advance(generation, Event::Produced { event: Some(outcome), cancelled: true });
    assert_eq!(action, Action::Poll);
    let (_, action) = advance(generation, Event::Cancelled);
    assert_eq!(action, Action::TakeSnapshot);
}

#[test]
fn a_failed_outcome_ends_the_turn_with_its_failure() {
    let (generation, _) = Generation::begin();
    let outcome = ProducerEvent::Outcome(Err(Failure::new("model_failed", "No model")));
    let (generation, action) = advance(generation, produced(outcome));
    assert_eq!(
        action,
        Action::Complete(Terminal::Failed(Failure::new("model_failed", "No model")))
    );
    assert_eq!(generation, Generation::Ended);
}

#[test]
fn a_producer_may_not_end_the_turn_by_a_frame() {
    for event in ["done", "error"] {
        let (generation, _) = Generation::begin();
        let frame = Frame::new(event, "{}".to_string());
        let (generation, action) = advance(generation, produced(ProducerEvent::Progress(frame)));
        assert_eq!(
            action,
            Action::Complete(Terminal::Failed(Failure::new(
                "answer_failed",
                "Producer sent a terminal as progress",
            )))
        );
        assert_eq!(generation, Generation::Ended);
    }
}

#[test]
fn a_stream_that_ends_without_an_outcome_is_a_failure() {
    for cancelled in [false, true] {
        let (generation, _) = Generation::begin();
        let (_, action) = advance(generation, Event::Produced { event: None, cancelled });
        assert_eq!(
            action,
            Action::Complete(Terminal::Failed(Failure::new(
                "stream_ended",
                "Answer stream ended unexpectedly",
            )))
        );
    }
}

#[test]
fn a_stop_cannot_close_an_exchange_of_anything_but_objects() {
    for (exchange, closable) in [
        (r#"[{"role":"user"},null]"#, true),
        (r#"[{"role":"user"},"text"]"#, false),
        (r#"[[]]"#, false),
        (r#"[1]"#, false),
        (r#"[true]"#, false),
    ] {
        let (generation, _) = Generation::begin();
        let (generation, _) = advance(
            generation,
            produced(ProducerEvent::Context {
                resolved: vec![],
                tool_exchange: items(exchange),
                gathered: true,
            }),
        );
        let (generation, _) = advance(generation, Event::Cancelled);
        let shown = Snapshot { content: String::new(), steps: vec![], sources: vec![] };
        assert_eq!(generation.accepts(&Event::Shown(shown)), closable);
    }
}
