//! What the models of values, records and actions show: every part of them.
use vstd::prelude::*;
use crate::collect::{Reaction, ReactionView};
use crate::generation::{Action, ActionView, Event, EventView};
use crate::json::{fields_view, items_view, lemma_absent, lemma_last, Json, JsonView};
use crate::save::{Message, Unpublished};
use crate::turn::{
    Answer, Failure, FailureView, Frame, FrameView, ProducerEvent, ProducerEventView,
    Snapshot, SnapshotView, Terminal, TerminalView, TurnRecord, TurnRecordView,
};

verus! {

/// A key that a field has is in the map.
proof fn lemma_present(fields: Seq<(String, Json)>, at: int)
    requires
        0 <= at < fields.len(),
    ensures
        fields_view(fields).contains_key(fields[at].0@),
    decreases fields.len(),
{
    if at < fields.len() - 1 {
        lemma_present(fields.drop_last(), at);
    }
}

/// The model of a list has the model of each item, in its place.
pub proof fn law_a_list_shows_its_items(items: Seq<Json>)
    ensures
        items_view(items).len() == items.len(),
        forall|i: int| 0 <= i < items.len() ==> #[trigger] items_view(items)[i] == items[i]@,
{
}

/// The model of fields has exactly their keys, and under each key the model of the
/// last value that the key was given.
pub proof fn law_the_last_field_of_a_key_counts(fields: Seq<(String, Json)>)
    ensures
        forall|key: Seq<char>| #[trigger]
            fields_view(fields).contains_key(key) <==> exists|i: int|
                0 <= i < fields.len() && (#[trigger] fields[i]).0@ == key,
        forall|i: int|
            0 <= i < fields.len() && (forall|j: int|
                i < j < fields.len() ==> (#[trigger] fields[j]).0@ != fields[i].0@)
                ==> fields_view(fields)[(#[trigger] fields[i]).0@] == fields[i].1@,
{
    assert forall|key: Seq<char>| #[trigger]
        fields_view(fields).contains_key(key) <==> exists|i: int|
            0 <= i < fields.len() && (#[trigger] fields[i]).0@ == key by {
        if exists|i: int| 0 <= i < fields.len() && (#[trigger] fields[i]).0@ == key {
            let i = choose|i: int| 0 <= i < fields.len() && (#[trigger] fields[i]).0@ == key;
            lemma_present(fields, i);
        } else {
            lemma_absent(fields, key);
        }
    }
    assert forall|i: int|
        0 <= i < fields.len() && (forall|j: int|
            i < j < fields.len() ==> (#[trigger] fields[j]).0@ != fields[i].0@) implies fields_view(
        fields,
    )[(#[trigger] fields[i]).0@] == fields[i].1@ by {
        lemma_last(fields, i, fields[i]);
    }
}

/// A value is shown as what it is.
pub proof fn law_a_value_shows_what_it_is(json: Json)
    ensures
        match json {
            Json::Null => json@ is Null,
            Json::Bool(flag) => json@ == JsonView::Bool(flag),
            Json::Number(number) => json@ == JsonView::Number(number),
            Json::Text(text) => json@ == JsonView::Text(text@),
            Json::Array(items) => json@ == JsonView::Array(items_view(items@)),
            Json::Object(fields) => json@ == JsonView::Object(fields_view(fields@)),
        },
{
}

/// What is looked up in a value is what its object holds; other values have no
/// fields, and only a string is a text.
pub proof fn law_a_lookup_finds_what_is_there(json: JsonView, key: Seq<char>)
    ensures
        json.has(key) <==> json is Object && json->Object_0.contains_key(key),
        json.has(key) ==> json.field(key) == json->Object_0[key],
        !json.has(key) ==> json.field(key) is Null,
        json is Text ==> json.text() == Some(json->Text_0),
        !(json is Text) ==> json.text() is None,
{
}

/// A field that is set has its value; the others stay as they were.
pub proof fn law_setting_a_field_leaves_the_others(
    json: JsonView,
    key: Seq<char>,
    value: JsonView,
    other: Seq<char>,
)
    ensures
        json.with(key, value).has(key),
        json.with(key, value).field(key) == value,
        other != key ==> json.with(key, value).has(other) == json.has(other),
        other != key ==> json.with(key, value).field(other) == json.field(other),
{
}

/// The models of frames and failures show their two parts.
pub proof fn law_frames_and_failures_show_their_parts(frame: Frame, failure: Failure)
    ensures
        frame@ == (FrameView { event: frame.event@, data: frame.data@ }),
        failure@ == (FailureView { code: failure.code@, message: failure.message@ }),
{
}

/// The models of answers, records and snapshots show each of their parts.
pub proof fn law_answers_show_their_parts(answer: Answer, record: TurnRecord, snapshot: Snapshot)
    ensures
        answer@.content == answer.content@,
        answer@.record == answer.record@,
        answer.final_text is Some ==> answer@.final_text == Some(answer.final_text->0@),
        answer.final_text is None ==> answer@.final_text is None,
        record@ == (TurnRecordView {
            stopped: record.stopped,
            steps: record.steps@,
            sources: record.sources@,
            resolved: record.resolved@,
            tool_exchange: record.tool_exchange@,
        }),
        snapshot@ == (SnapshotView {
            content: snapshot.content@,
            steps: items_view(snapshot.steps@),
            sources: items_view(snapshot.sources@),
        }),
{
}

/// What a producer hands over is shown part by part.
pub proof fn law_producer_events_show_their_parts(event: ProducerEvent)
    ensures
        match event {
            ProducerEvent::Progress(frame) => event@ == ProducerEventView::Progress(frame@),
            ProducerEvent::Context { resolved, tool_exchange, gathered } => event@ == (
            ProducerEventView::Context {
                resolved: items_view(resolved@),
                tool_exchange: items_view(tool_exchange@),
                gathered,
            }),
            ProducerEvent::Outcome(Ok(answer)) => event@ == ProducerEventView::Outcome(Ok(answer@)),
            ProducerEvent::Outcome(Err(failure)) => event@ == ProducerEventView::Outcome(
                Err(failure@),
            ),
        },
{
}

/// What happened is shown part by part.
pub proof fn law_events_show_their_parts(event: Event)
    ensures
        match event {
            Event::Produced { event: Some(sent), cancelled } => event@ == (EventView::Produced {
                event: Some(sent@),
                cancelled,
            }),
            Event::Produced { event: None, cancelled } => event@ == (EventView::Produced {
                event: None,
                cancelled,
            }),
            Event::Cancelled => event@ == EventView::Cancelled,
            Event::Published => event@ == EventView::Published,
            Event::Shown(snapshot) => event@ == EventView::Shown(snapshot@),
            Event::Carried(sources) => event@ == EventView::Carried(items_view(sources@)),
            Event::Saved(confirmed) => event@ == EventView::Saved(confirmed),
        },
{
}

/// What is to be done is shown part by part.
pub proof fn law_actions_show_their_parts(action: Action, message: Message, terminal: Terminal)
    ensures
        match action {
            Action::Poll => action@ == ActionView::Poll,
            Action::Publish(frame) => action@ == ActionView::Publish(frame@),
            Action::PublishText(text) => action@ == ActionView::PublishText(text@),
            Action::TakeSnapshot => action@ == ActionView::TakeSnapshot,
            Action::CarrySources(content) => action@ == ActionView::CarrySources(content@),
            Action::Save(message) => action@ == ActionView::Save(message@),
            Action::Complete(terminal) => action@ == ActionView::Complete(terminal@),
        },
        message@.role == message.role@,
        message@.content == message.content@,
        message@.record == message.record@,
        match terminal {
            Terminal::Done(frame) => terminal@ == TerminalView::Done(frame@),
            Terminal::Failed(failure) => terminal@ == TerminalView::Failed(failure@),
        },
{
}

/// A reaction, and what is left to go out after a save, are shown part by part.
pub proof fn law_reactions_show_their_parts(reaction: Reaction, unpublished: Unpublished)
    ensures
        match reaction {
            Reaction::Wait => reaction@ == ReactionView::Wait,
            Reaction::Publish(frame) => reaction@ == ReactionView::Publish(frame@),
            Reaction::Finish(Ok(answer)) => reaction@ == ReactionView::Finish(Ok(answer@)),
            Reaction::Finish(Err(failure)) => reaction@ == ReactionView::Finish(Err(failure@)),
        },
        unpublished@.sources == unpublished.sources@,
        unpublished.final_text is Some ==> unpublished@.final_text == Some(
            unpublished.final_text->0@,
        ),
        unpublished.final_text is None ==> unpublished@.final_text is None,
        unpublished@.stopped == unpublished.stopped,
{
}

} // verus!
