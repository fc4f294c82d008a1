//! What each event of a turn leads to, told from the events alone.
//!
//! A course is the sequence of events that came, as in [`crate::generation_laws`].
//! The laws here name, for every event of every course, the action that follows:
//! which frame, which message, which end.
use vstd::prelude::*;
use crate::collect::{is_terminal, CollectedView};
use crate::exchange::{completed, has_fields};
use crate::generation::{ActionView, EventView, GenerationView};
use crate::generation_laws::{asked, possible, state_at};
use crate::json::JsonView;
use crate::save::MessageView;
use crate::turn::{
    AnswerView, FailureView, FrameView, ProducerEventView, SnapshotView, TerminalView,
    TurnRecordView,
};
use crate::value::json_text;

verus! {

/// The frame that the producer sent by an event.
pub open spec fn frame_sent(event: EventView) -> Option<FrameView> {
    match event {
        EventView::Produced { event: Some(ProducerEventView::Progress(frame)), .. } => Some(frame),
        _ => None,
    }
}

/// Whether an event is a context of the producer's.
pub open spec fn is_context(event: EventView) -> bool {
    match event {
        EventView::Produced { event: Some(ProducerEventView::Context { .. }), .. } => true,
        _ => false,
    }
}

/// Whether the turn looked something up: a frame with a step or with sources went
/// out, or a context says so.
pub open spec fn looked_up(event: EventView) -> bool {
    match event {
        EventView::Produced { event: Some(ProducerEventView::Progress(frame)), .. } => {
            frame.event == "step"@ || frame.event == "sources"@
        },
        EventView::Produced {
            event: Some(ProducerEventView::Context { gathered, .. }),
            ..
        } => gathered,
        _ => false,
    }
}

/// The entities of the last context among the first `n` events; none without one.
pub open spec fn resolved_before(events: Seq<EventView>, n: int) -> Seq<JsonView>
    decreases n,
{
    if n <= 0 {
        Seq::empty()
    } else if is_context(events[n - 1]) {
        events[n - 1]->event->0->resolved
    } else {
        resolved_before(events, n - 1)
    }
}

/// The tool exchange of the last context among the first `n` events; empty without one.
pub open spec fn exchange_before(events: Seq<EventView>, n: int) -> Seq<JsonView>
    decreases n,
{
    if n <= 0 {
        Seq::empty()
    } else if is_context(events[n - 1]) {
        events[n - 1]->event->0->tool_exchange
    } else {
        exchange_before(events, n - 1)
    }
}

/// Whether a stop after the first `i` events, with `snapshot` shown by then, takes
/// over sources of the answer before: nothing was looked up and no source is shown.
pub open spec fn takes_over(events: Seq<EventView>, i: int, snapshot: SnapshotView) -> bool {
    &&& snapshot.sources.len() == 0
    &&& forall|k: int| 0 <= k < i ==> !looked_up(#[trigger] events[k])
}

/// The final text of the answer whose message is asked for after `n` events.
pub open spec fn final_text_at(events: Seq<EventView>, n: int) -> Option<Seq<char>> {
    match events[n - 1] {
        EventView::Produced { event: Some(ProducerEventView::Outcome(Ok(answer))), .. } => {
            answer.final_text
        },
        _ => None,
    }
}

/// The last frame of a turn whose message was saved.
pub open spec fn last_frame(stopped: bool) -> ActionView {
    ActionView::Complete(
        TerminalView::Done(
            FrameView {
                event: "done"@,
                data: if stopped {
                    "{\"stopped\":true}"@
                } else {
                    "{\"stopped\":false}"@
                },
            },
        ),
    )
}

/// Whether what a turn has collected is what its first `n` events told it.
spec fn told(known: CollectedView, events: Seq<EventView>, n: int) -> bool {
    &&& known.resolved == resolved_before(events, n)
    &&& known.tool_exchange == exchange_before(events, n)
    &&& known.gathered == exists|k: int| 0 <= k < n && looked_up(#[trigger] events[k])
}

/// Whether a turn waits with an action for the save of a message, and what it still
/// holds of the answer.
spec fn holds(
    events: Seq<EventView>,
    n: int,
    final_text: Option<Seq<char>>,
    stopped: bool,
) -> bool {
    &&& n > 0
    &&& asked(events, n) is Save
    &&& final_text == final_text_at(events, n)
    &&& stopped == asked(events, n)->Save_0.record.stopped
}

/// How the first `n` events brought a turn to where it stands.
spec fn stands(events: Seq<EventView>, n: int) -> bool {
    match state_at(events, n) {
        GenerationView::Collecting(known) => told(known, events, n) && asked(events, n) is Poll,
        GenerationView::Publishing(known) => {
            &&& told(known, events, n)
            &&& n > 0
            &&& frame_sent(events[n - 1]) is Some
            &&& !is_terminal(frame_sent(events[n - 1])->0.event)
            &&& asked(events, n) == ActionView::Publish(frame_sent(events[n - 1])->0)
        },
        GenerationView::Stopping(known) => {
            &&& told(known, events, n)
            &&& asked(events, n) is TakeSnapshot
            &&& n > 0
            &&& events[n - 1] is Cancelled
        },
        GenerationView::Carrying(known, snapshot) => {
            &&& told(known, events, n)
            &&& asked(events, n) == ActionView::CarrySources(snapshot.content)
            &&& known.can_stop()
            &&& n > 1
            &&& events[n - 1] == EventView::Shown(snapshot)
            &&& events[n - 2] is Cancelled
        },
        GenerationView::Saving(unpublished) => {
            &&& holds(events, n, unpublished.final_text, unpublished.stopped)
            &&& unpublished.sources == FrameView {
                event: "sources"@,
                data: json_text(asked(events, n)->Save_0.record.sources),
            }
        },
        GenerationView::ShowingSources { final_text, stopped } => {
            &&& n > 0
            &&& holds(events, n - 1, final_text, stopped)
            &&& events[n - 1] == EventView::Saved(true)
            &&& asked(events, n) == ActionView::Publish(
                FrameView {
                    event: "sources"@,
                    data: json_text(asked(events, n - 1)->Save_0.record.sources),
                },
            )
        },
        GenerationView::ShowingText { stopped } => {
            &&& n > 1
            &&& holds(events, n - 2, final_text_at(events, n - 2), stopped)
            &&& events[n - 2] == EventView::Saved(true)
            &&& final_text_at(events, n - 2) is Some
            &&& asked(events, n) == ActionView::PublishText(final_text_at(events, n - 2)->0)
        },
        GenerationView::Ended => asked(events, n) is Complete,
    }
}

/// What one more event tells.
proof fn lemma_told(events: Seq<EventView>, n: int)
    requires
        0 < n <= events.len(),
    ensures
        (exists|k: int| 0 <= k < n && looked_up(#[trigger] events[k])) == ((exists|k: int|
            0 <= k < n - 1 && looked_up(#[trigger] events[k])) || looked_up(events[n - 1])),
{
}

/// Every course brings a turn to where it stands in one of these ways.
proof fn lemma_stands(events: Seq<EventView>, n: int)
    requires
        possible(events),
        0 <= n <= events.len(),
    ensures
        stands(events, n),
    decreases n,
{
    if n > 0 {
        lemma_stands(events, n - 1);
        lemma_told(events, n);
        assert(state_at(events, n - 1).accepts(events[n - 1]));
    }
}

/// A frame of the producer's that does not end a turn goes out as it came: the same
/// name and the same data.
pub proof fn law_a_frame_goes_out_as_it_came(events: Seq<EventView>, i: int, frame: FrameView)
    requires
        possible(events),
        0 <= i < events.len(),
        frame_sent(events[i]) == Some(frame),
        frame.event != "done"@,
        frame.event != "error"@,
    ensures
        asked(events, i + 1) == ActionView::Publish(frame),
        i + 1 < events.len() ==> asked(events, i + 2) == ActionView::Poll,
{
    assert(state_at(events, i).accepts(events[i]));
    if i + 1 < events.len() {
        assert(state_at(events, i + 1).accepts(events[i + 1]));
    }
}

/// Nothing else is published: a frame that goes out was sent by the producer just
/// before, or shows the sources of the message that was saved just before.
pub proof fn law_only_frames_sent_or_saved_sources_go_out(events: Seq<EventView>, n: int)
    requires
        possible(events),
        0 <= n <= events.len(),
        asked(events, n) is Publish,
    ensures
        n > 0,
        match events[n - 1] {
            EventView::Produced { .. } => {
                let frame = asked(events, n)->Publish_0;
                &&& frame_sent(events[n - 1]) == Some(frame)
                &&& frame.event != "done"@
                &&& frame.event != "error"@
            },
            _ => {
                &&& events[n - 1] == EventView::Saved(true)
                &&& asked(events, n - 1) is Save
                &&& asked(events, n)->Publish_0.event == "sources"@
                &&& asked(events, n)->Publish_0.data == json_text(
                    asked(events, n - 1)->Save_0.record.sources,
                )
            },
        },
{
    lemma_stands(events, n);
}

/// A producer may not end the turn by a frame: the turn fails, and is over.
pub proof fn law_a_last_frame_of_the_producer_fails_the_turn(
    events: Seq<EventView>,
    i: int,
    frame: FrameView,
)
    requires
        possible(events),
        0 <= i < events.len(),
        frame_sent(events[i]) == Some(frame),
        frame.event == "done"@ || frame.event == "error"@,
    ensures
        asked(events, i + 1) == ActionView::Complete(
            TerminalView::Failed(
                FailureView {
                    code: "answer_failed"@,
                    message: "Producer sent a terminal as progress"@,
                },
            ),
        ),
        i + 1 == events.len(),
{
    assert(state_at(events, i).accepts(events[i]));
    if i + 1 < events.len() {
        assert(state_at(events, i + 1).accepts(events[i + 1]));
    }
}

/// A failed outcome that comes before any stop ends the turn with its own failure.
pub proof fn law_a_failed_outcome_ends_the_turn(
    events: Seq<EventView>,
    i: int,
    failure: FailureView,
)
    requires
        possible(events),
        0 <= i < events.len(),
        events[i] == (EventView::Produced {
            event: Some(ProducerEventView::Outcome(Err(failure))),
            cancelled: false,
        }),
    ensures
        asked(events, i + 1) == ActionView::Complete(TerminalView::Failed(failure)),
        i + 1 == events.len(),
{
    assert(state_at(events, i).accepts(events[i]));
    if i + 1 < events.len() {
        assert(state_at(events, i + 1).accepts(events[i + 1]));
    }
}

/// The end of the producer's stream ends the turn with a failure that says so, also
/// when a stop was asked for by then.
pub proof fn law_the_end_of_the_stream_ends_the_turn(
    events: Seq<EventView>,
    i: int,
    cancelled: bool,
)
    requires
        possible(events),
        0 <= i < events.len(),
        events[i] == (EventView::Produced { event: None, cancelled }),
    ensures
        asked(events, i + 1) == ActionView::Complete(
            TerminalView::Failed(
                FailureView {
                    code: "stream_ended"@,
                    message: "Answer stream ended unexpectedly"@,
                },
            ),
        ),
        i + 1 == events.len(),
{
    assert(state_at(events, i).accepts(events[i]));
    if i + 1 < events.len() {
        assert(state_at(events, i + 1).accepts(events[i + 1]));
    }
}

/// A context is kept private: the turn goes on to wait. So does an outcome that
/// comes when a stop was asked for already.
pub proof fn law_contexts_and_late_outcomes_show_nothing(events: Seq<EventView>, i: int)
    requires
        possible(events),
        0 <= i < events.len(),
        is_context(events[i]) || (events[i] is Produced && events[i]->cancelled
            && events[i]->event is Some && events[i]->event->0 is Outcome),
    ensures
        asked(events, i + 1) == ActionView::Poll,
{
    assert(state_at(events, i).accepts(events[i]));
}

/// An answer that comes before any stop is stored whole: by the assistant, with its
/// text and each part of its record. Its final text goes out once it is saved.
pub proof fn law_a_complete_answer_is_stored_whole(
    events: Seq<EventView>,
    i: int,
    answer: AnswerView,
)
    requires
        possible(events),
        0 <= i < events.len(),
        events[i] == (EventView::Produced {
            event: Some(ProducerEventView::Outcome(Ok(answer))),
            cancelled: false,
        }),
    ensures
        asked(events, i + 1) is Save,
        ({
            let message = asked(events, i + 1)->Save_0;
            &&& message.role == "assistant"@
            &&& message.content == answer.content
            &&& message.record.stopped == answer.record.stopped
            &&& message.record.steps == answer.record.steps
            &&& message.record.sources == answer.record.sources
            &&& message.record.resolved == answer.record.resolved
            &&& message.record.tool_exchange == answer.record.tool_exchange
        }),
{
    assert(state_at(events, i).accepts(events[i]));
}

/// A stop first asks what the client has been shown. Then, where sources of the
/// answer before are taken over, it asks for those, by the text that was shown. Then
/// it stores one message, whose every part is what the client was shown or what the
/// last context said.
pub proof fn law_a_stop_stores_what_was_shown(events: Seq<EventView>, i: int)
    requires
        possible(events),
        0 <= i < events.len(),
        events[i] is Cancelled,
    ensures
        asked(events, i + 1) == ActionView::TakeSnapshot,
        i + 1 < events.len() ==> events[i + 1] is Shown && {
            let snapshot = events[i + 1]->Shown_0;
            let stopped_with = |sources: Seq<JsonView>|
                ActionView::Save(
                    MessageView {
                        role: "assistant"@,
                        content: snapshot.content,
                        record: TurnRecordView {
                            stopped: true,
                            steps: JsonView::Array(snapshot.steps),
                            sources: JsonView::Array(sources),
                            resolved: JsonView::Array(resolved_before(events, i)),
                            tool_exchange: JsonView::Array(
                                completed(exchange_before(events, i)),
                            ),
                        },
                    },
                );
            if takes_over(events, i, snapshot) {
                &&& asked(events, i + 2) == ActionView::CarrySources(snapshot.content)
                &&& i + 2 < events.len() ==> events[i + 2] is Carried && asked(events, i + 3)
                    == stopped_with(events[i + 2]->Carried_0)
            } else {
                asked(events, i + 2) == stopped_with(snapshot.sources)
            }
        },
{
    lemma_stands(events, i);
    assert(state_at(events, i).accepts(events[i]));
    if i + 1 < events.len() {
        assert(state_at(events, i + 1).accepts(events[i + 1]));
        if i + 2 < events.len() {
            assert(state_at(events, i + 2).accepts(events[i + 2]));
        }
    }
}

/// Nothing else is stored: a message that is asked for is that of an answer, or that
/// of a stop.
pub proof fn law_only_an_answer_or_a_stop_is_stored(events: Seq<EventView>, n: int)
    requires
        possible(events),
        0 <= n <= events.len(),
        asked(events, n) is Save,
    ensures
        n > 0,
        match events[n - 1] {
            EventView::Produced { event, cancelled } => {
                &&& !cancelled
                &&& event matches Some(ProducerEventView::Outcome(Ok(_)))
            },
            EventView::Shown(_) => n > 1 && events[n - 2] is Cancelled,
            EventView::Carried(_) => n > 2 && events[n - 2] is Shown && events[n - 3]
                is Cancelled,
            _ => false,
        },
{
    if n > 0 {
        lemma_stands(events, n - 1);
        assert(state_at(events, n - 1).accepts(events[n - 1]));
    }
}

/// After a confirmed save the sources of the message go out, then the final text of
/// the answer if it has one, and then the last frame, which says whether the message
/// is that of a stop. A save that is not confirmed fails the turn, which is over.
pub proof fn law_what_follows_a_save(events: Seq<EventView>, i: int, confirmed: bool)
    requires
        possible(events),
        0 <= i < events.len(),
        events[i] == EventView::Saved(confirmed),
    ensures
        asked(events, i) is Save,
        !confirmed ==> {
            &&& i + 1 == events.len()
            &&& asked(events, i + 1) == ActionView::Complete(
                TerminalView::Failed(
                    FailureView {
                        code: "answer_not_saved"@,
                        message: "Could not confirm that the answer was saved."@,
                    },
                ),
            )
        },
        confirmed ==> {
            let record = asked(events, i)->Save_0.record;
            &&& asked(events, i + 1) == ActionView::Publish(
                FrameView { event: "sources"@, data: json_text(record.sources) },
            )
            &&& i + 1 < events.len() ==> match final_text_at(events, i) {
                Some(text) => {
                    &&& asked(events, i + 2) == ActionView::PublishText(text)
                    &&& i + 2 < events.len() ==> asked(events, i + 3) == last_frame(record.stopped)
                        && i + 3 == events.len()
                },
                None => asked(events, i + 2) == last_frame(record.stopped) && i + 2
                    == events.len(),
            }
        },
{
    lemma_stands(events, i);
    assert(state_at(events, i).accepts(events[i]));
    if i + 1 < events.len() {
        assert(state_at(events, i + 1).accepts(events[i + 1]));
        if i + 2 < events.len() {
            assert(state_at(events, i + 2).accepts(events[i + 2]));
            if i + 3 < events.len() {
                assert(state_at(events, i + 3).accepts(events[i + 3]));
            }
        }
    }
}

/// What comes later does not change where a turn stood.
proof fn lemma_prefix(events: Seq<EventView>, event: EventView, n: int)
    requires
        0 <= n <= events.len(),
    ensures
        state_at(events.push(event), n) == state_at(events, n),
    decreases n,
{
    if n > 0 {
        lemma_prefix(events, event, n - 1);
        assert(events.push(event)[n - 1] == events[n - 1]);
    }
}

/// A course goes on with every event that answers what was asked for, and with no
/// other. What was shown can always be told, unless the tool exchange holds a message
/// that is neither an object nor null. After the end nothing comes.
pub proof fn law_what_may_come_next(events: Seq<EventView>, event: EventView)
    requires
        possible(events),
    ensures
        possible(events.push(event)) <==> match asked(events, events.len() as int) {
            ActionView::Poll => event is Produced || event is Cancelled,
            ActionView::Publish(_) => event is Published,
            ActionView::PublishText(_) => event is Published,
            ActionView::TakeSnapshot => {
                let exchange = exchange_before(events, events.len() as int);
                &&& event is Shown
                &&& forall|at: int|
                    0 <= at < exchange.len() ==> (#[trigger] exchange[at]) is Object
                        || exchange[at] is Null
            },
            ActionView::CarrySources(_) => event is Carried,
            ActionView::Save(_) => event is Saved,
            ActionView::Complete(_) => false,
        },
{
    let n = events.len() as int;
    let longer = events.push(event);
    lemma_stands(events, n);
    lemma_prefix(events, event, n);
    assert(longer[n] == event);
    if possible(longer) {
        assert(state_at(longer, n).accepts(longer[n]));
    }
    if state_at(events, n).accepts(event) {
        assert forall|i: int| 0 <= i < longer.len() implies #[trigger] state_at(longer, i).accepts(
            longer[i],
        ) by {
            lemma_prefix(events, event, i);
            if i < n {
                assert(state_at(events, i).accepts(events[i]));
                assert(longer[i] == events[i]);
            }
        }
    }
    if let GenerationView::Stopping(known) = state_at(events, n) {
        assert(known.tool_exchange == exchange_before(events, n));
        if known.can_stop() {
            assert forall|at: int| 0 <= at < known.tool_exchange.len() implies (
            #[trigger] known.tool_exchange[at]) is Object || known.tool_exchange[at] is Null by {
                assert(has_fields(known.tool_exchange[at]));
            }
        }
    }
}

} // verus!
