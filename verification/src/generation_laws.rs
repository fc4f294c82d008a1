//! What holds of every course that a turn can take.
//!
//! A course is the sequence of events that came. Before event `i` the turn stands
//! at `state_at(events, i)`, and `asked(events, i)` is the action that event `i`
//! answers.
use vstd::prelude::*;
use crate::collect::{is_terminal, shows_gathering, CollectedView};
use crate::exchange_laws::{all_answered, law_every_call_is_answered};
use crate::generation::{ActionView, EventView, GenerationView};
use crate::json::JsonView;
use crate::save::{done_frame, message_of, not_saved, unpublished_of};
use crate::turn::{AnswerView, ProducerEventView, SnapshotView, TerminalView};

verus! {

/// Where a turn stands after its first `n` events.
pub open spec fn state_at(events: Seq<EventView>, n: int) -> GenerationView
    decreases n,
{
    if n <= 0 {
        GenerationView::begun()
    } else {
        state_at(events, n - 1).step(events[n - 1]).0
    }
}

/// What was asked for after the first `n` events.
pub open spec fn asked(events: Seq<EventView>, n: int) -> ActionView {
    if n <= 0 {
        ActionView::Poll
    } else {
        state_at(events, n - 1).step(events[n - 1]).1
    }
}

/// Whether a turn can take this course: every event answers what was asked for.
pub open spec fn possible(events: Seq<EventView>) -> bool {
    forall|i: int|
        0 <= i < events.len() ==> #[trigger] state_at(events, i).accepts(events[i])
}

/// How far a turn has come. Only following the producer takes any number of events.
spec fn stage(state: GenerationView) -> int {
    match state {
        GenerationView::Collecting(_) => 0,
        GenerationView::Publishing(_) => 0,
        GenerationView::Stopping(_) => 1,
        GenerationView::Carrying(_, _) => 2,
        GenerationView::Saving(_) => 3,
        GenerationView::ShowingSources { .. } => 4,
        GenerationView::ShowingText { .. } => 5,
        GenerationView::Ended => 6,
    }
}

/// Whether an action is what a turn waits for where it stands.
spec fn waits_for(state: GenerationView, action: ActionView) -> bool {
    match state {
        GenerationView::Collecting(_) => action is Poll,
        GenerationView::Publishing(_) => action is Publish && !is_terminal(
            action->Publish_0.event,
        ),
        GenerationView::Stopping(_) => action is TakeSnapshot,
        GenerationView::Carrying(_, snapshot) => action == ActionView::CarrySources(
            snapshot.content,
        ),
        GenerationView::Saving(unpublished) => action is Save
            && action->Save_0.record.stopped == unpublished.stopped && !is_terminal(
            unpublished.sources.event,
        ),
        GenerationView::ShowingSources { .. } => action is Publish && !is_terminal(
            action->Publish_0.event,
        ),
        GenerationView::ShowingText { .. } => action is PublishText,
        GenerationView::Ended => action is Complete,
    }
}

/// The name of the frame with the sources is not that of a last frame.
proof fn lemma_sources_go_on()
    ensures
        !is_terminal("sources"@),
{
    reveal_strlit("done");
    reveal_strlit("error");
    reveal_strlit("sources");
    assert("sources"@.len() != "done"@.len());
    assert("sources"@.len() != "error"@.len());
}

/// What was asked for fits where the turn stands.
proof fn lemma_waits_for(events: Seq<EventView>, n: int)
    requires
        possible(events),
        0 <= n <= events.len(),
    ensures
        waits_for(state_at(events, n), asked(events, n)),
    decreases n,
{
    lemma_sources_go_on();
    if n > 0 {
        lemma_waits_for(events, n - 1);
        assert(state_at(events, n - 1).accepts(events[n - 1]));
    }
}

/// A turn never goes back, and once it has left its producer it goes on with
/// every event.
proof fn lemma_stages(events: Seq<EventView>, i: int, j: int)
    requires
        possible(events),
        0 <= i <= j <= events.len(),
    ensures
        stage(state_at(events, i)) <= stage(state_at(events, j)),
        stage(state_at(events, i)) > 0 ==> stage(state_at(events, i)) + (j - i) <= stage(
            state_at(events, j),
        ),
    decreases j - i,
{
    if i < j {
        lemma_stages(events, i, j - 1);
        assert(state_at(events, j - 1).accepts(events[j - 1]));
    }
}

/// A turn stores at most one message.
pub proof fn law_one_message(events: Seq<EventView>, i: int, j: int)
    requires
        possible(events),
        0 <= i <= j <= events.len(),
        asked(events, i) is Save,
        asked(events, j) is Save,
    ensures
        i == j,
{
    lemma_waits_for(events, i);
    lemma_waits_for(events, j);
    lemma_stages(events, i, j);
}

/// A turn ends at most once, and nothing is asked for after that.
pub proof fn law_one_end(events: Seq<EventView>, i: int)
    requires
        possible(events),
        0 <= i <= events.len(),
        asked(events, i) is Complete,
    ensures
        i == events.len(),
{
    lemma_waits_for(events, i);
    if i < events.len() {
        assert(state_at(events, i).accepts(events[i]));
    }
}

/// No frame that goes out before the end is one that ends a turn.
pub proof fn law_no_end_among_the_frames(events: Seq<EventView>, i: int)
    requires
        possible(events),
        0 <= i <= events.len(),
        asked(events, i) is Publish,
    ensures
        !is_terminal(asked(events, i)->Publish_0.event),
{
    lemma_waits_for(events, i);
}

/// Behind an answer that is shown stands the confirmed save of its message.
proof fn lemma_shown_means_saved(events: Seq<EventView>, n: int) -> (saved: int)
    requires
        possible(events),
        0 <= n <= events.len(),
        state_at(events, n) is ShowingSources || state_at(events, n) is ShowingText,
    ensures
        0 <= saved < n,
        asked(events, saved) is Save,
        events[saved] == EventView::Saved(true),
        match state_at(events, n) {
            GenerationView::ShowingSources { stopped, .. } => stopped == asked(
                events,
                saved,
            )->Save_0.record.stopped,
            GenerationView::ShowingText { stopped } => stopped == asked(
                events,
                saved,
            )->Save_0.record.stopped,
            _ => true,
        },
    decreases n,
{
    assert(state_at(events, n - 1).accepts(events[n - 1]));
    lemma_waits_for(events, n - 1);
    if state_at(events, n) is ShowingText {
        lemma_shown_means_saved(events, n - 1)
    } else {
        n - 1
    }
}

/// A turn that reports an answer has stored it: the store confirmed the message,
/// and the report says of it whether it was stopped. A failed save reports none.
pub proof fn law_done_means_saved(events: Seq<EventView>, n: int) -> (saved: int)
    requires
        possible(events),
        0 <= n <= events.len(),
        asked(events, n) is Complete,
        asked(events, n)->Complete_0 is Done,
    ensures
        0 <= saved < n,
        asked(events, saved) is Save,
        events[saved] == EventView::Saved(true),
        asked(events, n) == ActionView::Complete(
            TerminalView::Done(done_frame(asked(events, saved)->Save_0.record.stopped)),
        ),
{
    lemma_waits_for(events, n);
    lemma_shown_means_saved(events, n - 1)
}

/// A save that is not confirmed ends the turn at once, with a failure that says
/// only that.
pub proof fn law_failed_save_ends_the_turn(events: Seq<EventView>, i: int)
    requires
        possible(events),
        0 <= i < events.len(),
        events[i] == EventView::Saved(false),
    ensures
        asked(events, i) is Save,
        asked(events, i + 1) == ActionView::Complete(TerminalView::Failed(not_saved())),
        i + 1 == events.len(),
{
    assert(state_at(events, i).accepts(events[i]));
    lemma_waits_for(events, i);
    law_one_end(events, i + 1);
}

/// A final text goes out only after the store confirmed the message.
pub proof fn law_final_text_waits_for_the_save(events: Seq<EventView>, n: int) -> (saved: int)
    requires
        possible(events),
        0 <= n <= events.len(),
        asked(events, n) is PublishText,
    ensures
        0 <= saved < n,
        asked(events, saved) is Save,
        events[saved] == EventView::Saved(true),
{
    lemma_waits_for(events, n);
    lemma_shown_means_saved(events, n)
}

/// Once a message is being stored a stop comes too late: neither a stop nor the
/// producer has a say any more.
pub proof fn law_a_late_stop_changes_nothing(events: Seq<EventView>, i: int, k: int)
    requires
        possible(events),
        0 <= i <= k < events.len(),
        asked(events, i) is Save,
    ensures
        !(events[k] is Cancelled),
        !(events[k] is Produced),
{
    lemma_waits_for(events, i);
    lemma_stages(events, i, k);
    assert(state_at(events, k).accepts(events[k]));
}

/// After a stop the producer is not followed any more.
pub proof fn law_a_stop_ends_the_producer(events: Seq<EventView>, i: int, k: int)
    requires
        possible(events),
        0 <= i < k <= events.len(),
        events[i] is Cancelled,
    ensures
        !(asked(events, k) is Poll),
        k < events.len() ==> !(events[k] is Produced),
{
    assert(state_at(events, i).accepts(events[i]));
    lemma_stages(events, i + 1, k);
    lemma_waits_for(events, k);
    if k < events.len() {
        assert(state_at(events, k).accepts(events[k]));
    }
}

/// What a client has been shown, with the sources that a stopped answer has.
pub open spec fn shown_at_stop(
    known: CollectedView,
    events: Seq<EventView>,
    i: int,
) -> SnapshotView {
    let snapshot = events[i + 1]->Shown_0;
    if known.carries(snapshot) {
        SnapshotView { sources: events[i + 2]->Carried_0, ..snapshot }
    } else {
        snapshot
    }
}

/// A stop stores one message: what was published until then, marked as stopped,
/// with the complete part of the history. It is stored as soon as what was
/// published is known, and no final text goes out with it.
pub proof fn law_a_stop_keeps_what_was_published(events: Seq<EventView>, i: int, n: int)
    requires
        possible(events),
        0 <= i < n <= events.len(),
        events[i] is Cancelled,
        asked(events, n) is Save,
    ensures
        state_at(events, i) is Collecting,
        events[i + 1] is Shown,
        ({
            let known = state_at(events, i)->Collecting_0;
            let carries = known.carries(events[i + 1]->Shown_0);
            let shown = shown_at_stop(known, events, i);
            &&& n == if carries {
                i + 3
            } else {
                i + 2
            }
            &&& carries ==> asked(events, i + 2) == ActionView::CarrySources(shown.content)
                && events[i + 2] is Carried
            &&& asked(events, n) == ActionView::Save(message_of(known.stopped(shown)))
        }),
        forall|k: int| i < k <= events.len() ==> !(#[trigger] asked(events, k) is PublishText),
{
    let known = state_at(events, i)->Collecting_0;
    assert(state_at(events, i).accepts(events[i]));
    assert(state_at(events, i + 1) == GenerationView::Stopping(known));
    lemma_waits_for(events, n);
    let snapshot = events[i + 1]->Shown_0;
    lemma_waits_for(events, i + 2);
    if known.carries(snapshot) {
        assert(state_at(events, i + 2).accepts(events[i + 2]));
        law_one_message(events, i + 3, n);
    } else {
        law_one_message(events, i + 2, n);
    }
    assert forall|k: int| i < k <= events.len() implies !(#[trigger] asked(
        events,
        k,
    ) is PublishText) by {
        lemma_waits_for(events, k);
        if k <= n {
            lemma_stages(events, k, n);
        } else {
            lemma_no_text(events, n, k);
        }
    }
}

/// A message stored without a final text is shown without one.
proof fn lemma_no_text(events: Seq<EventView>, n: int, k: int)
    requires
        possible(events),
        0 <= n < k <= events.len(),
        state_at(events, n) is Saving,
        state_at(events, n)->Saving_0.final_text is None,
    ensures
        !(state_at(events, k) is ShowingText),
        state_at(events, k) is ShowingSources ==> state_at(events, k)->final_text is None,
    decreases k - n,
{
    if k - 1 > n {
        lemma_no_text(events, n, k - 1);
        lemma_stages(events, n, k - 1);
    }
}

/// A stopped turn does not end without a message: one is stored, also when nothing
/// had been published yet.
pub proof fn law_a_stop_is_stored(events: Seq<EventView>, i: int, n: int) -> (stored: int)
    requires
        possible(events),
        0 <= i < n <= events.len(),
        events[i] is Cancelled,
        asked(events, n) is Complete,
    ensures
        i < stored < n,
        asked(events, stored) is Save,
        asked(events, stored)->Save_0.record.stopped,
{
    let known = state_at(events, i)->Collecting_0;
    assert(state_at(events, i).accepts(events[i]));
    assert(state_at(events, i + 1) == GenerationView::Stopping(known));
    lemma_waits_for(events, n);
    assert(state_at(events, i + 1).accepts(events[i + 1]));
    let stored = if known.carries(events[i + 1]->Shown_0) {
        assert(state_at(events, i + 2).accepts(events[i + 2]));
        i + 3
    } else {
        i + 2
    };
    lemma_waits_for(events, stored);
    law_a_stop_keeps_what_was_published(events, i, stored);
    stored
}

/// No unanswered tool call of a stopped turn enters the next one: in the message
/// that is stored every call has its result.
pub proof fn law_a_stop_stores_no_unanswered_call(events: Seq<EventView>, i: int, n: int)
    requires
        possible(events),
        0 <= i < n <= events.len(),
        events[i] is Cancelled,
        asked(events, n) is Save,
    ensures
        asked(events, n)->Save_0.record.tool_exchange is Array,
        all_answered(asked(events, n)->Save_0.record.tool_exchange->Array_0),
{
    law_a_stop_keeps_what_was_published(events, i, n);
    law_every_call_is_answered(state_at(events, i)->Collecting_0.tool_exchange);
}

/// An answer that comes before any stop is stored as it is. Once it is saved its
/// sources go out, then its final text if it has one, then the end of the turn.
pub proof fn law_a_complete_answer_is_stored_and_shown(
    events: Seq<EventView>,
    i: int,
    answer: AnswerView,
)
    requires
        possible(events),
        0 <= i < events.len(),
        events[i] == (EventView::Produced {
            event: Some(ProducerEventView::Outcome(Ok(answer))),
            cancelled: false,
        }),
    ensures
        asked(events, i + 1) == ActionView::Save(message_of(answer)),
        i + 1 < events.len() && events[i + 1] == EventView::Saved(true) ==> {
            let done = ActionView::Complete(TerminalView::Done(done_frame(answer.record.stopped)));
            &&& asked(events, i + 2) == ActionView::Publish(unpublished_of(answer).sources)
            &&& i + 2 < events.len() ==> match answer.final_text {
                Some(text) => {
                    &&& asked(events, i + 3) == ActionView::PublishText(text)
                    &&& i + 3 < events.len() ==> asked(events, i + 4) == done
                },
                None => asked(events, i + 3) == done,
            }
        },
{
    assert(state_at(events, i).accepts(events[i]));
    if i + 1 < events.len() && events[i + 1] == EventView::Saved(true) {
        if i + 2 < events.len() {
            assert(state_at(events, i + 2).accepts(events[i + 2]));
            if i + 3 < events.len() {
                assert(state_at(events, i + 3).accepts(events[i + 3]));
            }
        }
    }
}

/// Whether an event shows that the turn looked something up.
pub open spec fn gathers(event: EventView) -> bool {
    match event {
        EventView::Produced { event: Some(ProducerEventView::Progress(frame)), .. } => {
            shows_gathering(frame.event)
        },
        EventView::Produced {
            event: Some(ProducerEventView::Context { gathered, .. }),
            ..
        } => gathered,
        _ => false,
    }
}

/// What a turn has collected, where it still holds that.
pub open spec fn collected_in(state: GenerationView) -> Option<CollectedView> {
    match state {
        GenerationView::Collecting(collected) => Some(collected),
        GenerationView::Publishing(collected) => Some(collected),
        GenerationView::Stopping(collected) => Some(collected),
        GenerationView::Carrying(collected, _) => Some(collected),
        _ => None,
    }
}

/// A turn counts as having gathered when an event showed it.
proof fn lemma_gathered(events: Seq<EventView>, n: int)
    requires
        possible(events),
        0 <= n <= events.len(),
        collected_in(state_at(events, n)) is Some,
    ensures
        collected_in(state_at(events, n))->0.gathered == exists|k: int|
            0 <= k < n && gathers(#[trigger] events[k]),
    decreases n,
{
    if n > 0 {
        assert(state_at(events, n - 1).accepts(events[n - 1]));
        lemma_gathered(events, n - 1);
    }
}

/// A stopped answer shows the sources of the answer before it only when this turn
/// neither looked anything up nor published sources, and then it always does.
pub proof fn law_sources_are_carried_only_without_gathering(events: Seq<EventView>, i: int)
    requires
        possible(events),
        0 <= i < events.len(),
        events[i] is Shown,
    ensures
        asked(events, i + 1) is CarrySources <==> events[i]->Shown_0.sources.len() == 0 && forall|
            k: int,
        |
            0 <= k < i ==> !gathers(#[trigger] events[k]),
{
    assert(state_at(events, i).accepts(events[i]));
    lemma_gathered(events, i);
}

/// The history that a stop keeps is that of the last context which came: nothing
/// where none came.
pub proof fn law_the_last_context_counts(events: Seq<EventView>, i: int, n: int)
    requires
        possible(events),
        -1 <= i < n <= events.len(),
        i >= 0 ==> events[i] is Produced && events[i]->event is Some && events[i]->event->0
            is Context,
        forall|k: int|
            i < k < n ==> !((#[trigger] events[k]) is Produced && events[k]->event is Some
                && events[k]->event->0 is Context),
        collected_in(state_at(events, n)) is Some,
    ensures
        ({
            let known = collected_in(state_at(events, n))->0;
            if i >= 0 {
                &&& known.resolved == events[i]->event->0->resolved
                &&& known.tool_exchange == events[i]->event->0->tool_exchange
            } else {
                &&& known.resolved == Seq::<JsonView>::empty()
                &&& known.tool_exchange == Seq::<JsonView>::empty()
            }
        }),
    decreases n,
{
    if n > 0 {
        assert(state_at(events, n - 1).accepts(events[n - 1]));
        if n - 1 > i {
            law_the_last_context_counts(events, i, n - 1);
        }
    }
}

/// A turn that ends in a failure has stored no message, unless the failure is
/// that the store did not confirm it.
pub proof fn law_a_failed_turn_stores_nothing(events: Seq<EventView>, n: int, k: int)
    requires
        possible(events),
        0 <= k <= n <= events.len(),
        asked(events, n) is Complete,
        asked(events, n)->Complete_0 is Failed,
        asked(events, k) is Save,
    ensures
        k == n - 1,
        events[k] == EventView::Saved(false),
        asked(events, n) == ActionView::Complete(TerminalView::Failed(not_saved())),
{
    lemma_waits_for(events, n);
    lemma_waits_for(events, k);
    lemma_stages(events, k, n - 1);
    lemma_waits_for(events, n - 1);
}

/// A turn that stores a message does not end before the store has answered, so
/// nothing else can take the conversation meanwhile.
pub proof fn law_a_turn_outlasts_its_save(events: Seq<EventView>, i: int, n: int)
    requires
        possible(events),
        0 <= i <= n <= events.len(),
        asked(events, i) is Save,
        asked(events, n) is Complete,
    ensures
        i < n,
        events[i] is Saved,
{
    lemma_waits_for(events, i);
    assert(state_at(events, i).accepts(events[i]));
}

/// An outcome that comes after the user asked to stop does not count: the turn goes
/// on to wait for the stop.
pub proof fn law_an_outcome_after_a_stop_does_not_count(events: Seq<EventView>, i: int)
    requires
        possible(events),
        0 <= i < events.len(),
        events[i] is Produced,
        events[i]->cancelled,
        events[i]->event is Some,
        events[i]->event->0 is Outcome,
    ensures
        asked(events, i + 1) is Poll,
        state_at(events, i + 1) == state_at(events, i),
{
}

/// Once a turn has left its producer, because of a stop or an outcome, it is over
/// after five events at the latest.
pub proof fn law_a_turn_settles(events: Seq<EventView>, i: int)
    requires
        possible(events),
        0 <= i <= events.len(),
        !(state_at(events, i) is Collecting),
        !(state_at(events, i) is Publishing),
    ensures
        events.len() <= i + 5,
{
    lemma_stages(events, i, events.len() as int);
}

} // verus!
