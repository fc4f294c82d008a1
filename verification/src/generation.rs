//! One turn from its first event to its end, as a machine: it is told what
//! happened and says what to do next. It decides; its driver waits, publishes
//! and stores.
use vstd::prelude::*;
use crate::collect::{event_view, reaction, Collected, CollectedView, Reaction, ReactionView};
use crate::json::{items_view, Json, JsonView};
use crate::save::{
    done, done_frame, failed_to_save, message_of, not_saved, prepare, unpublished_of, Message,
    MessageView, Unpublished, UnpublishedView,
};
use crate::turn::{
    text_view, Answer, AnswerView, Frame, FrameView, ProducerEvent, ProducerEventView, Snapshot,
    SnapshotView, Terminal, TerminalView,
};

verus! {

/// Where a turn stands.
#[derive(Debug, PartialEq, Eq)]
pub enum Generation {
    /// Waiting for the producer, or for the user to stop it.
    Collecting(Collected),
    /// A frame of the producer's is going out.
    Publishing(Collected),
    /// The user stopped the turn; what the client has been shown is not known yet.
    Stopping(Collected),
    /// The stopped answer shows sources of the answer before it, not known yet.
    Carrying(Collected, Snapshot),
    /// The answer is being stored. A stop has no say any more.
    Saving(Unpublished),
    /// The answer is stored and its sources are going out.
    ShowingSources { final_text: Option<String>, stopped: bool },
    /// The answer is stored and its final text is going out.
    ShowingText { stopped: bool },
    /// The turn is over.
    Ended,
}

#[verifier::ext_equal]
pub enum GenerationView {
    Collecting(CollectedView),
    Publishing(CollectedView),
    Stopping(CollectedView),
    Carrying(CollectedView, SnapshotView),
    Saving(UnpublishedView),
    ShowingSources { final_text: Option<Seq<char>>, stopped: bool },
    ShowingText { stopped: bool },
    Ended,
}

impl View for Generation {
    type V = GenerationView;

    open spec fn view(&self) -> GenerationView {
        match *self {
            Generation::Collecting(collected) => GenerationView::Collecting(collected@),
            Generation::Publishing(collected) => GenerationView::Publishing(collected@),
            Generation::Stopping(collected) => GenerationView::Stopping(collected@),
            Generation::Carrying(collected, snapshot) => GenerationView::Carrying(
                collected@,
                snapshot@,
            ),
            Generation::Saving(unpublished) => GenerationView::Saving(unpublished@),
            Generation::ShowingSources { final_text, stopped } => GenerationView::ShowingSources {
                final_text: text_view(final_text),
                stopped,
            },
            Generation::ShowingText { stopped } => GenerationView::ShowingText { stopped },
            Generation::Ended => GenerationView::Ended,
        }
    }
}

/// What happened.
#[derive(Debug, PartialEq, Eq)]
pub enum Event {
    /// The producer's next event came; `None` is the end of its stream. `cancelled`
    /// tells whether the user had asked to stop by then.
    Produced { event: Option<ProducerEvent>, cancelled: bool },
    /// The user asked to stop before the producer's next event came.
    Cancelled,
    /// What was to go out went out.
    Published,
    /// What the client has been shown.
    Shown(Snapshot),
    /// The sources of the answer before that the stopped answer still refers to.
    Carried(Vec<Json>),
    /// Whether the store confirmed the message.
    Saved(bool),
}

#[verifier::ext_equal]
pub enum EventView {
    Produced { event: Option<ProducerEventView>, cancelled: bool },
    Cancelled,
    Published,
    Shown(SnapshotView),
    Carried(Seq<JsonView>),
    Saved(bool),
}

impl View for Event {
    type V = EventView;

    open spec fn view(&self) -> EventView {
        match *self {
            Event::Produced { event, cancelled } => EventView::Produced {
                event: event_view(event),
                cancelled,
            },
            Event::Cancelled => EventView::Cancelled,
            Event::Published => EventView::Published,
            Event::Shown(snapshot) => EventView::Shown(snapshot@),
            Event::Carried(sources) => EventView::Carried(items_view(sources@)),
            Event::Saved(confirmed) => EventView::Saved(confirmed),
        }
    }
}

/// What to do next.
#[derive(Debug, PartialEq, Eq)]
pub enum Action {
    /// Wait for the producer, or for the user to stop it. A stop that is there
    /// already comes first.
    Poll,
    /// Let a frame go out.
    Publish(Frame),
    /// Let a piece of the answer's text go out.
    PublishText(String),
    /// Drop the producer, then tell what the client has been shown.
    TakeSnapshot,
    /// Tell which sources of the answer before the given text still refers to.
    CarrySources(String),
    /// Drop the producer, then store a message, and let nothing interrupt that.
    Save(Message),
    /// End the turn.
    Complete(Terminal),
}

#[verifier::ext_equal]
pub enum ActionView {
    Poll,
    Publish(FrameView),
    PublishText(Seq<char>),
    TakeSnapshot,
    CarrySources(Seq<char>),
    Save(MessageView),
    Complete(TerminalView),
}

impl View for Action {
    type V = ActionView;

    open spec fn view(&self) -> ActionView {
        match *self {
            Action::Poll => ActionView::Poll,
            Action::Publish(frame) => ActionView::Publish(frame@),
            Action::PublishText(text) => ActionView::PublishText(text@),
            Action::TakeSnapshot => ActionView::TakeSnapshot,
            Action::CarrySources(content) => ActionView::CarrySources(content@),
            Action::Save(message) => ActionView::Save(message@),
            Action::Complete(terminal) => ActionView::Complete(terminal@),
        }
    }
}

/// Going on to store an answer.
pub open spec fn storing(answer: AnswerView) -> (GenerationView, ActionView) {
    (GenerationView::Saving(unpublished_of(answer)), ActionView::Save(message_of(answer)))
}

/// Going on to the end of the turn.
pub open spec fn ending(terminal: TerminalView) -> (GenerationView, ActionView) {
    (GenerationView::Ended, ActionView::Complete(terminal))
}

impl GenerationView {
    /// A turn of which nothing has happened yet.
    pub open spec fn begun() -> GenerationView {
        GenerationView::Collecting(CollectedView::nothing())
    }

    /// Whether an event can come where the turn stands: it answers the action that
    /// was asked for. What a stop finds has to be closable.
    pub open spec fn accepts(self, event: EventView) -> bool {
        match self {
            GenerationView::Collecting(_) => event is Produced || event is Cancelled,
            GenerationView::Publishing(_) => event is Published,
            GenerationView::Stopping(collected) => event is Shown && collected.can_stop(),
            GenerationView::Carrying(collected, _) => event is Carried && collected.can_stop(),
            GenerationView::Saving(_) => event is Saved,
            GenerationView::ShowingSources { .. } => event is Published,
            GenerationView::ShowingText { .. } => event is Published,
            GenerationView::Ended => false,
        }
    }

    /// Where the turn stands after an event, and what to do then.
    pub open spec fn step(self, event: EventView) -> (GenerationView, ActionView) {
        match (self, event) {
            (GenerationView::Collecting(collected), EventView::Produced { event, cancelled }) => {
                let known = collected.after(event);
                match reaction(event, cancelled) {
                    ReactionView::Wait => (GenerationView::Collecting(known), ActionView::Poll),
                    ReactionView::Publish(frame) => (
                        GenerationView::Publishing(known),
                        ActionView::Publish(frame),
                    ),
                    ReactionView::Finish(Ok(answer)) => storing(answer),
                    ReactionView::Finish(Err(failure)) => ending(TerminalView::Failed(failure)),
                }
            },
            (GenerationView::Collecting(collected), EventView::Cancelled) => (
                GenerationView::Stopping(collected),
                ActionView::TakeSnapshot,
            ),
            (GenerationView::Publishing(collected), EventView::Published) => (
                GenerationView::Collecting(collected),
                ActionView::Poll,
            ),
            (GenerationView::Stopping(collected), EventView::Shown(snapshot)) => {
                if collected.carries(snapshot) {
                    (
                        GenerationView::Carrying(collected, snapshot),
                        ActionView::CarrySources(snapshot.content),
                    )
                } else {
                    storing(collected.stopped(snapshot))
                }
            },
            (GenerationView::Carrying(collected, snapshot), EventView::Carried(sources)) => storing(
                collected.stopped(SnapshotView { sources, ..snapshot }),
            ),
            (GenerationView::Saving(unpublished), EventView::Saved(confirmed)) => {
                if confirmed {
                    (
                        GenerationView::ShowingSources {
                            final_text: unpublished.final_text,
                            stopped: unpublished.stopped,
                        },
                        ActionView::Publish(unpublished.sources),
                    )
                } else {
                    ending(TerminalView::Failed(not_saved()))
                }
            },
            (
                GenerationView::ShowingSources { final_text, stopped },
                EventView::Published,
            ) => match final_text {
                Some(text) => (
                    GenerationView::ShowingText { stopped },
                    ActionView::PublishText(text),
                ),
                None => ending(TerminalView::Done(done_frame(stopped))),
            },
            (GenerationView::ShowingText { stopped }, EventView::Published) => ending(
                TerminalView::Done(done_frame(stopped)),
            ),
            _ => (self, ActionView::Poll),
        }
    }
}

/// Goes on to store an answer.
fn store(answer: Answer) -> (next: (Generation, Action))
    ensures
        (next.0@, next.1@) == storing(answer@),
{
    let (message, unpublished) = prepare(answer);
    (Generation::Saving(unpublished), Action::Save(message))
}

/// Goes on to the end of the turn.
fn end(terminal: Terminal) -> (next: (Generation, Action))
    ensures
        (next.0@, next.1@) == ending(terminal@),
{
    (Generation::Ended, Action::Complete(terminal))
}

impl Generation {
    /// A turn of which nothing has happened yet, and what to do first.
    pub fn begin() -> (begun: (Generation, Action))
        ensures
            begun.0@ == GenerationView::begun(),
            begun.1@ == ActionView::Poll,
    {
        (Generation::Collecting(Collected::nothing()), Action::Poll)
    }

    /// Whether an event can come where the turn stands.
    pub fn accepts(&self, event: &Event) -> (yes: bool)
        ensures
            yes == self@.accepts(event@),
    {
        match (self, event) {
            (Generation::Collecting(_), Event::Produced { .. }) => true,
            (Generation::Collecting(_), Event::Cancelled) => true,
            (Generation::Publishing(_), Event::Published) => true,
            (Generation::Stopping(collected), Event::Shown(_)) => collected.can_stop(),
            (Generation::Carrying(collected, _), Event::Carried(_)) => collected.can_stop(),
            (Generation::Saving(_), Event::Saved(_)) => true,
            (Generation::ShowingSources { .. }, Event::Published) => true,
            (Generation::ShowingText { .. }, Event::Published) => true,
            _ => false,
        }
    }

    /// Takes in what happened and says what to do next.
    pub fn advance(self, event: Event) -> (next: (Generation, Action))
        requires
            self@.accepts(event@),
        ensures
            (next.0@, next.1@) == self@.step(event@),
    {
        match (self, event) {
            (Generation::Collecting(collected), Event::Produced { event, cancelled }) => {
                let (known, reaction) = collected.take(event, cancelled);
                match reaction {
                    Reaction::Wait => (Generation::Collecting(known), Action::Poll),
                    Reaction::Publish(frame) => (
                        Generation::Publishing(known),
                        Action::Publish(frame),
                    ),
                    Reaction::Finish(Ok(answer)) => store(answer),
                    Reaction::Finish(Err(failure)) => end(Terminal::Failed(failure)),
                }
            },
            (Generation::Collecting(collected), Event::Cancelled) => (
                Generation::Stopping(collected),
                Action::TakeSnapshot,
            ),
            (Generation::Publishing(collected), Event::Published) => (
                Generation::Collecting(collected),
                Action::Poll,
            ),
            (Generation::Stopping(collected), Event::Shown(snapshot)) => {
                if collected.carries(&snapshot) {
                    let content = snapshot.content.clone();
                    (Generation::Carrying(collected, snapshot), Action::CarrySources(content))
                } else {
                    store(collected.stopped(snapshot))
                }
            },
            (Generation::Carrying(collected, snapshot), Event::Carried(sources)) => {
                let shown = Snapshot { sources, ..snapshot };
                store(collected.stopped(shown))
            },
            (Generation::Saving(unpublished), Event::Saved(confirmed)) => {
                if confirmed {
                    let Unpublished { sources, final_text, stopped } = unpublished;
                    (
                        Generation::ShowingSources { final_text, stopped },
                        Action::Publish(sources),
                    )
                } else {
                    end(failed_to_save())
                }
            },
            (Generation::ShowingSources { final_text, stopped }, Event::Published) => {
                match final_text {
                    Some(text) => (Generation::ShowingText { stopped }, Action::PublishText(text)),
                    None => end(done(stopped)),
                }
            },
            (Generation::ShowingText { stopped }, Event::Published) => end(done(stopped)),
            (other, _) => (other, Action::Poll),
        }
    }
}

} // verus!
