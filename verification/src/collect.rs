//! Following a producer: which of its events are published, when the answer is
//! there, and what is left of it when the user stops.
use vstd::prelude::*;
use crate::exchange::{completed, completed_exchange, has_fields};
use crate::json::{items_view, same_text, Json, JsonView};
use crate::turn::{
    outcome_view, Answer, AnswerView, Failure, FailureView, Frame, FrameView, ProducerEvent,
    ProducerEventView, Snapshot, SnapshotView, TurnRecord, TurnRecordView,
};

verus! {

/// Whether a frame of this name ends a turn.
pub open spec fn is_terminal(event: Seq<char>) -> bool {
    event == "done"@ || event == "error"@
}

/// Whether a frame of this name shows that the turn looked something up. A search
/// that found nothing publishes its sources too.
pub open spec fn shows_gathering(event: Seq<char>) -> bool {
    event == "step"@ || event == "sources"@
}

/// No frame that ends a turn shows that it looked something up.
proof fn lemma_event_names()
    ensures
        forall|event: Seq<char>| #[trigger] is_terminal(event) ==> !shows_gathering(event),
{
    reveal_strlit("done");
    reveal_strlit("error");
    reveal_strlit("step");
    reveal_strlit("sources");
    assert("done"@[0] != "step"@[0]);
    assert("done"@.len() != "sources"@.len());
    assert("error"@.len() != "step"@.len());
    assert("error"@.len() != "sources"@.len());
}

/// What has been learned from the producer so far.
#[derive(Debug, PartialEq, Eq)]
pub struct Collected {
    pub resolved: Vec<Json>,
    pub tool_exchange: Vec<Json>,
    pub gathered: bool,
}

#[verifier::ext_equal]
pub struct CollectedView {
    pub resolved: Seq<JsonView>,
    pub tool_exchange: Seq<JsonView>,
    pub gathered: bool,
}

impl View for Collected {
    type V = CollectedView;

    open spec fn view(&self) -> CollectedView {
        CollectedView {
            resolved: items_view(self.resolved@),
            tool_exchange: items_view(self.tool_exchange@),
            gathered: self.gathered,
        }
    }
}

/// What to do about an event of the producer.
#[derive(Debug, PartialEq, Eq)]
pub enum Reaction {
    /// Wait for the next event.
    Wait,
    /// Publish a frame, then wait for the next event.
    Publish(Frame),
    /// The answer is there, or will not come.
    Finish(Result<Answer, Failure>),
}

#[verifier::ext_equal]
pub enum ReactionView {
    Wait,
    Publish(FrameView),
    Finish(Result<AnswerView, FailureView>),
}

impl View for Reaction {
    type V = ReactionView;

    open spec fn view(&self) -> ReactionView {
        match *self {
            Reaction::Wait => ReactionView::Wait,
            Reaction::Publish(frame) => ReactionView::Publish(frame@),
            Reaction::Finish(outcome) => ReactionView::Finish(outcome_view(outcome)),
        }
    }
}

impl CollectedView {
    /// Nothing learned yet.
    pub open spec fn nothing() -> CollectedView {
        CollectedView { resolved: Seq::empty(), tool_exchange: Seq::empty(), gathered: false }
    }

    /// What is known after the producer's next event; `None` is the end of its stream.
    pub open spec fn after(self, event: Option<ProducerEventView>) -> CollectedView {
        match event {
            Some(ProducerEventView::Progress(frame)) => CollectedView {
                gathered: self.gathered || shows_gathering(frame.event),
                ..self
            },
            Some(ProducerEventView::Context { resolved, tool_exchange, gathered }) => {
                CollectedView { resolved, tool_exchange, gathered: self.gathered || gathered }
            },
            _ => self,
        }
    }

    /// Whether what was collected can be closed by a stop: every message of the
    /// tool exchange can have fields.
    pub open spec fn can_stop(self) -> bool {
        forall|at: int|
            0 <= at < self.tool_exchange.len() ==> has_fields(#[trigger] self.tool_exchange[at])
    }

    /// Whether a stopped answer shows the sources of the answer before it: only when
    /// this turn neither gathered nor published any of its own.
    pub open spec fn carries(self, snapshot: SnapshotView) -> bool {
        !self.gathered && snapshot.sources.len() == 0
    }

    /// The answer that a stop leaves: what was published, and the history as far as
    /// it is complete.
    pub open spec fn stopped(self, snapshot: SnapshotView) -> AnswerView {
        AnswerView {
            content: snapshot.content,
            record: TurnRecordView {
                stopped: true,
                steps: JsonView::Array(snapshot.steps),
                sources: JsonView::Array(snapshot.sources),
                resolved: JsonView::Array(self.resolved),
                tool_exchange: JsonView::Array(completed(self.tool_exchange)),
            },
            final_text: None,
        }
    }
}

/// The failure of a producer that publishes the end of the turn by itself.
pub open spec fn terminal_as_progress() -> FailureView {
    FailureView { code: "answer_failed"@, message: "Producer sent a terminal as progress"@ }
}

/// The failure of a producer that ends without an outcome.
pub open spec fn stream_ended() -> FailureView {
    FailureView { code: "stream_ended"@, message: "Answer stream ended unexpectedly"@ }
}

/// What to do about the producer's next event; `None` is the end of its stream.
/// An outcome that comes after a stop does not count.
pub open spec fn reaction(event: Option<ProducerEventView>, cancelled: bool) -> ReactionView {
    match event {
        Some(ProducerEventView::Progress(frame)) => if is_terminal(frame.event) {
            ReactionView::Finish(Err(terminal_as_progress()))
        } else {
            ReactionView::Publish(frame)
        },
        Some(ProducerEventView::Context { .. }) => ReactionView::Wait,
        Some(ProducerEventView::Outcome(outcome)) => if cancelled {
            ReactionView::Wait
        } else {
            ReactionView::Finish(outcome)
        },
        None => ReactionView::Finish(Err(stream_ended())),
    }
}

/// What an event of the producer says; `None` is the end of its stream.
pub open spec fn event_view(event: Option<ProducerEvent>) -> Option<ProducerEventView> {
    match event {
        Some(event) => Some(event@),
        None => None,
    }
}

impl Collected {
    /// Nothing learned yet.
    pub fn nothing() -> (collected: Collected)
        ensures
            collected@ == CollectedView::nothing(),
            collected.resolved@.len() == 0,
            collected.tool_exchange@.len() == 0,
            !collected.gathered,
    {
        Collected { resolved: Vec::new(), tool_exchange: Vec::new(), gathered: false }
    }

    /// Takes in the producer's next event; `None` is the end of its stream.
    /// `cancelled` tells whether the user had asked to stop when it came.
    pub fn take(self, event: Option<ProducerEvent>, cancelled: bool) -> (taken: (
        Collected,
        Reaction,
    ))
        ensures
            taken.0@ == self@.after(event_view(event)),
            taken.1@ == reaction(event_view(event), cancelled),
            match event {
                Some(ProducerEvent::Progress(frame)) => {
                    &&& taken.0.resolved == self.resolved
                    &&& taken.0.tool_exchange == self.tool_exchange
                    &&& taken.0.gathered == (self.gathered || frame.event@ == "step"@
                        || frame.event@ == "sources"@)
                    &&& if frame.event@ == "done"@ || frame.event@ == "error"@ {
                        &&& taken.1 is Finish
                        &&& taken.1->Finish_0 is Err
                        &&& taken.1->Finish_0->Err_0.code@ == "answer_failed"@
                        &&& taken.1->Finish_0->Err_0.message@
                            == "Producer sent a terminal as progress"@
                    } else {
                        taken.1 == Reaction::Publish(frame)
                    }
                },
                Some(ProducerEvent::Context { resolved, tool_exchange, gathered }) => {
                    &&& taken.0.resolved == resolved
                    &&& taken.0.tool_exchange == tool_exchange
                    &&& taken.0.gathered == (self.gathered || gathered)
                    &&& taken.1 is Wait
                },
                Some(ProducerEvent::Outcome(outcome)) => {
                    &&& taken.0 == self
                    &&& if cancelled {
                        taken.1 is Wait
                    } else {
                        taken.1 == Reaction::Finish(outcome)
                    }
                },
                None => {
                    &&& taken.0 == self
                    &&& taken.1 is Finish
                    &&& taken.1->Finish_0 is Err
                    &&& taken.1->Finish_0->Err_0.code@ == "stream_ended"@
                    &&& taken.1->Finish_0->Err_0.message@ == "Answer stream ended unexpectedly"@
                },
            },
    {
        match event {
            Some(ProducerEvent::Progress(frame)) => {
                if same_text(frame.event, "done") || same_text(frame.event, "error") {
                    proof {
                        lemma_event_names();
                    }
                    let failure = Failure::new(
                        "answer_failed",
                        "Producer sent a terminal as progress",
                    );
                    return (self, Reaction::Finish(Err(failure)));
                }
                let shows = same_text(frame.event, "step") || same_text(frame.event, "sources");
                let gathered = self.gathered || shows;
                (Collected { gathered, ..self }, Reaction::Publish(frame))
            },
            Some(ProducerEvent::Context { resolved, tool_exchange, gathered }) => {
                let gathered = self.gathered || gathered;
                (Collected { resolved, tool_exchange, gathered }, Reaction::Wait)
            },
            Some(ProducerEvent::Outcome(outcome)) => {
                if cancelled {
                    (self, Reaction::Wait)
                } else {
                    (self, Reaction::Finish(outcome))
                }
            },
            None => {
                let failure = Failure::new("stream_ended", "Answer stream ended unexpectedly");
                (self, Reaction::Finish(Err(failure)))
            },
        }
    }

    /// Whether a stop can close what was collected.
    pub fn can_stop(&self) -> (yes: bool)
        ensures
            yes == self@.can_stop(),
            yes <==> forall|at: int|
                0 <= at < self.tool_exchange@.len() ==> (#[trigger] self.tool_exchange@[at])
                    is Object || self.tool_exchange@[at] is Null,
    {
        let mut at: usize = 0;
        while at < self.tool_exchange.len()
            invariant
                at <= self.tool_exchange.len(),
                forall|i: int| 0 <= i < at ==> has_fields(#[trigger] self@.tool_exchange[i]),
                forall|i: int|
                    0 <= i < at ==> (#[trigger] self.tool_exchange@[i]) is Object
                        || self.tool_exchange@[i] is Null,
            decreases self.tool_exchange.len() - at,
        {
            match &self.tool_exchange[at] {
                Json::Object(_) => {},
                Json::Null => {},
                _ => {
                    assert(!has_fields(self@.tool_exchange[at as int]));
                    return false;
                },
            }
            at = at + 1;
        }
        true
    }

    /// Whether a stopped answer shows the sources of the answer before it.
    pub fn carries(&self, snapshot: &Snapshot) -> (yes: bool)
        ensures
            yes == self@.carries(snapshot@),
            yes <==> !self.gathered && snapshot.sources@.len() == 0,
    {
        !self.gathered && snapshot.sources.len() == 0
    }

    /// The answer that a stop leaves of what was collected and published.
    pub fn stopped(self, snapshot: Snapshot) -> (answer: Answer)
        requires
            self@.can_stop(),
        ensures
            answer@ == self@.stopped(snapshot@),
            answer.content == snapshot.content,
            answer.final_text is None,
            answer.record.stopped,
            answer.record.steps == Json::Array(snapshot.steps),
            answer.record.sources == Json::Array(snapshot.sources),
            answer.record.resolved == Json::Array(self.resolved),
            answer.record.tool_exchange@ == JsonView::Array(
                completed(items_view(self.tool_exchange@)),
            ),
    {
        assert forall|at: int| 0 <= at < self.tool_exchange.len() implies has_fields(
            (#[trigger] self.tool_exchange[at])@,
        ) by {
            assert(self@.tool_exchange[at] == self.tool_exchange[at]@);
        }
        Answer {
            content: snapshot.content,
            record: TurnRecord {
                stopped: true,
                steps: Json::Array(snapshot.steps),
                sources: Json::Array(snapshot.sources),
                resolved: Json::Array(self.resolved),
                tool_exchange: Json::Array(completed_exchange(self.tool_exchange)),
            },
            final_text: None,
        }
    }
}

} // verus!
