//! What a turn is made of: the frames that go out while it runs, what its
//! producer hands over, and the answer that is saved at its end.
use vstd::prelude::*;
use crate::json::{items_view, Json, JsonView};

verus! {

/// One frame of the stream that a client reads.
#[derive(Debug, PartialEq, Eq)]
pub struct Frame {
    pub event: &'static str,
    pub data: String,
}

#[verifier::ext_equal]
pub struct FrameView {
    pub event: Seq<char>,
    pub data: Seq<char>,
}

impl View for Frame {
    type V = FrameView;

    open spec fn view(&self) -> FrameView {
        FrameView { event: self.event@, data: self.data@ }
    }
}

impl Frame {
    /// A frame that carries `data` under the name `event`.
    pub fn new(event: &'static str, data: String) -> (frame: Frame)
        ensures
            frame@ == (FrameView { event: event@, data: data@ }),
            frame.event@ == event@,
            frame.data@ == data@,
    {
        Frame { event, data }
    }
}

/// Why a turn ended without an answer.
#[derive(Debug, PartialEq, Eq)]
pub struct Failure {
    pub code: &'static str,
    pub message: String,
}

#[verifier::ext_equal]
pub struct FailureView {
    pub code: Seq<char>,
    pub message: Seq<char>,
}

impl View for Failure {
    type V = FailureView;

    open spec fn view(&self) -> FailureView {
        FailureView { code: self.code@, message: self.message@ }
    }
}

impl Failure {
    /// A failure with a code for programs and a message for people.
    pub fn new(code: &'static str, message: &str) -> (failure: Failure)
        ensures
            failure@ == (FailureView { code: code@, message: message@ }),
            failure.code@ == code@,
            failure.message@ == message@,
    {
        Failure { code, message: message.to_owned() }
    }
}

/// What is kept of a turn beside the text of its answer.
#[derive(Debug, PartialEq, Eq)]
pub struct TurnRecord {
    /// Whether the user stopped the turn before its answer was complete.
    pub stopped: bool,
    pub steps: Json,
    pub sources: Json,
    pub resolved: Json,
    pub tool_exchange: Json,
}

#[verifier::ext_equal]
pub struct TurnRecordView {
    pub stopped: bool,
    pub steps: JsonView,
    pub sources: JsonView,
    pub resolved: JsonView,
    pub tool_exchange: JsonView,
}

impl View for TurnRecord {
    type V = TurnRecordView;

    open spec fn view(&self) -> TurnRecordView {
        TurnRecordView {
            stopped: self.stopped,
            steps: self.steps@,
            sources: self.sources@,
            resolved: self.resolved@,
            tool_exchange: self.tool_exchange@,
        }
    }
}

/// An answer that is ready to be saved.
#[derive(Debug, PartialEq, Eq)]
pub struct Answer {
    pub content: String,
    pub record: TurnRecord,
    /// A validated final text, which goes out only after the answer was saved.
    pub final_text: Option<String>,
}

#[verifier::ext_equal]
pub struct AnswerView {
    pub content: Seq<char>,
    pub record: TurnRecordView,
    pub final_text: Option<Seq<char>>,
}

/// The characters of a text that may be missing.
pub open spec fn text_view(text: Option<String>) -> Option<Seq<char>> {
    match text {
        Some(text) => Some(text@),
        None => None,
    }
}

impl View for Answer {
    type V = AnswerView;

    open spec fn view(&self) -> AnswerView {
        AnswerView {
            content: self.content@,
            record: self.record@,
            final_text: text_view(self.final_text),
        }
    }
}

/// What a client has been shown of a turn so far.
#[derive(Debug, PartialEq, Eq)]
pub struct Snapshot {
    pub content: String,
    pub steps: Vec<Json>,
    pub sources: Vec<Json>,
}

#[verifier::ext_equal]
pub struct SnapshotView {
    pub content: Seq<char>,
    pub steps: Seq<JsonView>,
    pub sources: Seq<JsonView>,
}

impl View for Snapshot {
    type V = SnapshotView;

    open spec fn view(&self) -> SnapshotView {
        SnapshotView {
            content: self.content@,
            steps: items_view(self.steps@),
            sources: items_view(self.sources@),
        }
    }
}

/// What the producer of an answer hands over.
#[derive(Debug, PartialEq, Eq)]
pub enum ProducerEvent {
    /// A frame to publish.
    Progress(Frame),
    /// Private history, never published. A stop keeps only completed calls of it.
    Context { resolved: Vec<Json>, tool_exchange: Vec<Json>, gathered: bool },
    /// The end of the answer.
    Outcome(Result<Answer, Failure>),
}

#[verifier::ext_equal]
pub enum ProducerEventView {
    Progress(FrameView),
    Context { resolved: Seq<JsonView>, tool_exchange: Seq<JsonView>, gathered: bool },
    Outcome(Result<AnswerView, FailureView>),
}

/// What an outcome says.
pub open spec fn outcome_view(outcome: Result<Answer, Failure>) -> Result<
    AnswerView,
    FailureView,
> {
    match outcome {
        Ok(answer) => Ok(answer@),
        Err(failure) => Err(failure@),
    }
}

impl View for ProducerEvent {
    type V = ProducerEventView;

    open spec fn view(&self) -> ProducerEventView {
        match *self {
            ProducerEvent::Progress(frame) => ProducerEventView::Progress(frame@),
            ProducerEvent::Context { resolved, tool_exchange, gathered } => {
                ProducerEventView::Context {
                    resolved: items_view(resolved@),
                    tool_exchange: items_view(tool_exchange@),
                    gathered,
                }
            },
            ProducerEvent::Outcome(outcome) => ProducerEventView::Outcome(outcome_view(outcome)),
        }
    }
}

/// How a turn ends for those who watch it.
#[derive(Debug, PartialEq, Eq)]
pub enum Terminal {
    /// The answer was saved: the frame that says so.
    Done(Frame),
    /// There is no saved answer: what to tell the client.
    Failed(Failure),
}

#[verifier::ext_equal]
pub enum TerminalView {
    Done(FrameView),
    Failed(FailureView),
}

impl View for Terminal {
    type V = TerminalView;

    open spec fn view(&self) -> TerminalView {
        match *self {
            Terminal::Done(frame) => TerminalView::Done(frame@),
            Terminal::Failed(failure) => TerminalView::Failed(failure@),
        }
    }
}

} // verus!
