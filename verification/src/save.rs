//! Saving an answer: the message that is stored, and what goes out once the
//! store has confirmed it, or has not.
use vstd::prelude::*;
use crate::json::{fields_view, Json, JsonView};
use crate::turn::{
    text_view, Answer, AnswerView, Failure, FailureView, Frame, FrameView, Terminal, TerminalView,
    TurnRecord, TurnRecordView,
};
use crate::value::{flag_text, json_text, no_fields, plain_key};

verus! {

/// A message for the store.
#[derive(Debug, PartialEq, Eq)]
pub struct Message {
    pub role: &'static str,
    pub content: String,
    pub record: TurnRecord,
}

#[verifier::ext_equal]
pub struct MessageView {
    pub role: Seq<char>,
    pub content: Seq<char>,
    pub record: TurnRecordView,
}

impl View for Message {
    type V = MessageView;

    open spec fn view(&self) -> MessageView {
        MessageView { role: self.role@, content: self.content@, record: self.record@ }
    }
}

/// What goes out after an answer was saved.
#[derive(Debug, PartialEq, Eq)]
pub struct Unpublished {
    pub sources: Frame,
    pub final_text: Option<String>,
    pub stopped: bool,
}

#[verifier::ext_equal]
pub struct UnpublishedView {
    pub sources: FrameView,
    pub final_text: Option<Seq<char>>,
    pub stopped: bool,
}

impl View for Unpublished {
    type V = UnpublishedView;

    open spec fn view(&self) -> UnpublishedView {
        UnpublishedView {
            sources: self.sources@,
            final_text: text_view(self.final_text),
            stopped: self.stopped,
        }
    }
}

/// The message that stores an answer: what the assistant said, with its record. A
/// final text that is still to go out is no part of it.
pub open spec fn message_of(answer: AnswerView) -> MessageView {
    MessageView { role: "assistant"@, content: answer.content, record: answer.record }
}

/// What goes out once an answer is saved: its sources, as text, and its final text.
pub open spec fn unpublished_of(answer: AnswerView) -> UnpublishedView {
    UnpublishedView {
        sources: FrameView { event: "sources"@, data: json_text(answer.record.sources) },
        final_text: answer.final_text,
        stopped: answer.record.stopped,
    }
}

/// The frame that says that the answer is saved, and whether it was stopped.
pub open spec fn done_frame(stopped: bool) -> FrameView {
    FrameView {
        event: "done"@,
        data: if stopped {
            "{\"stopped\":true}"@
        } else {
            "{\"stopped\":false}"@
        },
    }
}

/// The failure of a save. It says nothing of what went wrong in the store.
pub open spec fn not_saved() -> FailureView {
    FailureView {
        code: "answer_not_saved"@,
        message: "Could not confirm that the answer was saved."@,
    }
}

/// Parts an answer into what is stored and what goes out after that.
pub fn prepare(answer: Answer) -> (parts: (Message, Unpublished))
    ensures
        parts.0@ == message_of(answer@),
        parts.1@ == unpublished_of(answer@),
        parts.0.role@ == "assistant"@,
        parts.0.content@ == answer.content@,
        parts.0.record == answer.record,
        parts.1.sources.event@ == "sources"@,
        parts.1.sources.data@ == json_text(answer.record.sources@),
        parts.1.final_text == answer.final_text,
        parts.1.stopped == answer.record.stopped,
{
    let sources = Frame::new("sources", answer.record.sources.to_text());
    let stopped = answer.record.stopped;
    (
        Message { role: "assistant", content: answer.content, record: answer.record },
        Unpublished { sources, final_text: answer.final_text, stopped },
    )
}

/// The end of a turn whose answer is saved.
pub fn done(stopped: bool) -> (terminal: Terminal)
    ensures
        terminal@ == TerminalView::Done(done_frame(stopped)),
        terminal is Done,
        terminal->Done_0.event@ == "done"@,
        stopped ==> terminal->Done_0.data@ == "{\"stopped\":true}"@,
        !stopped ==> terminal->Done_0.data@ == "{\"stopped\":false}"@,
{
    let mut fields: Vec<(String, Json)> = Vec::new();
    fields.push(("stopped".to_owned(), Json::Bool(stopped)));
    let said = Json::Object(fields);
    proof {
        assert(fields@.drop_last() =~= Seq::empty());
        assert(fields_view(Seq::empty()) == no_fields());
        assert(fields@.last().1@ == JsonView::Bool(stopped));
        assert(said@ == JsonView::Object(
            no_fields().insert("stopped"@, JsonView::Bool(stopped)),
        ));
        reveal_strlit("stopped");
        assert(plain_key("stopped"@));
        lemma_done_text(stopped);
    }
    Terminal::Done(Frame::new("done", said.to_text()))
}

/// The end of a turn whose answer may not be saved.
pub fn failed_to_save() -> (terminal: Terminal)
    ensures
        terminal@ == TerminalView::Failed(not_saved()),
        terminal is Failed,
        terminal->Failed_0.code@ == "answer_not_saved"@,
        terminal->Failed_0.message@ == "Could not confirm that the answer was saved."@,
{
    Terminal::Failed(
        Failure::new("answer_not_saved", "Could not confirm that the answer was saved."),
    )
}

/// The text of the last frame, put together.
proof fn lemma_done_text(stopped: bool)
    ensures
        flag_text("stopped"@, stopped) == done_frame(stopped).data,
{
    reveal_strlit("{\"");
    reveal_strlit("stopped");
    reveal_strlit("\":");
    reveal_strlit("true");
    reveal_strlit("false");
    reveal_strlit("}");
    reveal_strlit("{\"stopped\":true}");
    reveal_strlit("{\"stopped\":false}");
    assert(flag_text("stopped"@, stopped) =~= done_frame(stopped).data);
}

} // verus!
