//! What a model is told of the answers of earlier turns.
use vstd::prelude::*;
use vstd::string::StringExecFns;

verus! {

/// What a model is told of an answer: its text, and of a stopped one that it is
/// not complete.
pub open spec fn context_view(content: Seq<char>, stopped: bool) -> Seq<char> {
    if stopped {
        "[This response was stopped by the user before completion.]\n\n"@ + content
    } else {
        content
    }
}

/// An answer is told in full: a complete one as it is, and a stopped one after a notice
/// which is the same for every answer, also for one without any text.
pub proof fn law_an_answer_is_told_in_full(content: Seq<char>)
    ensures
        context_view(content, false) == content,
        ({
            let notice = "[This response was stopped by the user before completion.]\n\n"@;
            let told = context_view(content, true);
            &&& told.len() == notice.len() + content.len()
            &&& told.take(notice.len() as int) == notice
            &&& told.skip(notice.len() as int) == content
        }),
{
}

/// The text by which an answer enters the context of the next turn.
pub fn context_text(content: String, stopped: bool) -> (text: String)
    ensures
        text@ == context_view(content@, stopped),
        stopped ==> text@ == "[This response was stopped by the user before completion.]\n\n"@
            + content@,
        !stopped ==> text@ == content@,
{
    if stopped {
        "[This response was stopped by the user before completion.]\n\n".to_owned().concat(
            content.as_str(),
        )
    } else {
        content
    }
}

} // verus!
