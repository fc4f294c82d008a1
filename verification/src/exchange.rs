//! The tool exchange of a turn: assistant messages with their tool calls, and
//! the results of those calls.
use vstd::prelude::*;
use vstd::hash_set::StringHashSet;
use crate::json::{
    fields_view, find_field, items_view, lemma_absent, lemma_last, same_text, Json, JsonView,
};

verus! {

/// Whether a message is the result of a tool call.
pub open spec fn is_result(message: JsonView) -> bool {
    message.field("role"@) == JsonView::Text("tool"@)
}

/// Whether a message was written by the assistant.
pub open spec fn is_assistant(message: JsonView) -> bool {
    message.field("role"@) == JsonView::Text("assistant"@)
}

/// The call that a result answers.
pub open spec fn result_id(message: JsonView) -> Option<Seq<char>> {
    message.field("tool_call_id"@).text()
}

/// The name that a call goes by.
pub open spec fn call_id(call: JsonView) -> Option<Seq<char>> {
    call.field("id"@).text()
}

/// Whether a message can have fields: null counts as an object without any.
pub open spec fn has_fields(message: JsonView) -> bool {
    message is Object || message is Null
}

/// Whether every message after `at`, up to and with `end`, is a result.
pub open spec fn same_round(exchange: Seq<JsonView>, at: int, end: int) -> bool {
    forall|k: int| at < k <= end ==> is_result(#[trigger] exchange[k])
}

/// Whether the results that follow message `at` answer the call `id`. They end
/// where the next message that is no result stands.
pub open spec fn answered(exchange: Seq<JsonView>, at: int, id: Seq<char>) -> bool {
    exists|end: int|
        at < end < exchange.len() && same_round(exchange, at, end) && result_id(
            #[trigger] exchange[end],
        ) == Some(id)
}

/// The calls that the results after message `at` answer.
pub open spec fn round_ids(exchange: Seq<JsonView>, at: int) -> Set<Seq<char>> {
    Set::new(|id: Seq<char>| answered(exchange, at, id))
}

/// Tells the calls whose name is in `ids`.
pub open spec fn named_in(ids: Set<Seq<char>>) -> spec_fn(JsonView) -> bool {
    |call: JsonView| call_id(call) is Some && ids.contains(call_id(call)->0)
}

/// A message with only those of its tool calls whose name is in `ids`. A message
/// without tool calls gets a null in their place.
pub open spec fn with_calls_in(message: JsonView, ids: Set<Seq<char>>) -> JsonView {
    message.with(
        "tool_calls"@,
        match message.field("tool_calls"@) {
            JsonView::Array(calls) => JsonView::Array(calls.filter(named_in(ids))),
            other => other,
        },
    )
}

/// Message `at` without the calls that nothing in its round answers.
pub open spec fn pruned(exchange: Seq<JsonView>, at: int) -> JsonView {
    if is_result(exchange[at]) {
        exchange[at]
    } else {
        with_calls_in(exchange[at], round_ids(exchange, at))
    }
}

/// Tells the messages that may be sent again: an assistant's only if it calls a tool.
pub open spec fn replayable() -> spec_fn(JsonView) -> bool {
    |message: JsonView|
        is_assistant(message) ==> message.field("tool_calls"@) is Array && message.field(
            "tool_calls"@,
        )->Array_0.len() > 0
}

/// Every message without its unanswered calls.
pub open spec fn pruned_all(exchange: Seq<JsonView>) -> Seq<JsonView> {
    Seq::new(exchange.len(), |at: int| pruned(exchange, at))
}

/// The part of an exchange that is complete.
pub open spec fn completed(exchange: Seq<JsonView>) -> Seq<JsonView> {
    pruned_all(exchange).filter(replayable())
}

/// Whether the value under `key` is the string `text`.
fn field_is(message: &Json, key: &str, text: &str) -> (same: bool)
    ensures
        same == (message@.field(key@) == JsonView::Text(text@)),
{
    match message.get(key) {
        Some(value) => match value.as_str() {
            Some(found) => same_text(found, text),
            None => false,
        },
        None => false,
    }
}

/// The string under `key`.
fn field_text<'a>(message: &'a Json, key: &str) -> (text: Option<&'a str>)
    ensures
        match text {
            Some(text) => message@.field(key@).text() == Some(text@),
            None => message@.field(key@).text() is None,
        },
{
    match message.get(key) {
        Some(value) => value.as_str(),
        None => None,
    }
}

/// The calls of a list whose name is in `ids`.
fn keep_calls(calls: Vec<Json>, ids: &StringHashSet) -> (kept: Vec<Json>)
    ensures
        items_view(kept@) == items_view(calls@).filter(named_in(ids@)),
{
    let ghost all = calls@;
    let mut kept: Vec<Json> = Vec::new();
    proof {
        reveal(Seq::filter);
    }
    for call in iter: calls
        invariant
            iter.seq() == all,
            items_view(kept@) == items_view(all).take(iter.index() as int).filter(named_in(ids@)),
    {
        let ghost at: int = iter.index() as int;
        let keep = match field_text(&call, "id") {
            Some(id) => ids.contains(id),
            None => false,
        };
        proof {
            reveal(Seq::filter);
            assert(items_view(all).take(at + 1).drop_last() =~= items_view(all).take(at));
        }
        if keep {
            kept.push(call);
        }
    }
    assert(items_view(all).take(all.len() as int) =~= items_view(all));
    kept
}

/// A message with only those of its tool calls whose name is in `ids`.
fn prune(message: Json, ids: &StringHashSet) -> (kept: Json)
    requires
        has_fields(message@),
    ensures
        kept@ == with_calls_in(message@, ids@),
{
    let mut fields = match message {
        Json::Object(fields) => fields,
        _ => Vec::new(),
    };
    let ghost before = fields@;
    let at = find_field(&fields, "tool_calls");
    if at < fields.len() {
        let (key, found) = fields.remove(at);
        let value = match found {
            Json::Array(calls) => Json::Array(keep_calls(calls, ids)),
            other => other,
        };
        fields.insert(at, (key, value));
        proof {
            assert(fields@ =~= before.update(at as int, (key, value)));
            lemma_last(before, at as int, (key, value));
        }
    } else {
        fields.push(("tool_calls".to_owned(), Json::Null));
        proof {
            lemma_absent(before, "tool_calls"@);
            assert(fields@.drop_last() =~= before);
            assert(fields@.last().1@ == JsonView::Null);
        }
    }
    Json::Object(fields)
}

/// The messages from `from` on that stay.
pub(crate) open spec fn completed_from(exchange: Seq<JsonView>, from: int) -> Seq<JsonView> {
    pruned_all(exchange).skip(from).filter(replayable())
}

/// Taking in one more message at the front of the part that stays.
pub(crate) proof fn lemma_completed_from(exchange: Seq<JsonView>, at: int)
    requires
        0 <= at < exchange.len(),
    ensures
        completed_from(exchange, at) == if replayable()(pruned(exchange, at)) {
            seq![pruned(exchange, at)] + completed_from(exchange, at + 1)
        } else {
            completed_from(exchange, at + 1)
        },
{
    let first = seq![pruned(exchange, at)];
    assert(pruned_all(exchange).skip(at) =~= first + pruned_all(exchange).skip(at + 1));
    Seq::filter_distributes_over_add(first, pruned_all(exchange).skip(at + 1), replayable());
    reveal_with_fuel(Seq::filter, 2);
    assert(first.filter(replayable()) =~= if replayable()(first[0]) {
        first
    } else {
        Seq::empty()
    });
}

/// What the results after a message answer, told from one message later.
pub(crate) proof fn lemma_round_ids(exchange: Seq<JsonView>, at: int)
    requires
        0 <= at < exchange.len(),
    ensures
        round_ids(exchange, at - 1) == if !is_result(exchange[at]) {
            Set::empty()
        } else if result_id(exchange[at]) is Some {
            round_ids(exchange, at).insert(result_id(exchange[at])->0)
        } else {
            round_ids(exchange, at)
        },
{
    assert forall|id: Seq<char>| #[trigger]
        answered(exchange, at - 1, id) implies is_result(exchange[at]) && (result_id(exchange[at])
        == Some(id) || answered(exchange, at, id)) by {
        let end = choose|end: int|
            at - 1 < end < exchange.len() && same_round(exchange, at - 1, end) && result_id(
                #[trigger] exchange[end],
            ) == Some(id);
    }
    if is_result(exchange[at]) {
        assert forall|id: Seq<char>| #[trigger]
            answered(exchange, at, id) implies answered(exchange, at - 1, id) by {
            let end = choose|end: int|
                at < end < exchange.len() && same_round(exchange, at, end) && result_id(
                    #[trigger] exchange[end],
                ) == Some(id);
            assert(same_round(exchange, at - 1, end));
        }
    }
    assert(round_ids(exchange, at - 1) =~= if !is_result(exchange[at]) {
        Set::empty()
    } else if result_id(exchange[at]) is Some {
        round_ids(exchange, at).insert(result_id(exchange[at])->0)
    } else {
        round_ids(exchange, at)
    });
}

/// Whether an assistant message calls a tool, and other messages in any case.
fn is_replayable(message: &Json) -> (yes: bool)
    ensures
        yes == replayable()(message@),
{
    if !field_is(message, "role", "assistant") {
        return true;
    }
    match message.get("tool_calls") {
        Some(Json::Array(calls)) => calls.len() > 0,
        _ => false,
    }
}

/// Leaves out of a tool exchange what was not finished: a call that no result in
/// its own round answers, and an assistant message that is left without a call.
///
/// A round is the run of results right after a message. Providers may use an id
/// again in a later round, so a result counts only for the message before its run.
pub fn completed_exchange(exchange: Vec<Json>) -> (kept: Vec<Json>)
    requires
        forall|at: int| 0 <= at < exchange.len() ==> has_fields((#[trigger] exchange[at])@),
    ensures
        items_view(kept@) == completed(items_view(exchange@)),
{
    let mut exchange = exchange;
    let ghost all = items_view(exchange@);
    let mut answers = StringHashSet::new();
    let mut backwards: Vec<Json> = Vec::new();
    proof {
        reveal(Seq::filter);
        assert(round_ids(all, all.len() - 1) =~= Set::empty());
    }
    while exchange.len() > 0
        invariant
            exchange.len() <= all.len(),
            forall|at: int| 0 <= at < exchange.len() ==> has_fields((#[trigger] exchange[at])@),
            items_view(exchange@) == all.take(exchange.len() as int),
            answers@ == round_ids(all, exchange.len() - 1),
            items_view(backwards@).reverse() == completed_from(all, exchange.len() as int),
        decreases exchange.len(),
    {
        let ghost before_pop = exchange@;
        let message = exchange.pop().unwrap();
        let ghost at = exchange.len() as int;
        proof {
            assert(items_view(before_pop)[at] == all.take(at + 1)[at]);
            assert(all[at] == message@);
            lemma_round_ids(all, at);
            lemma_completed_from(all, at);
        }
        let stays = if field_is(&message, "role", "tool") {
            if let Some(id) = field_text(&message, "tool_call_id") {
                answers.insert(id.to_owned());
            }
            message
        } else {
            let pruned = prune(message, &answers);
            answers.clear();
            pruned
        };
        assert(stays@ == pruned(all, at));
        if is_replayable(&stays) {
            backwards.push(stays);
        }
    }
    let mut kept: Vec<Json> = Vec::new();
    let ghost reversed = items_view(backwards@);
    while backwards.len() > 0
        invariant
            items_view(kept@) + items_view(backwards@).reverse() == reversed.reverse(),
        decreases backwards.len(),
    {
        let message = backwards.pop().unwrap();
        kept.push(message);
    }
    assert(pruned_all(all).skip(0) =~= pruned_all(all));
    kept
}

} // verus!
