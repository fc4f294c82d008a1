//! What holds of every completed exchange.
use vstd::prelude::*;
use crate::exchange::{
    answered, call_id, completed, completed_from, is_assistant, is_result, lemma_completed_from,
    lemma_round_ids, named_in, pruned, pruned_all, replayable, result_id, round_ids, same_round,
    with_calls_in,
};
use crate::json::JsonView;

verus! {

/// The calls that a message makes: none where it does not list any.
pub open spec fn calls_of(message: JsonView) -> Seq<JsonView> {
    match message.field("tool_calls"@) {
        JsonView::Array(calls) => calls,
        _ => Seq::empty(),
    }
}

/// Whether every call of a message that is no result has a name, and a result in
/// the round right after the message.
pub open spec fn all_answered(exchange: Seq<JsonView>) -> bool {
    forall|at: int, i: int|
        0 <= at < exchange.len() && !is_result(exchange[at]) && 0 <= i < calls_of(
            exchange[at],
        ).len() ==> call_id(#[trigger] calls_of(exchange[at])[i]) is Some && answered(
            exchange,
            at,
            call_id(calls_of(exchange[at])[i])->0,
        )
}

/// The keys and roles are different strings.
proof fn lemma_words()
    ensures
        "role"@ != "tool_calls"@,
        "tool_call_id"@ != "tool_calls"@,
        "tool"@ != "assistant"@,
{
    reveal_strlit("role");
    reveal_strlit("tool_calls");
    reveal_strlit("tool_call_id");
    reveal_strlit("tool");
    reveal_strlit("assistant");
    assert("role"@.len() != "tool_calls"@.len());
    assert("tool_call_id"@.len() != "tool_calls"@.len());
    assert("tool"@.len() != "assistant"@.len());
}

/// Leaving out calls changes no other field of a message.
pub proof fn law_other_fields_stay(exchange: Seq<JsonView>, at: int, key: Seq<char>)
    requires
        0 <= at < exchange.len(),
        key != "tool_calls"@,
    ensures
        pruned(exchange, at).field(key) == exchange[at].field(key),
{
}

/// What is answered in an exchange is answered in the exchange with one more
/// message in front, one place later.
proof fn lemma_shift(first: JsonView, rest: Seq<JsonView>, at: int, id: Seq<char>)
    requires
        -1 <= at,
        answered(rest, at, id),
    ensures
        answered(seq![first] + rest, at + 1, id),
        at == -1 && is_result(first) ==> answered(seq![first] + rest, -1, id),
{
    let whole = seq![first] + rest;
    let end = choose|end: int|
        at < end < rest.len() && same_round(rest, at, end) && result_id(#[trigger] rest[end])
            == Some(id);
    assert(whole[end + 1] == rest[end]);
    assert(same_round(whole, at + 1, end + 1));
}

/// The part of an exchange from a message on: its calls are answered, and the
/// results that lead it are all there.
proof fn lemma_completed_suffix(exchange: Seq<JsonView>, from: int)
    requires
        0 <= from <= exchange.len(),
    ensures
        all_answered(completed_from(exchange, from)),
        forall|id: Seq<char>| #[trigger]
            answered(exchange, from - 1, id) ==> answered(completed_from(exchange, from), -1, id),
    decreases exchange.len() - from,
{
    lemma_words();
    let kept = completed_from(exchange, from);
    if from == exchange.len() {
        reveal(Seq::filter);
    } else {
        let rest = completed_from(exchange, from + 1);
        let first = pruned(exchange, from);
        lemma_completed_suffix(exchange, from + 1);
        lemma_completed_from(exchange, from);
        lemma_round_ids(exchange, from);
        assert forall|id: Seq<char>| #[trigger]
            answered(exchange, from - 1, id) implies answered(kept, -1, id) by {
            assert(kept == seq![first] + rest);
            if result_id(exchange[from]) == Some(id) {
                assert(kept[0] == exchange[from]);
            } else {
                assert(answered(exchange, from + 1 - 1, id));
                lemma_shift(first, rest, -1, id);
            }
        }
        if replayable()(first) {
            assert forall|at: int, i: int|
                0 <= at < kept.len() && !is_result(kept[at]) && 0 <= i < calls_of(
                    kept[at],
                ).len() implies call_id(#[trigger] calls_of(kept[at])[i]) is Some && answered(
                kept,
                at,
                call_id(calls_of(kept[at])[i])->0,
            ) by {
                let call = calls_of(kept[at])[i];
                if at == 0 {
                    let ids = round_ids(exchange, from);
                    let calls = exchange[from].field("tool_calls"@)->Array_0;
                    calls.lemma_filter_pred(named_in(ids), i);
                    assert(named_in(ids)(call));
                    assert(answered(exchange, from + 1 - 1, call_id(call)->0));
                    lemma_shift(first, rest, -1, call_id(call)->0);
                } else {
                    lemma_shift(first, rest, at - 1, call_id(call)->0);
                }
            }
        }
    }
}

/// In a completed exchange every call has a result, in the round right after the
/// message that makes the call.
pub proof fn law_every_call_is_answered(exchange: Seq<JsonView>)
    ensures
        all_answered(completed(exchange)),
{
    lemma_completed_suffix(exchange, 0);
    assert(pruned_all(exchange).skip(0) =~= pruned_all(exchange));
}

/// A list whose items all pass a test is kept whole.
proof fn lemma_filter_all(items: Seq<JsonView>, test: spec_fn(JsonView) -> bool)
    requires
        forall|i: int| 0 <= i < items.len() ==> test(#[trigger] items[i]),
    ensures
        items.filter(test) == items,
    decreases items.len(),
{
    reveal(Seq::filter);
    if items.len() > 0 {
        lemma_filter_all(items.drop_last(), test);
    }
}

/// Where a message of a completed exchange comes from.
proof fn lemma_origin(exchange: Seq<JsonView>, at: int) -> (from: int)
    requires
        0 <= at < completed(exchange).len(),
    ensures
        0 <= from < exchange.len(),
        completed(exchange)[at] == pruned(exchange, from),
        replayable()(completed(exchange)[at]),
{
    let kept = completed(exchange);
    pruned_all(exchange).lemma_filter_contains_rev(replayable(), kept[at]);
    pruned_all(exchange).lemma_filter_pred(replayable(), at);
    let from = choose|from: int|
        0 <= from < pruned_all(exchange).len() && pruned_all(exchange)[from] == kept[at];
    from
}

/// An exchange that was completed once is complete.
pub proof fn law_completing_twice_changes_nothing(exchange: Seq<JsonView>)
    ensures
        completed(completed(exchange)) == completed(exchange),
{
    lemma_words();
    law_every_call_is_answered(exchange);
    let kept = completed(exchange);
    assert forall|at: int| 0 <= at < kept.len() implies #[trigger] pruned(kept, at) == kept[at]
        && replayable()(kept[at]) by {
        let from = lemma_origin(exchange, at);
        if !is_result(kept[at]) {
            let ids = round_ids(kept, at);
            let calls = calls_of(kept[at]);
            lemma_filter_all(calls, named_in(ids));
            let fields = kept[at]->Object_0;
            assert(fields.insert("tool_calls"@, fields["tool_calls"@]) =~= fields);
            assert(with_calls_in(kept[at], ids) == kept[at]);
        }
    }
    assert(pruned_all(kept) =~= kept);
    lemma_filter_all(kept, replayable());
}

/// Every message that is not the assistant's stays, and of the assistant's every
/// one that makes an answered call.
pub proof fn law_what_is_complete_stays(exchange: Seq<JsonView>, at: int)
    requires
        0 <= at < exchange.len(),
        is_assistant(exchange[at]) ==> exists|i: int|
            0 <= i < calls_of(exchange[at]).len() && call_id(
                #[trigger] calls_of(exchange[at])[i],
            ) is Some && answered(exchange, at, call_id(calls_of(exchange[at])[i])->0),
    ensures
        completed(exchange).contains(pruned(exchange, at)),
        forall|i: int|
            0 <= i < calls_of(exchange[at]).len() && call_id(
                #[trigger] calls_of(exchange[at])[i],
            ) is Some && answered(exchange, at, call_id(calls_of(exchange[at])[i])->0)
                ==> calls_of(pruned(exchange, at)).contains(calls_of(exchange[at])[i]),
{
    lemma_words();
    let message = exchange[at];
    let calls = calls_of(message);
    let ids = round_ids(exchange, at);
    assert forall|i: int|
        0 <= i < calls.len() && call_id(#[trigger] calls[i]) is Some && answered(
            exchange,
            at,
            call_id(calls[i])->0,
        ) implies calls_of(pruned(exchange, at)).contains(calls[i]) by {
        if !is_result(message) {
            assert(named_in(ids)(calls[i]));
            calls.lemma_filter_contains(named_in(ids), i);
        }
    }
    assert(replayable()(pruned(exchange, at))) by {
        if is_assistant(message) {
            let i = choose|i: int|
                0 <= i < calls.len() && call_id(#[trigger] calls_of(exchange[at])[i]) is Some
                    && answered(exchange, at, call_id(calls[i])->0);
        }
    }
    pruned_all(exchange).lemma_filter_contains(replayable(), at);
}

/// A call stays exactly when a result in the round right after its message answers
/// it. A result with the same id in another round does not count.
pub proof fn law_only_its_own_round_answers_a_call(
    exchange: Seq<JsonView>,
    at: int,
    call: JsonView,
)
    requires
        0 <= at < exchange.len(),
        !is_result(exchange[at]),
    ensures
        calls_of(pruned(exchange, at)).contains(call) <==> calls_of(exchange[at]).contains(call)
            && call_id(call) is Some && answered(exchange, at, call_id(call)->0),
{
    let calls = calls_of(exchange[at]);
    let ids = round_ids(exchange, at);
    let kept = calls.filter(named_in(ids));
    assert(calls_of(pruned(exchange, at)) =~= kept) by {
        reveal(Seq::filter);
    }
    if kept.contains(call) {
        let i = choose|i: int| 0 <= i < kept.len() && kept[i] == call;
        calls.lemma_filter_pred(named_in(ids), i);
        calls.lemma_filter_contains_rev(named_in(ids), call);
    }
    if calls.contains(call) && named_in(ids)(call) {
        let i = choose|i: int| 0 <= i < calls.len() && calls[i] == call;
        calls.lemma_filter_contains(named_in(ids), i);
    }
}

/// An exchange without any result keeps nothing of the assistant's.
pub proof fn law_no_result_leaves_no_call(exchange: Seq<JsonView>)
    requires
        forall|at: int| 0 <= at < exchange.len() ==> !is_result(#[trigger] exchange[at]),
    ensures
        forall|at: int|
            0 <= at < completed(exchange).len() ==> !is_assistant(
                #[trigger] completed(exchange)[at],
            ),
{
    lemma_words();
    law_every_call_is_answered(exchange);
    let kept = completed(exchange);
    assert forall|at: int| 0 <= at < kept.len() implies !is_assistant(#[trigger] kept[at]) by {
        let from = lemma_origin(exchange, at);
        if is_assistant(kept[at]) {
            let call = calls_of(kept[at])[0];
            assert(answered(kept, at, call_id(call)->0));
            let end = choose|end: int|
                at < end < kept.len() && same_round(kept, at, end) && result_id(
                    #[trigger] kept[end],
                ) == Some(call_id(call)->0);
            let source = lemma_origin(exchange, end);
            assert(!is_result(exchange[source]));
        }
    }
}

/// Every result stays, in its place among the results.
pub proof fn law_results_stay(exchange: Seq<JsonView>)
    ensures
        completed(exchange).filter(|message: JsonView| is_result(message)) == exchange.filter(
            |message: JsonView| is_result(message),
        ),
{
    lemma_words();
    let results = |message: JsonView| is_result(message);
    lemma_filter_filter(pruned_all(exchange), replayable(), results);
    lemma_filter_same(pruned_all(exchange), exchange, results);
}

/// Filtering by a weaker test first makes no difference.
proof fn lemma_filter_filter(
    items: Seq<JsonView>,
    weaker: spec_fn(JsonView) -> bool,
    test: spec_fn(JsonView) -> bool,
)
    requires
        forall|item: JsonView| #[trigger] test(item) ==> weaker(item),
    ensures
        items.filter(weaker).filter(test) == items.filter(test),
    decreases items.len(),
{
    reveal(Seq::filter);
    if items.len() > 0 {
        lemma_filter_filter(items.drop_last(), weaker, test);
        let kept = items.drop_last().filter(weaker);
        if weaker(items.last()) {
            assert(kept.push(items.last()).drop_last() =~= kept);
        }
    }
}

/// Two lists that agree on which items pass a test, and on those items, give the
/// same items.
proof fn lemma_filter_same(
    left: Seq<JsonView>,
    right: Seq<JsonView>,
    test: spec_fn(JsonView) -> bool,
)
    requires
        left.len() == right.len(),
        forall|i: int|
            0 <= i < left.len() ==> test(#[trigger] left[i]) == test(right[i]) && (test(left[i])
                ==> left[i] == right[i]),
    ensures
        left.filter(test) == right.filter(test),
    decreases left.len(),
{
    reveal(Seq::filter);
    if left.len() > 0 {
        lemma_filter_same(left.drop_last(), right.drop_last(), test);
    }
}

/// The value that an object has under a key; null for everything else.
pub open spec fn value_under(message: JsonView, key: Seq<char>) -> JsonView {
    match message {
        JsonView::Object(fields) => if fields.contains_key(key) {
            fields[key]
        } else {
            JsonView::Null
        },
        _ => JsonView::Null,
    }
}

/// Whether a call names itself, and one of the tool messages that follow message
/// `at` without a break carries that name.
pub open spec fn is_answered(exchange: Seq<JsonView>, at: int, call: JsonView) -> bool {
    exists|end: int|
        {
            &&& at < end < exchange.len()
            &&& value_under(#[trigger] exchange[end], "tool_call_id"@) is Text
            &&& value_under(exchange[end], "tool_call_id"@) == value_under(call, "id"@)
            &&& forall|k: int|
                at < k <= end ==> value_under(#[trigger] exchange[k], "role"@) == JsonView::Text(
                    "tool"@,
                )
        }
}

/// Whether `kept` holds the items of `all` that stand at `places`, each once and in
/// their order.
pub open spec fn in_places(kept: Seq<JsonView>, all: Seq<JsonView>, places: Seq<int>) -> bool {
    &&& kept.len() == places.len()
    &&& forall|k: int|
        0 <= k < places.len() ==> 0 <= #[trigger] places[k] < all.len() && kept[k]
            == all[places[k]]
    &&& forall|j: int, k: int|
        0 <= j < k < places.len() ==> #[trigger] places[j] < #[trigger] places[k]
}

/// Whether `kept` is message `at` as it may be sent again: a tool message as it is,
/// and of any other message each answered call in its order and all other fields.
pub open spec fn closes(kept: JsonView, exchange: Seq<JsonView>, at: int) -> bool {
    let message = exchange[at];
    if value_under(message, "role"@) == JsonView::Text("tool"@) {
        kept == message
    } else {
        &&& kept is Object
        &&& kept->Object_0.contains_key("tool_calls"@)
        &&& forall|key: Seq<char>|
            key != "tool_calls"@ ==> (#[trigger] kept->Object_0.contains_key(key) <==> message
                is Object && message->Object_0.contains_key(key)) && value_under(kept, key)
                == value_under(message, key)
        &&& match value_under(message, "tool_calls"@) {
            JsonView::Array(calls) => {
                &&& value_under(kept, "tool_calls"@) is Array
                &&& exists|places: Seq<int>|
                    {
                        &&& #[trigger] in_places(
                            value_under(kept, "tool_calls"@)->Array_0,
                            calls,
                            places,
                        )
                        &&& forall|i: int|
                            0 <= i < calls.len() ==> (places.contains(i) <==> is_answered(
                                exchange,
                                at,
                                #[trigger] calls[i],
                            ))
                    }
            },
            other => value_under(kept, "tool_calls"@) == other,
        }
    }
}

/// Whether message `at` stays: one of the assistant's only if a call of it is
/// answered, any other in any case.
pub open spec fn stays(exchange: Seq<JsonView>, at: int) -> bool {
    value_under(exchange[at], "role"@) == JsonView::Text("assistant"@) ==> {
        &&& value_under(exchange[at], "tool_calls"@) is Array
        &&& exists|i: int|
            0 <= i < value_under(exchange[at], "tool_calls"@)->Array_0.len() && is_answered(
                exchange,
                at,
                #[trigger] value_under(exchange[at], "tool_calls"@)->Array_0[i],
            )
    }
}

/// A call is answered when it has a name and its round answers that name.
proof fn lemma_is_answered(exchange: Seq<JsonView>, at: int, call: JsonView)
    ensures
        is_answered(exchange, at, call) == named_in(round_ids(exchange, at))(call),
{
    if is_answered(exchange, at, call) {
        let end = choose|end: int|
            {
                &&& at < end < exchange.len()
                &&& value_under(#[trigger] exchange[end], "tool_call_id"@) is Text
                &&& value_under(exchange[end], "tool_call_id"@) == value_under(call, "id"@)
                &&& forall|k: int|
                    at < k <= end ==> value_under(#[trigger] exchange[k], "role"@)
                        == JsonView::Text("tool"@)
            };
        assert(same_round(exchange, at, end));
        assert(result_id(exchange[end]) == call_id(call));
        assert(answered(exchange, at, call_id(call)->0));
    }
    if named_in(round_ids(exchange, at))(call) {
        let id = call_id(call)->0;
        let end = choose|end: int|
            at < end < exchange.len() && same_round(exchange, at, end) && result_id(
                #[trigger] exchange[end],
            ) == Some(id);
        assert(value_under(exchange[end], "tool_call_id"@) == JsonView::Text(id));
        assert forall|k: int| at < k <= end implies value_under(#[trigger] exchange[k], "role"@)
            == JsonView::Text("tool"@) by {
            assert(is_result(exchange[k]));
        }
    }
}

/// Where the items that pass a test stand.
proof fn lemma_filter_places(items: Seq<JsonView>, test: spec_fn(JsonView) -> bool) -> (places:
    Seq<int>)
    ensures
        in_places(items.filter(test), items, places),
        forall|i: int|
            0 <= i < items.len() ==> (places.contains(i) <==> test(#[trigger] items[i])),
    decreases items.len(),
{
    reveal(Seq::filter);
    if items.len() == 0 {
        Seq::empty()
    } else {
        let last = items.len() - 1;
        let before = lemma_filter_places(items.drop_last(), test);
        let places = if test(items.last()) {
            before.push(last)
        } else {
            before
        };
        assert forall|i: int| 0 <= i < items.len() implies (places.contains(i) <==> test(
            #[trigger] items[i],
        )) by {
            if i < last {
                assert(items.drop_last()[i] == items[i]);
                if before.contains(i) {
                    let k = before.index_of(i);
                    assert(places[k] == i);
                }
            } else if test(items.last()) {
                assert(places[before.len() as int] == i);
            }
        }
        places
    }
}

/// A message without its unanswered calls is that message closed.
proof fn lemma_pruned_closes(exchange: Seq<JsonView>, at: int)
    requires
        0 <= at < exchange.len(),
    ensures
        closes(pruned(exchange, at), exchange, at),
        replayable()(pruned(exchange, at)) == stays(exchange, at),
{
    lemma_words();
    let message = exchange[at];
    let kept = pruned(exchange, at);
    let ids = round_ids(exchange, at);
    assert(value_under(message, "role"@) == message.field("role"@));
    assert(value_under(message, "tool_calls"@) == message.field("tool_calls"@));
    if !is_result(message) {
        if let JsonView::Array(calls) = value_under(message, "tool_calls"@) {
            let places = lemma_filter_places(calls, named_in(ids));
            let named = calls.filter(named_in(ids));
            assert(value_under(kept, "tool_calls"@) == JsonView::Array(named));
            assert forall|i: int| 0 <= i < calls.len() implies (places.contains(i)
                <==> is_answered(exchange, at, #[trigger] calls[i])) by {
                lemma_is_answered(exchange, at, calls[i]);
            }
            assert(in_places(value_under(kept, "tool_calls"@)->Array_0, calls, places));
            if named.len() > 0 {
                assert(places.contains(places[0]));
                assert(is_answered(exchange, at, calls[places[0]]));
            }
            if exists|i: int|
                0 <= i < calls.len() && is_answered(exchange, at, #[trigger] calls[i]) {
                let i = choose|i: int|
                    0 <= i < calls.len() && is_answered(exchange, at, #[trigger] calls[i]);
                assert(places.contains(i));
            }
        }
    }
}

/// A completed exchange holds some of the messages of the exchange, each once and in
/// their order, and each of them closed. Nothing is added: a call that stays stands
/// there as often as it stood before, in the same order.
pub proof fn law_messages_and_calls_stay_in_their_places(exchange: Seq<JsonView>) -> (places: Seq<
    int,
>)
    ensures
        completed(exchange).len() == places.len(),
        forall|k: int|
            0 <= k < places.len() ==> 0 <= #[trigger] places[k] < exchange.len() && closes(
                completed(exchange)[k],
                exchange,
                places[k],
            ),
        forall|j: int, k: int|
            0 <= j < k < places.len() ==> #[trigger] places[j] < #[trigger] places[k],
        forall|at: int|
            0 <= at < exchange.len() ==> (#[trigger] places.contains(at) <==> stays(exchange, at)),
{
    let places = lemma_filter_places(pruned_all(exchange), replayable());
    assert forall|k: int| 0 <= k < places.len() implies 0 <= #[trigger] places[k] < exchange.len()
        && closes(completed(exchange)[k], exchange, places[k]) by {
        lemma_pruned_closes(exchange, places[k]);
    }
    assert forall|at: int| 0 <= at < exchange.len() implies (#[trigger] places.contains(at)
        <==> stays(exchange, at)) by {
        lemma_pruned_closes(exchange, at);
        assert(pruned_all(exchange)[at] == pruned(exchange, at));
    }
    places
}

/// Whether nothing of message `at` is left open: it is a tool message, or it lists
/// its calls and each of them is answered. The assistant's calls at least one tool.
pub open spec fn nothing_open(exchange: Seq<JsonView>, at: int) -> bool {
    let message = exchange[at];
    value_under(message, "role"@) != JsonView::Text("tool"@) ==> {
        &&& message is Object
        &&& message->Object_0.contains_key("tool_calls"@)
        &&& value_under(message, "role"@) == JsonView::Text("assistant"@) ==> value_under(
            message,
            "tool_calls"@,
        ) is Array && value_under(message, "tool_calls"@)->Array_0.len() > 0
        &&& value_under(message, "tool_calls"@) is Array ==> forall|i: int|
            0 <= i < value_under(message, "tool_calls"@)->Array_0.len() ==> is_answered(
                exchange,
                at,
                #[trigger] value_under(message, "tool_calls"@)->Array_0[i],
            )
    }
}

/// An exchange of which nothing is left open comes back unchanged.
pub proof fn law_a_closed_exchange_comes_back(exchange: Seq<JsonView>)
    requires
        forall|at: int| 0 <= at < exchange.len() ==> #[trigger] nothing_open(exchange, at),
    ensures
        completed(exchange) == exchange,
{
    lemma_words();
    assert forall|at: int| 0 <= at < exchange.len() implies #[trigger] pruned(exchange, at)
        == exchange[at] && replayable()(exchange[at]) by {
        assert(nothing_open(exchange, at));
        let message = exchange[at];
        let ids = round_ids(exchange, at);
        assert(value_under(message, "role"@) == message.field("role"@));
        assert(value_under(message, "tool_calls"@) == message.field("tool_calls"@));
        if !is_result(message) {
            if let JsonView::Array(calls) = value_under(message, "tool_calls"@) {
                assert forall|i: int| 0 <= i < calls.len() implies named_in(ids)(
                    #[trigger] calls[i],
                ) by {
                    lemma_is_answered(exchange, at, calls[i]);
                    assert(calls[i] == value_under(message, "tool_calls"@)->Array_0[i]);
                }
                lemma_filter_all(calls, named_in(ids));
            }
            let fields = message->Object_0;
            assert(fields.insert("tool_calls"@, fields["tool_calls"@]) =~= fields);
        }
    }
    assert(pruned_all(exchange) =~= exchange);
    lemma_filter_all(exchange, replayable());
}

} // verus!
