use chat_generation::exchange::completed_exchange;
use chat_generation::json::Json;

fn parse(text: &str) -> serde_json::Value {
    serde_json::from_str(text).unwrap()
}

fn messages(texts: &[&str]) -> Vec<Json> {
    let mut all = Vec::new();
    for text in texts {
        all.push(Json::from_value(parse(text)));
    }
    all
}

fn complete(texts: &[&str]) -> Vec<serde_json::Value> {
    let mut kept = Vec::new();
    for message in completed_exchange(messages(texts)) {
        kept.push(message.to_value());
    }
    kept
}

#[test]
fn a_stopped_parallel_batch_replays_only_answered_calls() {
    let kept = complete(&[
        r#"{"role":"assistant", "tool_calls":[{"id":"finished"},{"id":"pending"}]}"#,
        r#"{"role":"tool", "tool_call_id":"finished", "content":"found"}"#,
        r#"{"role":"assistant", "tool_calls":[{"id":"never_started"}]}"#,
    ]);
    assert_eq!(kept.len(), 2);
    assert_eq!(kept[0]["tool_calls"], parse(r#"[{"id":"finished"}]"#));
    assert_eq!(kept[1]["tool_call_id"], "finished");
}

#[test]
fn a_reused_call_id_only_matches_results_in_its_own_round() {
    let kept = complete(&[
        r#"{"role":"assistant", "tool_calls":[{"id":"reused"}]}"#,
        r#"{"role":"tool", "tool_call_id":"reused", "content":"old result"}"#,
        r#"{"role":"assistant", "tool_calls":[{"id":"reused"},{"id":"finished"}]}"#,
        r#"{"role":"tool", "tool_call_id":"finished", "content":"new result"}"#,
    ]);
    assert_eq!(kept.len(), 4);
    assert_eq!(kept[0]["tool_calls"], parse(r#"[{"id":"reused"}]"#));
    assert_eq!(kept[2]["tool_calls"], parse(r#"[{"id":"finished"}]"#));
}

#[test]
fn an_exchange_without_results_keeps_no_call() {
    let kept = complete(&[r#"{"role":"assistant", "tool_calls":[{"id":"a"},{"id":"b"}]}"#]);
    assert!(kept.is_empty());
    assert!(complete(&[]).is_empty());
}

#[test]
fn a_complete_exchange_is_kept_as_it_is() {
    let exchange = [
        r#"{"role":"assistant","content":"looking","tool_calls":[{"id":"a","type":"function","function":{"name":"find","arguments":"{}"}},{"id":"b"}]}"#,
        r#"{"role":"tool","tool_call_id":"b","content":"two"}"#,
        r#"{"role":"tool","tool_call_id":"a","content":"one","score":0.75}"#,
    ];
    let kept = complete(&exchange);
    assert_eq!(kept, vec![parse(exchange[0]), parse(exchange[1]), parse(exchange[2])]);
}

#[test]
fn completing_twice_changes_nothing() {
    let exchange = [
        r#"{"role":"assistant","tool_calls":[{"id":"a"},{"id":"b"}]}"#,
        r#"{"role":"tool","tool_call_id":"a"}"#,
        r#"{"role":"assistant","tool_calls":[{"id":"c"}]}"#,
        r#"{"role":"tool","tool_call_id":"b"}"#,
        r#"{"role":"user","content":"go on"}"#,
        r#"null"#,
    ];
    let once = complete(&exchange);
    let mut again = Vec::new();
    for message in completed_exchange(completed_exchange(messages(&exchange))) {
        again.push(message.to_value());
    }
    assert_eq!(once.len(), 5);
    assert_eq!(once[0]["tool_calls"], parse(r#"[{"id":"a"}]"#));
    assert_eq!(once[2]["tool_call_id"], "b");
    assert_eq!(again, once);
}

#[test]
fn another_message_between_call_and_result_ends_the_round() {
    let kept = complete(&[
        r#"{"role":"assistant","tool_calls":[{"id":"a"}]}"#,
        r#"{"role":"user","content":"wait"}"#,
        r#"{"role":"tool","tool_call_id":"a","content":"late"}"#,
    ]);
    assert_eq!(kept.len(), 2);
    assert_eq!(kept[0]["role"], "user");
    assert_eq!(kept[1], parse(r#"{"role":"tool","tool_call_id":"a","content":"late"}"#));
}

#[test]
fn a_message_that_lists_no_calls_gets_a_null_for_them() {
    let kept = complete(&[r#"{"role":"user","content":"hello"}"#, r#"null"#]);
    assert_eq!(
        kept,
        vec![
            parse(r#"{"role":"user","content":"hello","tool_calls":null}"#),
            parse(r#"{"tool_calls":null}"#),
        ]
    );
}

#[test]
fn calls_without_a_string_for_an_id_are_dropped() {
    let kept = complete(&[
        r#"{"role":"assistant","tool_calls":[{"id":1},{},"a",{"id":"a"}]}"#,
        r#"{"role":"tool","tool_call_id":"a"}"#,
        r#"{"role":"tool","tool_call_id":1}"#,
    ]);
    assert_eq!(kept.len(), 3);
    assert_eq!(kept[0]["tool_calls"], parse(r#"[{"id":"a"}]"#));
}

#[test]
fn an_assistant_message_whose_calls_are_no_list_is_dropped() {
    let kept = complete(&[
        r#"{"role":"assistant","tool_calls":"all"}"#,
        r#"{"role":"assistant","content":"only text"}"#,
        r#"{"role":"assistant","tool_calls":[]}"#,
        r#"{"role":"system","tool_calls":"all"}"#,
    ]);
    assert_eq!(kept, vec![parse(r#"{"role":"system","tool_calls":"all"}"#)]);
}

#[test]
fn every_message_prunes_its_calls_but_only_an_assistants_is_dropped_for_it() {
    let kept = complete(&[
        r#"{"role":"developer","tool_calls":[{"id":"x"},{"id":"y"}],"note":true}"#,
        r#"{"role":"tool","tool_call_id":"y","tool_calls":[{"id":"z"}]}"#,
        r#"{"role":7,"tool_calls":[{"id":"z"}]}"#,
    ]);
    assert_eq!(
        kept,
        vec![
            parse(r#"{"role":"developer","tool_calls":[{"id":"y"}],"note":true}"#),
            parse(r#"{"role":"tool","tool_call_id":"y","tool_calls":[{"id":"z"}]}"#),
            parse(r#"{"role":7,"tool_calls":[]}"#),
        ]
    );
}

#[test]
fn the_last_of_two_fields_with_one_key_counts() {
    let message = Json::Object(vec![
        ("role".to_string(), Json::Text("assistant".to_string())),
        ("tool_calls".to_string(), Json::Array(vec![])),
        ("role".to_string(), Json::Text("user".to_string())),
        ("tool_calls".to_string(), Json::Bool(true)),
    ]);
    assert_eq!(message.get("role"), Some(&Json::Text("user".to_string())));
    assert_eq!(message.get("content"), None);
    let kept = completed_exchange(vec![message]);
    assert_eq!(kept.len(), 1);
    assert_eq!(kept[0].to_value(), parse(r#"{"role":"user","tool_calls":true}"#));
}
