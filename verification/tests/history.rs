use chat_generation::history::context_text;

#[test]
fn a_stopped_chat_is_replayed_as_incomplete() {
    for (content, stopped, expected_context) in [
        ("A complete answer.", false, "A complete answer."),
        (
            "已生成的部分",
            true,
            "[This response was stopped by the user before completion.]\n\n已生成的部分",
        ),
        (
            "",
            true,
            "[This response was stopped by the user before completion.]\n\n",
        ),
    ] {
        assert_eq!(context_text(content.to_string(), stopped), expected_context);
    }
}
