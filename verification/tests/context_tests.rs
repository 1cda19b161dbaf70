use mindlink::context::build_messages;
use mindlink::store::ChatTurn;

fn turn(id: i64, role: &str, content: &str) -> ChatTurn {
    ChatTurn { id, role: role.to_string(), content: content.to_string(), ts: String::new() }
}

#[test]
fn window_of_two_plus_prompt() {
    let history = vec![turn(1, "user", "hi"), turn(2, "assistant", "hello")];
    let msgs = build_messages(&history, "how are you");
    assert_eq!(msgs.len(), 3);
    assert_eq!(msgs[0].role, "user");
    assert_eq!(msgs[0].content, "hi");
    assert_eq!(msgs[1].role, "assistant");
    assert_eq!(msgs[1].content, "hello");
    assert_eq!(msgs[2].role, "user");
    assert_eq!(msgs[2].content, "how are you");
}

#[test]
fn empty_history_gives_only_the_prompt() {
    let msgs = build_messages(&Vec::new(), "first words");
    assert_eq!(msgs.len(), 1);
    assert_eq!(msgs[0].role, "user");
    assert_eq!(msgs[0].content, "first words");
}
