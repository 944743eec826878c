use maach_et::llm_api::{build_request, copy_messages, first_choice, Message, Role, LLMAPI};
use maach_et::Error;

fn msg(role: Role, text: &str) -> Message {
    Message {
        role,
        content: text.to_string(),
    }
}

#[test]
fn request_holds_system_history_and_input_in_order() {
    let history = vec![
        msg(Role::User, "Previous message"),
        msg(Role::Assistant, "Previous response"),
    ];
    let r = build_request(Some("System prompt".to_string()), &history, "Test message".to_string());
    assert_eq!(r.len(), 4);
    assert_eq!(r[0].role, Role::System);
    assert_eq!(r[0].content, "System prompt");
    assert_eq!(r[1].content, "Previous message");
    assert_eq!(r[2].role, Role::Assistant);
    assert_eq!(r[3].role, Role::User);
    assert_eq!(r[3].content, "Test message");
}

#[test]
fn request_without_system_prompt() {
    let r = build_request(None, &Vec::new(), "First message".to_string());
    assert_eq!(r.len(), 1);
    assert_eq!(r[0].role, Role::User);
}

#[test]
fn role_names_round_trip() {
    for role in [Role::User, Role::Assistant, Role::System] {
        assert_eq!(Role::from_name(role.as_str()), role);
    }
    assert_eq!(Role::from_name("tool"), Role::Assistant);
    assert_eq!(Role::User.as_str(), "user");
}

#[test]
fn first_choice_or_error() {
    let m = first_choice(vec![msg(Role::Assistant, "a"), msg(Role::Assistant, "b")]).unwrap();
    assert_eq!(m.content, "a");
    match first_choice(Vec::new()) {
        Err(Error::Llm(e)) => assert_eq!(e, "No response from ChatGPT"),
        _ => panic!("expected an error"),
    }
}

#[test]
fn messages_are_copied_in_order() {
    let v = vec![msg(Role::User, "one"), msg(Role::Assistant, "two")];
    let c = copy_messages(&v);
    assert_eq!(c.len(), 2);
    assert_eq!(c[1].content, "two");
}

#[test]
fn api_hands_back_its_client() {
    let api = LLMAPI::new("client".to_string());
    assert_eq!(api.get_client(), "client");
}

#[test]
fn error_messages_carry_their_labels() {
    assert_eq!(Error::Llm("x".to_string()).message(), "LLM error: x");
    assert_eq!(Error::ChatControl("y".to_string()).message(), "Chat control error: y");
    assert_eq!(
        Error::Git("z".to_string()).message(),
        "Error while processing git command: z"
    );
    let io = Error::from(std::io::Error::new(std::io::ErrorKind::Other, "disk"));
    assert_eq!(io.message(), "IO error: disk");
}
