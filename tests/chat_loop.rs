use maach_et::chat::chat_loop::{ChatLoop, LoopStatus};
use maach_et::llm_api::{Message, Role};
use maach_et::tools::{Tool, ToolRuns};
use maach_et::Error;

struct Lister;

impl Tool for Lister {
    fn runs(&self) -> ToolRuns {
        unreachable!()
    }

    fn get_description(&self) -> String {
        "Lists things".to_string()
    }

    fn get_indicator(&self) -> String {
        "list".to_string()
    }

    fn execute(&mut self, _parameter: Option<&str>, content: &str) -> Result<Option<String>, Error> {
        Ok(Some(format!("listed: {}", content)))
    }
}

fn assistant(text: &str) -> Message {
    Message {
        role: Role::Assistant,
        content: text.to_string(),
    }
}

#[test]
fn test_chat_loop_initialization() {
    let system_prompt = "Test system prompt".to_string();
    let chat_loop = ChatLoop::new((), system_prompt);
    assert_eq!(chat_loop.get_conversation_history().len(), 0);
    assert_eq!(chat_loop.status(), LoopStatus::UserInput);
    assert_eq!(chat_loop.system_prompt(), "Test system prompt");
}

#[test]
fn exit_commands_end_the_session_without_a_request() {
    for line in ["/bye", "/exit", "/quit", "  /quit \n"] {
        let mut chat = ChatLoop::new((), "p".to_string());
        assert_eq!(chat.accept_user_line(line), None);
        assert_eq!(chat.status(), LoopStatus::Exit);
        assert!(!chat.is_running());
        assert_eq!(chat.get_conversation_history().len(), 0);
    }
}

#[test]
fn exit_commands_are_case_sensitive() {
    let mut chat = ChatLoop::new((), "p".to_string());
    assert!(chat.accept_user_line("/BYE").is_some());
    assert_eq!(chat.status(), LoopStatus::UserInput);
}

#[test]
fn user_lines_are_framed_as_tasks() {
    let mut chat = ChatLoop::new((), "p".to_string());
    let input = chat.accept_user_line("  write a file \n").unwrap();
    assert_eq!(
        input,
        "Help me with my task. write a file\nKeep in mind to use the tools described in the system prompt"
    );
}

#[test]
fn plain_reply_returns_to_the_user_with_two_more_turns() {
    let mut chat = ChatLoop::new((), "p".to_string());
    let input = chat.accept_user_line("hello").unwrap();
    let d = chat.on_reply(assistant("Hi there."), &mut Vec::<Lister>::new());
    assert!(d.failures.is_empty());
    assert!(d.plan.is_empty());
    assert_eq!(d.output, None);
    assert_eq!(chat.status(), LoopStatus::UserInput);
    let log = chat.get_conversation_history();
    assert_eq!(log.len(), 2);
    assert_eq!(log[0].role, Role::User);
    assert_eq!(log[0].content, input);
    assert_eq!(log[1].content, "Hi there.");
    assert_eq!(chat.next_input(), None);
}

#[test]
fn surfaced_output_is_the_next_input_verbatim() {
    let mut chat = ChatLoop::new((), "p".to_string());
    chat.accept_user_line("show me").unwrap();
    let d = chat.on_reply(assistant("Sure:\n```list\nfiles\n```"), &mut vec![Lister]);
    assert_eq!(d.output, Some("listed: files".to_string()));
    assert_eq!(d.plan, vec![(0, 0)]);
    assert_eq!(chat.status(), LoopStatus::ToolInput);
    assert_eq!(chat.next_input(), Some("listed: files".to_string()));
    chat.on_reply(assistant("Those are the files."), &mut vec![Lister]);
    assert_eq!(chat.status(), LoopStatus::UserInput);
    let log = chat.get_conversation_history();
    assert_eq!(log.len(), 4);
    assert_eq!(log[2].content, "listed: files");
}

#[test]
fn provider_failure_ends_the_session() {
    let mut chat = ChatLoop::new((), "p".to_string());
    chat.on_provider_error();
    assert_eq!(chat.status(), LoopStatus::Error);
    assert!(!chat.is_running());

    let mut from_tool = ChatLoop::new((), "p".to_string());
    from_tool.accept_user_line("go").unwrap();
    from_tool.on_reply(assistant("```list\nx\n```"), &mut vec![Lister]);
    assert_eq!(from_tool.status(), LoopStatus::ToolInput);
    from_tool.on_provider_error();
    assert_eq!(from_tool.status(), LoopStatus::Error);
    assert_eq!(from_tool.get_conversation_history().len(), 2);
}

#[test]
fn terminal_states_take_no_more_events() {
    let mut chat = ChatLoop::new((), "p".to_string());
    chat.accept_user_line("/bye");
    let d = chat.on_reply(assistant("```list\ny\n```"), &mut vec![Lister]);
    assert!(d.failures.is_empty() && d.plan.is_empty() && d.output.is_none());
    assert_eq!(chat.status(), LoopStatus::Exit);
    assert_eq!(chat.get_conversation_history().len(), 0);
    chat.on_provider_error();
    assert_eq!(chat.status(), LoopStatus::Exit);
    assert_eq!(chat.accept_user_line("hello"), None);
}

#[test]
fn the_accepted_line_is_the_logged_input() {
    let mut chat = ChatLoop::new((), "p".to_string());
    let d = chat.on_reply(assistant("unasked"), &mut vec![Lister]);
    assert!(d.plan.is_empty());
    assert_eq!(chat.get_conversation_history().len(), 0);
    let input = chat.accept_user_line(" task ").unwrap();
    assert_eq!(chat.next_input(), Some(input.clone()));
    chat.on_reply(assistant("done"), &mut vec![Lister]);
    let log = chat.get_conversation_history();
    assert_eq!(log[0].content, input);
    assert_eq!(chat.next_input(), None);
}
