use maach_et::agent::{Agent, AgentContext, AgentResponse, BasicAgent};
use maach_et::llm_api::{Message, Role, LLMAPI};

fn reply(kind: &str) -> Message {
    Message {
        role: Role::Assistant,
        content: format!("This is a {} response", kind),
    }
}

#[test]
fn test_agent_context() {
    let mut context = AgentContext::new("Test prompt".to_string());
    assert_eq!(context.conversation_history.len(), 0);

    context.add_message(Message {
        role: Role::User,
        content: "Test message".to_string(),
    });
    assert_eq!(context.conversation_history.len(), 1);
}

#[test]
fn test_basic_agent_complete() {
    let agent = BasicAgent::new("Test Agent".to_string(), LLMAPI::new(()));
    let mut context = AgentContext::new("You are a test agent.".to_string());
    agent.begin_task(&mut context, "Test task");
    let response = agent.finish_task(&mut context, reply("complete"));
    match response {
        AgentResponse::Complete(msg) => assert!(msg.contains("complete")),
        _ => panic!("Expected Complete response"),
    }
    assert_eq!(context.conversation_history.len(), 2);
}

#[test]
fn test_basic_agent_reject() {
    let agent = BasicAgent::new("Test Agent".to_string(), LLMAPI::new(()));
    let mut context = AgentContext::new("You are a test agent.".to_string());
    agent.begin_task(&mut context, "Test task");
    match agent.finish_task(&mut context, reply("reject")) {
        AgentResponse::Reject(msg) => assert!(msg.contains("reject")),
        _ => panic!("Expected Reject response"),
    }
}

#[test]
fn test_basic_agent_partial() {
    let agent = BasicAgent::new("Test Agent".to_string(), LLMAPI::new(()));
    let mut context = AgentContext::new("You are a test agent.".to_string());
    agent.begin_task(&mut context, "Test task");
    match agent.finish_task(&mut context, reply("partial")) {
        AgentResponse::Partial(msg) => assert!(msg.contains("partial")),
        _ => panic!("Expected Partial response"),
    }
}

#[test]
fn labels_ignore_case_and_keep_the_text() {
    assert_eq!(
        AgentResponse::from_reply("Task COMPLETE.".to_string()),
        AgentResponse::Complete("Task COMPLETE.".to_string())
    );
    assert_eq!(
        AgentResponse::from_reply("I must Reject this".to_string()),
        AgentResponse::Reject("I must Reject this".to_string())
    );
    assert_eq!(
        AgentResponse::from_reply("completed but rejected".to_string()),
        AgentResponse::Complete("completed but rejected".to_string())
    );
}

#[test]
fn classification_by_lowered_text() {
    assert_eq!(
        AgentResponse::classify_lowered("X".to_string(), "rejected"),
        AgentResponse::Reject("X".to_string())
    );
    assert_eq!(
        AgentResponse::classify_lowered("X".to_string(), "Complete"),
        AgentResponse::Partial("X".to_string())
    );
}

#[test]
fn agent_keeps_its_description_and_turn_order() {
    let agent = BasicAgent::new("Test Agent".to_string(), LLMAPI::new(7u8));
    assert_eq!(agent.description(), "Test Agent");
    assert_eq!(*agent.llm_api().get_client(), 7u8);
    let mut context = AgentContext::new("p".to_string());
    agent.begin_task(&mut context, "do it");
    agent.finish_task(&mut context, reply("partial"));
    assert_eq!(context.conversation_history[0].role, Role::User);
    assert_eq!(context.conversation_history[0].content, "do it");
    assert_eq!(context.conversation_history[1].role, Role::Assistant);
}
