use maach_et::chat::get_system_prompt;
use maach_et::tools::{get_all_tools, get_tool_prompt, SaveTool};
use maach_et::Error;

#[test]
fn registry_holds_the_save_tool() {
    let tools = get_all_tools();
    assert_eq!(tools.len(), 1);
    assert_eq!(tools[0].get_indicator(), "save");
}

#[test]
fn tool_prompt_ends_with_each_description() {
    let prompt = get_tool_prompt();
    let description = SaveTool::new().get_description();
    assert!(prompt.starts_with("\n# List of tools provided"));
    assert!(prompt.ends_with(&format!("{}\n", description)));
    assert!(description.contains("## Save Tool"));
}

#[test]
fn save_needs_a_path() {
    let tool = SaveTool::new();
    assert_eq!(tool.target_path(Some("out/a.txt")).unwrap(), "out/a.txt");
    match tool.target_path(None) {
        Err(Error::Tool(m)) => assert_eq!(m, "No file path provided"),
        _ => panic!("expected a missing path"),
    }
}

#[test]
fn system_prompt_is_fixed_text() {
    let p = get_system_prompt();
    assert!(p.contains("Use `<think>` tags to think before you answer."));
}
