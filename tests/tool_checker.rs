use maach_et::chat::dispatch::{dispatch, record_outcome, Dispatch};
use maach_et::chat::tool_checker::{check_for_tools, execute_tools, run_tools, ToolInput};
use maach_et::tools::{Tool, ToolRuns};
use maach_et::Error;
use std::cell::RefCell;
use std::rc::Rc;

#[derive(Clone)]
struct MockTool {
    indicator: String,
    result: Option<String>,
    was_called: Rc<RefCell<bool>>,
}

impl MockTool {
    fn new(indicator: &str, result: Option<String>) -> Self {
        Self {
            indicator: indicator.to_string(),
            result,
            was_called: Rc::new(RefCell::new(false)),
        }
    }

    fn was_called(&self) -> bool {
        *self.was_called.borrow()
    }
}

impl Tool for MockTool {
    fn runs(&self) -> ToolRuns {
        unreachable!()
    }

    fn get_description(&self) -> String {
        "Mock tool".to_string()
    }

    fn get_indicator(&self) -> String {
        self.indicator.clone()
    }

    fn execute(&mut self, _parameter: Option<&str>, _content: &str) -> Result<Option<String>, Error> {
        *self.was_called.borrow_mut() = true;
        Ok(self.result.clone())
    }
}

/// A tool that always fails, counting its runs.
struct FailingTool {
    runs: Rc<RefCell<usize>>,
}

impl Tool for FailingTool {
    fn runs(&self) -> ToolRuns {
        unreachable!()
    }

    fn get_description(&self) -> String {
        "Failing tool".to_string()
    }

    fn get_indicator(&self) -> String {
        "broken".to_string()
    }

    fn execute(&mut self, _parameter: Option<&str>, _content: &str) -> Result<Option<String>, Error> {
        *self.runs.borrow_mut() += 1;
        Err(Error::Tool("failed".to_string()))
    }
}

fn candidates(names: &[&str]) -> Vec<ToolInput> {
    names
        .iter()
        .map(|n| ToolInput {
            name: n.to_string(),
            parameter: None,
            content: "test".to_string(),
        })
        .collect()
}

#[test]
fn test_no_tool_blocks() {
    let input = "This is a normal message without any tool blocks.";
    assert_eq!(check_for_tools(input), Vec::new());
}

#[test]
fn test_single_block_with_parameter() {
    let input = r#"Here's a tool block:
```save test.txt
Hello, world!
```"#;

    assert_eq!(
        check_for_tools(input),
        vec![ToolInput {
            name: "save".to_string(),
            parameter: Some("test.txt".to_string()),
            content: "Hello, world!".to_string(),
        }]
    );
}

#[test]
fn test_single_block_without_parameter() {
    let input = r#"Here's a tool block:
```list
directory contents
```"#;

    assert_eq!(
        check_for_tools(input),
        vec![ToolInput {
            name: "list".to_string(),
            parameter: None,
            content: "directory contents".to_string(),
        }]
    );
}

#[test]
fn test_multiple_blocks() {
    let input = r#"Here are multiple blocks:
```save test.txt
Hello, world!
```
Some text in between
```list
directory contents
```"#;

    assert_eq!(
        check_for_tools(input),
        vec![
            ToolInput {
                name: "save".to_string(),
                parameter: Some("test.txt".to_string()),
                content: "Hello, world!".to_string(),
            },
            ToolInput {
                name: "list".to_string(),
                parameter: None,
                content: "directory contents".to_string(),
            }
        ]
    );
}

#[test]
fn test_execute_tools_last_returns_some() {
    let tool1 = MockTool::new("tool1", None);
    let tool2 = MockTool::new("tool2", None);
    let tool3 = MockTool::new("tool3", Some("success".to_string()));

    let tool_candidates = candidates(&["tool1", "tool2", "tool3"]);
    let all_tools = vec![tool1.clone(), tool2.clone(), tool3.clone()];

    let result = execute_tools(tool_candidates, all_tools);

    assert_eq!(result, Some("success".to_string()));
    assert!(tool1.was_called());
    assert!(tool2.was_called());
    assert!(tool3.was_called());
}

#[test]
fn test_execute_tools_all_return_none() {
    let tool1 = MockTool::new("tool1", None);
    let tool2 = MockTool::new("tool2", None);
    let tool3 = MockTool::new("tool3", None);

    let tool_candidates = candidates(&["tool1", "tool2", "tool3"]);
    let all_tools = vec![tool1.clone(), tool2.clone(), tool3.clone()];

    let result = execute_tools(tool_candidates, all_tools);

    assert_eq!(result, None);
    assert!(tool1.was_called());
    assert!(tool2.was_called());
    assert!(tool3.was_called());
}

#[test]
fn test_execute_tools_first_returns_some() {
    let tool1 = MockTool::new("tool1", Some("early success".to_string()));
    let tool2 = MockTool::new("tool2", Some("should not see this".to_string()));
    let tool3 = MockTool::new("tool3", Some("should not see this either".to_string()));

    let tool_candidates = candidates(&["tool1", "tool2", "tool3"]);
    let all_tools = vec![tool1.clone(), tool2.clone(), tool3.clone()];

    let result = execute_tools(tool_candidates, all_tools);

    assert_eq!(result, Some("early success".to_string()));
    assert!(tool1.was_called());
    assert!(!tool2.was_called());
    assert!(!tool3.was_called());
}

#[test]
fn empty_text_has_no_blocks() {
    assert!(check_for_tools("").is_empty());
}

#[test]
fn block_without_closing_fence_is_skipped() {
    assert!(check_for_tools("```save a.txt\nno closing fence").is_empty());
}

#[test]
fn block_without_header_break_is_skipped() {
    assert!(check_for_tools("text ```save").is_empty());
}

#[test]
fn block_with_blank_header_is_skipped() {
    // The blank header is dropped; scanning resumes after the first fence,
    // so the closing fence opens a block of its own.
    assert!(check_for_tools("```   \nbody\n```").is_empty());
}

#[test]
fn parameter_words_are_joined_by_single_spaces() {
    let calls = check_for_tools("```run  a\t b   c \n  body text \t\n```");
    assert_eq!(
        calls,
        vec![ToolInput {
            name: "run".to_string(),
            parameter: Some("a b c".to_string()),
            content: "body text".to_string(),
        }]
    );
}

#[test]
fn name_only_header_gives_no_parameter() {
    let calls = check_for_tools("```list   \ncontents\n```");
    assert_eq!(calls.len(), 1);
    assert_eq!(calls[0].parameter, None);
}

#[test]
fn unicode_white_space_is_trimmed() {
    let calls = check_for_tools("```note\n\u{a0}\u{2003} héllo wörld \u{3000}\n```");
    assert_eq!(calls[0].content, "héllo wörld");
}

#[test]
fn three_blocks_come_out_in_order() {
    let text = "a\n```one x\n1\n```\nb\n```two\n2\n```\n```three y z\n3\n```tail";
    let names: Vec<String> = check_for_tools(text).into_iter().map(|c| c.name).collect();
    assert_eq!(names, vec!["one", "two", "three"]);
}

#[test]
fn fence_inside_body_closes_the_block() {
    let calls = check_for_tools("```outer\nstart ```inner\nrest\n```");
    assert_eq!(calls.len(), 1);
    assert_eq!(calls[0].name, "outer");
    assert_eq!(calls[0].content, "start");
}

#[test]
fn silent_tools_run_before_the_one_with_output() {
    let c1 = MockTool::new("c1", None);
    let c2 = MockTool::new("c2", None);
    let c3 = MockTool::new("c3", Some("X".to_string()));
    let result = execute_tools(candidates(&["c1", "c2", "c3"]), vec![c1.clone(), c2.clone(), c3.clone()]);
    assert_eq!(result, Some("X".to_string()));
    assert!(c1.was_called() && c2.was_called() && c3.was_called());
}

#[test]
fn unknown_names_are_skipped() {
    let known = MockTool::new("known", Some("out".to_string()));
    let result = execute_tools(candidates(&["python", "known"]), vec![known.clone()]);
    assert_eq!(result, Some("out".to_string()));
    assert!(known.was_called());
}

#[test]
fn every_tool_with_the_name_runs() {
    let a = MockTool::new("same", None);
    let b = MockTool::new("same", Some("second".to_string()));
    let result = execute_tools(candidates(&["same"]), vec![a.clone(), b.clone()]);
    assert_eq!(result, Some("second".to_string()));
    assert!(a.was_called() && b.was_called());
}

#[test]
fn failures_are_reported_and_dispatch_goes_on() {
    let runs = Rc::new(RefCell::new(0));
    let tools = vec![FailingTool { runs: runs.clone() }];
    let mut tools = tools;
    let d = dispatch(&candidates(&["broken", "broken"]), &mut tools);
    assert!(d.output.is_none());
    assert_eq!(*runs.borrow(), 2);
    assert_eq!(d.failures.len(), 2);
    assert_eq!(d.failures[1].invocation, 1);
    assert_eq!(d.failures[1].tool, 0);
    assert_eq!(d.failures[0].error.message(), "Tool error: failed");
}

#[test]
fn run_tools_parses_and_dispatches() {
    let echo = MockTool::new("echo", Some("echoed".to_string()));
    let result = run_tools("Try this:\n```echo\nhi\n```", &mut vec![echo.clone()]);
    assert_eq!(result, Some("echoed".to_string()));
    assert!(echo.was_called());
    let idle = MockTool::new("echo", Some("echoed".to_string()));
    assert_eq!(run_tools("nothing to run", &mut vec![idle.clone()]), None);
    assert!(!idle.was_called());
}

#[test]
fn dispatch_reports_indicators_and_plan() {
    let a = MockTool::new("a", None);
    let b = MockTool::new("b", Some("from b".to_string()));
    let a2 = MockTool::new("a", None);
    let d = dispatch(&candidates(&["b", "a", "zzz"]), &mut vec![a.clone(), b.clone(), a2.clone()]);
    assert_eq!(d.indicators, vec!["a".to_string(), "b".to_string(), "a".to_string()]);
    assert_eq!(d.plan, vec![(0, 1), (1, 0), (1, 2)]);
    assert_eq!(d.output, Some("from b".to_string()));
    assert!(b.was_called());
    assert!(!a.was_called() && !a2.was_called());
}

#[test]
fn record_outcome_steps() {
    let d = Dispatch { indicators: vec![], plan: vec![], output: None, failures: vec![] };
    let (d, stop) = record_outcome(d, 0, 0, Ok(None));
    assert!(!stop && d.output.is_none() && d.failures.is_empty());
    let (d, stop) = record_outcome(d, 1, 2, Err(Error::Tool("bad".to_string())));
    assert!(!stop);
    assert_eq!((d.failures[0].invocation, d.failures[0].tool), (1, 2));
    let (d, stop) = record_outcome(d, 3, 0, Ok(Some("out".to_string())));
    assert!(stop);
    assert_eq!(d.output, Some("out".to_string()));
    assert_eq!(d.failures.len(), 1);
}

/// A tool that records what it was handed.
struct Recorder {
    seen: Rc<RefCell<Vec<(Option<String>, String)>>>,
}

impl Tool for Recorder {
    fn runs(&self) -> ToolRuns {
        unreachable!()
    }

    fn get_description(&self) -> String {
        "Recorder".to_string()
    }

    fn get_indicator(&self) -> String {
        "rec".to_string()
    }

    fn execute(&mut self, parameter: Option<&str>, content: &str) -> Result<Option<String>, Error> {
        self.seen
            .borrow_mut()
            .push((parameter.map(|p| p.to_string()), content.to_string()));
        Ok(None)
    }
}

#[test]
fn each_run_gets_its_invocation_parameter_and_content() {
    let seen = Rc::new(RefCell::new(Vec::new()));
    let mut tools = vec![Recorder { seen: seen.clone() }];
    let result = run_tools("```rec a.txt\nfirst\n```\n```other\nx\n```\n```rec\nsecond\n```", &mut tools);
    assert_eq!(result, None);
    assert_eq!(
        *seen.borrow(),
        vec![
            (Some("a.txt".to_string()), "first".to_string()),
            (None, "second".to_string())
        ]
    );
}
