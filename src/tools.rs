//! The capability registry: the tools that model output may invoke.
use vstd::prelude::*;
use crate::chat::dispatch::{opt_str_view, outcome_of, Outcome};
use crate::Error;

pub mod save;

pub use save::{SaveTool, SAVE_DESCRIPTION};

verus! {

/// One run of a tool: the parameter and content it was handed, and how it
/// came out.
pub struct ToolRun {
    pub parameter: Option<Seq<char>>,
    pub content: Seq<char>,
    pub outcome: Outcome,
}

/// The runs of a tool, oldest first.
pub type ToolRuns = Seq<ToolRun>;

/// A capability that a tool block can invoke.
///
/// `runs` is the tool's record of its runs, a model for proofs only: it is
/// never called when the program runs, so an implementation outside verified
/// code may give it any body, and the contract of `execute` is what it
/// promises about its runs.
pub trait Tool {
    /// The runs of this tool so far, oldest first.
    spec fn runs(&self) -> ToolRuns;

    /// The text that presents the tool to the model.
    fn get_description(&self) -> String;

    /// The name that a block must carry to invoke the tool.
    fn get_indicator(&self) -> String;

    /// Runs the tool on a block's parameter and content: `Ok(Some(text))`
    /// surfaces a result, `Ok(None)` surfaces none. The run is added to the
    /// tool's runs.
    fn execute(&mut self, parameter: Option<&str>, content: &str) -> (r: Result<Option<String>, Error>)
        ensures
            final(self).runs() == old(self).runs().push(
                (ToolRun {
                    parameter: opt_str_view(parameter),
                    content: content@,
                    outcome: outcome_of(r),
                }),
            ),
    ;
}

/// The text that introduces the tool descriptions in the system prompt.
pub const TOOL_PROMPT_INTRO: &'static str = r#"
# List of tools provided

The following tools should be used to help the user in their tasks. Each tool
has a specific function and purpose.

For each tool, you will be given a description of its functionality, a usage pattern and an output example.
If you want to access to tool, you have to format you intent following the usage pattern.
This pattern is always a markdown code block. The three backticks at the beginning are followed by the
tool indicator. Behind that there is an optinal parameter.

Like so:

```tool_indicator <optional_parameter>"
content
```

If the tool has an output, it will be formatted following the given example.

There are tools that do not have an output, like writing or patching a file's content.
There are other tool that have output like reading a folder'systems or a file' s content.

You can activate any number of tools without an output but only one tool that has an output.
You will then be given this output as you next user prompt.

    "#;

/// The registry: every built-in tool, in dispatch order.
pub fn get_all_tools() -> (r: Vec<SaveTool>)
    ensures
        r.len() == 1,
{
    let mut r: Vec<SaveTool> = Vec::new();
    r.push(SaveTool::new());
    r
}

/// The tool section of the system prompt: the introduction, then each
/// tool's description followed by a line break.
pub fn get_tool_prompt() -> (r: String)
    ensures
        r@ == TOOL_PROMPT_INTRO@ + SAVE_DESCRIPTION@ + seq!['\n'],
{
    let mut prompt = String::from_str(TOOL_PROMPT_INTRO);
    let tools = get_all_tools();
    let mut i: usize = 0;
    while i < tools.len()
        invariant
            tools.len() == 1,
            0 <= i <= 1,
            i == 0 ==> prompt@ == TOOL_PROMPT_INTRO@,
            i == 1 ==> prompt@ == TOOL_PROMPT_INTRO@ + SAVE_DESCRIPTION@ + seq!['\n'],
        decreases tools.len() - i,
    {
        let d = tools[i].get_description();
        prompt.append(d.as_str());
        prompt.append("\n");
        proof {
            reveal_strlit("\n");
        }
        i = i + 1;
    }
    prompt
}

} // verus!
