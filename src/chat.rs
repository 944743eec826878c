//! The conversation side: the invocation scanner and dispatcher, the turn
//! controller, the fixed prompts and the source-control pre-flight.
pub mod chat_loop;
pub mod git;
pub mod prompt;
pub mod dispatch;
pub mod scan_laws;
pub mod tool_checker;

pub use tool_checker::{check_for_tools, execute_tools, run_tools, ToolInput};
pub use chat_loop::{ChatLoop, LoopStatus};
pub use prompt::get_system_prompt;
