//! The save tool: writes its content to the file that its parameter names.
//!
//! The write itself is left to the caller; this type supplies the tool's
//! description, its indicator, and the checked target path.
use vstd::prelude::*;
use crate::Error;

verus! {

/// The description that presents the save tool to the model.
pub const SAVE_DESCRIPTION: &'static str = r#"
## Save Tool

### Purpose:
Create or overwrite a file with the given content.
Whenever you want to create a overwrite a file, always use this tool. Do not just
print the code to the user.

### Usage Pattern:

The path can be relative to the current directory, or absolute.
If the current directory changes, the path will be relative to the new directory.

To write to a file, use a code block with the language tag: `save <path>`

Example:

```save hello_world.rs
fn main() {
    println!("Hello, world!");
}
```

### Output:

no output

        "#;

/// The indicator that selects the save tool.
pub const SAVE_INDICATOR: &'static str = "save";

/// The message given when a save block names no file.
pub const MISSING_PATH: &'static str = "No file path provided";

/// Creates or overwrites a file with a block's content.
pub struct SaveTool {}

impl SaveTool {
    pub fn new() -> (r: SaveTool) {
        SaveTool {  }
    }

    pub fn get_description(&self) -> (r: String)
        ensures
            r@ == SAVE_DESCRIPTION@,
    {
        String::from_str(SAVE_DESCRIPTION)
    }

    pub fn get_indicator(&self) -> (r: String)
        ensures
            r@ == SAVE_INDICATOR@,
    {
        String::from_str(SAVE_INDICATOR)
    }

    /// The file to write: the block's parameter, which must be present.
    pub fn target_path(&self, parameter: Option<&str>) -> (r: Result<String, Error>)
        ensures
            match parameter {
                Some(p) => r matches Ok(path) && path@ == p@,
                None => r matches Err(Error::Tool(m)) && m@ == MISSING_PATH@,
            },
    {
        match parameter {
            Some(p) => Ok(String::from_str(p)),
            None => Err(Error::Tool(String::from_str(MISSING_PATH))),
        }
    }
}

} // verus!
