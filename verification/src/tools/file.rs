//! A tool that loads the content of a file.
use vstd::prelude::*;
use vstd::string::*;

verus! {

/// Loads the content of a file, given its path.
#[derive(Debug)]
pub struct FileLoader;

impl FileLoader {
    /// The file loader.
    pub fn new() -> (tool: Self) {
        FileLoader
    }

    /// The tool's name.
    pub fn name(&self) -> (name: &'static str)
        ensures
            name@ == "file_loader"@,
    {
        "file_loader"
    }

    /// What the tool does.
    pub fn description(&self) -> (text: &'static str)
        ensures
            text@ == "A tool for loading content from a file. Input should be a valid file path."@,
    {
        "A tool for loading content from a file. Input should be a valid file path."
    }

    /// The error for a path that does not exist.
    pub fn missing_file_message(path: &str) -> (message: String)
        ensures
            message@ == "File does not exist: "@ + path@,
    {
        let mut message = "File does not exist: ".to_string();
        message.append(path);
        message
    }

    /// The error for a file that could not be read, from the reason given.
    pub fn read_failure_message(reason: &str) -> (message: String)
        ensures
            message@ == "Failed to read file: "@ + reason@,
    {
        let mut message = "Failed to read file: ".to_string();
        message.append(reason);
        message
    }
}

} // verus!
