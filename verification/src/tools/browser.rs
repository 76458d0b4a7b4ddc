//! A tool that drives a headless browser.
use vstd::prelude::*;

verus! {

/// Opens URLs in a headless browser and returns the page content.
#[derive(Debug)]
pub struct BrowserTool;

impl BrowserTool {
    /// The browser tool.
    pub fn new() -> (tool: Self) {
        BrowserTool
    }

    /// The tool's name.
    pub fn name(&self) -> (name: &'static str)
        ensures
            name@ == "browser"@,
    {
        "browser"
    }

    /// What the tool does.
    pub fn description(&self) -> (text: &'static str)
        ensures
            text@ == "Automates a headless browser to open URLs and extract text content."@,
    {
        "Automates a headless browser to open URLs and extract text content."
    }
}

} // verus!
