//! A tool that queries a MySQL database.
use vstd::prelude::*;

verus! {

/// Runs queries on the MySQL database at a URL.
#[derive(Debug)]
pub struct MySqlTool {
    url: String,
}

impl MySqlTool {
    /// The database URL.
    pub closed spec fn address(&self) -> Seq<char> {
        self.url@
    }

    /// A tool for the database at `url`.
    pub fn new(url: &str) -> (tool: Self)
        ensures
            tool.address() == url@,
    {
        MySqlTool { url: url.to_string() }
    }

    /// The database URL.
    pub fn url(&self) -> (url: &str)
        ensures
            url@ == self.address(),
    {
        self.url.as_str()
    }

    /// The tool's name.
    pub fn name(&self) -> (name: &'static str)
        ensures
            name@ == "mysql"@,
    {
        "mysql"
    }

    /// What the tool does.
    pub fn description(&self) -> (text: &'static str)
        ensures
            text@ == "Query a MySQL database for data retrieval."@,
    {
        "Query a MySQL database for data retrieval."
    }
}

} // verus!
