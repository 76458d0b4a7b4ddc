//! A tool that reads a MongoDB collection.
use vstd::prelude::*;

verus! {

/// Reads whole collections of the MongoDB database at a URL.
#[derive(Debug)]
pub struct MongoTool {
    url: String,
    db_name: String,
}

impl MongoTool {
    /// The server URL.
    pub closed spec fn address(&self) -> Seq<char> {
        self.url@
    }

    /// The database name.
    pub closed spec fn database(&self) -> Seq<char> {
        self.db_name@
    }

    /// A tool for the database `db_name` at `url`.
    pub fn new(url: &str, db_name: &str) -> (tool: Self)
        ensures
            tool.address() == url@,
            tool.database() == db_name@,
    {
        MongoTool { url: url.to_string(), db_name: db_name.to_string() }
    }

    /// The server URL.
    pub fn url(&self) -> (url: &str)
        ensures
            url@ == self.address(),
    {
        self.url.as_str()
    }

    /// The database name.
    pub fn db_name(&self) -> (name: &str)
        ensures
            name@ == self.database(),
    {
        self.db_name.as_str()
    }

    /// The tool's name.
    pub fn name(&self) -> (name: &'static str)
        ensures
            name@ == "mongodb"@,
    {
        "mongodb"
    }

    /// What the tool does.
    pub fn description(&self) -> (text: &'static str)
        ensures
            text@ == "Query a MongoDB document store for JSON data retrieval."@,
    {
        "Query a MongoDB document store for JSON data retrieval."
    }
}

} // verus!
