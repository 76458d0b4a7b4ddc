//! A tool that searches the web through the Serper API.
use vstd::prelude::*;
use vstd::string::*;

use crate::text::{join_strings, joined};

verus! {

/// Searches the web with a Serper API key.
#[derive(Debug)]
pub struct WebSearch {
    api_key: String,
}

/// One organic search result, as the text of its `title` and `snippet`
/// fields where the answer has them.
#[derive(Debug, Clone)]
pub struct SearchHit {
    pub title: Option<String>,
    pub snippet: Option<String>,
}

/// How many search results are read at most.
pub open spec fn max_hits() -> nat {
    5
}

/// A line `title: snippet` for each hit that has both, in order.
pub open spec fn hit_lines(hits: Seq<SearchHit>) -> Seq<Seq<char>>
    decreases hits.len(),
{
    if hits.len() == 0 {
        Seq::empty()
    } else {
        let before = hit_lines(hits.drop_last());
        match (hits.last().title, hits.last().snippet) {
            (Some(title), Some(snippet)) => before.push(title@ + ": "@ + snippet@),
            _ => before,
        }
    }
}

/// The answer to a search: the lines of the first five hits, separated by
/// blank lines, or a note that nothing was found.
pub open spec fn search_summary(hits: Seq<SearchHit>) -> Seq<char> {
    let lines = hit_lines(hits.take(if hits.len() < max_hits() { hits.len() as int } else { 5 }));
    if lines.len() == 0 {
        "No organic search results found."@
    } else {
        joined(lines, "\n\n"@)
    }
}

impl WebSearch {
    /// The key the tool was made with.
    pub closed spec fn key(&self) -> Seq<char> {
        self.api_key@
    }

    /// A search tool using `api_key`.
    pub fn new(api_key: String) -> (tool: Self)
        ensures
            tool.key() == api_key@,
    {
        WebSearch { api_key }
    }

    /// The API key, for the `X-API-KEY` header.
    pub fn api_key(&self) -> (key: &str)
        ensures
            key@ == self.key(),
    {
        self.api_key.as_str()
    }

    /// The tool's name.
    pub fn name(&self) -> (name: &'static str)
        ensures
            name@ == "web_search"@,
    {
        "web_search"
    }

    /// What the tool does.
    pub fn description(&self) -> (text: &'static str)
        ensures
            text@ == "Search the web using Serper API to get up-to-date information."@,
    {
        "Search the web using Serper API to get up-to-date information."
    }

    /// The answer to a search, from its organic results in order.
    pub fn summarize_hits(hits: &Vec<SearchHit>) -> (summary: String)
        ensures
            summary@ == search_summary(hits@),
    {
        let count: usize = if hits.len() < 5 {
            hits.len()
        } else {
            5
        };
        let mut lines: Vec<String> = Vec::new();
        let mut i: usize = 0;
        while i < count
            invariant
                i <= count <= hits@.len(),
                count == if hits@.len() < max_hits() { hits@.len() as int } else { 5 },
                lines@.map_values(|l: String| l@) == hit_lines(hits@.take(i as int)),
            decreases count - i,
        {
            assert(hits@.take(i + 1).drop_last() =~= hits@.take(i as int));
            assert(hits@.take(i + 1).last() == hits@[i as int]);
            let ghost before = lines@.map_values(|l: String| l@);
            match (&hits[i].title, &hits[i].snippet) {
                (Some(title), Some(snippet)) => {
                    let mut line = title.clone();
                    line.append(": ");
                    line.append(snippet.as_str());
                    lines.push(line);
                    assert(lines@.map_values(|l: String| l@) =~= before.push(
                        title@ + ": "@ + snippet@,
                    ));
                },
                _ => {},
            }
            i = i + 1;
        }
        if lines.len() == 0 {
            "No organic search results found.".to_string()
        } else {
            join_strings(&lines, "\n\n")
        }
    }
}

} // verus!
