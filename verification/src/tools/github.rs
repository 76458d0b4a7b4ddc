//! A tool that looks up GitHub repositories.
use vstd::prelude::*;
use vstd::string::*;

use crate::text::{decimal_int, decimal_of_i64};

verus! {

/// Fetches facts about a GitHub repository, with an optional token.
#[derive(Debug)]
pub struct GitHubTool {
    auth_token: Option<String>,
}

/// What the GitHub API answered about a repository, as plain values: the
/// error message (present when the answer has a `message` field, `None`
/// inside when it is not a string) and the fields read from a good answer.
#[derive(Debug, Clone)]
pub struct RepoInfo {
    pub message: Option<Option<String>>,
    pub full_name: Option<String>,
    pub description: Option<String>,
    pub stars: Option<i64>,
    pub language: Option<String>,
}

/// The text held, or `default` when there is none.
pub open spec fn text_or(value: Option<String>, default: Seq<char>) -> Seq<char> {
    match value {
        Some(text) => text@,
        None => default,
    }
}

/// The text held, or `default` when there is none.
fn text_or_exec(value: &Option<String>, default: &str) -> (text: String)
    ensures
        text@ == text_or(*value, default@),
{
    match value {
        Some(text) => text.clone(),
        None => default.to_string(),
    }
}

/// The summary of a repository, or the API's error.
pub open spec fn repo_summary(info: RepoInfo) -> Result<Seq<char>, Seq<char>> {
    match info.message {
        Some(message) => Err(text_or(message, "Unknown GitHub error"@)),
        None => Ok(
            "Repo: "@ + text_or(info.full_name, "Unknown"@) + "\nDescription: "@ + text_or(
                info.description,
                "No description"@,
            ) + "\nStars: "@ + decimal_int(
                match info.stars {
                    Some(n) => n as int,
                    None => 0,
                },
            ) + "\nLanguage: "@ + text_or(info.language, "Unknown"@),
        ),
    }
}

/// When the answer carries a description, the summary holds it on its
/// `Description` line, between that label and the `Stars` line.
pub proof fn lemma_summary_carries_description(info: RepoInfo, description: String)
    requires
        info.message is None,
        info.description == Some(description),
    ensures
        repo_summary(info) matches Ok(text) && {
            let line = "\nDescription: "@ + description@ + "\nStars: "@;
            let at = "Repo: "@.len() + text_or(info.full_name, "Unknown"@).len();
            &&& at + line.len() <= text.len()
            &&& text.subrange(at as int, (at + line.len()) as int) == line
        },
{
    let head = "Repo: "@ + text_or(info.full_name, "Unknown"@);
    let line = "\nDescription: "@ + description@ + "\nStars: "@;
    let tail = decimal_int(
        match info.stars {
            Some(n) => n as int,
            None => 0,
        },
    ) + "\nLanguage: "@ + text_or(info.language, "Unknown"@);
    let text = head + "\nDescription: "@ + description@ + "\nStars: "@ + decimal_int(
        match info.stars {
            Some(n) => n as int,
            None => 0,
        },
    ) + "\nLanguage: "@ + text_or(info.language, "Unknown"@);
    assert(text =~= head + line + tail);
    assert((head + line + tail).subrange(head.len() as int, (head.len() + line.len()) as int) =~= line);
}

/// Two answers that differ only in their descriptions, both present and
/// different, give different summaries.
pub proof fn lemma_summary_tells_descriptions_apart(first: RepoInfo, second: RepoInfo)
    requires
        first.message is None,
        second == (RepoInfo { description: second.description, ..first }),
        first.description is Some,
        second.description is Some,
        first.description->0@ != second.description->0@,
    ensures
        repo_summary(first) != repo_summary(second),
{
    let d1 = first.description->0;
    let d2 = second.description->0;
    lemma_summary_carries_description(first, d1);
    lemma_summary_carries_description(second, d2);
    let t1 = repo_summary(first)->Ok_0;
    let t2 = repo_summary(second)->Ok_0;
    if t1 == t2 {
        let head = "Repo: "@ + text_or(first.full_name, "Unknown"@);
        let l1 = "\nDescription: "@ + d1@ + "\nStars: "@;
        let l2 = "\nDescription: "@ + d2@ + "\nStars: "@;
        let rest = decimal_int(
            match first.stars {
                Some(n) => n as int,
                None => 0,
            },
        ) + "\nLanguage: "@ + text_or(first.language, "Unknown"@);
        assert(t1 =~= head + l1 + rest);
        assert(t2 =~= head + l2 + rest);
        assert(l1.len() == l2.len());
        assert(l1 =~= l2) by {
            assert(l1 =~= t1.subrange(head.len() as int, (head.len() + l1.len()) as int));
            assert(l2 =~= t2.subrange(head.len() as int, (head.len() + l2.len()) as int));
        }
        let dl = "\nDescription: "@.len();
        assert(d1@ =~= l1.subrange(dl as int, (dl + d1@.len()) as int));
        assert(d2@ =~= l2.subrange(dl as int, (dl + d2@.len()) as int));
    }
}

impl GitHubTool {
    /// The token the tool was made with.
    pub closed spec fn token(&self) -> Option<String> {
        self.auth_token
    }

    /// A GitHub tool using `auth_token`, if any.
    pub fn new(auth_token: Option<String>) -> (tool: Self)
        ensures
            tool.token() == auth_token,
    {
        GitHubTool { auth_token }
    }

    /// The tool's name.
    pub fn name(&self) -> (name: &'static str)
        ensures
            name@ == "github"@,
    {
        "github"
    }

    /// What the tool does.
    pub fn description(&self) -> (text: &'static str)
        ensures
            text@ == "Interact with GitHub to fetch info about repos, issues, etc."@,
    {
        "Interact with GitHub to fetch info about repos, issues, etc."
    }

    /// The API URL of the repository `repo_path` (`owner/name`).
    pub fn repo_url(repo_path: &str) -> (url: String)
        ensures
            url@ == "https://api.github.com/repos/"@ + repo_path@,
    {
        let mut url = "https://api.github.com/repos/".to_string();
        url.append(repo_path);
        url
    }

    /// The `Authorization` header value, when the tool has a token.
    pub fn authorization(&self) -> (header: Option<String>)
        ensures
            match self.token() {
                Some(token) => header matches Some(h) && h@ == "Bearer "@ + token@,
                None => header is None,
            },
    {
        match &self.auth_token {
            Some(token) => {
                let mut header = "Bearer ".to_string();
                header.append(token.as_str());
                Some(header)
            },
            None => None,
        }
    }

    /// The summary of a repository, or the API's error message.
    pub fn summarize_repo(info: &RepoInfo) -> (summary: Result<String, String>)
        ensures
            match summary {
                Ok(text) => repo_summary(*info) == Ok::<Seq<char>, Seq<char>>(text@),
                Err(text) => repo_summary(*info) == Err::<Seq<char>, Seq<char>>(text@),
            },
    {
        match &info.message {
            Some(message) => Err(text_or_exec(message, "Unknown GitHub error")),
            None => {
                let mut summary = "Repo: ".to_string();
                summary.append(text_or_exec(&info.full_name, "Unknown").as_str());
                summary.append("\nDescription: ");
                summary.append(text_or_exec(&info.description, "No description").as_str());
                summary.append("\nStars: ");
                let stars: i64 = match info.stars {
                    Some(n) => n,
                    None => 0,
                };
                summary.append(decimal_of_i64(stars).as_str());
                summary.append("\nLanguage: ");
                summary.append(text_or_exec(&info.language, "Unknown").as_str());
                Ok(summary)
            },
        }
    }
}

} // verus!
