use std::path::PathBuf;

use rustcrew::api::models::{build_crew, run_status, AgentSpec, CreateCrewRequest, TaskSpec};
use rustcrew::config::Config;
use rustcrew::orchestration::crew::Crew;
use rustcrew::tools::browser::BrowserTool;
use rustcrew::tools::database::mongodb::MongoTool;
use rustcrew::tools::database::mysql::MySqlTool;
use rustcrew::tools::database::rows::format_rows;
use rustcrew::tools::database::snowflake::SnowflakeTool;
use rustcrew::tools::file::FileLoader;
use rustcrew::tools::github::{GitHubTool, RepoInfo};
use rustcrew::tools::interpreter::CodeInterpreter;
use rustcrew::tools::vector_lookup::{VectorLookup, VectorProvider};
use rustcrew::tools::web_search::{SearchHit, WebSearch};

#[test]
fn tool_names() {
    assert_eq!(BrowserTool::new().name(), "browser");
    assert_eq!(FileLoader::new().name(), "file_loader");
    assert_eq!(CodeInterpreter.name(), "interpreter");
    assert_eq!(GitHubTool::new(None).name(), "github");
    assert_eq!(WebSearch::new("k".to_string()).name(), "web_search");
    assert_eq!(MySqlTool::new("u").name(), "mysql");
    assert_eq!(MongoTool::new("u", "d").name(), "mongodb");
    assert_eq!(SnowflakeTool::new("a", "t").name(), "snowflake");
    assert_eq!(VectorLookup::new(VectorProvider::Chroma, "u").name(), "vector_lookup");
    assert!(BrowserTool::new().description().contains("headless browser"));
}

#[test]
fn github_requests_and_summaries() {
    assert_eq!(GitHubTool::repo_url("rust-lang/rust"), "https://api.github.com/repos/rust-lang/rust");
    assert_eq!(GitHubTool::new(Some("tok".to_string())).authorization().as_deref(), Some("Bearer tok"));
    assert_eq!(GitHubTool::new(None).authorization(), None);
    let info = RepoInfo {
        message: None,
        full_name: Some("rust-lang/rust".to_string()),
        description: None,
        stars: Some(98000),
        language: Some("Rust".to_string()),
    };
    assert_eq!(
        GitHubTool::summarize_repo(&info),
        Ok("Repo: rust-lang/rust\nDescription: No description\nStars: 98000\nLanguage: Rust".to_string())
    );
    let missing = RepoInfo { message: Some(Some("Not Found".to_string())), full_name: None, description: None, stars: None, language: None };
    assert_eq!(GitHubTool::summarize_repo(&missing), Err("Not Found".to_string()));
    let odd = RepoInfo { message: Some(None), ..missing };
    assert_eq!(GitHubTool::summarize_repo(&odd), Err("Unknown GitHub error".to_string()));
    let empty = RepoInfo { message: None, full_name: None, description: None, stars: None, language: None };
    assert_eq!(
        GitHubTool::summarize_repo(&empty),
        Ok("Repo: Unknown\nDescription: No description\nStars: 0\nLanguage: Unknown".to_string())
    );
}

#[test]
fn web_search_summaries() {
    let hit = |t: Option<&str>, s: Option<&str>| SearchHit {
        title: t.map(|x| x.to_string()),
        snippet: s.map(|x| x.to_string()),
    };
    assert_eq!(WebSearch::summarize_hits(&vec![]), "No organic search results found.");
    assert_eq!(WebSearch::summarize_hits(&vec![hit(Some("t"), None)]), "No organic search results found.");
    let hits = vec![
        hit(Some("\"a\""), Some("\"1\"")),
        hit(None, Some("x")),
        hit(Some("b"), Some("2")),
        hit(Some("c"), Some("3")),
        hit(Some("d"), Some("4")),
        hit(Some("e"), Some("5")),
    ];
    assert_eq!(WebSearch::summarize_hits(&hits), "\"a\": \"1\"\n\nb: 2\n\nc: 3\n\nd: 4");
    assert_eq!(WebSearch::new("key".to_string()).api_key(), "key");
}

#[test]
fn rows_are_formatted() {
    let rows = vec![
        vec![("id".to_string(), Some("1".to_string())), ("name".to_string(), None)],
        vec![("id".to_string(), Some("2".to_string()))],
    ];
    assert_eq!(format_rows(&rows), "id: 1, name: ???\nid: 2");
    assert_eq!(format_rows(&vec![]), "");
}

#[test]
fn endpoints() {
    let s = SnowflakeTool::new("acme", "tok");
    assert_eq!(s.statements_url(), "https://acme.snowflakecomputing.com/api/v2/statements");
    assert_eq!(s.authorization(), "Bearer tok");
    assert_eq!(VectorLookup::new(VectorProvider::Chroma, "h").endpoint_url(), "h/api/v1/collections/default/query");
    assert_eq!(VectorLookup::new(VectorProvider::Qdrant, "h").endpoint_url(), "h/collections/default/points/search");
    assert_eq!(VectorLookup::new(VectorProvider::Milvus, "h").endpoint_url(), "h/v1/vector/search");
    assert_eq!(MongoTool::new("mongodb://x", "db").db_name(), "db");
    assert_eq!(MySqlTool::new("mysql://x").url(), "mysql://x");
    assert_eq!(FileLoader::missing_file_message("a.txt"), "File does not exist: a.txt");
    assert_eq!(FileLoader::read_failure_message("denied"), "Failed to read file: denied");
}

#[test]
fn crews_are_built_from_requests() {
    let spec = |n: &str| AgentSpec { name: n.to_string(), role: "r".to_string(), goal: "g".to_string(), backstory: "b".to_string() };
    let task = |d: &str, i: usize| TaskSpec { description: d.to_string(), expected_output: "o".to_string(), agent_index: i };
    let request = CreateCrewRequest {
        name: "team".to_string(),
        agents: vec![spec("a0"), spec("a1")],
        tasks: vec![task("t0", 1), task("dropped", 2), task("t2", 0)],
    };
    let crew: Crew<(), (), ()> = build_crew(&request);
    assert_eq!(crew.agents.len(), 2);
    assert_eq!(crew.agents[1].name, "a1");
    assert_eq!(crew.tasks.len(), 2);
    let first = crew.task_map.get(&crew.tasks[0]).unwrap();
    assert_eq!(first.description, "t0");
    assert_eq!(first.assigned_agent_id, Some(crew.agents[1].id));
    let second = crew.task_map.get(&crew.tasks[1]).unwrap();
    assert_eq!(second.assigned_agent_id, Some(crew.agents[0].id));
}

#[test]
fn run_statuses() {
    assert_eq!(run_status(&Ok(())), "Completed");
    assert_eq!(run_status(&Err("boom".to_string())), "Failed: boom");
}

#[test]
fn configuration_defaults() {
    let c = Config::from_settings(None, None, PathBuf::from("/data"), "/data");
    assert_eq!(c.server_port, "3000");
    assert_eq!(c.database_url, "sqlite:///data/rustcrew.db?mode=rwc");
    assert_eq!(c.storage_path, PathBuf::from("/data"));
    let c = Config::from_settings(Some("8080".to_string()), Some("postgres://db".to_string()), PathBuf::from("/x"), "/x");
    assert_eq!(c.server_port, "8080");
    assert_eq!(c.database_url, "postgres://db");
    let copy = c.clone();
    assert_eq!(copy.storage_path, PathBuf::from("/x"));
    assert_eq!(copy.server_port, "8080");
}

#[test]
fn interpreter_outcome_picks_the_stream() {
    assert_eq!(CodeInterpreter::command_outcome(true, b"4\n", b"warn"), Ok("4\n".to_string()));
    assert_eq!(CodeInterpreter::command_outcome(false, b"", b"not found"), Err("not found".to_string()));
    assert_eq!(
        CodeInterpreter::command_outcome(true, &[0x61, 0xff, 0x62], b""),
        Ok("a\u{fffd}b".to_string())
    );
}
