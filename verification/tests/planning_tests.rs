use rustcrew::orchestration::planning::{tasks_from_plans, PlannerAgent, TaskPlan};
use rustcrew::orchestration::reasoning::{ReasoningEngine, ToolCallRequest};
use rustcrew::orchestration::task::TaskStatus;

fn plan(d: &str, e: &str) -> TaskPlan {
    TaskPlan { description: d.to_string(), expected_output: e.to_string() }
}

#[test]
fn planner_prompt() {
    let p = PlannerAgent::new(());
    assert_eq!(
        p.plan_prompt("launch"),
        "You are an expert project planner. Break down the following goal into a sequence of actionable tasks:\nGOAL: launch\nOutput strictly a JSON array of objects. Each object must have a 'description' and 'expected_output' field."
    );
}

#[test]
fn planned_tasks_follow_the_plan() {
    let tasks = tasks_from_plans(&vec![plan("a", "A"), plan("b", "B")]);
    assert_eq!(tasks.len(), 2);
    assert_eq!(tasks[1].description, "b");
    assert_eq!(tasks[1].expected_output, "B");
    assert_eq!(tasks[0].status, TaskStatus::Pending);
    let ok = PlannerAgent::<()>::planned_tasks(Ok(vec![plan("x", "y")])).unwrap();
    assert_eq!(ok[0].description, "x");
    let err = PlannerAgent::<()>::planned_tasks(Err("bad json".to_string())).err().unwrap();
    assert_eq!(err, "Failed to parse LLM planner response: bad json. Re-try with clearer instructions.");
}

#[test]
fn tool_selection_prompt_lists_tools() {
    let r = ReasoningEngine::new(());
    let tools = vec![
        ("github".to_string(), "repos".to_string()),
        ("browser".to_string(), "pages".to_string()),
    ];
    assert_eq!(
        r.tool_selection_prompt("find stars", &tools),
        "Task: find stars\n\nAvailable tools:\n- github: repos\n- browser: pages\n\n\nWhich tool should be used next to accomplish the task? Output JSON with 'tool_name', 'input' (what to pass to the tool), and 'justification'. If no tool is needed, return empty JSON {}."
    );
}

#[test]
fn evaluation_and_dynamic_prompts() {
    let r = ReasoningEngine::new(());
    assert_eq!(
        r.evaluation_prompt("E", "A"),
        "You are an evaluator agent. Check if the 'Actual Output' meets the criteria defined in the 'Expected Output'. Provide feedback on what is missing or if it's completely successful.\nExpected Output: E\n\nActual Output: A"
    );
    assert_eq!(
        r.dynamic_tasks_prompt("ctx"),
        "Based on the following execution context, what next steps are dynamically required to satisfy the overarching goal?\nContext: ctx\nOutput a JSON array of objects with 'description' and 'expected_output'. Return an empty array if no further tasks are needed."
    );
}

#[test]
fn empty_replies() {
    assert!(ReasoningEngine::<()>::means_no_tool(""));
    assert!(ReasoningEngine::<()>::means_no_tool("{}"));
    assert!(!ReasoningEngine::<()>::means_no_tool("{ }"));
    assert!(ReasoningEngine::<()>::means_no_tasks("[]"));
    assert!(!ReasoningEngine::<()>::means_no_tasks("[1]"));
}

#[test]
fn tool_choice_and_proposals() {
    let req = ToolCallRequest { tool_name: "t".to_string(), input: "i".to_string(), justification: "j".to_string() };
    let chosen = ReasoningEngine::<()>::tool_choice(Ok(req)).unwrap().unwrap();
    assert_eq!(chosen.tool_name, "t");
    assert_eq!(
        ReasoningEngine::<()>::tool_choice(Err("eof".to_string())).err().unwrap(),
        "Failed to parse tool selection JSON: eof"
    );
    assert_eq!(
        ReasoningEngine::<()>::proposed_tasks(Err("eof".to_string())).err().unwrap(),
        "Parsing error for dynamic tasks: eof"
    );
    assert_eq!(ReasoningEngine::<()>::proposed_tasks(Ok(vec![plan("n", "m")])).unwrap()[0].expected_output, "m");
}
