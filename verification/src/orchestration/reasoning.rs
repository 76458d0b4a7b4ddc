//! Reasoning: a model picks the next tool, judges an output, or proposes
//! further tasks.
use vstd::prelude::*;
use vstd::string::*;

use crate::orchestration::planning::{tasks_from_plans, tasks_match_plans, TaskPlan};
use crate::orchestration::task::Task;
use crate::text::chars_of;

verus! {

/// The tool call a model asks for, with its reason.
#[derive(Debug, Clone)]
pub struct ToolCallRequest {
    pub tool_name: String,
    pub input: String,
    pub justification: String,
}

/// An engine that reasons with a model of type `L`.
pub struct ReasoningEngine<L> {
    pub llm: L,
}

/// One line `- name: description` for each tool, in order.
pub open spec fn tool_lines(tools: Seq<(String, String)>) -> Seq<char>
    decreases tools.len(),
{
    if tools.len() == 0 {
        Seq::empty()
    } else {
        tool_lines(tools.drop_last()) + "- "@ + tools.last().0@ + ": "@ + tools.last().1@ + "\n"@
    }
}

impl<L> ReasoningEngine<L> {
    /// An engine asking the model `llm`.
    pub fn new(llm: L) -> (engine: Self)
        ensures
            engine.llm == llm,
    {
        ReasoningEngine { llm }
    }

    /// The prompt that asks which of `tools` (pairs of name and
    /// description) should serve `task_description` next.
    pub fn tool_selection_prompt(&self, task_description: &str, tools: &Vec<(String, String)>) -> (prompt: String)
        ensures
            prompt@ == "Task: "@ + task_description@ + "\n\nAvailable tools:\n"@ + tool_lines(tools@)
                + "\n\nWhich tool should be used next to accomplish the task? Output JSON with 'tool_name', 'input' (what to pass to the tool), and 'justification'. If no tool is needed, return empty JSON {}."@,
    {
        let mut listing = String::new();
        let mut i: usize = 0;
        while i < tools.len()
            invariant
                i <= tools@.len(),
                listing@ == tool_lines(tools@.take(i as int)),
            decreases tools.len() - i,
        {
            assert(tools@.take(i + 1).drop_last() =~= tools@.take(i as int));
            assert(tools@.take(i + 1).last() == tools@[i as int]);
            listing.append("- ");
            listing.append(tools[i].0.as_str());
            listing.append(": ");
            listing.append(tools[i].1.as_str());
            listing.append("\n");
            i = i + 1;
        }
        assert(tools@.take(tools@.len() as int) =~= tools@);
        let mut prompt = "Task: ".to_string();
        prompt.append(task_description);
        prompt.append("\n\nAvailable tools:\n");
        prompt.append(listing.as_str());
        prompt.append(
            "\n\nWhich tool should be used next to accomplish the task? Output JSON with 'tool_name', 'input' (what to pass to the tool), and 'justification'. If no tool is needed, return empty JSON {}.",
        );
        prompt
    }

    /// The prompt that asks whether `actual_output` meets `expected_output`.
    pub fn evaluation_prompt(&self, expected_output: &str, actual_output: &str) -> (prompt: String)
        ensures
            prompt@ == "You are an evaluator agent. Check if the 'Actual Output' meets the criteria defined in the 'Expected Output'. Provide feedback on what is missing or if it's completely successful.\nExpected Output: "@
                + expected_output@ + "\n\nActual Output: "@ + actual_output@,
    {
        let mut prompt = "You are an evaluator agent. Check if the 'Actual Output' meets the criteria defined in the 'Expected Output'. Provide feedback on what is missing or if it's completely successful.\nExpected Output: ".to_string();
        prompt.append(expected_output);
        prompt.append("\n\nActual Output: ");
        prompt.append(actual_output);
        prompt
    }

    /// The prompt that asks which further tasks `current_context` calls for.
    pub fn dynamic_tasks_prompt(&self, current_context: &str) -> (prompt: String)
        ensures
            prompt@ == "Based on the following execution context, what next steps are dynamically required to satisfy the overarching goal?\nContext: "@
                + current_context@
                + "\nOutput a JSON array of objects with 'description' and 'expected_output'. Return an empty array if no further tasks are needed."@,
    {
        let mut prompt = "Based on the following execution context, what next steps are dynamically required to satisfy the overarching goal?\nContext: ".to_string();
        prompt.append(current_context);
        prompt.append(
            "\nOutput a JSON array of objects with 'description' and 'expected_output'. Return an empty array if no further tasks are needed.",
        );
        prompt
    }

    /// Whether a cleaned reply says that no tool is needed: it is empty or
    /// the empty object `{}`.
    pub fn means_no_tool(cleaned: &str) -> (none: bool)
        ensures
            none == (cleaned@.len() == 0 || cleaned@ == seq!['{', '}']),
    {
        let c = chars_of(cleaned);
        let none = c.len() == 0 || (c.len() == 2 && c[0] == '{' && c[1] == '}');
        proof {
            if c.len() == 2 && !none {
                assert(cleaned@[0] != '{' || cleaned@[1] != '}');
            }
            if none && c.len() == 2 {
                assert(cleaned@ =~= seq!['{', '}']);
            }
        }
        none
    }

    /// Whether a cleaned reply says that no further task is needed: it is
    /// empty or the empty array `[]`.
    pub fn means_no_tasks(cleaned: &str) -> (none: bool)
        ensures
            none == (cleaned@.len() == 0 || cleaned@ == seq!['[', ']']),
    {
        let c = chars_of(cleaned);
        let none = c.len() == 0 || (c.len() == 2 && c[0] == '[' && c[1] == ']');
        proof {
            if c.len() == 2 && !none {
                assert(cleaned@[0] != '[' || cleaned@[1] != ']');
            }
            if none && c.len() == 2 {
                assert(cleaned@ =~= seq!['[', ']']);
            }
        }
        none
    }

    /// The chosen tool call, from the request parsed out of the model's
    /// reply, or the error explaining why the reply could not be parsed.
    pub fn tool_choice(parsed: Result<ToolCallRequest, String>) -> (choice: Result<
        Option<ToolCallRequest>,
        String,
    >)
        ensures
            match parsed {
                Ok(request) => choice == Ok::<Option<ToolCallRequest>, String>(Some(request)),
                Err(error) => choice matches Err(message) && message@
                    == "Failed to parse tool selection JSON: "@ + error@,
            },
    {
        match parsed {
            Ok(request) => Ok(Some(request)),
            Err(error) => {
                let mut message = "Failed to parse tool selection JSON: ".to_string();
                message.append(error.as_str());
                Err(message)
            },
        }
    }

    /// The proposed tasks, from the steps parsed out of the model's reply,
    /// or the error explaining why the reply could not be parsed.
    pub fn proposed_tasks(parsed: Result<Vec<TaskPlan>, String>) -> (tasks: Result<Vec<Task>, String>)
        ensures
            match parsed {
                Ok(plans) => tasks matches Ok(t) && tasks_match_plans(t@, plans@),
                Err(error) => tasks matches Err(message) && message@
                    == "Parsing error for dynamic tasks: "@ + error@,
            },
    {
        match parsed {
            Ok(plans) => Ok(tasks_from_plans(&plans)),
            Err(error) => {
                let mut message = "Parsing error for dynamic tasks: ".to_string();
                message.append(error.as_str());
                Err(message)
            },
        }
    }
}

} // verus!
