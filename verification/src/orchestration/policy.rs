//! Which tools an agent may call, and with what input.
use vstd::hash_set::StringHashSet;
use vstd::prelude::*;

use crate::text::{contains_str, contains_text};

verus! {

/// A rule over tool calls: when `allowed_tools` is not empty only the tools
/// named there may be called, and no input may contain a blocked keyword.
pub struct ToolPolicy {
    pub allowed_tools: StringHashSet,
    pub blocked_keywords: Vec<String>,
}

/// The rule itself: the tool is allowed (every tool is, when none is
/// listed) and the input contains none of the blocked keywords.
pub open spec fn permits(
    allowed: Set<Seq<char>>,
    blocked: Seq<Seq<char>>,
    tool_name: Seq<char>,
    input: Seq<char>,
) -> bool {
    &&& (allowed.is_empty() || allowed.contains(tool_name))
    &&& forall|i: int| 0 <= i < blocked.len() ==> !contains_text(input, #[trigger] blocked[i])
}

impl ToolPolicy {
    /// The policy that lists no tool and blocks no keyword.
    pub fn new() -> (policy: Self)
        ensures
            policy.allowed_tools@ == Set::<Seq<char>>::empty(),
            policy.blocked_keywords@.len() == 0,
    {
        ToolPolicy { allowed_tools: StringHashSet::new(), blocked_keywords: Vec::new() }
    }

    /// The blocked keywords, as texts.
    pub open spec fn blocked_texts(&self) -> Seq<Seq<char>> {
        self.blocked_keywords@.map_values(|k: String| k@)
    }

    /// Whether the policy lets `tool_name` be called with `input`.
    pub fn is_allowed(&self, tool_name: &str, input: &str) -> (allowed: bool)
        ensures
            allowed == permits(self.allowed_tools@, self.blocked_texts(), tool_name@, input@),
            allowed <==> (self.allowed_tools@.is_empty() || self.allowed_tools@.contains(
                tool_name@,
            )) && forall|i: int|
                0 <= i < self.blocked_keywords@.len() ==> !contains_text(
                    input@,
                    #[trigger] self.blocked_keywords@[i]@,
                ),
    {
        if !self.allowed_tools.is_empty() && !self.allowed_tools.contains(tool_name) {
            return false;
        }
        let mut i: usize = 0;
        while i < self.blocked_keywords.len()
            invariant
                i <= self.blocked_keywords@.len(),
                self.allowed_tools@.is_empty() || self.allowed_tools@.contains(tool_name@),
                forall|j: int| 0 <= j < i ==> !contains_text(input@, #[trigger] self.blocked_texts()[j]),
                forall|j: int|
                    0 <= j < i ==> !contains_text(input@, #[trigger] self.blocked_keywords@[j]@),
            decreases self.blocked_keywords.len() - i,
        {
            if contains_str(input, self.blocked_keywords[i].as_str()) {
                assert(self.blocked_texts()[i as int] == self.blocked_keywords@[i as int]@);
                return false;
            }
            assert(self.blocked_texts()[i as int] == self.blocked_keywords@[i as int]@);
            i = i + 1;
        }
        true
    }
}

/// A call is allowed whenever its tool may be called (no tool is listed, or
/// it is listed) and its input contains none of the blocked keywords,
/// whatever the tool's name.
pub proof fn lemma_clean_call_allowed(
    allowed: Set<Seq<char>>,
    blocked: Seq<Seq<char>>,
    tool_name: Seq<char>,
    input: Seq<char>,
)
    requires
        allowed.is_empty() || allowed.contains(tool_name),
        forall|i: int| 0 <= i < blocked.len() ==> !contains_text(input, #[trigger] blocked[i]),
    ensures
        permits(allowed, blocked, tool_name, input),
{
}

/// Beyond the list of allowed tools, the tool's name plays no part: two
/// tools that may both be called are allowed or refused alike on the same
/// input.
pub proof fn lemma_tool_name_only_checked_against_list(
    allowed: Set<Seq<char>>,
    blocked: Seq<Seq<char>>,
    first: Seq<char>,
    second: Seq<char>,
    input: Seq<char>,
)
    requires
        allowed.is_empty() || allowed.contains(first),
        allowed.is_empty() || allowed.contains(second),
    ensures
        permits(allowed, blocked, first, input) == permits(allowed, blocked, second, input),
{
}

/// A policy that lists no tool and blocks no keyword allows every call.
pub proof fn lemma_open_policy_allows_all(tool_name: Seq<char>, input: Seq<char>)
    ensures
        permits(Set::empty(), Seq::empty(), tool_name, input),
{
}

/// A call whose input contains a blocked keyword is refused, whatever the
/// tool.
pub proof fn lemma_blocked_keyword_refused(
    allowed: Set<Seq<char>>,
    blocked: Seq<Seq<char>>,
    tool_name: Seq<char>,
    input: Seq<char>,
    k: int,
)
    requires
        0 <= k < blocked.len(),
        contains_text(input, blocked[k]),
    ensures
        !permits(allowed, blocked, tool_name, input),
{
}

/// When tools are listed, a tool that is not listed is refused, whatever
/// the input.
pub proof fn lemma_unlisted_tool_refused(
    allowed: Set<Seq<char>>,
    blocked: Seq<Seq<char>>,
    tool_name: Seq<char>,
    input: Seq<char>,
)
    requires
        !allowed.is_empty(),
        !allowed.contains(tool_name),
    ensures
        !permits(allowed, blocked, tool_name, input),
{
}

} // verus!
