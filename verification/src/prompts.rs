//! Prompt construction: the initial prompt of a command's first iteration
//! and the continuation prompt of later ones, each combining the rendered
//! conversation context, the tool documentation, and fixed instructional
//! scaffolding whose continuation phrases match the detector's vocabulary.

use vstd::prelude::*;
use vstd::string::*;
use crate::errors::AppResult;
use crate::memory::{recent_usage, render_context, ConversationMemory, MsgV};
use crate::registry::{enhanced_description, ToolRegistry};
use crate::textutil::{join_strings, joined_with};
use crate::tools::ToolInfo;

verus! {

/// The recently-used-tools line, omitted when nothing was used.
pub open spec fn recent_tools_hint(usage: Seq<Seq<char>>) -> Seq<char> {
    if usage.len() > 0 {
        "Recently used tools: "@ + joined_with(usage, ", "@) + "\n"@
    } else {
        Seq::empty()
    }
}

/// The first iteration's prompt.
pub open spec fn initial_prompt_of(
    input: Seq<char>,
    log: Seq<MsgV>,
    tools: Seq<ToolInfo>,
) -> Seq<char> {
    "You are a helpful AI assistant with access to various tools for managing notes and tasks. Your personality should be conversational and helpful.\n\n"@
        + render_context(log, true) + "Available Tools:\n"@ + enhanced_description(tools)
        + "\n\n"@ + recent_tools_hint(recent_usage(log)) + "Current User Request: "@ + input
        + "\n\n"@
        + "## Chain of Thought Instructions:\n\nYou will work through this request step by step, potentially using multiple tools to complete the task. Think through your approach and execute tools as needed.\n\n**Execution Pattern:**\n1. **Analyze the request** and explain your understanding\n2. **Plan your approach** - what steps will you take?\n3. **Execute tools** as needed with JSON format\n4. **If more actions are needed**, indicate this clearly in your response\n5. **Continue until the task is complete**\n\n**Tool Usage Format:**\n```json\n{\n    \"tool\": \"tool_name\",\n    \"action\": \"action_name\",\n    \"parameters\": {\n        \"param1\": \"value1\"\n    }\n}\n```\n\n**Continuation Signals:**\nIf you need to continue with more actions after seeing tool results, include phrases like:\n- \"Let me also...\"\n- \"I need to...\"\n- \"Next, I'll...\"\n- \"Additionally...\"\n\n**Conversational Style:**\n- Be natural and explain your thinking process\n- Show your reasoning for each step\n- Explain what you're doing and why\n- Continue until the user's request is fully satisfied\n\nStart by analyzing the request and explaining your approach.\n"@
}

/// A later iteration's prompt, fed the accumulated execution history.
pub open spec fn continuation_prompt_of(
    original_request: Seq<char>,
    execution_context: Seq<char>,
    log: Seq<MsgV>,
    tools: Seq<ToolInfo>,
) -> Seq<char> {
    render_context(log, true) + "\n\nAvailable Tools:\n"@ + enhanced_description(tools)
        + "\n\n"@ + recent_tools_hint(recent_usage(log))
        + "## Continuation Context:\n\nOriginal User Request: "@ + original_request
        + "\n\nExecution History:\n"@ + execution_context + "\n\n"@
        + "## Continuation Instructions:\n\nYou are continuing to work on the user's original request. Based on what you've already done:\n\n1. **Review** what has been accomplished so far\n2. **Determine** if the original request is fully satisfied\n3. **If more actions are needed**:\n   - Explain what you need to do next\n   - Execute the appropriate tools with JSON format\n   - Use continuation signals like \"Let me also...\", \"Next, I'll...\", etc.\n4. **If the task is complete**:\n   - Provide a natural conclusion\n   - Summarize what was accomplished\n   - Don't include any tool JSON\n\n**Tool Usage Format (if needed):**\n```json\n{\n    \"tool\": \"tool_name\",\n    \"action\": \"action_name\",\n    \"parameters\": {\n        \"param1\": \"value1\"\n    }\n}\n```\n\n**Your Goal:** Complete the user's original request fully. Continue if more actions would be helpful.\n"@
}

/// Handles dynamic prompt generation for different contexts.
pub struct PromptGenerator;

impl PromptGenerator {
    pub fn new() -> Self {
        PromptGenerator
    }

    /// Builds the first iteration's prompt from the retained conversation,
    /// the registered tools' documentation, the recent-usage hint and the
    /// user's request.
    pub fn generate_initial_prompt(&self, user_input: &str, memory: &ConversationMemory, registry: &ToolRegistry) -> (r:
        AppResult<String>)
        ensures
            r matches Ok(p) && p@ == initial_prompt_of(user_input@, memory@.log, registry@),
    {
        let tools_description = registry.generate_enhanced_tools_description();
        let conversation_context = memory.get_context_for_prompt(true);
        let recent_tools = memory.get_recent_tool_usage();
        let mut s = String::from_str(
            "You are a helpful AI assistant with access to various tools for managing notes and tasks. Your personality should be conversational and helpful.\n\n",
        );
        s.append(conversation_context.as_str());
        s.append("Available Tools:\n");
        s.append(tools_description.as_str());
        s.append("\n\n");
        if recent_tools.len() > 0 {
            s.append("Recently used tools: ");
            let listed = join_strings(&recent_tools, ", ");
            s.append(listed.as_str());
            s.append("\n");
        }
        s.append("Current User Request: ");
        s.append(user_input);
        s.append("\n\n");
        s.append(
            "## Chain of Thought Instructions:\n\nYou will work through this request step by step, potentially using multiple tools to complete the task. Think through your approach and execute tools as needed.\n\n**Execution Pattern:**\n1. **Analyze the request** and explain your understanding\n2. **Plan your approach** - what steps will you take?\n3. **Execute tools** as needed with JSON format\n4. **If more actions are needed**, indicate this clearly in your response\n5. **Continue until the task is complete**\n\n**Tool Usage Format:**\n```json\n{\n    \"tool\": \"tool_name\",\n    \"action\": \"action_name\",\n    \"parameters\": {\n        \"param1\": \"value1\"\n    }\n}\n```\n\n**Continuation Signals:**\nIf you need to continue with more actions after seeing tool results, include phrases like:\n- \"Let me also...\"\n- \"I need to...\"\n- \"Next, I'll...\"\n- \"Additionally...\"\n\n**Conversational Style:**\n- Be natural and explain your thinking process\n- Show your reasoning for each step\n- Explain what you're doing and why\n- Continue until the user's request is fully satisfied\n\nStart by analyzing the request and explaining your approach.\n",
        );
        proof {
            assert(s@ =~= initial_prompt_of(user_input@, memory@.log, registry@));
        }
        Ok(s)
    }

    /// Builds a continuation prompt from the retained conversation, the tool
    /// documentation, the original request and the accumulated execution
    /// history.
    #[verifier::rlimit(60)]
    pub fn generate_continuation_prompt(
        &self,
        original_request: &str,
        execution_context: &str,
        memory: &ConversationMemory,
        registry: &ToolRegistry,
    ) -> (r: AppResult<String>)
        ensures
            r matches Ok(p) && p@ == continuation_prompt_of(
                original_request@,
                execution_context@,
                memory@.log,
                registry@,
            ),
    {
        let tools_description = registry.generate_enhanced_tools_description();
        let conversation_context = memory.get_context_for_prompt(true);
        let recent_tools = memory.get_recent_tool_usage();
        let mut s = conversation_context;
        s.append("\n\nAvailable Tools:\n");
        s.append(tools_description.as_str());
        s.append("\n\n");
        if recent_tools.len() > 0 {
            s.append("Recently used tools: ");
            let listed = join_strings(&recent_tools, ", ");
            s.append(listed.as_str());
            s.append("\n");
        }
        s.append("## Continuation Context:\n\nOriginal User Request: ");
        s.append(original_request);
        s.append("\n\nExecution History:\n");
        s.append(execution_context);
        s.append("\n\n");
        s.append(
            "## Continuation Instructions:\n\nYou are continuing to work on the user's original request. Based on what you've already done:\n\n1. **Review** what has been accomplished so far\n2. **Determine** if the original request is fully satisfied\n3. **If more actions are needed**:\n   - Explain what you need to do next\n   - Execute the appropriate tools with JSON format\n   - Use continuation signals like \"Let me also...\", \"Next, I'll...\", etc.\n4. **If the task is complete**:\n   - Provide a natural conclusion\n   - Summarize what was accomplished\n   - Don't include any tool JSON\n\n**Tool Usage Format (if needed):**\n```json\n{\n    \"tool\": \"tool_name\",\n    \"action\": \"action_name\",\n    \"parameters\": {\n        \"param1\": \"value1\"\n    }\n}\n```\n\n**Your Goal:** Complete the user's original request fully. Continue if more actions would be helpful.\n",
        );
        proof {
            assert(s@ =~= continuation_prompt_of(
                original_request@,
                execution_context@,
                memory@.log,
                registry@,
            ));
        }
        Ok(s)
    }
}

} // verus!
