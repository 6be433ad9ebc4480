//! The confirmation step's decision logic: what counts as an approval, and
//! the text of the question put to the user. Reading the answer is I/O and
//! stays with the caller.

use vstd::prelude::*;
use vstd::string::*;
use crate::shims::{json_parses, json_pretty, json_pretty_of, lower_of, to_lowercase, trim};
use crate::shims::trim_of;
use crate::textutil::str_eq;

verus! {

/// An answer approves execution exactly when, trimmed and case-folded, it is
/// "y" or "yes"; everything else, the empty line included, declines.
pub open spec fn affirmative(answer: Seq<char>) -> bool {
    let t = lower_of(trim_of(answer));
    t == "y"@ || t == "yes"@
}

/// How a parameters document is shown to the user: "none" for the null
/// document, the indented rendering otherwise.
pub open spec fn shown_params(params: Seq<char>) -> Seq<char> {
    if params == "null"@ {
        "none"@
    } else if json_parses(params) {
        json_pretty_of(params)
    } else {
        params
    }
}

/// The question put to the user before one tool call runs.
pub open spec fn confirmation_prompt(
    tool: Seq<char>,
    action: Seq<char>,
    params: Seq<char>,
) -> Seq<char> {
    "\n\u{1F916} AI Agent wants to execute a tool:\n"@ + "   Tool: "@ + tool + "\n"@
        + "   Action: "@ + action + "\n"@ + "   Parameters: "@ + shown_params(params) + "\n"@
        + "\nDo you want to proceed? [y/N]: "@
}

/// Decides approvals and renders the question; the interactive surface that
/// shows it lives with the caller.
pub struct ConfirmationHandler;

impl ConfirmationHandler {
    pub fn new() -> Self {
        ConfirmationHandler
    }

    /// Whether one line of input approves the call.
    pub fn accepts(&self, answer: &str) -> (r: bool)
        ensures
            r == affirmative(answer@),
    {
        let t = trim(answer);
        let l = to_lowercase(t.as_str());
        str_eq(l.as_str(), "y") || str_eq(l.as_str(), "yes")
    }

    /// The parameters as shown to the user.
    pub fn render_params(&self, params: &str) -> (r: String)
        ensures
            r@ == shown_params(params@),
    {
        if str_eq(params, "null") {
            String::from_str("none")
        } else {
            match json_pretty(params) {
                Some(p) => p,
                None => String::from_str(params),
            }
        }
    }

    /// The full confirmation question for one call.
    pub fn render_prompt(&self, tool_name: &str, action: &str, params: &str) -> (r: String)
        ensures
            r@ == confirmation_prompt(tool_name@, action@, params@),
    {
        let mut s = String::new();
        s.append("\n\u{1F916} AI Agent wants to execute a tool:\n");
        s.append("   Tool: ");
        s.append(tool_name);
        s.append("\n");
        s.append("   Action: ");
        s.append(action);
        s.append("\n");
        s.append("   Parameters: ");
        let shown = self.render_params(params);
        s.append(shown.as_str());
        s.append("\n");
        s.append("\nDo you want to proceed? [y/N]: ");
        proof {
            assert(s@ =~= confirmation_prompt(tool_name@, action@, params@));
        }
        s
    }
}

} // verus!
