//! The declarative face of a tool: its compact action list used by the plain
//! documentation renderer, and the bundle of name, description, category,
//! schema and actions under which a tool registers.

use vstd::prelude::*;
use vstd::string::*;
use crate::schema::{ToolCategory, ToolSchema};

verus! {

pub struct ToolParameter {
    pub name: String,
    pub description: String,
    pub required: bool,
    pub param_type: String,
}

pub struct ToolAction {
    pub name: String,
    pub description: String,
    pub parameters: Vec<ToolParameter>,
}

impl ToolAction {
    pub fn new(name: &str, description: &str) -> (r: ToolAction)
        ensures
            r.name@ == name@,
            r.description@ == description@,
            r.parameters@.len() == 0,
    {
        ToolAction {
            name: String::from_str(name),
            description: String::from_str(description),
            parameters: Vec::new(),
        }
    }

    /// Appends one declared parameter, builder style.
    pub fn with_parameter(self, name: &str, description: &str, required: bool, param_type: &str) -> (r: ToolAction)
        ensures
            r.name@ == self.name@,
            r.description@ == self.description@,
            r.parameters@.len() == self.parameters@.len() + 1,
            r.parameters@.take(self.parameters@.len() as int) == self.parameters@,
            r.parameters@.last().name@ == name@,
            r.parameters@.last().description@ == description@,
            r.parameters@.last().required == required,
            r.parameters@.last().param_type@ == param_type@,
    {
        let mut out = self;
        out.parameters.push(
            ToolParameter {
                name: String::from_str(name),
                description: String::from_str(description),
                required: required,
                param_type: String::from_str(param_type),
            },
        );
        proof {
            assert(out.parameters@.take(out.parameters@.len() - 1) =~= out.parameters@.drop_last());
        }
        out
    }
}

/// Everything a tool declares when it registers: the executable half lives
/// with the host that dispatches into it.
pub struct ToolInfo {
    pub name: String,
    pub description: String,
    pub category: ToolCategory,
    pub schema: ToolSchema,
    pub actions: Vec<ToolAction>,
}

} // verus!
