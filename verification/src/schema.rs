//! Declarative tool schemas: the configuration data a tool registers once —
//! its actions, their parameters with types, bounds and defaults, return
//! descriptions and worked examples — and the rendering of a schema into the
//! structured text block included in prompts.

use vstd::prelude::*;
use vstd::string::*;
use crate::textutil::{
    dec_rep, dec_rep_int, fmt_i64, fmt_u64, join_strings, joined_with, lemma_joined_with_snoc,
    views_of,
};

verus! {

#[derive(Clone, Copy, Debug, PartialEq, Eq, Structural)]
pub enum ToolCategory {
    Internal,
    External,
    System,
}

/// The tagged type of one parameter. Numeric bounds are integral here; a
/// bound that needs a fraction is out of this library's scope.
pub enum ParameterType {
    Text { max_length: Option<u64> },
    Number { min: Option<i64>, max: Option<i64> },
    Integer { min: Option<i64>, max: Option<i64> },
    Boolean,
    Array { item_type: Box<ParameterType> },
    Object { properties: Vec<ParameterSchema> },
    Date,
    DateTime,
}

pub struct ValidationRule {
    pub pattern: Option<String>,
    pub enum_values: Option<Vec<String>>,
    pub custom: Option<String>,
}

pub struct ParameterSchema {
    pub name: String,
    pub description: String,
    pub param_type: ParameterType,
    pub required: bool,
    pub default_value: Option<String>,
    pub validation: Option<ValidationRule>,
}

pub struct ReturnSchema {
    pub description: String,
    pub return_type: ParameterType,
    pub possible_errors: Vec<String>,
}

pub struct ToolExample {
    pub description: String,
    pub user_request: String,
    pub tool_call: String,
    pub expected_result: String,
}

pub struct ActionSchema {
    pub name: String,
    pub description: String,
    pub parameters: Vec<ParameterSchema>,
    pub returns: ReturnSchema,
}

pub struct ToolSchema {
    pub name: String,
    pub description: String,
    pub category: ToolCategory,
    pub actions: Vec<ActionSchema>,
    pub examples: Vec<ToolExample>,
}

pub open spec fn render_bounds(kind: Seq<char>, min: Option<i64>, max: Option<i64>) -> Seq<char> {
    match (min, max) {
        (Some(a), Some(b)) => kind + "("@ + dec_rep_int(a as int) + "-"@ + dec_rep_int(b as int)
            + ")"@,
        (Some(a), None) => kind + "(min: "@ + dec_rep_int(a as int) + ")"@,
        (None, Some(b)) => kind + "(max: "@ + dec_rep_int(b as int) + ")"@,
        (None, None) => kind,
    }
}

/// The short type description shown beside a parameter.
pub open spec fn render_param_type(pt: ParameterType) -> Seq<char>
    decreases pt,
{
    match pt {
        ParameterType::Text { max_length } => match max_length {
            Some(m) => "string(max: "@ + dec_rep(m as nat) + ")"@,
            None => "string"@,
        },
        ParameterType::Number { min, max } => render_bounds("number"@, min, max),
        ParameterType::Integer { min, max } => render_bounds("integer"@, min, max),
        ParameterType::Boolean => "boolean"@,
        ParameterType::Array { item_type } => "array<"@ + render_param_type(*item_type) + ">"@,
        ParameterType::Object { .. } => "object"@,
        ParameterType::Date => "date (YYYY-MM-DD)"@,
        ParameterType::DateTime => "datetime (ISO 8601)"@,
    }
}

pub open spec fn render_validation(v: ValidationRule) -> Seq<char> {
    (match v.pattern {
        Some(p) => "    Pattern: `"@ + p@ + "`\n"@,
        None => Seq::<char>::empty(),
    }) + (match v.enum_values {
        Some(vals) => "    Allowed values: ["@ + joined_with(views_of(vals@), ", "@) + "]\n"@,
        None => Seq::<char>::empty(),
    })
}

/// One parameter's entry under an action.
pub open spec fn render_param_entry(p: ParameterSchema) -> Seq<char> {
    "  - `"@ + p.name@ + "` ("@ + render_param_type(p.param_type) + "): "@ + p.description@ + (
    if p.required {
        " **(required)**"@
    } else {
        " (optional)"@
    }) + "\n"@ + (match p.default_value {
        Some(d) => "    Default: `"@ + d@ + "`\n"@,
        None => Seq::<char>::empty(),
    }) + (match p.validation {
        Some(v) => render_validation(v),
        None => Seq::<char>::empty(),
    })
}

pub open spec fn params_block(ps: Seq<ParameterSchema>) -> Seq<char>
    decreases ps.len(),
{
    if ps.len() == 0 {
        Seq::empty()
    } else {
        render_param_entry(ps[0]) + params_block(ps.drop_first())
    }
}

/// One action's entry in a schema block.
pub open spec fn render_action_entry(a: ActionSchema) -> Seq<char> {
    "- `"@ + a.name@ + "`: "@ + a.description@ + "\n"@ + (if a.parameters@.len() > 0 {
        "  Parameters:\n"@ + params_block(a.parameters@)
    } else {
        Seq::<char>::empty()
    }) + "  Returns: "@ + render_param_type(a.returns.return_type) + " - "@
        + a.returns.description@ + "\n"@ + (if a.returns.possible_errors@.len() > 0 {
        "  Possible errors: "@ + joined_with(views_of(a.returns.possible_errors@), ", "@) + "\n"@
    } else {
        Seq::<char>::empty()
    }) + "\n"@
}

pub open spec fn actions_block(az: Seq<ActionSchema>) -> Seq<char>
    decreases az.len(),
{
    if az.len() == 0 {
        Seq::empty()
    } else {
        render_action_entry(az[0]) + actions_block(az.drop_first())
    }
}

/// One worked example's entry.
pub open spec fn render_example_entry(e: ToolExample) -> Seq<char> {
    "- "@ + e.description@ + "\n"@ + "  User: \""@ + e.user_request@ + "\"\n"@
        + "  Tool call: `"@ + e.tool_call@ + "`\n"@ + "  Result: \""@ + e.expected_result@
        + "\"\n\n"@
}

pub open spec fn examples_block(es: Seq<ToolExample>) -> Seq<char>
    decreases es.len(),
{
    if es.len() == 0 {
        Seq::empty()
    } else {
        render_example_entry(es[0]) + examples_block(es.drop_first())
    }
}

pub open spec fn category_label(c: ToolCategory) -> Seq<char> {
    match c {
        ToolCategory::Internal => "Internal CRUD"@,
        ToolCategory::External => "External API"@,
        ToolCategory::System => "System"@,
    }
}

/// The whole schema block included in prompts.
pub open spec fn render_schema(s: ToolSchema) -> Seq<char> {
    "### "@ + s.name@ + " Tool ("@ + category_label(s.category) + ")\n"@ + "**Description**: "@
        + s.description@ + "\n\n"@ + "**Available Actions**:\n"@ + actions_block(s.actions@) + (
    if s.examples@.len() > 0 {
        "**Examples**:\n"@ + examples_block(s.examples@)
    } else {
        Seq::<char>::empty()
    })
}

proof fn lemma_params_block_snoc(ps: Seq<ParameterSchema>, x: ParameterSchema)
    ensures
        params_block(ps.push(x)) == params_block(ps) + render_param_entry(x),
    decreases ps.len(),
{
    if ps.len() == 0 {
        assert(ps.push(x)[0] == x);
        assert(ps.push(x).drop_first() =~= Seq::<ParameterSchema>::empty());
        assert(params_block(Seq::<ParameterSchema>::empty()) =~= Seq::<char>::empty());
        assert(params_block(ps.push(x)) =~= render_param_entry(x));
        assert(params_block(ps) + render_param_entry(x) =~= render_param_entry(x));
    } else {
        assert(ps.push(x)[0] == ps[0]);
        assert(ps.push(x).drop_first() =~= ps.drop_first().push(x));
        lemma_params_block_snoc(ps.drop_first(), x);
        assert(render_param_entry(ps[0]) + (params_block(ps.drop_first()) + render_param_entry(x))
            =~= params_block(ps) + render_param_entry(x));
    }
}

proof fn lemma_actions_block_snoc(az: Seq<ActionSchema>, x: ActionSchema)
    ensures
        actions_block(az.push(x)) == actions_block(az) + render_action_entry(x),
    decreases az.len(),
{
    if az.len() == 0 {
        assert(az.push(x)[0] == x);
        assert(az.push(x).drop_first() =~= Seq::<ActionSchema>::empty());
        assert(actions_block(Seq::<ActionSchema>::empty()) =~= Seq::<char>::empty());
        assert(actions_block(az.push(x)) =~= render_action_entry(x));
        assert(actions_block(az) + render_action_entry(x) =~= render_action_entry(x));
    } else {
        assert(az.push(x)[0] == az[0]);
        assert(az.push(x).drop_first() =~= az.drop_first().push(x));
        lemma_actions_block_snoc(az.drop_first(), x);
        assert(render_action_entry(az[0]) + (actions_block(az.drop_first()) + render_action_entry(
            x,
        )) =~= actions_block(az) + render_action_entry(x));
    }
}

proof fn lemma_examples_block_snoc(es: Seq<ToolExample>, x: ToolExample)
    ensures
        examples_block(es.push(x)) == examples_block(es) + render_example_entry(x),
    decreases es.len(),
{
    if es.len() == 0 {
        assert(es.push(x)[0] == x);
        assert(es.push(x).drop_first() =~= Seq::<ToolExample>::empty());
        assert(examples_block(Seq::<ToolExample>::empty()) =~= Seq::<char>::empty());
        assert(examples_block(es.push(x)) =~= render_example_entry(x));
        assert(examples_block(es) + render_example_entry(x) =~= render_example_entry(x));
    } else {
        assert(es.push(x)[0] == es[0]);
        assert(es.push(x).drop_first() =~= es.drop_first().push(x));
        lemma_examples_block_snoc(es.drop_first(), x);
        assert(render_example_entry(es[0]) + (examples_block(es.drop_first())
            + render_example_entry(x)) =~= examples_block(es) + render_example_entry(x));
    }
}

fn render_validation_exec(v: &ValidationRule) -> (r: String)
    ensures
        r@ == render_validation(*v),
{
    let mut s = String::new();
    match &v.pattern {
        Some(p) => {
            s.append("    Pattern: `");
            s.append(p.as_str());
            s.append("`\n");
        },
        None => {},
    }
    match &v.enum_values {
        Some(vals) => {
            s.append("    Allowed values: [");
            let inner = join_strings(vals, ", ");
            s.append(inner.as_str());
            s.append("]\n");
        },
        None => {},
    }
    proof {
        assert(s@ =~= render_validation(*v));
    }
    s
}

impl ToolSchema {
    /// The short type description shown beside a parameter.
    pub fn format_parameter_type(&self, param_type: &ParameterType) -> (r: String)
        ensures
            r@ == render_param_type(*param_type),
        decreases *param_type,
    {
        match param_type {
            ParameterType::Text { max_length } => {
                match max_length {
                    Some(m) => {
                        let mut s = String::from_str("string(max: ");
                        let d = fmt_u64(*m);
                        s.append(d.as_str());
                        s.append(")");
                        proof {
                            assert(s@ =~= render_param_type(*param_type));
                        }
                        s
                    },
                    None => String::from_str("string"),
                }
            },
            ParameterType::Number { min, max } => {
                let r = format_bounds("number", min, max);
                proof {
                    assert(r@ == render_param_type(*param_type));
                }
                r
            },
            ParameterType::Integer { min, max } => {
                let r = format_bounds("integer", min, max);
                proof {
                    assert(r@ == render_param_type(*param_type));
                }
                r
            },
            ParameterType::Boolean => String::from_str("boolean"),
            ParameterType::Array { item_type } => {
                let mut s = String::from_str("array<");
                let inner = self.format_parameter_type(&**item_type);
                s.append(inner.as_str());
                s.append(">");
                proof {
                    assert(s@ =~= render_param_type(*param_type));
                }
                s
            },
            ParameterType::Object { .. } => String::from_str("object"),
            ParameterType::Date => String::from_str("date (YYYY-MM-DD)"),
            ParameterType::DateTime => String::from_str("datetime (ISO 8601)"),
        }
    }

    fn render_param(&self, p: &ParameterSchema) -> (r: String)
        ensures
            r@ == render_param_entry(*p),
    {
        let mut s = String::from_str("  - `");
        s.append(p.name.as_str());
        s.append("` (");
        let ty = self.format_parameter_type(&p.param_type);
        s.append(ty.as_str());
        s.append("): ");
        s.append(p.description.as_str());
        if p.required {
            s.append(" **(required)**");
        } else {
            s.append(" (optional)");
        }
        s.append("\n");
        match &p.default_value {
            Some(d) => {
                s.append("    Default: `");
                s.append(d.as_str());
                s.append("`\n");
            },
            None => {},
        }
        match &p.validation {
            Some(v) => {
                let vr = render_validation_exec(v);
                s.append(vr.as_str());
            },
            None => {},
        }
        proof {
            assert(s@ =~= render_param_entry(*p));
        }
        s
    }

    fn render_action(&self, a: &ActionSchema) -> (r: String)
        ensures
            r@ == render_action_entry(*a),
    {
        let mut s = String::from_str("- `");
        s.append(a.name.as_str());
        s.append("`: ");
        s.append(a.description.as_str());
        s.append("\n");
        let ghost head = s@;
        if a.parameters.len() > 0 {
            s.append("  Parameters:\n");
            let ghost mid = s@;
            let mut i: usize = 0;
            proof {
                assert(a.parameters@.take(0) =~= Seq::<ParameterSchema>::empty());
                assert(params_block(Seq::<ParameterSchema>::empty()) =~= Seq::<char>::empty());
                assert(s@ =~= mid + params_block(a.parameters@.take(0)));
            }
            while i < a.parameters.len()
                invariant
                    i <= a.parameters@.len(),
                    s@ == mid + params_block(a.parameters@.take(i as int)),
                decreases a.parameters@.len() - i,
            {
                let ghost done = a.parameters@.take(i as int);
                let entry = self.render_param(&a.parameters[i]);
                s.append(entry.as_str());
                proof {
                    lemma_params_block_snoc(done, a.parameters@[i as int]);
                    assert(done.push(a.parameters@[i as int]) =~= a.parameters@.take(i as int + 1));
                    assert(s@ =~= mid + params_block(a.parameters@.take(i as int + 1)));
                }
                i = i + 1;
            }
            proof {
                assert(a.parameters@.take(a.parameters@.len() as int) =~= a.parameters@);
            }
        }
        s.append("  Returns: ");
        let rt = self.format_parameter_type(&a.returns.return_type);
        s.append(rt.as_str());
        s.append(" - ");
        s.append(a.returns.description.as_str());
        s.append("\n");
        if a.returns.possible_errors.len() > 0 {
            s.append("  Possible errors: ");
            let errs = join_strings(&a.returns.possible_errors, ", ");
            s.append(errs.as_str());
            s.append("\n");
        }
        s.append("\n");
        proof {
            assert(s@ =~= render_action_entry(*a));
        }
        s
    }

    /// Renders the schema into the text block included in prompts.
    pub fn to_prompt_format(&self) -> (r: String)
        ensures
            r@ == render_schema(*self),
    {
        let mut s = String::from_str("### ");
        s.append(self.name.as_str());
        s.append(" Tool (");
        match self.category {
            ToolCategory::Internal => s.append("Internal CRUD"),
            ToolCategory::External => s.append("External API"),
            ToolCategory::System => s.append("System"),
        }
        s.append(")\n");
        s.append("**Description**: ");
        s.append(self.description.as_str());
        s.append("\n\n");
        s.append("**Available Actions**:\n");
        let ghost head = s@;
        let mut i: usize = 0;
        proof {
            assert(self.actions@.take(0) =~= Seq::<ActionSchema>::empty());
            assert(actions_block(Seq::<ActionSchema>::empty()) =~= Seq::<char>::empty());
            assert(s@ =~= head + actions_block(self.actions@.take(0)));
        }
        while i < self.actions.len()
            invariant
                i <= self.actions@.len(),
                s@ == head + actions_block(self.actions@.take(i as int)),
            decreases self.actions@.len() - i,
        {
            let ghost done = self.actions@.take(i as int);
            let entry = self.render_action(&self.actions[i]);
            s.append(entry.as_str());
            proof {
                lemma_actions_block_snoc(done, self.actions@[i as int]);
                assert(done.push(self.actions@[i as int]) =~= self.actions@.take(i as int + 1));
                assert(s@ =~= head + actions_block(self.actions@.take(i as int + 1)));
            }
            i = i + 1;
        }
        proof {
            assert(self.actions@.take(self.actions@.len() as int) =~= self.actions@);
        }
        if self.examples.len() > 0 {
            s.append("**Examples**:\n");
            let ghost mid = s@;
            let mut i: usize = 0;
            proof {
                assert(self.examples@.take(0) =~= Seq::<ToolExample>::empty());
                assert(examples_block(Seq::<ToolExample>::empty()) =~= Seq::<char>::empty());
                assert(s@ =~= mid + examples_block(self.examples@.take(0)));
            }
            while i < self.examples.len()
                invariant
                    i <= self.examples@.len(),
                    s@ == mid + examples_block(self.examples@.take(i as int)),
                decreases self.examples@.len() - i,
            {
                let ghost done = self.examples@.take(i as int);
                let e = &self.examples[i];
                s.append("- ");
                s.append(e.description.as_str());
                s.append("\n");
                s.append("  User: \"");
                s.append(e.user_request.as_str());
                s.append("\"\n");
                s.append("  Tool call: `");
                s.append(e.tool_call.as_str());
                s.append("`\n");
                s.append("  Result: \"");
                s.append(e.expected_result.as_str());
                s.append("\"\n\n");
                proof {
                    lemma_examples_block_snoc(done, self.examples@[i as int]);
                    assert(done.push(self.examples@[i as int]) =~= self.examples@.take(
                        i as int + 1,
                    ));
                    assert(s@ =~= mid + examples_block(self.examples@.take(i as int + 1)));
                }
                i = i + 1;
            }
            proof {
                assert(self.examples@.take(self.examples@.len() as int) =~= self.examples@);
            }
        }
        proof {
            assert(s@ =~= render_schema(*self));
        }
        s
    }
}

fn format_bounds(kind: &str, min: &Option<i64>, max: &Option<i64>) -> (r: String)
    ensures
        r@ == render_bounds(kind@, *min, *max),
{
    match (min, max) {
        (Some(a), Some(b)) => {
            let mut s = String::from_str(kind);
            s.append("(");
            let av = fmt_i64(*a);
            s.append(av.as_str());
            s.append("-");
            let bv = fmt_i64(*b);
            s.append(bv.as_str());
            s.append(")");
            proof {
                assert(s@ =~= render_bounds(kind@, *min, *max));
            }
            s
        },
        (Some(a), None) => {
            let mut s = String::from_str(kind);
            s.append("(min: ");
            let av = fmt_i64(*a);
            s.append(av.as_str());
            s.append(")");
            proof {
                assert(s@ =~= render_bounds(kind@, *min, *max));
            }
            s
        },
        (None, Some(b)) => {
            let mut s = String::from_str(kind);
            s.append("(max: ");
            let bv = fmt_i64(*b);
            s.append(bv.as_str());
            s.append(")");
            proof {
                assert(s@ =~= render_bounds(kind@, *min, *max));
            }
            s
        },
        (None, None) => String::from_str(kind),
    }
}

} // verus!
