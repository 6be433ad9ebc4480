//! The name-keyed tool registry: registration overwrites by name, lookup by
//! name, and the two documentation renderings — a compact action list and
//! the schema blocks grouped by category — that prompts embed.

use vstd::prelude::*;
use vstd::string::*;
use crate::errors::AppResult;
use crate::notes::{build_notes_tool_info, notes_info_like};
use crate::schema::{render_schema, ToolCategory};
use crate::textutil::{str_eq, views_of};
use crate::tools::{ToolAction, ToolInfo, ToolParameter};

verus! {

/// Registration: the first tool of the same name is replaced in place;
/// otherwise the tool is appended.
pub open spec fn upsert(ts: Seq<ToolInfo>, t: ToolInfo) -> Seq<ToolInfo>
    decreases ts.len(),
{
    if ts.len() == 0 {
        seq![t]
    } else if ts[0].name@ == t.name@ {
        seq![t] + ts.drop_first()
    } else {
        seq![ts[0]] + upsert(ts.drop_first(), t)
    }
}

/// One parameter's line in the compact documentation.
pub open spec fn render_basic_param(p: ToolParameter) -> Seq<char> {
    "    - "@ + p.name@ + " ("@ + p.param_type@ + "): "@ + p.description@ + (if p.required {
        " (required)"@
    } else {
        " (optional)"@
    }) + "\n"@
}

pub open spec fn basic_params_block(ps: Seq<ToolParameter>) -> Seq<char>
    decreases ps.len(),
{
    if ps.len() == 0 {
        Seq::empty()
    } else {
        render_basic_param(ps[0]) + basic_params_block(ps.drop_first())
    }
}

/// One action's lines in the compact documentation.
pub open spec fn render_basic_action(a: ToolAction) -> Seq<char> {
    "- "@ + a.name@ + ": "@ + a.description@ + "\n"@ + (if a.parameters@.len() > 0 {
        "  Parameters:\n"@ + basic_params_block(a.parameters@)
    } else {
        Seq::<char>::empty()
    })
}

pub open spec fn basic_actions_block(az: Seq<ToolAction>) -> Seq<char>
    decreases az.len(),
{
    if az.len() == 0 {
        Seq::empty()
    } else {
        render_basic_action(az[0]) + basic_actions_block(az.drop_first())
    }
}

/// One tool's compact documentation block.
pub open spec fn render_basic_tool(t: ToolInfo) -> Seq<char> {
    "\n## "@ + t.name@ + " Tool\n"@ + "Description: "@ + t.description@ + "\n"@ + "Actions:\n"@
        + basic_actions_block(t.actions@) + "\n"@
}

pub open spec fn basic_tools_block(ts: Seq<ToolInfo>) -> Seq<char>
    decreases ts.len(),
{
    if ts.len() == 0 {
        Seq::empty()
    } else {
        render_basic_tool(ts[0]) + basic_tools_block(ts.drop_first())
    }
}

/// The tools of one category, in registration order.
pub open spec fn by_category(ts: Seq<ToolInfo>, c: ToolCategory) -> Seq<ToolInfo>
    decreases ts.len(),
{
    if ts.len() == 0 {
        Seq::empty()
    } else {
        (if ts[0].category == c {
            seq![ts[0]]
        } else {
            Seq::<ToolInfo>::empty()
        }) + by_category(ts.drop_first(), c)
    }
}

/// Each tool's schema block followed by a blank line.
pub open spec fn schemas_block(ts: Seq<ToolInfo>) -> Seq<char>
    decreases ts.len(),
{
    if ts.len() == 0 {
        Seq::empty()
    } else {
        render_schema(ts[0].schema) + "\n"@ + schemas_block(ts.drop_first())
    }
}

/// The category-grouped documentation: internal tools first, then external,
/// then system, each group under its banner and only when non-empty.
pub open spec fn enhanced_description(ts: Seq<ToolInfo>) -> Seq<char> {
    let internal = by_category(ts, ToolCategory::Internal);
    let external = by_category(ts, ToolCategory::External);
    let system = by_category(ts, ToolCategory::System);
    (if internal.len() > 0 {
        "## Internal Tools (Local CRUD Operations)\n"@ + schemas_block(internal)
    } else {
        Seq::<char>::empty()
    }) + (if external.len() > 0 {
        "## External Tools (API Integrations)\n"@ + schemas_block(external)
    } else {
        Seq::<char>::empty()
    }) + (if system.len() > 0 {
        "## System Tools\n"@ + schemas_block(system)
    } else {
        Seq::<char>::empty()
    })
}

proof fn lemma_basic_tools_block_snoc(ts: Seq<ToolInfo>, x: ToolInfo)
    ensures
        basic_tools_block(ts.push(x)) == basic_tools_block(ts) + render_basic_tool(x),
    decreases ts.len(),
{
    if ts.len() == 0 {
        assert(ts.push(x)[0] == x);
        assert(ts.push(x).drop_first() =~= Seq::<ToolInfo>::empty());
        assert(basic_tools_block(Seq::<ToolInfo>::empty()) =~= Seq::<char>::empty());
        assert(basic_tools_block(ts.push(x)) =~= render_basic_tool(x));
        assert(basic_tools_block(ts) + render_basic_tool(x) =~= render_basic_tool(x));
    } else {
        assert(ts.push(x)[0] == ts[0]);
        assert(ts.push(x).drop_first() =~= ts.drop_first().push(x));
        lemma_basic_tools_block_snoc(ts.drop_first(), x);
        assert(render_basic_tool(ts[0]) + (basic_tools_block(ts.drop_first()) + render_basic_tool(
            x,
        )) =~= basic_tools_block(ts) + render_basic_tool(x));
    }
}

proof fn lemma_basic_actions_block_snoc(az: Seq<ToolAction>, x: ToolAction)
    ensures
        basic_actions_block(az.push(x)) == basic_actions_block(az) + render_basic_action(x),
    decreases az.len(),
{
    if az.len() == 0 {
        assert(az.push(x)[0] == x);
        assert(az.push(x).drop_first() =~= Seq::<ToolAction>::empty());
        assert(basic_actions_block(Seq::<ToolAction>::empty()) =~= Seq::<char>::empty());
        assert(basic_actions_block(az.push(x)) =~= render_basic_action(x));
        assert(basic_actions_block(az) + render_basic_action(x) =~= render_basic_action(x));
    } else {
        assert(az.push(x)[0] == az[0]);
        assert(az.push(x).drop_first() =~= az.drop_first().push(x));
        lemma_basic_actions_block_snoc(az.drop_first(), x);
        assert(render_basic_action(az[0]) + (basic_actions_block(az.drop_first())
            + render_basic_action(x)) =~= basic_actions_block(az) + render_basic_action(x));
    }
}

proof fn lemma_basic_params_block_snoc(ps: Seq<ToolParameter>, x: ToolParameter)
    ensures
        basic_params_block(ps.push(x)) == basic_params_block(ps) + render_basic_param(x),
    decreases ps.len(),
{
    if ps.len() == 0 {
        assert(ps.push(x)[0] == x);
        assert(ps.push(x).drop_first() =~= Seq::<ToolParameter>::empty());
        assert(basic_params_block(Seq::<ToolParameter>::empty()) =~= Seq::<char>::empty());
        assert(basic_params_block(ps.push(x)) =~= render_basic_param(x));
        assert(basic_params_block(ps) + render_basic_param(x) =~= render_basic_param(x));
    } else {
        assert(ps.push(x)[0] == ps[0]);
        assert(ps.push(x).drop_first() =~= ps.drop_first().push(x));
        lemma_basic_params_block_snoc(ps.drop_first(), x);
        assert(render_basic_param(ps[0]) + (basic_params_block(ps.drop_first())
            + render_basic_param(x)) =~= basic_params_block(ps) + render_basic_param(x));
    }
}

proof fn lemma_by_category_snoc(ts: Seq<ToolInfo>, c: ToolCategory, x: ToolInfo)
    ensures
        by_category(ts.push(x), c) == by_category(ts, c) + (if x.category == c {
            seq![x]
        } else {
            Seq::<ToolInfo>::empty()
        }),
    decreases ts.len(),
{
    let tail: Seq<ToolInfo> = if x.category == c {
        seq![x]
    } else {
        Seq::empty()
    };
    if ts.len() == 0 {
        assert(ts.push(x)[0] == x);
        assert(ts.push(x).drop_first() =~= Seq::<ToolInfo>::empty());
        assert(by_category(Seq::<ToolInfo>::empty(), c) =~= Seq::<ToolInfo>::empty());
        assert(by_category(ts.push(x), c) =~= tail);
        assert(by_category(ts, c) + tail =~= tail);
    } else {
        assert(ts.push(x)[0] == ts[0]);
        assert(ts.push(x).drop_first() =~= ts.drop_first().push(x));
        lemma_by_category_snoc(ts.drop_first(), c, x);
        let head: Seq<ToolInfo> = if ts[0].category == c {
            seq![ts[0]]
        } else {
            Seq::empty()
        };
        assert(head + (by_category(ts.drop_first(), c) + tail) =~= by_category(ts, c) + tail);
    }
}

proof fn lemma_schemas_block_snoc(ts: Seq<ToolInfo>, x: ToolInfo)
    ensures
        schemas_block(ts.push(x)) == schemas_block(ts) + render_schema(x.schema) + "\n"@,
    decreases ts.len(),
{
    if ts.len() == 0 {
        assert(ts.push(x)[0] == x);
        assert(ts.push(x).drop_first() =~= Seq::<ToolInfo>::empty());
        assert(schemas_block(Seq::<ToolInfo>::empty()) =~= Seq::<char>::empty());
        assert(schemas_block(ts.push(x)) =~= render_schema(x.schema) + "\n"@);
        assert(schemas_block(ts) + render_schema(x.schema) + "\n"@ =~= render_schema(x.schema)
            + "\n"@);
    } else {
        assert(ts.push(x)[0] == ts[0]);
        assert(ts.push(x).drop_first() =~= ts.drop_first().push(x));
        lemma_schemas_block_snoc(ts.drop_first(), x);
        assert(render_schema(ts[0].schema) + "\n"@ + (schemas_block(ts.drop_first())
            + render_schema(x.schema) + "\n"@) =~= schemas_block(ts) + render_schema(x.schema)
            + "\n"@);
    }
}

/// When the name is not yet registered, registration appends.
proof fn lemma_upsert_absent(ts: Seq<ToolInfo>, t: ToolInfo)
    requires
        forall|i: int| 0 <= i < ts.len() ==> (#[trigger] ts[i]).name@ != t.name@,
    ensures
        upsert(ts, t) == ts.push(t),
    decreases ts.len(),
{
    if ts.len() == 0 {
        assert(upsert(ts, t) =~= ts.push(t));
    } else {
        assert(forall|i: int|
            0 <= i < ts.drop_first().len() ==> (#[trigger] ts.drop_first()[i]).name@ != t.name@)
            by {
            assert(forall|i: int|
                0 <= i < ts.drop_first().len() ==> ts.drop_first()[i] == ts[i + 1]);
        }
        lemma_upsert_absent(ts.drop_first(), t);
        assert(seq![ts[0]] + ts.drop_first().push(t) =~= ts.push(t));
    }
}

/// When the name is registered at `i` and nowhere earlier, registration
/// replaces in place.
proof fn lemma_upsert_at(ts: Seq<ToolInfo>, t: ToolInfo, i: int)
    requires
        0 <= i < ts.len(),
        ts[i].name@ == t.name@,
        forall|j: int| 0 <= j < i ==> (#[trigger] ts[j]).name@ != t.name@,
    ensures
        upsert(ts, t) == ts.update(i, t),
    decreases ts.len(),
{
    if i == 0 {
        assert(seq![t] + ts.drop_first() =~= ts.update(0, t));
    } else {
        assert(forall|j: int|
            0 <= j < i - 1 ==> (#[trigger] ts.drop_first()[j]).name@ != t.name@) by {
            assert(forall|j: int|
                0 <= j < ts.drop_first().len() ==> ts.drop_first()[j] == ts[j + 1]);
        }
        assert(ts.drop_first()[i - 1] == ts[i]);
        lemma_upsert_at(ts.drop_first(), t, i - 1);
        assert(seq![ts[0]] + ts.drop_first().update(i - 1, t) =~= ts.update(i, t));
    }
}

/// A name-keyed collection of registered tools.
pub struct ToolRegistry {
    tools: Vec<ToolInfo>,
}

impl View for ToolRegistry {
    type V = Seq<ToolInfo>;

    closed spec fn view(&self) -> Seq<ToolInfo> {
        self.tools@
    }
}

impl ToolRegistry {
    /// Registered names are unique.
    pub open spec fn wf(&self) -> bool {
        forall|i: int, j: int|
            0 <= i < j < self@.len() ==> (#[trigger] self@[i]).name@ != (#[trigger] self@[j]).name@
    }

    pub fn new() -> (r: ToolRegistry)
        ensures
            r.wf(),
            r@.len() == 0,
    {
        ToolRegistry { tools: Vec::new() }
    }

    /// Inserts a tool, overwriting any tool of the same name.
    pub fn register_tool(&mut self, tool: ToolInfo)
        requires
            old(self).wf(),
        ensures
            final(self).wf(),
            final(self)@ == upsert(old(self)@, tool),
    {
        let mut i: usize = 0;
        while i < self.tools.len()
            invariant
                forall|j: int| 0 <= j < i ==> (#[trigger] self@[j]).name@ != tool.name@,
                i <= self@.len(),
                self.wf(),
                self@ == old(self)@,
            decreases self@.len() - i,
        {
            if str_eq(self.tools[i].name.as_str(), tool.name.as_str()) {
                proof {
                    lemma_upsert_at(self@, tool, i as int);
                }
                self.tools.set(i, tool);
                return ;
            }
            i = i + 1;
        }
        proof {
            lemma_upsert_absent(self@, tool);
        }
        self.tools.push(tool);
    }

    /// The registered tool of that name, if any.
    pub fn get_tool(&self, name: &str) -> (r: Option<&ToolInfo>)
        ensures
            match r {
                Some(t) => exists|i: int|
                    0 <= i < self@.len() && #[trigger] self@[i] == *t && self@[i].name@ == name@,
                None => forall|i: int| 0 <= i < self@.len() ==> (#[trigger] self@[i]).name@ != name@,
            },
    {
        let mut i: usize = 0;
        while i < self.tools.len()
            invariant
                i <= self@.len(),
                forall|j: int| 0 <= j < i ==> (#[trigger] self@[j]).name@ != name@,
            decreases self@.len() - i,
        {
            if str_eq(self.tools[i].name.as_str(), name) {
                return Some(&self.tools[i]);
            }
            i = i + 1;
        }
        None
    }

    /// The registered names, in registration order.
    pub fn list_tools(&self) -> (r: Vec<String>)
        ensures
            views_of(r@) == self@.map_values(|t: ToolInfo| t.name@),
    {
        let mut out: Vec<String> = Vec::new();
        let mut i: usize = 0;
        proof {
            assert(views_of(out@) =~= self@.map_values(|t: ToolInfo| t.name@).take(0));
        }
        while i < self.tools.len()
            invariant
                i <= self@.len(),
                views_of(out@) == self@.map_values(|t: ToolInfo| t.name@).take(i as int),
            decreases self@.len() - i,
        {
            let ghost out0 = out@;
            out.push(self.tools[i].name.clone());
            proof {
                assert(views_of(out@) =~= views_of(out0).push(self@[i as int].name@));
                assert(self@.map_values(|t: ToolInfo| t.name@).take(i as int).push(
                    self@[i as int].name@,
                ) =~= self@.map_values(|t: ToolInfo| t.name@).take(i as int + 1));
            }
            i = i + 1;
        }
        proof {
            assert(self@.map_values(|t: ToolInfo| t.name@).take(self@.len() as int) =~= self@
                .map_values(|t: ToolInfo| t.name@));
        }
        out
    }

    /// The compact documentation of every registered tool.
    #[verifier::rlimit(100)]
    pub fn generate_tools_description(&self) -> (r: String)
        ensures
            r@ == basic_tools_block(self@),
    {
        let mut s = String::new();
        let mut i: usize = 0;
        proof {
            assert(self@.take(0) =~= Seq::<ToolInfo>::empty());
            assert(s@ =~= basic_tools_block(self@.take(0)));
        }
        while i < self.tools.len()
            invariant
                i <= self@.len(),
                s@ == basic_tools_block(self@.take(i as int)),
            decreases self@.len() - i,
        {
            let ghost done = self@.take(i as int);
            let t = &self.tools[i];
            s.append("\n## ");
            s.append(t.name.as_str());
            s.append(" Tool\n");
            s.append("Description: ");
            s.append(t.description.as_str());
            s.append("\n");
            s.append("Actions:\n");
            let ghost mid = s@;
            let mut j: usize = 0;
            proof {
                assert(t.actions@.take(0) =~= Seq::<ToolAction>::empty());
                assert(basic_actions_block(Seq::<ToolAction>::empty()) =~= Seq::<char>::empty());
                assert(s@ =~= mid + basic_actions_block(t.actions@.take(0)));
            }
            while j < t.actions.len()
                invariant
                    j <= t.actions@.len(),
                    s@ == mid + basic_actions_block(t.actions@.take(j as int)),
                decreases t.actions@.len() - j,
            {
                let ghost adone = t.actions@.take(j as int);
                let a = &t.actions[j];
                s.append("- ");
                s.append(a.name.as_str());
                s.append(": ");
                s.append(a.description.as_str());
                s.append("\n");
                let ghost ahead = s@;
                if a.parameters.len() > 0 {
                    s.append("  Parameters:\n");
                    let ghost pmid = s@;
                    let mut k: usize = 0;
                    proof {
                        assert(a.parameters@.take(0) =~= Seq::<ToolParameter>::empty());
                        assert(basic_params_block(Seq::<ToolParameter>::empty()) =~= Seq::<
                            char,
                        >::empty());
                        assert(s@ =~= pmid + basic_params_block(a.parameters@.take(0)));
                    }
                    while k < a.parameters.len()
                        invariant
                            k <= a.parameters@.len(),
                            s@ == pmid + basic_params_block(a.parameters@.take(k as int)),
                        decreases a.parameters@.len() - k,
                    {
                        let ghost pdone = a.parameters@.take(k as int);
                        let p = &a.parameters[k];
                        s.append("    - ");
                        s.append(p.name.as_str());
                        s.append(" (");
                        s.append(p.param_type.as_str());
                        s.append("): ");
                        s.append(p.description.as_str());
                        if p.required {
                            s.append(" (required)");
                        } else {
                            s.append(" (optional)");
                        }
                        s.append("\n");
                        proof {
                            lemma_basic_params_block_snoc(pdone, a.parameters@[k as int]);
                            assert(pdone.push(a.parameters@[k as int]) =~= a.parameters@.take(
                                k as int + 1,
                            ));
                            assert(s@ =~= pmid + basic_params_block(
                                a.parameters@.take(k as int + 1),
                            ));
                        }
                        k = k + 1;
                    }
                    proof {
                        assert(a.parameters@.take(a.parameters@.len() as int) =~= a.parameters@);
                    }
                }
                proof {
                    lemma_basic_actions_block_snoc(adone, t.actions@[j as int]);
                    assert(adone.push(t.actions@[j as int]) =~= t.actions@.take(j as int + 1));
                    assert(s@ =~= mid + basic_actions_block(t.actions@.take(j as int + 1)));
                }
                j = j + 1;
            }
            proof {
                assert(t.actions@.take(t.actions@.len() as int) =~= t.actions@);
            }
            s.append("\n");
            proof {
                lemma_basic_tools_block_snoc(done, self@[i as int]);
                assert(done.push(self@[i as int]) =~= self@.take(i as int + 1));
                assert(s@ =~= basic_tools_block(self@.take(i as int + 1)));
            }
            i = i + 1;
        }
        proof {
            assert(self@.take(self@.len() as int) =~= self@);
        }
        s
    }

    /// Appends every schema block of the given category.
    fn append_category(&self, s: &mut String, category: ToolCategory)
        ensures
            final(s)@ == old(s)@ + schemas_block(by_category(self@, category)),
    {
        let mut i: usize = 0;
        proof {
            assert(self@.take(0) =~= Seq::<ToolInfo>::empty());
            assert(by_category(Seq::<ToolInfo>::empty(), category) =~= Seq::<ToolInfo>::empty());
            assert(schemas_block(Seq::<ToolInfo>::empty()) =~= Seq::<char>::empty());
            assert(s@ =~= old(s)@ + schemas_block(by_category(self@.take(0), category)));
        }
        while i < self.tools.len()
            invariant
                i <= self@.len(),
                s@ == old(s)@ + schemas_block(by_category(self@.take(i as int), category)),
            decreases self@.len() - i,
        {
            let ghost done = self@.take(i as int);
            let t = &self.tools[i];
            if t.category == category {
                let block = t.schema.to_prompt_format();
                s.append(block.as_str());
                s.append("\n");
            }
            proof {
                lemma_by_category_snoc(done, category, self@[i as int]);
                assert(done.push(self@[i as int]) =~= self@.take(i as int + 1));
                if self@[i as int].category == category {
                    lemma_schemas_block_snoc(
                        by_category(done, category),
                        self@[i as int],
                    );
                    assert(by_category(done, category) + seq![self@[i as int]] =~= by_category(
                        done,
                        category,
                    ).push(self@[i as int]));
                } else {
                    assert(by_category(done, category) + Seq::<ToolInfo>::empty() =~= by_category(
                        done,
                        category,
                    ));
                }
                assert(s@ =~= old(s)@ + schemas_block(
                    by_category(self@.take(i as int + 1), category),
                ));
            }
            i = i + 1;
        }
        proof {
            assert(self@.take(self@.len() as int) =~= self@);
        }
    }

    /// Counts the registered tools of one category.
    fn count_category(&self, category: ToolCategory) -> (r: usize)
        ensures
            r as nat == by_category(self@, category).len(),
    {
        let mut count: usize = 0;
        let mut i: usize = 0;
        proof {
            assert(self@.take(0) =~= Seq::<ToolInfo>::empty());
        }
        while i < self.tools.len()
            invariant
                i <= self@.len(),
                count as nat == by_category(self@.take(i as int), category).len(),
                count <= i,
            decreases self@.len() - i,
        {
            let ghost done = self@.take(i as int);
            if self.tools[i].category == category {
                count = count + 1;
            }
            proof {
                lemma_by_category_snoc(done, category, self@[i as int]);
                assert(done.push(self@[i as int]) =~= self@.take(i as int + 1));
            }
            i = i + 1;
        }
        proof {
            assert(self@.take(self@.len() as int) =~= self@);
        }
        count
    }

    /// The category-grouped schema documentation included in prompts.
    pub fn generate_enhanced_tools_description(&self) -> (r: String)
        ensures
            r@ == enhanced_description(self@),
    {
        let mut s = String::new();
        if self.count_category(ToolCategory::Internal) > 0 {
            s.append("## Internal Tools (Local CRUD Operations)\n");
            self.append_category(&mut s, ToolCategory::Internal);
        }
        let ghost after_internal = s@;
        if self.count_category(ToolCategory::External) > 0 {
            s.append("## External Tools (API Integrations)\n");
            self.append_category(&mut s, ToolCategory::External);
        }
        let ghost after_external = s@;
        if self.count_category(ToolCategory::System) > 0 {
            s.append("## System Tools\n");
            self.append_category(&mut s, ToolCategory::System);
        }
        proof {
            assert(s@ =~= enhanced_description(self@));
        }
        s
    }

    /// Every registered tool's schema block, in registration order.
    pub fn get_enhanced_schemas(&self) -> (r: Vec<String>)
        ensures
            views_of(r@) == self@.map_values(|t: ToolInfo| render_schema(t.schema)),
    {
        let mut out: Vec<String> = Vec::new();
        let mut i: usize = 0;
        proof {
            assert(views_of(out@) =~= self@.map_values(
                |t: ToolInfo| render_schema(t.schema),
            ).take(0));
        }
        while i < self.tools.len()
            invariant
                i <= self@.len(),
                views_of(out@) == self@.map_values(|t: ToolInfo| render_schema(t.schema)).take(
                    i as int,
                ),
            decreases self@.len() - i,
        {
            let ghost out0 = out@;
            let block = self.tools[i].schema.to_prompt_format();
            out.push(block);
            proof {
                assert(views_of(out@) =~= views_of(out0).push(
                    render_schema(self@[i as int].schema),
                ));
                assert(self@.map_values(|t: ToolInfo| render_schema(t.schema)).take(i as int).push(
                    render_schema(self@[i as int].schema),
                ) =~= self@.map_values(|t: ToolInfo| render_schema(t.schema)).take(i as int + 1));
            }
            i = i + 1;
        }
        proof {
            assert(self@.map_values(|t: ToolInfo| render_schema(t.schema)).take(self@.len() as int)
                =~= self@.map_values(|t: ToolInfo| render_schema(t.schema)));
        }
        out
    }

    /// Registers the bundled tools: the notes tool. A place is left for
    /// externally contributed tools; none registers by default.
    pub fn auto_discover_tools(&mut self) -> (r: AppResult<()>)
        requires
            old(self).wf(),
        ensures
            final(self).wf(),
            exists|t: ToolInfo|
                notes_info_like(t) && final(self)@ == #[trigger] upsert(old(self)@, t),
            r is Ok,
    {
        let info = build_notes_tool_info();
        self.register_tool(info);
        Ok(())
    }
}

} // verus!
