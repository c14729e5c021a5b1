//! Tool descriptors and the provider that executes tools.

use vstd::prelude::*;
use crate::error::MCPError;
use crate::json::Json;
use crate::json::JsonV;
use crate::json::json_view;
use crate::json::member_views_of;
use crate::json::lemma_member_views_of_index;
use crate::json::lemma_member_views_of_len;
use crate::codec::opt_member;

verus! {

/// A tool the server exposes: its name, an optional description, and the
/// schema of its parameters.
#[derive(Debug, PartialEq, Eq)]
pub struct Tool {
    pub name: String,
    pub description: Option<String>,
    pub input_schema: Json,
}

/// The descriptor a tool is listed as.
pub open spec fn tool_doc(t: Tool) -> JsonV {
    JsonV::Obj(
        seq![("name"@, JsonV::Str(t.name@))] + opt_member(
            "description"@,
            match t.description {
                Some(d) => Some(JsonV::Str(d@)),
                None => None,
            },
        ) + seq![("input_schema"@, json_view(t.input_schema))],
    )
}

/// The descriptors of a sequence of tools.
pub open spec fn tool_docs(ts: Seq<Tool>) -> Seq<JsonV>
    decreases ts.len(),
{
    if ts.len() == 0 { Seq::empty() } else { seq![tool_doc(ts[0])] + tool_docs(ts.drop_first()) }
}

/// `tool_docs` acts pointwise.
pub proof fn lemma_tool_docs_index(ts: Seq<Tool>, i: int)
    requires
        0 <= i < ts.len(),
    ensures
        tool_docs(ts).len() == ts.len(),
        tool_docs(ts)[i] == tool_doc(ts[i]),
    decreases ts.len(),
{
    lemma_tool_docs_len(ts);
    if i > 0 {
        lemma_tool_docs_index(ts.drop_first(), i - 1);
    }
}

/// `tool_docs` preserves length.
pub proof fn lemma_tool_docs_len(ts: Seq<Tool>)
    ensures
        tool_docs(ts).len() == ts.len(),
    decreases ts.len(),
{
    if ts.len() > 0 {
        lemma_tool_docs_len(ts.drop_first());
    }
}

impl Tool {
    /// A structural copy of the descriptor.
    pub fn duplicate(&self) -> (r: Tool)
        ensures
            r.name@ == self.name@,
            r.description is Some <==> self.description is Some,
            r.description matches Some(d) ==> self.description matches Some(d0) && d@ == d0@,
            json_view(r.input_schema) == json_view(self.input_schema),
            tool_doc(r) == tool_doc(*self),
    {
        let description = match &self.description {
            Some(d) => Some(d.clone()),
            None => None,
        };
        Tool {
            name: self.name.clone(),
            description,
            input_schema: self.input_schema.duplicate(),
        }
    }

    /// The descriptor as a wire value.
    pub fn to_json(&self) -> (r: Json)
        ensures
            json_view(r) == tool_doc(*self),
    {
        let mut ms: Vec<(String, Json)> = Vec::new();
        ms.push(("name".to_owned(), Json::Str(self.name.clone())));
        match &self.description {
            Some(d) => {
                ms.push(("description".to_owned(), Json::Str(d.clone())));
                ms.push(("input_schema".to_owned(), self.input_schema.duplicate()));
                proof {
                    lemma_member_views_of_len(ms@);
                    lemma_member_views_of_index(ms@, 0);
                    lemma_member_views_of_index(ms@, 1);
                    lemma_member_views_of_index(ms@, 2);
                    assert(member_views_of(ms@) =~= seq![("name"@, JsonV::Str(self.name@))]
                        + seq![("description"@, JsonV::Str(d@))] + seq![
                        ("input_schema"@, json_view(self.input_schema)),
                    ]);
                    assert(opt_member(
                        "description"@,
                        match self.description {
                            Some(dd) => Some(JsonV::Str(dd@)),
                            None => None,
                        },
                    ) =~= seq![("description"@, JsonV::Str(d@))]);
                }
            }
            None => {
                ms.push(("input_schema".to_owned(), self.input_schema.duplicate()));
                proof {
                    lemma_member_views_of_len(ms@);
                    lemma_member_views_of_index(ms@, 0);
                    lemma_member_views_of_index(ms@, 1);
                    assert(member_views_of(ms@) =~= seq![("name"@, JsonV::Str(self.name@))]
                        + Seq::<(Seq<char>, JsonV)>::empty() + seq![
                        ("input_schema"@, json_view(self.input_schema)),
                    ]);
                    assert(opt_member(
                        "description"@,
                        match self.description {
                            Some(dd) => Some(JsonV::Str(dd@)),
                            None => None,
                        },
                    ) =~= Seq::<(Seq<char>, JsonV)>::empty());
                }
            }
        }
        Json::Obj(ms)
    }
}

/// The listing of a set of tools, as a wire value.
pub fn tools_to_json(ts: &Vec<Tool>) -> (r: Json)
    ensures
        json_view(r) == JsonV::Arr(tool_docs(ts@)),
{
    let mut out: Vec<Json> = Vec::new();
    let n = ts.len();
    let mut i: usize = 0;
    while i < n
        invariant
            n == ts.len(),
            i <= n,
            out@.len() == i as int,
            forall|k: int| 0 <= k < i ==> json_view(#[trigger] out@[k]) == tool_doc(ts@[k]),
        decreases n - i,
    {
        let d = ts[i].to_json();
        out.push(d);
        i = i + 1;
    }
    proof {
        crate::json::lemma_views_of_len(out@);
        lemma_tool_docs_len(ts@);
        assert forall|k: int| 0 <= k < n implies crate::json::views_of(out@)[k] == tool_docs(
            ts@,
        )[k] by {
            crate::json::lemma_views_of_index(out@, k);
            lemma_tool_docs_index(ts@, k);
        }
        assert(crate::json::views_of(out@) =~= tool_docs(ts@));
    }
    Json::Arr(out)
}

/// Supplies tool listings and executes tools; implemented by the hosting
/// application.
pub trait ToolsProvider {
    /// The tools this provider exposes.
    fn get_tools(&self) -> Vec<Tool>;

    /// Execute a tool with the given parameters.
    fn execute_tool(&self, name: &str, params: &Json) -> Result<Json, MCPError>;
}

/// The parameters of one tool call.
#[derive(Debug, PartialEq, Eq)]
pub struct ToolParameters {
    pub name: String,
    pub parameters: Json,
}

/// The result of one tool call.
#[derive(Debug, PartialEq, Eq)]
pub struct ToolResult {
    pub result: Json,
}

} // verus!
