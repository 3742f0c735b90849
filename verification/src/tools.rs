//! Tool descriptions and results, and the logic of the built-in tools.

use vstd::prelude::*;
use crate::error::HeliosError;
use crate::strmap::StringMap;
use crate::text::{owned, push_str};

verus! {

/// A parameter of a tool.
#[derive(Debug, Clone)]
pub struct ToolParameter {
    /// The JSON type of the parameter (e.g. "string", "number").
    pub param_type: String,
    /// What the parameter means.
    pub description: String,
    /// Whether the parameter must be given.
    pub required: Option<bool>,
}

/// The schema of a function's parameters.
#[derive(Debug)]
pub struct ParametersSchema {
    /// The schema type, "object".
    pub schema_type: String,
    /// The parameters by name.
    pub properties: StringMap<ToolParameter>,
    /// The names of the required parameters, absent when none is required.
    pub required: Option<Vec<String>>,
}

/// The description of a function that a tool offers.
#[derive(Debug)]
pub struct FunctionDefinition {
    /// The function's name.
    pub name: String,
    /// What the function does.
    pub description: String,
    /// Its parameters.
    pub parameters: ParametersSchema,
}

/// The description of a tool as sent to a language model.
#[derive(Debug)]
pub struct ToolDefinition {
    /// The kind of tool, "function".
    pub tool_type: String,
    /// The function the tool offers.
    pub function: FunctionDefinition,
}

/// The outcome of running a tool.
#[derive(Debug, Clone)]
pub struct ToolResult {
    /// Whether the tool succeeded.
    pub success: bool,
    /// The tool's output, or the error text.
    pub output: String,
}

/// Whether `r` is a successful result with output `out`.
pub open spec fn is_success(r: ToolResult, out: Seq<char>) -> bool {
    r.success && r.output@ == out
}

/// Whether `r` is a failed result with message `out`.
pub open spec fn is_failure(r: ToolResult, out: Seq<char>) -> bool {
    !r.success && r.output@ == out
}

/// Whether `r` is `Err(ToolError(m))` with text `m`.
pub open spec fn is_tool_error<T>(r: Result<T, HeliosError>, m: Seq<char>) -> bool {
    r matches Err(HeliosError::ToolError(e)) && e@ == m
}

/// Whether `r` is a successful tool result with output `out`.
pub open spec fn tool_ok(r: Result<ToolResult, HeliosError>, out: Seq<char>) -> bool {
    r matches Ok(res) && is_success(res, out)
}

/// Whether `r` is a failed tool result (not an error) with message `out`.
pub open spec fn tool_failed(r: Result<ToolResult, HeliosError>, out: Seq<char>) -> bool {
    r matches Ok(res) && is_failure(res, out)
}

impl ToolResult {
    /// A successful result.
    pub fn success(output: &str) -> (r: Self)
        ensures
            is_success(r, output@),
    {
        ToolResult { success: true, output: owned(output) }
    }

    /// A failed result.
    pub fn error(message: &str) -> (r: Self)
        ensures
            is_failure(r, message@),
    {
        ToolResult { success: false, output: owned(message) }
    }
}

/// The names of the parameters marked required, in parameter order.
pub open spec fn required_names(ps: Seq<(Seq<char>, ToolParameter)>) -> Seq<Seq<char>>
    decreases ps.len(),
{
    if ps.len() == 0 {
        Seq::empty()
    } else {
        let rest = required_names(ps.drop_last());
        if ps.last().1.required == Some(true) {
            rest.push(ps.last().0)
        } else {
            rest
        }
    }
}

/// The definition of a tool from its name, description and parameters, listing
/// the required parameters (or none when no parameter is required).
pub fn tool_definition(name: &str, description: &str, params: StringMap<ToolParameter>) -> (d: ToolDefinition)
    ensures
        d.tool_type@ == "function"@,
        d.function.name@ == name@,
        d.function.description@ == description@,
        d.function.parameters.schema_type@ == "object"@,
        d.function.parameters.properties == params,
        match d.function.parameters.required {
            Some(rs) => rs@.len() > 0 && rs@.map_values(|r: String| r@) == required_names(params.pairs()),
            None => required_names(params.pairs()).len() == 0,
        },
{
    let es = params.entries();
    let mut req: Vec<String> = Vec::new();
    let mut i: usize = 0;
    while i < es.len()
        invariant
            i <= es@.len(),
            es@.map_values(|e: (String, ToolParameter)| (e.0@, e.1)) == params.pairs(),
            req@.map_values(|r: String| r@) == required_names(params.pairs().take(i as int)),
        decreases es@.len() - i,
    {
        assert(params.pairs().take(i + 1).drop_last() =~= params.pairs().take(i as int));
        assert(params.pairs()[i as int] == (es@[i as int].0@, es@[i as int].1));
        let ghost before = req@.map_values(|r: String| r@);
        if es[i].1.required == Some(true) {
            req.push(es[i].0.clone());
            assert(req@.map_values(|r: String| r@) =~= before.push(es@[i as int].0@));
        }
        i = i + 1;
    }
    assert(params.pairs().take(es@.len() as int) =~= params.pairs());
    let required = if req.len() == 0 { None } else { Some(req) };
    ToolDefinition {
        tool_type: owned("function"),
        function: FunctionDefinition {
            name: owned(name),
            description: owned(description),
            parameters: ParametersSchema {
                schema_type: owned("object"),
                properties: params,
                required,
            },
        },
    }
}


/// The tools an agent can call, by name. A tool registered under a name that is
/// taken replaces the one there.
#[derive(Debug)]
pub struct ToolRegistry<T> {
    /// The tools, keyed by name, in the order the names were first registered.
    pub tools: StringMap<T>,
}

impl<T> ToolRegistry<T> {
    /// The registry as a map from names to tools.
    pub open spec fn view(&self) -> Map<Seq<char>, T> {
        self.tools.map()
    }

    /// An empty registry.
    pub fn new() -> (r: Self)
        ensures
            r@ == Map::<Seq<char>, T>::empty(),
    {
        ToolRegistry { tools: StringMap::new() }
    }

    /// Registers `tool` under `name`.
    pub fn register(&mut self, name: &str, tool: T)
        ensures
            final(self)@ == old(self)@.insert(name@, tool),
    {
        self.tools.insert(owned(name), tool);
    }

    /// The tool registered under `name`.
    pub fn get(&self, name: &str) -> (r: Option<&T>)
        ensures
            match r {
                Some(t) => self@.contains_key(name@) && *t == self@[name@],
                None => !self@.contains_key(name@),
            },
    {
        self.tools.get(name)
    }

    /// The tool to run for a call of `name`, or the error a call of an unknown
    /// tool gives.
    pub fn tool_for_call(&self, name: &str) -> (r: Result<&T, HeliosError>)
        ensures
            match r {
                Ok(t) => self@.contains_key(name@) && *t == self@[name@],
                Err(e) => !self@.contains_key(name@) && (e matches HeliosError::ToolError(m)
                    && m@ == "Tool '"@ + name@ + "' not found"@),
            },
    {
        match self.tools.get(name) {
            Some(t) => Ok(t),
            None => {
                let mut m = owned("Tool '");
                push_str(&mut m, name);
                push_str(&mut m, "' not found");
                Err(HeliosError::ToolError(m))
            },
        }
    }

    /// The names of the registered tools, in registration order.
    pub fn list_tools(&self) -> (names: Vec<String>)
        ensures
            names@.map_values(|n: String| n@) == crate::strmap::keys_of(self.tools.pairs()),
    {
        let es = self.tools.entries();
        let mut names: Vec<String> = Vec::new();
        let mut i: usize = 0;
        while i < es.len()
            invariant
                i <= es@.len(),
                es@.map_values(|e: (String, T)| (e.0@, e.1)) == self.tools.pairs(),
                names@.map_values(|n: String| n@) == crate::strmap::keys_of(self.tools.pairs()).take(i as int),
            decreases es@.len() - i,
        {
            names.push(es[i].0.clone());
            assert(es@.map_values(|e: (String, T)| (e.0@, e.1))[i as int].0 == es@[i as int].0@);
            assert(names@.map_values(|n: String| n@) =~= crate::strmap::keys_of(self.tools.pairs()).take(i + 1));
            i = i + 1;
        }
        assert(crate::strmap::keys_of(self.tools.pairs()).take(es@.len() as int) =~= crate::strmap::keys_of(
            self.tools.pairs(),
        ));
        names
    }
}

} // verus!
