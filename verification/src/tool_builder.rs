//! Building tools from a name, a description, parameters and a function to run.
//! The builder is generic in the function, which the caller supplies.

use vstd::prelude::*;
use crate::error::HeliosError;
use crate::strmap::StringMap;
use crate::text::{owned, push_str, usize_to_string, decimal, str_eq, str_trim, trim, find_first, lemma_find_first, chars_of, string_of, slice_range, find_exec, split_exec, split_pattern, lowercase, to_lowercase};
use crate::tools::{ToolParameter, ToolResult, is_tool_error, is_failure};
use crate::json::{JsonValue, JsonNumber, json_get, json_str};

verus! {

/// What a tool parameter is, by its texts: (type, description, required).
pub open spec fn param_view(p: ToolParameter) -> (Seq<char>, Seq<char>, Option<bool>) {
    (p.param_type@, p.description@, p.required)
}

/// The parameters of a map, by their texts.
pub open spec fn params_view(m: StringMap<ToolParameter>) -> Map<Seq<char>, (Seq<char>, Seq<char>, Option<bool>)> {
    m.map().map_values(|p: ToolParameter| param_view(p))
}

/// Builds a tool. `F` is the type of the function the tool runs.
#[derive(Debug)]
pub struct ToolBuilder<F> {
    /// The tool's name.
    pub name: String,
    /// What the tool does.
    pub description: String,
    /// Its parameters by name.
    pub parameters: StringMap<ToolParameter>,
    /// The names given through `parameters`, in the order given.
    pub parameter_order: Vec<String>,
    /// The function, once set.
    pub function: Option<F>,
}

/// A tool made by a builder.
#[derive(Debug)]
pub struct CustomTool<F> {
    /// The tool's name.
    pub name: String,
    /// What the tool does.
    pub description: String,
    /// Its parameters by name.
    pub parameters: StringMap<ToolParameter>,
    /// The function it runs.
    pub function: F,
}

/// The JSON schema type for a parameter type written in a compact
/// parameter list: Rust integer types map to `integer`, float types to `number`,
/// string and boolean names to `string` and `boolean` (case aside); anything
/// else is kept as written.
pub open spec fn json_type_for(t: Seq<char>) -> Seq<char> {
    let l = lowercase(t);
    if l == "i32"@ || l == "i64"@ || l == "u32"@ || l == "u64"@ || l == "isize"@ || l == "usize"@ || l == "integer"@ {
        "integer"@
    } else if l == "f32"@ || l == "f64"@ || l == "number"@ {
        "number"@
    } else if l == "str"@ || l == "string"@ {
        "string"@
    } else if l == "bool"@ || l == "boolean"@ {
        "boolean"@
    } else if l == "object"@ {
        "object"@
    } else if l == "array"@ {
        "array"@
    } else {
        t
    }
}

/// Maps a written parameter type to its JSON schema type.
fn json_type_of(t: &str) -> (out: String)
    ensures
        out@ == json_type_for(t@),
{
    let l = to_lowercase(t);
    let ls = l.as_str();
    if str_eq(ls, "i32") || str_eq(ls, "i64") || str_eq(ls, "u32") || str_eq(ls, "u64") || str_eq(ls, "isize")
        || str_eq(ls, "usize") || str_eq(ls, "integer") {
        owned("integer")
    } else if str_eq(ls, "f32") || str_eq(ls, "f64") || str_eq(ls, "number") {
        owned("number")
    } else if str_eq(ls, "str") || str_eq(ls, "string") {
        owned("string")
    } else if str_eq(ls, "bool") || str_eq(ls, "boolean") {
        owned("boolean")
    } else if str_eq(ls, "object") {
        owned("object")
    } else if str_eq(ls, "array") {
        owned("array")
    } else {
        owned(t)
    }
}

/// The text split at its first two colons into at most three parts
/// (`splitn(3, ':')`).
pub open spec fn split3(s: Seq<char>) -> Seq<Seq<char>> {
    let i = find_first(s, seq![':']);
    if i < 0 {
        seq![s]
    } else {
        let rest = s.skip(i + 1);
        let j = find_first(rest, seq![':']);
        if j < 0 {
            seq![s.take(i), rest]
        } else {
            seq![s.take(i), rest.take(j), rest.skip(j + 1)]
        }
    }
}

/// What one comma-separated entry of a compact parameter list declares:
/// (name, JSON type, description), or nothing for a blank entry or one without
/// a type.
pub open spec fn param_entry(piece: Seq<char>) -> Option<(Seq<char>, Seq<char>, Seq<char>)> {
    let t = trim(piece);
    let parts = split3(t);
    if t.len() == 0 || parts.len() < 2 {
        None
    } else {
        Some((trim(parts[0]), json_type_for(trim(parts[1])), if parts.len() >= 3 { trim(parts[2]) } else { Seq::empty() }))
    }
}

/// The declarations of the entries, in order.
pub open spec fn param_entries(pieces: Seq<Seq<char>>) -> Seq<(Seq<char>, Seq<char>, Seq<char>)>
    decreases pieces.len(),
{
    if pieces.len() == 0 {
        Seq::empty()
    } else {
        let rest = param_entries(pieces.drop_last());
        match param_entry(pieces.last()) {
            Some(e) => rest.push(e),
            None => rest,
        }
    }
}

/// The parameters after adding required parameters for the declarations, in order.
pub open spec fn with_required(
    m: Map<Seq<char>, (Seq<char>, Seq<char>, Option<bool>)>,
    es: Seq<(Seq<char>, Seq<char>, Seq<char>)>,
) -> Map<Seq<char>, (Seq<char>, Seq<char>, Option<bool>)>
    decreases es.len(),
{
    if es.len() == 0 {
        m
    } else {
        with_required(m, es.drop_last()).insert(es.last().0, (es.last().1, es.last().2, Some(true)))
    }
}

/// Reads one entry of a compact parameter list.
fn read_param_entry(piece: &str) -> (r: Option<(String, String, String)>)
    ensures
        match r {
            Some(e) => param_entry(piece@) == Some((e.0@, e.1@, e.2@)),
            None => param_entry(piece@) is None,
        },
{
    let t = str_trim(piece);
    let cs = chars_of(t.as_str());
    let colon: Vec<char> = vec![':'];
    assert(colon@ =~= seq![':']);
    proof {
        lemma_find_first(cs@, seq![':']);
    }
    if cs.len() == 0 {
        return None;
    }
    let i = match find_exec(cs.as_slice(), colon.as_slice()) {
        Some(i) => i,
        None => {
            return None;
        },
    };
    assert(i as int == find_first(cs@, seq![':'])) by {
        let f = find_first(cs@, seq![':']);
        if f != i {
            if f < 0 || f > i {
                assert(crate::text::occurs_at(cs@, seq![':'], i as int));
            }
        }
    }
    let name_part = slice_range(cs.as_slice(), 0, i);
    let rest = slice_range(cs.as_slice(), i + 1, cs.len());
    assert(name_part@ =~= cs@.take(i as int));
    assert(rest@ =~= cs@.skip(i + 1));
    proof {
        lemma_find_first(rest@, seq![':']);
    }
    let name = str_trim(string_of(name_part.as_slice()).as_str());
    match find_exec(rest.as_slice(), colon.as_slice()) {
        None => {
            assert(find_first(rest@, seq![':']) < 0);
            let ty = str_trim(string_of(rest.as_slice()).as_str());
            let jt = json_type_of(ty.as_str());
            Some((name, jt, String::new()))
        },
        Some(j) => {
            assert(j as int == find_first(rest@, seq![':'])) by {
                let f = find_first(rest@, seq![':']);
                if f != j {
                    if f < 0 || f > j {
                        assert(crate::text::occurs_at(rest@, seq![':'], j as int));
                    }
                }
            }
            let ty_part = slice_range(rest.as_slice(), 0, j);
            let desc_part = slice_range(rest.as_slice(), j + 1, rest.len());
            assert(ty_part@ =~= rest@.take(j as int));
            assert(desc_part@ =~= rest@.skip(j + 1));
            let ty = str_trim(string_of(ty_part.as_slice()).as_str());
            let jt = json_type_of(ty.as_str());
            let desc = str_trim(string_of(desc_part.as_slice()).as_str());
            Some((name, jt, desc))
        },
    }
}


impl<F> ToolBuilder<F> {
    /// A builder for a tool named `name`, with no description, no parameters and
    /// no function yet.
    pub fn new(name: &str) -> (b: Self)
        ensures
            b.name@ == name@,
            b.description@ == Seq::<char>::empty(),
            params_view(b.parameters) == Map::<Seq<char>, (Seq<char>, Seq<char>, Option<bool>)>::empty(),
            b.parameter_order@.len() == 0,
            b.function is None,
    {
        let b = ToolBuilder {
            name: owned(name),
            description: String::new(),
            parameters: StringMap::new(),
            parameter_order: Vec::new(),
            function: None,
        };
        assert(params_view(b.parameters) =~= Map::<Seq<char>, (Seq<char>, Seq<char>, Option<bool>)>::empty());
        b
    }

    /// Sets the description.
    pub fn description(self, description: &str) -> (b: Self)
        ensures
            b.description@ == description@,
            b.name == self.name,
            b.parameters == self.parameters,
            b.parameter_order == self.parameter_order,
            b.function == self.function,
    {
        ToolBuilder { description: owned(description), ..self }
    }

    /// Adds (or replaces) a parameter.
    pub fn parameter(self, name: &str, param_type: &str, description: &str, required: bool) -> (b: Self)
        ensures
            params_view(b.parameters) == params_view(self.parameters).insert(
                name@,
                (param_type@, description@, Some(required)),
            ),
            b.name == self.name,
            b.description == self.description,
            b.parameter_order == self.parameter_order,
            b.function == self.function,
    {
        let mut b = self;
        let p = ToolParameter { param_type: owned(param_type), description: owned(description), required: Some(required) };
        let ghost before = b.parameters;
        b.parameters.insert(owned(name), p);
        assert(params_view(b.parameters) =~= params_view(before).insert(name@, (param_type@, description@, Some(required))));
        b
    }

    /// Adds (or replaces) an optional parameter.
    pub fn optional_parameter(self, name: &str, param_type: &str, description: &str) -> (b: Self)
        ensures
            params_view(b.parameters) == params_view(self.parameters).insert(
                name@,
                (param_type@, description@, Some(false)),
            ),
            b.name == self.name,
            b.description == self.description,
            b.parameter_order == self.parameter_order,
            b.function == self.function,
    {
        self.parameter(name, param_type, description, false)
    }

    /// Adds (or replaces) a required parameter.
    pub fn required_parameter(self, name: &str, param_type: &str, description: &str) -> (b: Self)
        ensures
            params_view(b.parameters) == params_view(self.parameters).insert(
                name@,
                (param_type@, description@, Some(true)),
            ),
            b.name == self.name,
            b.description == self.description,
            b.parameter_order == self.parameter_order,
            b.function == self.function,
    {
        self.parameter(name, param_type, description, true)
    }

    /// Adds required parameters from a compact list
    /// `name:type:description, name2:type2:description2, ...`: blank entries and
    /// entries without a type are skipped, a missing description is empty, and
    /// the type is mapped to its JSON schema type. The names are recorded in order.
    pub fn parameters(self, params: &str) -> (b: Self)
        ensures
            ({
                let es = param_entries(split_pattern(params@, seq![',']));
                &&& params_view(b.parameters) == with_required(params_view(self.parameters), es)
                &&& b.parameter_order@.map_values(|n: String| n@) == self.parameter_order@.map_values(|n: String| n@)
                    + es.map_values(|e: (Seq<char>, Seq<char>, Seq<char>)| e.0)
            }),
            b.name == self.name,
            b.description == self.description,
            b.function == self.function,
    {
        let mut b = self;
        let cs = chars_of(params);
        let comma: Vec<char> = vec![','];
        assert(comma@ =~= seq![',']);
        let pieces = split_exec(cs.as_slice(), comma.as_slice());
        let ghost views = pieces@.map_values(|l: Vec<char>| l@);
        let ghost order0 = b.parameter_order@.map_values(|n: String| n@);
        let ghost params0 = params_view(b.parameters);
        let mut i: usize = 0;
        while i < pieces.len()
            invariant
                i <= pieces@.len(),
                views == pieces@.map_values(|l: Vec<char>| l@),
                views == split_pattern(params@, seq![',']),
                params_view(b.parameters) == with_required(params0, param_entries(views.take(i as int))),
                b.parameter_order@.map_values(|n: String| n@) == order0 + param_entries(views.take(i as int)).map_values(
                    |e: (Seq<char>, Seq<char>, Seq<char>)| e.0,
                ),
                b.name == self.name,
                b.description == self.description,
                b.function == self.function,
            decreases pieces@.len() - i,
        {
            assert(views.take(i + 1).drop_last() =~= views.take(i as int));
            let piece = string_of(pieces[i].as_slice());
            let ghost es0 = param_entries(views.take(i as int));
            match read_param_entry(piece.as_str()) {
                Some((name, ty, desc)) => {
                    let ghost e = (name@, ty@, desc@);
                    assert(param_entries(views.take(i + 1)) == es0.push(e));
                    let ghost ord = b.parameter_order@.map_values(|n: String| n@);
                    b.parameter_order.push(name.clone());
                    assert(b.parameter_order@.map_values(|n: String| n@) =~= ord.push(name@));
                    assert(es0.push(e).map_values(|e: (Seq<char>, Seq<char>, Seq<char>)| e.0) =~= es0.map_values(
                        |e: (Seq<char>, Seq<char>, Seq<char>)| e.0,
                    ).push(name@));
                    let ghost before = b.parameters;
                    b.parameters.insert(name, ToolParameter { param_type: ty, description: desc, required: Some(true) });
                    assert(params_view(b.parameters) =~= params_view(before).insert(e.0, (e.1, e.2, Some(true))));
                    assert(es0.push(e).drop_last() =~= es0);
                },
                None => {
                    assert(param_entries(views.take(i + 1)) == es0);
                },
            }
            i = i + 1;
        }
        assert(views.take(pieces@.len() as int) =~= views);
        b
    }

    /// Sets the function the tool runs.
    pub fn function(self, f: F) -> (b: Self)
        ensures
            b.function == Some(f),
            b.name == self.name,
            b.description == self.description,
            b.parameters == self.parameters,
            b.parameter_order == self.parameter_order,
    {
        ToolBuilder { function: Some(f), ..self }
    }

    /// A builder with name, description and compact parameter list set.
    pub fn simple(name: &str, description: &str, params: &str) -> (b: Self)
        ensures
            b.name@ == name@,
            b.description@ == description@,
            params_view(b.parameters) == with_required(
                Map::empty(),
                param_entries(split_pattern(params@, seq![','])),
            ),
            b.function is None,
    {
        Self::new(name).description(description).parameters(params)
    }

    /// A builder with name, description, compact parameter list and function set.
    pub fn from_fn(func_name: &str, description: &str, params: &str, func: F) -> (b: Self)
        ensures
            b.name@ == func_name@,
            b.description@ == description@,
            params_view(b.parameters) == with_required(
                Map::empty(),
                param_entries(split_pattern(params@, seq![','])),
            ),
            b.function == Some(func),
    {
        Self::new(func_name).description(description).parameters(params).function(func)
    }

    /// A builder with name, description, compact parameter list and an
    /// asynchronous function set.
    pub fn from_async_fn(func_name: &str, description: &str, params: &str, func: F) -> (b: Self)
        ensures
            b.name@ == func_name@,
            b.description@ == description@,
            params_view(b.parameters) == with_required(
                Map::empty(),
                param_entries(split_pattern(params@, seq![','])),
            ),
            b.function == Some(func),
    {
        Self::new(func_name).description(description).parameters(params).function(func)
    }

    /// Builds the tool. The function must have been set.
    pub fn build(self) -> (t: CustomTool<F>)
        requires
            self.function is Some,
        ensures
            t.name == self.name,
            t.description == self.description,
            t.parameters == self.parameters,
            Some(t.function) == self.function,
    {
        let f = self.function.expect("Tool function must be set before building");
        CustomTool { name: self.name, description: self.description, parameters: self.parameters, function: f }
    }

    /// Builds the tool, or gives a configuration error when no function was set.
    pub fn try_build(self) -> (r: Result<CustomTool<F>, HeliosError>)
        ensures
            match r {
                Ok(t) => t.name == self.name && t.description == self.description && t.parameters == self.parameters
                    && Some(t.function) == self.function,
                Err(e) => self.function is None && (e matches HeliosError::ConfigError(m)
                    && m@ == "Tool function must be set before building"@),
            },
    {
        match self.function {
            Some(f) => Ok(CustomTool { name: self.name, description: self.description, parameters: self.parameters, function: f }),
            None => Err(HeliosError::ConfigError(owned("Tool function must be set before building"))),
        }
    }
}


/// A JSON value read as `as_i64` reads it: an integer within `i64`.
pub open spec fn json_i64(v: JsonValue) -> Option<i64> {
    match v {
        JsonValue::Number(JsonNumber::PosInt(n)) => if n <= i64::MAX as u64 {
            Some(n as i64)
        } else {
            None
        },
        JsonValue::Number(JsonNumber::NegInt(n)) => Some(n),
        _ => None,
    }
}

/// A JSON value read as `as_u64` reads it: a non-negative integer.
pub open spec fn json_u64(v: JsonValue) -> Option<u64> {
    match v {
        JsonValue::Number(JsonNumber::PosInt(n)) => Some(n),
        _ => None,
    }
}

/// A JSON value read as `as_bool` reads it.
pub open spec fn json_bool(v: JsonValue) -> Option<bool> {
    match v {
        JsonValue::Bool(b) => Some(b),
        _ => None,
    }
}

/// Reads a tool function's argument as a value of the implementing type.
pub trait FromValue: Sized {
    /// The argument as this type, or a tool error saying what was expected.
    fn from_value(value: &JsonValue) -> Result<Self, HeliosError>;
}

fn read_i64(value: &JsonValue) -> (r: Option<i64>)
    ensures
        r == json_i64(*value),
{
    match value {
        JsonValue::Number(JsonNumber::PosInt(n)) => {
            if *n <= i64::MAX as u64 {
                Some(*n as i64)
            } else {
                None
            }
        },
        JsonValue::Number(JsonNumber::NegInt(n)) => Some(*n),
        _ => None,
    }
}

fn read_u64(value: &JsonValue) -> (r: Option<u64>)
    ensures
        r == json_u64(*value),
{
    match value {
        JsonValue::Number(JsonNumber::PosInt(n)) => Some(*n),
        _ => None,
    }
}

impl FromValue for i32 {
    /// The integer, its low 32 bits kept (`as i32`).
    fn from_value(value: &JsonValue) -> (r: Result<i32, HeliosError>)
        ensures
            match json_i64(*value) {
                Some(n) => r matches Ok(x) && x == n as i32,
                None => is_tool_error(r, "Expected integer value"@),
            },
    {
        match read_i64(value) {
            Some(n) => Ok(n as i32),
            None => Err(HeliosError::ToolError(owned("Expected integer value"))),
        }
    }
}

impl FromValue for i64 {
    /// The integer.
    fn from_value(value: &JsonValue) -> (r: Result<i64, HeliosError>)
        ensures
            match json_i64(*value) {
                Some(n) => r matches Ok(x) && x == n,
                None => is_tool_error(r, "Expected integer value"@),
            },
    {
        match read_i64(value) {
            Some(n) => Ok(n),
            None => Err(HeliosError::ToolError(owned("Expected integer value"))),
        }
    }
}

impl FromValue for u32 {
    /// The non-negative integer, its low 32 bits kept (`as u32`).
    fn from_value(value: &JsonValue) -> (r: Result<u32, HeliosError>)
        ensures
            match json_u64(*value) {
                Some(n) => r matches Ok(x) && x == n as u32,
                None => is_tool_error(r, "Expected unsigned integer value"@),
            },
    {
        match read_u64(value) {
            Some(n) => Ok(n as u32),
            None => Err(HeliosError::ToolError(owned("Expected unsigned integer value"))),
        }
    }
}

impl FromValue for u64 {
    /// The non-negative integer.
    fn from_value(value: &JsonValue) -> (r: Result<u64, HeliosError>)
        ensures
            match json_u64(*value) {
                Some(n) => r matches Ok(x) && x == n,
                None => is_tool_error(r, "Expected unsigned integer value"@),
            },
    {
        match read_u64(value) {
            Some(n) => Ok(n),
            None => Err(HeliosError::ToolError(owned("Expected unsigned integer value"))),
        }
    }
}

impl FromValue for bool {
    /// The boolean.
    fn from_value(value: &JsonValue) -> (r: Result<bool, HeliosError>)
        ensures
            match json_bool(*value) {
                Some(b) => r matches Ok(x) && x == b,
                None => is_tool_error(r, "Expected boolean value"@),
            },
    {
        match value {
            JsonValue::Bool(b) => Ok(*b),
            _ => Err(HeliosError::ToolError(owned("Expected boolean value"))),
        }
    }
}

impl FromValue for String {
    /// The string's text.
    fn from_value(value: &JsonValue) -> (r: Result<String, HeliosError>)
        ensures
            match json_str(*value) {
                Some(t) => r matches Ok(x) && x@ == t,
                None => is_tool_error(r, "Expected string value"@),
            },
    {
        match value {
            JsonValue::String(s) => Ok(s.clone()),
            _ => Err(HeliosError::ToolError(owned("Expected string value"))),
        }
    }
}

/// The index of the first of the first `k` parameter names that the arguments
/// lack, or `k` when none is missing.
pub open spec fn first_missing(args: JsonValue, order: Seq<String>, k: int) -> int
    decreases k,
{
    if k <= 0 {
        0
    } else if first_missing(args, order, k - 1) < k - 1 {
        first_missing(args, order, k - 1)
    } else if json_get(args, order[k - 1]@) is None {
        k - 1
    } else {
        k
    }
}

/// What a function of `k` parameters is called with.
#[derive(Debug)]
pub enum OrderedArgs<'a> {
    /// The arguments of the first `k` declared parameters, in declaration
    /// order; `None` for a missing one that is passed as null.
    Values(Vec<Option<&'a JsonValue>>),
    /// Fewer than `k` parameters were declared: the tool answers this failure.
    TooFew(ToolResult),
}

/// Picks the arguments of the first `k` declared parameters (`order` holds their
/// names in declaration order) out of the argument object. A missing argument
/// is passed as null when `missing_as_null`, else it is an error naming it.
pub fn ordered_args<'a>(args: &'a JsonValue, order: &Vec<String>, k: usize, missing_as_null: bool) -> (r: Result<
    OrderedArgs<'a>,
    HeliosError,
>)
    ensures
        !(args is Object) ==> is_tool_error(r, "Expected JSON object for arguments"@),
        args is Object && order@.len() < k ==> (r matches Ok(OrderedArgs::TooFew(t)) && is_failure(
            t,
            "Expected at least "@ + decimal(k as nat) + " parameters"@,
        )),
        args is Object && order@.len() >= k && !missing_as_null && first_missing(*args, order@, k as int) < k
            ==> is_tool_error(r, "Missing parameter: "@ + order@[first_missing(*args, order@, k as int)]@),
        args is Object && order@.len() >= k && (missing_as_null || first_missing(*args, order@, k as int) == k)
            ==> (r matches Ok(OrderedArgs::Values(vs)) && vs@.len() == k && forall|i: int|
            0 <= i < k ==> match #[trigger] vs@[i] {
                Some(v) => json_get(*args, order@[i]@) == Some(*v),
                None => json_get(*args, order@[i]@) is None,
            }),
{
    match args {
        JsonValue::Object(_) => {},
        _ => {
            return Err(HeliosError::ToolError(owned("Expected JSON object for arguments")));
        },
    }
    if order.len() < k {
        let mut m = owned("Expected at least ");
        push_str(&mut m, usize_to_string(k).as_str());
        push_str(&mut m, " parameters");
        return Ok(OrderedArgs::TooFew(ToolResult::error(m.as_str())));
    }
    let mut vs: Vec<Option<&'a JsonValue>> = Vec::new();
    let mut i: usize = 0;
    while i < k
        invariant
            args is Object,
            i <= k <= order@.len(),
            vs@.len() == i,
            !missing_as_null ==> first_missing(*args, order@, i as int) == i,
            forall|j: int| 0 <= j < i ==> match #[trigger] vs@[j] {
                Some(v) => json_get(*args, order@[j]@) == Some(*v),
                None => json_get(*args, order@[j]@) is None,
            },
        decreases k - i,
    {
        let v = args.get(order[i].as_str());
        match v {
            Some(_) => {},
            None => {
                if !missing_as_null {
                    proof {
                        lemma_first_missing_stays(*args, order@, (i + 1) as int, k as int);
                    }
                    let mut m = owned("Missing parameter: ");
                    push_str(&mut m, order[i].as_str());
                    return Err(HeliosError::ToolError(m));
                }
            },
        }
        vs.push(v);
        i = i + 1;
    }
    Ok(OrderedArgs::Values(vs))
}

/// Once a parameter among the first `k` is missing, the first missing one stays
/// the same among more.
proof fn lemma_first_missing_stays(args: JsonValue, order: Seq<String>, k: int, m: int)
    requires
        0 < k <= m,
        first_missing(args, order, k) < k,
    ensures
        first_missing(args, order, m) == first_missing(args, order, k),
    decreases m - k,
{
    if k < m {
        lemma_first_missing_stays(args, order, k + 1, m);
    }
}


/// The documented type table of compact parameter lists: whatever the case it
/// is written in, each Rust type name maps to its JSON schema type (`i32`,
/// `i64`, `u32`, `u64`, `isize`, `usize` to `integer`; `f32`, `f64` to
/// `number`; `str` and `String` to `string`; `bool` to `boolean`), a JSON
/// schema type name maps to itself, and every other type is kept as written.
pub proof fn lemma_json_type_table(t: Seq<char>)
    ensures
        lowercase(t) == "i32"@ || lowercase(t) == "i64"@ || lowercase(t) == "u32"@ || lowercase(t) == "u64"@
            || lowercase(t) == "isize"@ || lowercase(t) == "usize"@ || lowercase(t) == "integer"@
            ==> json_type_for(t) == "integer"@,
        lowercase(t) == "f32"@ || lowercase(t) == "f64"@ || lowercase(t) == "number"@ ==> json_type_for(t) == "number"@,
        lowercase(t) == "str"@ || lowercase(t) == "string"@ ==> json_type_for(t) == "string"@,
        lowercase(t) == "bool"@ || lowercase(t) == "boolean"@ ==> json_type_for(t) == "boolean"@,
        lowercase(t) == "object"@ ==> json_type_for(t) == "object"@,
        lowercase(t) == "array"@ ==> json_type_for(t) == "array"@,
        json_type_for(t) == "integer"@ || json_type_for(t) == "number"@ || json_type_for(t) == "string"@
            || json_type_for(t) == "boolean"@ || json_type_for(t) == "object"@ || json_type_for(t) == "array"@
            || json_type_for(t) == t,
        !(lowercase(t) == "i32"@ || lowercase(t) == "i64"@ || lowercase(t) == "u32"@ || lowercase(t) == "u64"@
            || lowercase(t) == "isize"@ || lowercase(t) == "usize"@ || lowercase(t) == "integer"@
            || lowercase(t) == "f32"@ || lowercase(t) == "f64"@ || lowercase(t) == "number"@
            || lowercase(t) == "str"@ || lowercase(t) == "string"@ || lowercase(t) == "bool"@
            || lowercase(t) == "boolean"@ || lowercase(t) == "object"@ || lowercase(t) == "array"@)
            ==> json_type_for(t) == t,
{
    reveal_strlit("i32");
    reveal_strlit("i64");
    reveal_strlit("u32");
    reveal_strlit("u64");
    reveal_strlit("isize");
    reveal_strlit("usize");
    reveal_strlit("integer");
    reveal_strlit("f32");
    reveal_strlit("f64");
    reveal_strlit("number");
    reveal_strlit("str");
    reveal_strlit("string");
    reveal_strlit("bool");
    reveal_strlit("boolean");
    reveal_strlit("object");
    reveal_strlit("array");
    assert("f32"@ != "i32"@) by { assert("f32"@[0] != "i32"@[0]); }
    assert("f32"@ != "i64"@) by { assert("f32"@[0] != "i64"@[0]); }
    assert("f32"@ != "u32"@) by { assert("f32"@[0] != "u32"@[0]); }
    assert("f32"@ != "u64"@) by { assert("f32"@[0] != "u64"@[0]); }
    assert("f32"@ != "isize"@) by { assert("f32"@.len() != "isize"@.len()); }
    assert("f32"@ != "usize"@) by { assert("f32"@.len() != "usize"@.len()); }
    assert("f32"@ != "integer"@) by { assert("f32"@.len() != "integer"@.len()); }
    assert("f64"@ != "i32"@) by { assert("f64"@[0] != "i32"@[0]); }
    assert("f64"@ != "i64"@) by { assert("f64"@[0] != "i64"@[0]); }
    assert("f64"@ != "u32"@) by { assert("f64"@[0] != "u32"@[0]); }
    assert("f64"@ != "u64"@) by { assert("f64"@[0] != "u64"@[0]); }
    assert("f64"@ != "isize"@) by { assert("f64"@.len() != "isize"@.len()); }
    assert("f64"@ != "usize"@) by { assert("f64"@.len() != "usize"@.len()); }
    assert("f64"@ != "integer"@) by { assert("f64"@.len() != "integer"@.len()); }
    assert("number"@ != "i32"@) by { assert("number"@.len() != "i32"@.len()); }
    assert("number"@ != "i64"@) by { assert("number"@.len() != "i64"@.len()); }
    assert("number"@ != "u32"@) by { assert("number"@.len() != "u32"@.len()); }
    assert("number"@ != "u64"@) by { assert("number"@.len() != "u64"@.len()); }
    assert("number"@ != "isize"@) by { assert("number"@.len() != "isize"@.len()); }
    assert("number"@ != "usize"@) by { assert("number"@.len() != "usize"@.len()); }
    assert("number"@ != "integer"@) by { assert("number"@.len() != "integer"@.len()); }
    assert("str"@ != "i32"@) by { assert("str"@[0] != "i32"@[0]); }
    assert("str"@ != "i64"@) by { assert("str"@[0] != "i64"@[0]); }
    assert("str"@ != "u32"@) by { assert("str"@[0] != "u32"@[0]); }
    assert("str"@ != "u64"@) by { assert("str"@[0] != "u64"@[0]); }
    assert("str"@ != "isize"@) by { assert("str"@.len() != "isize"@.len()); }
    assert("str"@ != "usize"@) by { assert("str"@.len() != "usize"@.len()); }
    assert("str"@ != "integer"@) by { assert("str"@.len() != "integer"@.len()); }
    assert("str"@ != "f32"@) by { assert("str"@[0] != "f32"@[0]); }
    assert("str"@ != "f64"@) by { assert("str"@[0] != "f64"@[0]); }
    assert("str"@ != "number"@) by { assert("str"@.len() != "number"@.len()); }
    assert("string"@ != "i32"@) by { assert("string"@.len() != "i32"@.len()); }
    assert("string"@ != "i64"@) by { assert("string"@.len() != "i64"@.len()); }
    assert("string"@ != "u32"@) by { assert("string"@.len() != "u32"@.len()); }
    assert("string"@ != "u64"@) by { assert("string"@.len() != "u64"@.len()); }
    assert("string"@ != "isize"@) by { assert("string"@.len() != "isize"@.len()); }
    assert("string"@ != "usize"@) by { assert("string"@.len() != "usize"@.len()); }
    assert("string"@ != "integer"@) by { assert("string"@.len() != "integer"@.len()); }
    assert("string"@ != "f32"@) by { assert("string"@.len() != "f32"@.len()); }
    assert("string"@ != "f64"@) by { assert("string"@.len() != "f64"@.len()); }
    assert("string"@ != "number"@) by { assert("string"@[0] != "number"@[0]); }
    assert("bool"@ != "i32"@) by { assert("bool"@.len() != "i32"@.len()); }
    assert("bool"@ != "i64"@) by { assert("bool"@.len() != "i64"@.len()); }
    assert("bool"@ != "u32"@) by { assert("bool"@.len() != "u32"@.len()); }
    assert("bool"@ != "u64"@) by { assert("bool"@.len() != "u64"@.len()); }
    assert("bool"@ != "isize"@) by { assert("bool"@.len() != "isize"@.len()); }
    assert("bool"@ != "usize"@) by { assert("bool"@.len() != "usize"@.len()); }
    assert("bool"@ != "integer"@) by { assert("bool"@.len() != "integer"@.len()); }
    assert("bool"@ != "f32"@) by { assert("bool"@.len() != "f32"@.len()); }
    assert("bool"@ != "f64"@) by { assert("bool"@.len() != "f64"@.len()); }
    assert("bool"@ != "number"@) by { assert("bool"@.len() != "number"@.len()); }
    assert("bool"@ != "str"@) by { assert("bool"@.len() != "str"@.len()); }
    assert("bool"@ != "string"@) by { assert("bool"@.len() != "string"@.len()); }
    assert("boolean"@ != "i32"@) by { assert("boolean"@.len() != "i32"@.len()); }
    assert("boolean"@ != "i64"@) by { assert("boolean"@.len() != "i64"@.len()); }
    assert("boolean"@ != "u32"@) by { assert("boolean"@.len() != "u32"@.len()); }
    assert("boolean"@ != "u64"@) by { assert("boolean"@.len() != "u64"@.len()); }
    assert("boolean"@ != "isize"@) by { assert("boolean"@.len() != "isize"@.len()); }
    assert("boolean"@ != "usize"@) by { assert("boolean"@.len() != "usize"@.len()); }
    assert("boolean"@ != "integer"@) by { assert("boolean"@[0] != "integer"@[0]); }
    assert("boolean"@ != "f32"@) by { assert("boolean"@.len() != "f32"@.len()); }
    assert("boolean"@ != "f64"@) by { assert("boolean"@.len() != "f64"@.len()); }
    assert("boolean"@ != "number"@) by { assert("boolean"@.len() != "number"@.len()); }
    assert("boolean"@ != "str"@) by { assert("boolean"@.len() != "str"@.len()); }
    assert("boolean"@ != "string"@) by { assert("boolean"@.len() != "string"@.len()); }
    assert("object"@ != "i32"@) by { assert("object"@.len() != "i32"@.len()); }
    assert("object"@ != "i64"@) by { assert("object"@.len() != "i64"@.len()); }
    assert("object"@ != "u32"@) by { assert("object"@.len() != "u32"@.len()); }
    assert("object"@ != "u64"@) by { assert("object"@.len() != "u64"@.len()); }
    assert("object"@ != "isize"@) by { assert("object"@.len() != "isize"@.len()); }
    assert("object"@ != "usize"@) by { assert("object"@.len() != "usize"@.len()); }
    assert("object"@ != "integer"@) by { assert("object"@.len() != "integer"@.len()); }
    assert("object"@ != "f32"@) by { assert("object"@.len() != "f32"@.len()); }
    assert("object"@ != "f64"@) by { assert("object"@.len() != "f64"@.len()); }
    assert("object"@ != "number"@) by { assert("object"@[0] != "number"@[0]); }
    assert("object"@ != "str"@) by { assert("object"@.len() != "str"@.len()); }
    assert("object"@ != "string"@) by { assert("object"@[0] != "string"@[0]); }
    assert("object"@ != "bool"@) by { assert("object"@.len() != "bool"@.len()); }
    assert("object"@ != "boolean"@) by { assert("object"@.len() != "boolean"@.len()); }
    assert("array"@ != "i32"@) by { assert("array"@.len() != "i32"@.len()); }
    assert("array"@ != "i64"@) by { assert("array"@.len() != "i64"@.len()); }
    assert("array"@ != "u32"@) by { assert("array"@.len() != "u32"@.len()); }
    assert("array"@ != "u64"@) by { assert("array"@.len() != "u64"@.len()); }
    assert("array"@ != "isize"@) by { assert("array"@[0] != "isize"@[0]); }
    assert("array"@ != "usize"@) by { assert("array"@[0] != "usize"@[0]); }
    assert("array"@ != "integer"@) by { assert("array"@.len() != "integer"@.len()); }
    assert("array"@ != "f32"@) by { assert("array"@.len() != "f32"@.len()); }
    assert("array"@ != "f64"@) by { assert("array"@.len() != "f64"@.len()); }
    assert("array"@ != "number"@) by { assert("array"@.len() != "number"@.len()); }
    assert("array"@ != "str"@) by { assert("array"@.len() != "str"@.len()); }
    assert("array"@ != "string"@) by { assert("array"@.len() != "string"@.len()); }
    assert("array"@ != "bool"@) by { assert("array"@.len() != "bool"@.len()); }
    assert("array"@ != "boolean"@) by { assert("array"@.len() != "boolean"@.len()); }
    assert("array"@ != "object"@) by { assert("array"@.len() != "object"@.len()); }
}

} // verus!
