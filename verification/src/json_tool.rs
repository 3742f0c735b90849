//! The JSON parser tool. Reading JSON text and writing it out are serde_json's
//! work, done where the tool is driven; here are the checks of the arguments,
//! the walk along a path to read or set a value, and the wording of answers.

use vstd::prelude::*;
use crate::error::HeliosError;
use crate::json::{JsonValue, str_arg, u64_arg, member_index, lemma_member_index};
use crate::text::{owned, push_str, str_eq, chars_of, string_of, starts_with, split_on, split_on_exec, decimal, usize_to_string, join, contains, lemma_split_on_join};
use crate::tools::{ToolResult, is_tool_error, tool_ok, is_success};

verus! {

/// `s` with every leading copy of the non-empty `p` removed (`trim_start_matches`).
pub open spec fn trim_prefixes(s: Seq<char>, p: Seq<char>) -> Seq<char>
    decreases s.len(),
{
    if p.len() > 0 && starts_with(s, p) {
        trim_prefixes(s.subrange(p.len() as int, s.len() as int), p)
    } else {
        s
    }
}

/// The keys of a path such as `$.a.b` or `a.b`: leading `$.` removed, split at dots.
pub open spec fn path_keys(path: Seq<char>) -> Seq<Seq<char>> {
    split_on(trim_prefixes(path, "$."@), "."@)
}

/// The value reached from `v` by following `keys`, or why it cannot be reached.
pub open spec fn get_path(v: JsonValue, keys: Seq<Seq<char>>) -> Result<JsonValue, Seq<char>>
    decreases keys.len(),
{
    if keys.len() == 0 {
        Ok(v)
    } else {
        match v {
            JsonValue::Object(ms) => {
                let i = member_index(ms@, keys[0]);
                if i < 0 {
                    Err("Key '"@ + keys[0] + "' not found"@)
                } else {
                    get_path(ms@[i].1, keys.drop_first())
                }
            },
            _ => Err("Cannot access '"@ + keys[0] + "' on non-object"@),
        }
    }
}

/// Whether the members `nms` are `ms` with member `k` set to `v`: replaced where
/// it is, or added last.
pub open spec fn members_set(nms: Seq<(String, JsonValue)>, ms: Seq<(String, JsonValue)>, k: Seq<char>, v: JsonValue) -> bool {
    let i = member_index(ms, k);
    if i >= 0 {
        &&& nms.len() == ms.len()
        &&& nms[i].0@ == k
        &&& nms[i].1 == v
        &&& forall|j: int| 0 <= j < ms.len() && j != i ==> nms[j] == ms[j]
    } else {
        &&& nms.len() == ms.len() + 1
        &&& nms.drop_last() == ms
        &&& nms.last().0@ == k
        &&& nms.last().1 == v
    }
}

/// The members of an object to set into: those of `old`, or none when there is
/// no value yet (a fresh object); nothing for a value that is no object.
pub open spec fn members_of(old: Option<JsonValue>) -> Option<Seq<(String, JsonValue)>> {
    match old {
        None => Some(Seq::empty()),
        Some(JsonValue::Object(ms)) => Some(ms@),
        Some(_) => None,
    }
}

/// Why setting `nv` at `keys` in `old` fails, if it does.
pub open spec fn set_error(old: Option<JsonValue>, keys: Seq<Seq<char>>) -> Option<Seq<char>>
    decreases keys.len(),
{
    if keys.len() == 0 {
        Some("Empty path"@)
    } else {
        match members_of(old) {
            None => if keys.len() == 1 {
                Some("Cannot set '"@ + keys[0] + "' on non-object"@)
            } else {
                Some("Cannot access '"@ + keys[0] + "' on non-object"@)
            },
            Some(ms) => if keys.len() == 1 {
                None
            } else {
                let i = member_index(ms, keys[0]);
                set_error(if i >= 0 { Some(ms[i].1) } else { None }, keys.drop_first())
            },
        }
    }
}

/// Whether `new` is `old` with `nv` set at `keys`, intermediate objects made as
/// needed (when setting does not fail).
pub open spec fn set_path(old: Option<JsonValue>, new: JsonValue, keys: Seq<Seq<char>>, nv: JsonValue) -> bool
    decreases keys.len(),
{
    if keys.len() == 0 {
        false
    } else {
        match (members_of(old), new) {
            (Some(ms), JsonValue::Object(nms)) => if keys.len() == 1 {
                members_set(nms@, ms, keys[0], nv)
            } else {
                let i = member_index(ms, keys[0]);
                let j = member_index(nms@, keys[0]);
                &&& j >= 0
                &&& members_set(nms@, ms, keys[0], nms@[j].1)
                &&& set_path(if i >= 0 { Some(ms[i].1) } else { None }, nms@[j].1, keys.drop_first(), nv)
            },
            _ => false,
        }
    }
}

fn trim_prefixes_exec(s: &[char], p: &[char]) -> (out: Vec<char>)
    requires
        p@.len() > 0,
    ensures
        out@ == trim_prefixes(s@, p@),
{
    let mut i: usize = 0;
    assert(s@.subrange(0, s@.len() as int) =~= s@);
    while crate::text::starts_with_exec(crate::text::slice_range(s, i, s.len()).as_slice(), p)
        invariant
            i <= s@.len(),
            p@.len() > 0,
            trim_prefixes(s@, p@) == trim_prefixes(s@.subrange(i as int, s@.len() as int), p@),
        decreases s@.len() - i,
    {
        assert(s@.subrange(i as int, s@.len() as int).subrange(p@.len() as int, s@.len() - i) =~= s@.subrange(
            i + p@.len(),
            s@.len() as int,
        ));
        i = i + p.len();
    }
    crate::text::slice_range(s, i, s.len())
}

/// The keys of a path.
pub fn path_keys_exec(path: &str) -> (keys: Vec<String>)
    ensures
        keys@.map_values(|k: String| k@) == path_keys(path@),
        keys@.len() >= 1,
{
    proof {
        reveal_strlit("$.");
        reveal_strlit(".");
    }
    let pc = chars_of(path);
    let dollar = chars_of("$.");
    let dot = chars_of(".");
    let trimmed = trim_prefixes_exec(pc.as_slice(), dollar.as_slice());
    let pieces = split_on_exec(trimmed.as_slice(), dot.as_slice());
    let mut keys: Vec<String> = Vec::new();
    let mut i: usize = 0;
    while i < pieces.len()
        invariant
            i <= pieces@.len(),
            keys@.len() == i,
            forall|k: int| 0 <= k < i ==> #[trigger] keys@[k]@ == pieces@[k]@,
        decreases pieces@.len() - i,
    {
        keys.push(string_of(pieces[i].as_slice()));
        i = i + 1;
    }
    assert(keys@.map_values(|k: String| k@) =~= pieces@.map_values(|l: Vec<char>| l@));
    proof {
        lemma_split_nonempty(trimmed@, dot@);
    }
    keys
}

/// Splitting gives at least one piece.
proof fn lemma_split_nonempty(s: Seq<char>, p: Seq<char>)
    requires
        p.len() > 0,
    ensures
        split_on(s, p).len() >= 1,
    decreases s.len(),
{
    let k = crate::text::find_first(s, p);
    if k >= 0 {
        crate::text::lemma_find_first(s, p);
        lemma_split_nonempty(s.subrange(k + p.len(), s.len() as int), p);
    }
}

fn find_member(ms: &Vec<(String, JsonValue)>, k: &str) -> (r: Option<usize>)
    ensures
        match r {
            Some(i) => i as int == member_index(ms@, k@) && i < ms@.len(),
            None => member_index(ms@, k@) < 0,
        },
{
    proof {
        lemma_member_index(ms@, k@);
    }
    let mut i: usize = 0;
    while i < ms.len()
        invariant
            i <= ms@.len(),
            forall|j: int| 0 <= j < i ==> ms@[j].0@ != k@,
        decreases ms@.len() - i,
    {
        if str_eq(ms[i].0.as_str(), k) {
            assert(member_index(ms@, k@) == i) by {
                let m = member_index(ms@, k@);
                if m < 0 {
                    assert(ms@[i as int].0@ != k@);
                } else if m > i {
                    assert(ms@[i as int].0@ != k@);
                }
            }
            return Some(i);
        }
        i = i + 1;
    }
    assert(member_index(ms@, k@) < 0) by {
        let m = member_index(ms@, k@);
        if m >= 0 {
            assert(ms@[m].0@ == k@);
        }
    }
    None
}

/// The value at `keys[i..]` below `v`, taken out of it, or why there is none.
fn take_path(v: JsonValue, keys: &Vec<String>, i: usize) -> (r: Result<JsonValue, HeliosError>)
    requires
        i <= keys@.len(),
    ensures
        match get_path(v, keys@.map_values(|k: String| k@).subrange(i as int, keys@.len() as int)) {
            Ok(x) => r == Ok::<JsonValue, HeliosError>(x),
            Err(m) => is_tool_error(r, m),
        },
    decreases keys@.len() - i,
{
    let ghost kv = keys@.map_values(|k: String| k@);
    let ghost rest = kv.subrange(i as int, keys@.len() as int);
    if i == keys.len() {
        return Ok(v);
    }
    assert(rest[0] == keys@[i as int]@);
    assert(rest.drop_first() =~= kv.subrange(i + 1, keys@.len() as int));
    match v {
        JsonValue::Object(ms) => {
            let mut ms = ms;
            match find_member(&ms, keys[i].as_str()) {
                Some(j) => {
                    let (_, child) = ms.remove(j);
                    take_path(child, keys, i + 1)
                },
                None => {
                    let mut m = String::new();
                    push_str(&mut m, "Key '");
                    push_str(&mut m, keys[i].as_str());
                    push_str(&mut m, "' not found");
                    Err(HeliosError::ToolError(m))
                },
            }
        },
        _ => {
            let mut m = String::new();
            push_str(&mut m, "Cannot access '");
            push_str(&mut m, keys[i].as_str());
            push_str(&mut m, "' on non-object");
            Err(HeliosError::ToolError(m))
        },
    }
}

/// Sets `nv` at `keys[i..]` below `old` (a fresh object when `None`), making
/// intermediate objects as needed.
fn set_in(old: Option<JsonValue>, keys: &Vec<String>, i: usize, nv: JsonValue) -> (r: Result<JsonValue, HeliosError>)
    requires
        i < keys@.len(),
    ensures
        ({
            let rest = keys@.map_values(|k: String| k@).subrange(i as int, keys@.len() as int);
            match set_error(old, rest) {
                Some(m) => is_tool_error(r, m),
                None => r matches Ok(new) && set_path(old, new, rest, nv),
            }
        }),
    decreases keys@.len() - i,
{
    let ghost kv = keys@.map_values(|k: String| k@);
    let ghost rest = kv.subrange(i as int, keys@.len() as int);
    assert(rest[0] == keys@[i as int]@);
    assert(rest.drop_first() =~= kv.subrange(i + 1, keys@.len() as int));
    let last = keys.len() - i == 1;
    let ghost old_ms = members_of(old);
    let mut ms: Vec<(String, JsonValue)> = match old {
        None => Vec::new(),
        Some(JsonValue::Object(ms)) => ms,
        Some(_) => {
            let mut m = String::new();
            if last {
                push_str(&mut m, "Cannot set '");
            } else {
                push_str(&mut m, "Cannot access '");
            }
            push_str(&mut m, keys[i].as_str());
            push_str(&mut m, "' on non-object");
            return Err(HeliosError::ToolError(m));
        },
    };
    assert(old_ms == Some(ms@));
    let ghost oms = ms@;
    let found = find_member(&ms, keys[i].as_str());
    proof {
        lemma_member_index(oms, rest[0]);
    }
    if last {
        match found {
            Some(j) => {
                let (k, _) = ms.remove(j);
                ms.insert(j, (k, nv));
                assert(ms@[j as int].0@ == rest[0]);
                assert forall|q: int| 0 <= q < oms.len() && q != j implies ms@[q] == oms[q] by {}
            },
            None => {
                ms.push((keys[i].clone(), nv));
                assert(ms@.drop_last() =~= oms);
            },
        }
        return Ok(JsonValue::Object(ms));
    }
    let (child_old, pos): (Option<JsonValue>, Option<usize>) = match found {
        Some(j) => {
            let (_, c) = ms.remove(j);
            (Some(c), Some(j))
        },
        None => (None, None),
    };
    assert(child_old == (if member_index(oms, rest[0]) >= 0 { Some(oms[member_index(oms, rest[0])].1) } else { None }));
    let ghost mid = ms@;
    let child_new = match set_in(child_old, keys, i + 1, nv) {
        Ok(c) => c,
        Err(e) => {
            return Err(e);
        },
    };
    let ghost cn = child_new;
    match pos {
        Some(j) => {
            ms.insert(j, (keys[i].clone(), child_new));
            proof {
                lemma_member_index(oms, rest[0]);
                assert forall|q: int| 0 <= q < oms.len() && q != j implies ms@[q] == oms[q] by {
                    if q < j {
                        assert(ms@[q] == mid[q]);
                    } else {
                        assert(ms@[q] == mid[q - 1]);
                    }
                }
                lemma_member_index(ms@, rest[0]);
                assert(ms@[j as int].0@ == rest[0]);
                assert(member_index(ms@, rest[0]) == j) by {
                    let m = member_index(ms@, rest[0]);
                    if m < j && m >= 0 {
                        assert(ms@[m] == oms[m]);
                        assert(oms[m].0@ != rest[0]);
                    }
                }
            }
        },
        None => {
            ms.push((keys[i].clone(), child_new));
            proof {
                lemma_member_index(oms, rest[0]);
                assert(ms@.drop_last() =~= oms);
                lemma_member_index(ms@, rest[0]);
                assert(ms@[oms.len() as int].0@ == rest[0]);
                assert(member_index(ms@, rest[0]) == oms.len()) by {
                    let m = member_index(ms@, rest[0]);
                    if 0 <= m < oms.len() {
                        assert(ms@[m] == oms[m]);
                        assert(oms[m].0@ != rest[0]);
                    } else if m < 0 {
                        assert(ms@[oms.len() as int].0@ != rest[0]);
                    }
                }
            }
        },
    }
    Ok(JsonValue::Object(ms))
}

/// An operation of the JSON tool, with the texts it works on.
#[derive(Debug)]
pub enum JsonRequest {
    /// Parse `json` and describe it.
    Parse { json: String },
    /// Parse `json` and write it out again, indented when `pretty`.
    Stringify { json: String, pretty: bool },
    /// Read the value at `path` in `json`.
    GetValue { json: String, path: String },
    /// Set the JSON `value` at `path` in `json`.
    SetValue { json: String, path: String, value: String },
    /// Tell whether `json` is valid.
    Validate { json: String },
}

/// The request that the JSON tool's arguments make, by operation and texts, or
/// why they make none.
pub open spec fn json_args(args: JsonValue) -> Result<(Seq<char>, Seq<char>, Seq<char>, Seq<char>), Seq<char>> {
    let json = str_arg(args, "json"@);
    let path = str_arg(args, "path"@);
    let value = str_arg(args, "value"@);
    match str_arg(args, "operation"@) {
        None => Err("Missing 'operation' parameter"@),
        Some(op) => if op == "parse"@ || op == "stringify"@ || op == "validate"@ || op == "get_value"@ || op == "set_value"@ {
            match json {
                None => Err("Missing 'json' parameter for "@ + op + " operation"@),
                Some(j) => if op == "get_value"@ || op == "set_value"@ {
                    match path {
                        None => Err("Missing 'path' parameter for "@ + op + " operation"@),
                        Some(p) => if op == "set_value"@ {
                            match value {
                                None => Err("Missing 'value' parameter for set_value operation"@),
                                Some(v) => Ok((op, j, p, v)),
                            }
                        } else {
                            Ok((op, j, p, Seq::empty()))
                        },
                    }
                } else {
                    Ok((op, j, Seq::empty(), Seq::empty()))
                },
            }
        } else {
            Err("Unknown operation '"@ + op + "'. Valid operations: parse, stringify, get_value, set_value, validate"@)
        },
    }
}

/// Whether `q` is the request of operation `op` on the texts given, indenting
/// as `indent` says (by default, two spaces).
pub open spec fn is_json_request(q: JsonRequest, op: Seq<char>, j: Seq<char>, p: Seq<char>, v: Seq<char>, indent: Option<u64>) -> bool {
    match q {
        JsonRequest::Parse { json } => op == "parse"@ && json@ == j,
        JsonRequest::Stringify { json, pretty } => op == "stringify"@ && json@ == j && pretty == (match indent {
            Some(n) => n as usize != 0,
            None => true,
        }),
        JsonRequest::GetValue { json, path } => op == "get_value"@ && json@ == j && path@ == p,
        JsonRequest::SetValue { json, path, value } => op == "set_value"@ && json@ == j && path@ == p && value@ == v,
        JsonRequest::Validate { json } => op == "validate"@ && json@ == j,
    }
}

/// The operation names are distinct texts.
proof fn lemma_json_ops_distinct()
    ensures
        "parse"@ != "stringify"@,
        "parse"@ != "validate"@,
        "parse"@ != "get_value"@,
        "parse"@ != "set_value"@,
        "stringify"@ != "validate"@,
        "stringify"@ != "get_value"@,
        "stringify"@ != "set_value"@,
        "validate"@ != "get_value"@,
        "validate"@ != "set_value"@,
        "get_value"@ != "set_value"@,
{
    reveal_strlit("parse");
    reveal_strlit("stringify");
    reveal_strlit("validate");
    reveal_strlit("get_value");
    reveal_strlit("set_value");
    assert("parse"@.len() != "stringify"@.len());
    assert("parse"@.len() != "validate"@.len());
    assert("parse"@.len() != "get_value"@.len());
    assert("parse"@.len() != "set_value"@.len());
    assert("stringify"@[0] != "validate"@[0]);
    assert("stringify"@[0] != "get_value"@[0]);
    assert("stringify"@[1] != "set_value"@[1]);
    assert("validate"@.len() != "get_value"@.len());
    assert("validate"@.len() != "set_value"@.len());
    assert("get_value"@[0] != "set_value"@[0]);
}

fn missing_param(prefix: &str, op: &str) -> (e: HeliosError)
    ensures
        e matches HeliosError::ToolError(m) && m@ == prefix@ + op@ + " operation"@,
{
    let mut m = String::new();
    push_str(&mut m, prefix);
    push_str(&mut m, op);
    push_str(&mut m, " operation");
    HeliosError::ToolError(m)
}

/// Reads the JSON tool's arguments into a request.
pub fn json_tool_request(args: &JsonValue) -> (r: Result<JsonRequest, HeliosError>)
    ensures
        match json_args(*args) {
            Ok(t) => r matches Ok(q) && is_json_request(q, t.0, t.1, t.2, t.3, u64_arg(*args, "indent"@)),
            Err(m) => is_tool_error(r, m),
        },
{
    let op = match args.str_member("operation") {
        Some(o) => o,
        None => {
            return Err(HeliosError::ToolError(owned("Missing 'operation' parameter")));
        },
    };
    proof {
        lemma_json_ops_distinct();
    }
    let known = str_eq(op, "parse") || str_eq(op, "stringify") || str_eq(op, "validate") || str_eq(op, "get_value")
        || str_eq(op, "set_value");
    if !known {
        let mut m = String::new();
        push_str(&mut m, "Unknown operation '");
        push_str(&mut m, op);
        push_str(&mut m, "'. Valid operations: parse, stringify, get_value, set_value, validate");
        return Err(HeliosError::ToolError(m));
    }
    let json = match args.str_member("json") {
        Some(j) => owned(j),
        None => {
            return Err(missing_param("Missing 'json' parameter for ", op));
        },
    };
    if str_eq(op, "parse") {
        return Ok(JsonRequest::Parse { json });
    }
    if str_eq(op, "validate") {
        return Ok(JsonRequest::Validate { json });
    }
    if str_eq(op, "stringify") {
        let indent: usize = match args.u64_member("indent") {
            Some(n) => n as usize,
            None => 2,
        };
        return Ok(JsonRequest::Stringify { json, pretty: indent != 0 });
    }
    let path = match args.str_member("path") {
        Some(p) => owned(p),
        None => {
            return Err(missing_param("Missing 'path' parameter for ", op));
        },
    };
    if str_eq(op, "get_value") {
        return Ok(JsonRequest::GetValue { json, path });
    }
    match args.str_member("value") {
        Some(v) => Ok(JsonRequest::SetValue { json, path, value: owned(v) }),
        None => Err(HeliosError::ToolError(owned("Missing 'value' parameter for set_value operation"))),
    }
}

/// The JSON type of a value, as the tool names it.
pub open spec fn json_type_name(v: JsonValue) -> Seq<char> {
    match v {
        JsonValue::Null => "null"@,
        JsonValue::Bool(_) => "boolean"@,
        JsonValue::Number(_) => "number"@,
        JsonValue::String(_) => "string"@,
        JsonValue::Array(_) => "array"@,
        JsonValue::Object(_) => "object"@,
    }
}

/// How many keys an object has (`{n}`) or elements an array has (`[n]`); `-`
/// for other values.
pub open spec fn json_size_text(v: JsonValue) -> Seq<char> {
    match v {
        JsonValue::Object(ms) => "{"@ + decimal(ms@.len()) + "}"@,
        JsonValue::Array(a) => "["@ + decimal(a@.len()) + "]"@,
        _ => "-"@,
    }
}

/// What the JSON tool answers once the texts were parsed: a result, or a value to
/// write out (indented when `pretty`) after the text `head`.
#[derive(Debug)]
pub enum JsonAnswer {
    /// The answer.
    Done(Result<ToolResult, HeliosError>),
    /// Succeed with `head` followed by `value` written as JSON.
    Render { head: String, value: JsonValue, pretty: bool },
}

/// Whether `a` is the answer `Done(r)` with `r` as `o` says: `Ok(text)` for
/// success, `Err(text)` for a tool error.
pub open spec fn done_with(a: JsonAnswer, o: Result<Seq<char>, Seq<char>>) -> bool {
    match o {
        Ok(t) => a matches JsonAnswer::Done(r) && tool_ok(r, t),
        Err(m) => a matches JsonAnswer::Done(r) && is_tool_error(r, m),
    }
}

fn error_with(prefix: &str, e: &str) -> (a: JsonAnswer)
    ensures
        done_with(a, Err(prefix@ + e@)),
{
    let mut m = String::new();
    push_str(&mut m, prefix);
    push_str(&mut m, e);
    JsonAnswer::Done(Err(HeliosError::ToolError(m)))
}

/// The JSON tool's answer to request `q`, with `parsed` the outcome of parsing
/// its `json` text and, for `set_value`, `parsed_value` that of its `value`
/// text (the parser's message on failure).
pub fn json_tool_answer(q: JsonRequest, parsed: Result<JsonValue, String>, parsed_value: Option<Result<JsonValue, String>>) -> (a: JsonAnswer)
    requires
        q is SetValue ==> parsed_value is Some,
    ensures
        match q {
            JsonRequest::Parse { json } => match parsed {
                Err(e) => done_with(a, Err("JSON parse error: "@ + e@)),
                Ok(v) => done_with(a, Ok("\u{2713} JSON parsed successfully\nType: "@ + json_type_name(v) + "\nKeys: "@ + json_size_text(v))),
            },
            JsonRequest::Stringify { json, pretty } => match parsed {
                Err(e) => done_with(a, Err("Invalid JSON for stringify: "@ + e@)),
                Ok(v) => a matches JsonAnswer::Render { head, value, pretty: p } && head@.len() == 0 && value == v && p == pretty,
            },
            JsonRequest::GetValue { json, path } => match parsed {
                Err(e) => done_with(a, Err("Invalid JSON for get_value: "@ + e@)),
                Ok(v) => match get_path(v, path_keys(path@)) {
                    Err(m) => done_with(a, Err(m)),
                    Ok(x) => a matches JsonAnswer::Render { head, value, pretty } && head@ == "Value at path '"@ + path@ + "': "@
                        && value == x && pretty,
                },
            },
            JsonRequest::SetValue { json, path, value } => match (parsed_value, parsed) {
                (Some(Err(e)), _) => done_with(a, Err("Invalid value JSON: "@ + e@)),
                (Some(Ok(_)), Err(e)) => done_with(a, Err("Invalid JSON for set_value: "@ + e@)),
                (Some(Ok(nv)), Ok(v)) => match set_error(Some(v), path_keys(path@)) {
                    Some(m) => done_with(a, Err(m)),
                    None => a matches JsonAnswer::Render { head, value: new, pretty } && head@ == "\u{2713} Value set at path '"@
                        + path@ + "'\n"@ && set_path(Some(v), new, path_keys(path@), nv) && pretty,
                },
                _ => true,
            },
            JsonRequest::Validate { json } => match parsed {
                Ok(_) => done_with(a, Ok("\u{2713} JSON is valid"@)),
                Err(e) => a matches JsonAnswer::Done(r) && (r matches Ok(res) && crate::tools::is_failure(res, "\u{2717} JSON validation failed: "@ + e@)),
            },
        },
{
    match q {
        JsonRequest::Parse { json } => match parsed {
            Err(e) => error_with("JSON parse error: ", e.as_str()),
            Ok(v) => {
                let mut out = String::new();
                push_str(&mut out, "\u{2713} JSON parsed successfully\nType: ");
                match &v {
                    JsonValue::Null => push_str(&mut out, "null"),
                    JsonValue::Bool(_) => push_str(&mut out, "boolean"),
                    JsonValue::Number(_) => push_str(&mut out, "number"),
                    JsonValue::String(_) => push_str(&mut out, "string"),
                    JsonValue::Array(_) => push_str(&mut out, "array"),
                    JsonValue::Object(_) => push_str(&mut out, "object"),
                }
                push_str(&mut out, "\nKeys: ");
                match &v {
                    JsonValue::Object(ms) => {
                        push_str(&mut out, "{");
                        push_str(&mut out, usize_to_string(ms.len()).as_str());
                        push_str(&mut out, "}");
                    },
                    JsonValue::Array(xs) => {
                        push_str(&mut out, "[");
                        push_str(&mut out, usize_to_string(xs.len()).as_str());
                        push_str(&mut out, "]");
                    },
                    _ => push_str(&mut out, "-"),
                }
                assert(out@ =~= "\u{2713} JSON parsed successfully\nType: "@ + json_type_name(v) + "\nKeys: "@ + json_size_text(v));
                JsonAnswer::Done(Ok(ToolResult::success(out.as_str())))
            },
        },
        JsonRequest::Stringify { json, pretty } => match parsed {
            Err(e) => error_with("Invalid JSON for stringify: ", e.as_str()),
            Ok(v) => JsonAnswer::Render { head: String::new(), value: v, pretty },
        },
        JsonRequest::GetValue { json, path } => match parsed {
            Err(e) => error_with("Invalid JSON for get_value: ", e.as_str()),
            Ok(v) => {
                let keys = path_keys_exec(path.as_str());
                assert(keys@.map_values(|k: String| k@).subrange(0, keys@.len() as int) =~= path_keys(path@));
                match take_path(v, &keys, 0) {
                    Err(e) => JsonAnswer::Done(Err(e)),
                    Ok(x) => {
                        let mut head = String::new();
                        push_str(&mut head, "Value at path '");
                        push_str(&mut head, path.as_str());
                        push_str(&mut head, "': ");
                        JsonAnswer::Render { head, value: x, pretty: true }
                    },
                }
            },
        },
        JsonRequest::SetValue { json, path, value } => {
            let nv = match parsed_value {
                Some(Ok(nv)) => nv,
                Some(Err(e)) => {
                    return error_with("Invalid value JSON: ", e.as_str());
                },
                None => {
                    return JsonAnswer::Done(Err(HeliosError::ToolError(String::new())));
                },
            };
            let v = match parsed {
                Ok(v) => v,
                Err(e) => {
                    return error_with("Invalid JSON for set_value: ", e.as_str());
                },
            };
            let keys = path_keys_exec(path.as_str());
            assert(keys@.map_values(|k: String| k@).subrange(0, keys@.len() as int) =~= path_keys(path@));
            match set_in(Some(v), &keys, 0, nv) {
                Err(e) => JsonAnswer::Done(Err(e)),
                Ok(new) => {
                    let mut head = String::new();
                    push_str(&mut head, "\u{2713} Value set at path '");
                    push_str(&mut head, path.as_str());
                    push_str(&mut head, "'\n");
                    JsonAnswer::Render { head, value: new, pretty: true }
                },
            }
        },
        JsonRequest::Validate { json } => match parsed {
            Ok(_) => JsonAnswer::Done(Ok(ToolResult::success("\u{2713} JSON is valid"))),
            Err(e) => {
                let mut m = String::new();
                push_str(&mut m, "\u{2717} JSON validation failed: ");
                push_str(&mut m, e.as_str());
                JsonAnswer::Done(Ok(ToolResult::error(m.as_str())))
            },
        },
    }
}

/// The result of a rendered answer: success with `head` followed by `text`, the
/// value as written out.
pub fn rendered_answer(head: &str, text: &str) -> (r: ToolResult)
    ensures
        is_success(r, head@ + text@),
{
    let mut out = String::new();
    push_str(&mut out, head);
    push_str(&mut out, text);
    ToolResult::success(out.as_str())
}

/// After the member `k` is set, the first member named `k` holds the new value.
proof fn lemma_members_set_found(nms: Seq<(String, JsonValue)>, ms: Seq<(String, JsonValue)>, k: Seq<char>, v: JsonValue)
    requires
        members_set(nms, ms, k, v),
    ensures
        member_index(nms, k) >= 0,
        nms[member_index(nms, k)].1 == v,
{
    lemma_member_index(ms, k);
    lemma_member_index(nms, k);
    let i = member_index(ms, k);
    let target = if i >= 0 { i } else { ms.len() as int };
    assert(nms[target].0@ == k);
    let m = member_index(nms, k);
    if m < 0 {
        assert(nms[target].0@ != k);
    } else if m < target {
        assert(nms[m] == ms[m]);
        assert(ms[m].0@ != k);
    } else if m > target {
        assert(nms[target].0@ != k);
    }
}

/// Reading a path after setting a value there gives that value.
pub proof fn lemma_get_after_set_path(old: Option<JsonValue>, new: JsonValue, keys: Seq<Seq<char>>, nv: JsonValue)
    requires
        set_path(old, new, keys, nv),
    ensures
        get_path(new, keys) == Ok::<JsonValue, Seq<char>>(nv),
    decreases keys.len(),
{
    match (members_of(old), new) {
        (Some(ms), JsonValue::Object(nms)) => {
            if keys.len() == 1 {
                lemma_members_set_found(nms@, ms, keys[0], nv);
                assert(keys.drop_first() =~= Seq::<Seq<char>>::empty());
                assert(get_path(nv, Seq::<Seq<char>>::empty()) == Ok::<JsonValue, Seq<char>>(nv));
                let j = member_index(nms@, keys[0]);
                assert(get_path(new, keys) == get_path(nms@[j].1, keys.drop_first()));
            } else {
                let i = member_index(ms, keys[0]);
                let j = member_index(nms@, keys[0]);
                lemma_members_set_found(nms@, ms, keys[0], nms@[j].1);
                lemma_get_after_set_path(if i >= 0 { Some(ms[i].1) } else { None }, nms@[j].1, keys.drop_first(), nv);
                assert(get_path(new, keys) == get_path(nms@[j].1, keys.drop_first()));
            }
        },
        _ => {},
    }
}


/// A path reads the same with or without a leading `$.`: `$.user.name` and
/// `user.name` name the same keys; a path that does not start with `$.` is split
/// at its dots as written.
pub proof fn lemma_path_keys_dollar(p: Seq<char>)
    ensures
        path_keys("$."@ + p) == path_keys(p),
        !starts_with(p, "$."@) ==> path_keys(p) == split_on(p, "."@),
{
    reveal_strlit("$.");
    let s = "$."@ + p;
    assert(s.subrange(0, 2) =~= "$."@);
    assert(s.subrange(2, s.len() as int) =~= p);
    assert(starts_with(s, "$."@));
}


/// Trimming leading copies of a non-empty `p` leaves a tail of `s` that no
/// longer starts with `p`.
pub proof fn lemma_trim_prefixes(s: Seq<char>, p: Seq<char>)
    requires
        p.len() > 0,
    ensures
        !starts_with(trim_prefixes(s, p), p),
        trim_prefixes(s, p).len() <= s.len(),
        trim_prefixes(s, p) == s.subrange(s.len() - trim_prefixes(s, p).len(), s.len() as int),
    decreases s.len(),
{
    if starts_with(s, p) {
        let t = s.subrange(p.len() as int, s.len() as int);
        lemma_trim_prefixes(t, p);
        let r = trim_prefixes(t, p);
        assert(t.subrange(t.len() - r.len(), t.len() as int) =~= s.subrange(s.len() - r.len(), s.len() as int));
    } else {
        assert(s.subrange(0, s.len() as int) =~= s);
    }
}

/// The keys of a path are the path, after its leading `$.`s, cut at every dot:
/// joined again with dots they give it back, and no key holds a dot.
pub proof fn lemma_path_keys_split(path: Seq<char>)
    ensures
        path_keys(path).len() >= 1,
        join(path_keys(path), "."@) == trim_prefixes(path, "$."@),
        forall|i: int| 0 <= i < path_keys(path).len() ==> !contains(#[trigger] path_keys(path)[i], "."@),
        !starts_with(trim_prefixes(path, "$."@), "$."@),
{
    reveal_strlit(".");
    reveal_strlit("$.");
    lemma_split_on_join(trim_prefixes(path, "$."@), "."@);
    lemma_trim_prefixes(path, "$."@);
}

} // verus!
