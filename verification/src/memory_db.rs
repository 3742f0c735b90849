//! The in-memory key-value database tool.

use vstd::prelude::*;
use crate::error::HeliosError;
use crate::json::{JsonValue, str_arg};
use crate::strmap::StringMap;
use crate::text::{owned, push_str, str_eq, join, join_strings, decimal, usize_to_string, lex_sorted, sort_strings};
use crate::tools::{ToolResult, is_tool_error, tool_ok, tool_failed};

verus! {

/// The line that `list` shows for a key and its value.
pub open spec fn db_line(k: Seq<char>, v: String) -> Seq<char> {
    "  \u{2022} "@ + k + " = "@ + v@
}

/// The lines of the database's pairs, in the map's order.
pub open spec fn db_lines(ps: Seq<(Seq<char>, String)>) -> Seq<Seq<char>> {
    ps.map_values(|p: (Seq<char>, String)| db_line(p.0, p.1))
}

/// Whether `out` is what `list` shows of a database with pairs `ps`: that it is
/// empty, or the count and the lines of the pairs in ascending order.
pub open spec fn is_listing(out: Seq<char>, ps: Seq<(Seq<char>, String)>) -> bool {
    if ps.len() == 0 {
        out == "Database is empty"@
    } else {
        exists|lines: Seq<Seq<char>>|
            #![trigger lex_sorted(lines)]
            lex_sorted(lines) && lines.to_multiset() == db_lines(ps).to_multiset() && out == "Database contents ("@
                + decimal(ps.len()) + " items):\n"@ + join(lines, "\n"@)
    }
}

/// The database as a map from keys to the texts of their values.
pub open spec fn db_view(db: StringMap<String>) -> Map<Seq<char>, Seq<char>> {
    db.map().map_values(|v: String| v@)
}

/// The database that an operation leaves: `set` writes the key, `delete` removes
/// it, `clear` empties the database; anything else, or missing arguments, leave it.
pub open spec fn memdb_after(m: Map<Seq<char>, Seq<char>>, args: JsonValue) -> Map<Seq<char>, Seq<char>> {
    let op = str_arg(args, "operation"@);
    let key = str_arg(args, "key"@);
    if op == Some("set"@) && key is Some && str_arg(args, "value"@) is Some {
        m.insert(key->Some_0, str_arg(args, "value"@)->Some_0)
    } else if op == Some("delete"@) && key is Some {
        m.remove(key->Some_0)
    } else if op == Some("clear"@) {
        Map::empty()
    } else {
        m
    }
}

/// What an operation other than `list` answers, on a database `m` of `n` pairs:
/// `Ok((true, text))` for success, `Ok((false, text))` for a failed result,
/// `Err(text)` for a tool error.
pub open spec fn memdb_answer(m: Map<Seq<char>, Seq<char>>, n: nat, args: JsonValue) -> Result<(bool, Seq<char>), Seq<char>> {
    let key = str_arg(args, "key"@);
    match str_arg(args, "operation"@) {
        None => Err("Missing 'operation' parameter"@),
        Some(op) => if op == "set"@ {
            match (key, str_arg(args, "value"@)) {
                (None, _) => Err("Missing 'key' parameter for set operation"@),
                (Some(_), None) => Err("Missing 'value' parameter for set operation"@),
                (Some(k), Some(v)) => Ok((true, "\u{2713} Set '"@ + k + "' = '"@ + v + "'"@)),
            }
        } else if op == "get"@ {
            match key {
                None => Err("Missing 'key' parameter for get operation"@),
                Some(k) => if m.contains_key(k) {
                    Ok((true, "Value for '"@ + k + "': "@ + m[k]))
                } else {
                    Ok((false, "Key '"@ + k + "' not found"@))
                },
            }
        } else if op == "delete"@ {
            match key {
                None => Err("Missing 'key' parameter for delete operation"@),
                Some(k) => if m.contains_key(k) {
                    Ok((true, "\u{2713} Deleted '"@ + k + "' (was: '"@ + m[k] + "')"@))
                } else {
                    Ok((false, "Key '"@ + k + "' not found"@))
                },
            }
        } else if op == "clear"@ {
            Ok((true, "\u{2713} Cleared database ("@ + decimal(n) + " items removed)"@))
        } else if op == "exists"@ {
            match key {
                None => Err("Missing 'key' parameter for exists operation"@),
                Some(k) => Ok((true, "Key '"@ + k + "' exists: "@ + (if m.contains_key(k) {
                    "true"@
                } else {
                    "false"@
                }))),
            }
        } else {
            Err("Unknown operation '"@ + op + "'. Valid operations: set, get, delete, list, clear, exists"@)
        },
    }
}

/// Whether `r` is the answer `a` describes.
pub open spec fn answers_as(r: Result<ToolResult, HeliosError>, a: Result<(bool, Seq<char>), Seq<char>>) -> bool {
    match a {
        Ok((true, t)) => tool_ok(r, t),
        Ok((false, t)) => tool_failed(r, t),
        Err(m) => is_tool_error(r, m),
    }
}

/// The operation names are distinct texts.
pub proof fn lemma_memdb_ops_distinct()
    ensures
        "set"@ != "get"@,
        "set"@ != "delete"@,
        "set"@ != "list"@,
        "set"@ != "clear"@,
        "set"@ != "exists"@,
        "get"@ != "delete"@,
        "get"@ != "list"@,
        "get"@ != "clear"@,
        "get"@ != "exists"@,
        "delete"@ != "list"@,
        "delete"@ != "clear"@,
        "delete"@ != "exists"@,
        "list"@ != "clear"@,
        "list"@ != "exists"@,
        "clear"@ != "exists"@,
{
    reveal_strlit("set");
    reveal_strlit("get");
    reveal_strlit("delete");
    reveal_strlit("list");
    reveal_strlit("clear");
    reveal_strlit("exists");
    assert("set"@[0] != "get"@[0]);
    assert("set"@.len() != "delete"@.len());
    assert("set"@.len() != "list"@.len());
    assert("set"@.len() != "clear"@.len());
    assert("set"@.len() != "exists"@.len());
    assert("get"@.len() != "delete"@.len());
    assert("get"@.len() != "list"@.len());
    assert("get"@.len() != "clear"@.len());
    assert("get"@.len() != "exists"@.len());
    assert("delete"@.len() != "list"@.len());
    assert("delete"@.len() != "clear"@.len());
    assert("delete"@[0] != "exists"@[0]);
    assert("list"@.len() != "clear"@.len());
    assert("list"@.len() != "exists"@.len());
    assert("clear"@.len() != "exists"@.len());
}

/// A key-value store of strings that agents can use as scratch memory.
#[derive(Debug)]
pub struct MemoryDBTool {
    /// The stored pairs.
    pub db: StringMap<String>,
}

impl MemoryDBTool {
    /// A tool with an empty database.
    pub fn new() -> (t: Self)
        ensures
            t.db.pairs().len() == 0,
            t.db.map() == Map::<Seq<char>, String>::empty(),
    {
        MemoryDBTool { db: StringMap::new() }
    }

    /// A tool working on the database `db`.
    pub fn with_shared_db(db: StringMap<String>) -> (t: Self)
        ensures
            t.db == db,
    {
        MemoryDBTool { db }
    }

    /// Runs operation `operation` of the arguments: `set` a key to a value, `get`
    /// or `delete` a key, `list` the pairs, `clear` the database, or tell whether a
    /// key `exists`.
    pub fn execute(&mut self, args: &JsonValue) -> (r: Result<ToolResult, HeliosError>)
        ensures
            db_view(final(self).db) == memdb_after(db_view(old(self).db), *args),
            str_arg(*args, "operation"@) == Some("list"@) ==> (r matches Ok(res) && res.success && is_listing(
                res.output@,
                old(self).db.pairs(),
            )),
            str_arg(*args, "operation"@) != Some("list"@) ==> answers_as(r, memdb_answer(db_view(old(self).db), db_view(old(self).db).dom().len(), *args)),
            old(self).db.pairs().len() == db_view(old(self).db).dom().len(),
            db_view(old(self).db).dom().finite(),
    {
        proof {
            lemma_memdb_ops_distinct();
        }
        let n_keys = self.db.key_count();
        assert(db_view(self.db).dom() =~= self.db.map().dom());
        let op = match args.str_member("operation") {
            Some(o) => o,
            None => {
                return Err(HeliosError::ToolError(owned("Missing 'operation' parameter")));
            },
        };
        let key = args.str_member("key");
        if str_eq(op, "set") {
            let k = match key {
                Some(k) => k,
                None => {
                    return Err(HeliosError::ToolError(owned("Missing 'key' parameter for set operation")));
                },
            };
            let v = match args.str_member("value") {
                Some(v) => v,
                None => {
                    return Err(HeliosError::ToolError(owned("Missing 'value' parameter for set operation")));
                },
            };
            let _ = self.db.insert(owned(k), owned(v));
            let mut out = String::new();
            push_str(&mut out, "\u{2713} Set '");
            push_str(&mut out, k);
            push_str(&mut out, "' = '");
            push_str(&mut out, v);
            push_str(&mut out, "'");
            return Ok(ToolResult::success(out.as_str()));
        }
        if str_eq(op, "get") {
            let k = match key {
                Some(k) => k,
                None => {
                    return Err(HeliosError::ToolError(owned("Missing 'key' parameter for get operation")));
                },
            };
            return match self.db.get(k) {
                Some(v) => {
                    let mut out = String::new();
                    push_str(&mut out, "Value for '");
                    push_str(&mut out, k);
                    push_str(&mut out, "': ");
                    push_str(&mut out, v.as_str());
                    Ok(ToolResult::success(out.as_str()))
                },
                None => {
                    let mut out = String::new();
                    push_str(&mut out, "Key '");
                    push_str(&mut out, k);
                    push_str(&mut out, "' not found");
                    Ok(ToolResult::error(out.as_str()))
                },
            };
        }
        if str_eq(op, "delete") {
            let k = match key {
                Some(k) => k,
                None => {
                    return Err(HeliosError::ToolError(owned("Missing 'key' parameter for delete operation")));
                },
            };
            return match self.db.remove(k) {
                Some(v) => {
                    let mut out = String::new();
                    push_str(&mut out, "\u{2713} Deleted '");
                    push_str(&mut out, k);
                    push_str(&mut out, "' (was: '");
                    push_str(&mut out, v.as_str());
                    push_str(&mut out, "')");
                    Ok(ToolResult::success(out.as_str()))
                },
                None => {
                    let mut out = String::new();
                    push_str(&mut out, "Key '");
                    push_str(&mut out, k);
                    push_str(&mut out, "' not found");
                    assert(self.db.map() =~= old(self).db.map());
                    Ok(ToolResult::error(out.as_str()))
                },
            };
        }
        if str_eq(op, "list") {
            if self.db.is_empty() {
                return Ok(ToolResult::success("Database is empty"));
            }
            let es = self.db.entries();
            let mut items: Vec<String> = Vec::new();
            let mut i: usize = 0;
            while i < es.len()
                invariant
                    i <= es@.len(),
                    es@.map_values(|e: (String, String)| (e.0@, e.1)) == self.db.pairs(),
                    items@.map_values(|s: String| s@) == db_lines(self.db.pairs()).take(i as int),
                decreases es@.len() - i,
            {
                let mut line = String::new();
                push_str(&mut line, "  \u{2022} ");
                push_str(&mut line, es[i].0.as_str());
                push_str(&mut line, " = ");
                push_str(&mut line, es[i].1.as_str());
                assert(self.db.pairs()[i as int] == (es@[i as int].0@, es@[i as int].1));
                let ghost before = items@.map_values(|s: String| s@);
                items.push(line);
                assert(items@.map_values(|s: String| s@) =~= db_lines(self.db.pairs()).take(i + 1));
                i = i + 1;
            }
            assert(db_lines(self.db.pairs()).take(es@.len() as int) =~= db_lines(self.db.pairs()));
            let sorted = sort_strings(items);
            let mut out = String::new();
            push_str(&mut out, "Database contents (");
            push_str(&mut out, usize_to_string(n_keys).as_str());
            push_str(&mut out, " items):\n");
            push_str(&mut out, join_strings(&sorted, "\n").as_str());
            let ghost lines = sorted@.map_values(|s: String| s@);
            assert(lex_sorted(lines) && lines.to_multiset() == db_lines(self.db.pairs()).to_multiset()
                && out@ == "Database contents ("@ + decimal(self.db.pairs().len()) + " items):\n"@ + join(lines, "\n"@));
            return Ok(ToolResult::success(out.as_str()));
        }
        if str_eq(op, "clear") {
            let n = n_keys;
            self.db.clear();
            let mut out = String::new();
            push_str(&mut out, "\u{2713} Cleared database (");
            push_str(&mut out, usize_to_string(n).as_str());
            push_str(&mut out, " items removed)");
            return Ok(ToolResult::success(out.as_str()));
        }
        if str_eq(op, "exists") {
            let k = match key {
                Some(k) => k,
                None => {
                    return Err(HeliosError::ToolError(owned("Missing 'key' parameter for exists operation")));
                },
            };
            let present = self.db.contains_key(k);
            let mut out = String::new();
            push_str(&mut out, "Key '");
            push_str(&mut out, k);
            push_str(&mut out, "' exists: ");
            if present {
                push_str(&mut out, "true");
            } else {
                push_str(&mut out, "false");
            }
            return Ok(ToolResult::success(out.as_str()));
        }
        let mut m = String::new();
        push_str(&mut m, "Unknown operation '");
        push_str(&mut m, op);
        push_str(&mut m, "'. Valid operations: set, get, delete, list, clear, exists");
        Err(HeliosError::ToolError(m))
    }
}

/// A `get` after a `set` of the same key reads the value that was set.
pub proof fn lemma_get_after_set(m: Map<Seq<char>, Seq<char>>, n: nat, set: JsonValue, get: JsonValue, k: Seq<char>, v: Seq<char>)
    requires
        str_arg(set, "operation"@) == Some("set"@),
        str_arg(set, "key"@) == Some(k),
        str_arg(set, "value"@) == Some(v),
        str_arg(get, "operation"@) == Some("get"@),
        str_arg(get, "key"@) == Some(k),
    ensures
        memdb_answer(memdb_after(m, set), n, get) == Ok::<(bool, Seq<char>), Seq<char>>((true, "Value for '"@ + k + "': "@ + v)),
{
    lemma_memdb_ops_distinct();
}

/// A `get` after a `delete` of the same key finds nothing.
pub proof fn lemma_get_after_delete(m: Map<Seq<char>, Seq<char>>, n: nat, del: JsonValue, get: JsonValue, k: Seq<char>)
    requires
        str_arg(del, "operation"@) == Some("delete"@),
        str_arg(del, "key"@) == Some(k),
        str_arg(get, "operation"@) == Some("get"@),
        str_arg(get, "key"@) == Some(k),
    ensures
        memdb_answer(memdb_after(m, del), n, get) == Ok::<(bool, Seq<char>), Seq<char>>((false, "Key '"@ + k + "' not found"@)),
{
    lemma_memdb_ops_distinct();
}

/// A `set` of one key leaves what every other key reads.
pub proof fn lemma_set_leaves_other_keys(m: Map<Seq<char>, Seq<char>>, n: nat, set: JsonValue, get: JsonValue, k: Seq<char>, q: Seq<char>)
    requires
        str_arg(set, "operation"@) == Some("set"@),
        str_arg(set, "key"@) == Some(k),
        str_arg(set, "value"@) is Some,
        str_arg(get, "operation"@) == Some("get"@),
        str_arg(get, "key"@) == Some(q),
        q != k,
    ensures
        memdb_answer(memdb_after(m, set), n, get) == memdb_answer(m, n, get),
{
    lemma_memdb_ops_distinct();
}

/// After `clear` the database is empty.
pub proof fn lemma_clear_empties(m: Map<Seq<char>, Seq<char>>, clear: JsonValue)
    requires
        str_arg(clear, "operation"@) == Some("clear"@),
    ensures
        memdb_after(m, clear) == Map::<Seq<char>, Seq<char>>::empty(),
{
    lemma_memdb_ops_distinct();
}

/// Reading operations (`get`, `exists`, `list`) leave the database as it is.
pub proof fn lemma_reads_leave_database(m: Map<Seq<char>, Seq<char>>, args: JsonValue)
    requires
        str_arg(args, "operation"@) == Some("get"@) || str_arg(args, "operation"@) == Some("exists"@)
            || str_arg(args, "operation"@) == Some("list"@),
    ensures
        memdb_after(m, args) == m,
{
    lemma_memdb_ops_distinct();
}


/// Whether a call with arguments `a` may change key `k`: a `set` or `delete` of
/// `k`, or a `clear`.
pub open spec fn memdb_touches(a: JsonValue, k: Seq<char>) -> bool {
    let op = str_arg(a, "operation"@);
    ||| ((op == Some("set"@) || op == Some("delete"@)) && str_arg(a, "key"@) == Some(k))
    ||| op == Some("clear"@)
}

/// Whether `states` are the databases seen across calls of `execute` with the
/// arguments `argss`, in order: `states[j + 1]` is what the call with
/// `argss[j]` leaves of `states[j]`, as `execute` states.
pub open spec fn memdb_trace(states: Seq<Map<Seq<char>, Seq<char>>>, argss: Seq<JsonValue>) -> bool {
    &&& states.len() == argss.len() + 1
    &&& forall|j: int| 0 <= j < argss.len() ==> states[j + 1] == memdb_after(states[j], #[trigger] argss[j])
}

/// Read after set, over any sequence of calls: once `set` has stored `v` under
/// `k`, and no later call has set, deleted or cleared `k`, the database holds
/// `v` under `k`, and `get` of `k` answers `Value for '<k>': <v>`.
pub proof fn lemma_memdb_read_after_set(
    states: Seq<Map<Seq<char>, Seq<char>>>,
    argss: Seq<JsonValue>,
    i: int,
    k: Seq<char>,
    v: Seq<char>,
)
    requires
        memdb_trace(states, argss),
        0 <= i < argss.len(),
        str_arg(argss[i], "operation"@) == Some("set"@),
        str_arg(argss[i], "key"@) == Some(k),
        str_arg(argss[i], "value"@) == Some(v),
        forall|j: int| i < j < argss.len() ==> !memdb_touches(#[trigger] argss[j], k),
    ensures
        states.last().contains_key(k),
        states.last()[k] == v,
        forall|g: JsonValue, n: nat|
            str_arg(g, "operation"@) == Some("get"@) && str_arg(g, "key"@) == Some(k) ==> #[trigger] memdb_answer(
                states.last(),
                n,
                g,
            ) == Ok::<(bool, Seq<char>), Seq<char>>((true, "Value for '"@ + k + "': "@ + v)),
{
    lemma_memdb_ops_distinct();
    lemma_memdb_kept(states, argss, i, k, v, argss.len() as int);
    assert(states.last() == states[argss.len() as int]);
}

/// The value set by call `i` is still there after call `m - 1`.
proof fn lemma_memdb_kept(
    states: Seq<Map<Seq<char>, Seq<char>>>,
    argss: Seq<JsonValue>,
    i: int,
    k: Seq<char>,
    v: Seq<char>,
    m: int,
)
    requires
        memdb_trace(states, argss),
        0 <= i < m <= argss.len(),
        str_arg(argss[i], "operation"@) == Some("set"@),
        str_arg(argss[i], "key"@) == Some(k),
        str_arg(argss[i], "value"@) == Some(v),
        forall|j: int| i < j < argss.len() ==> !memdb_touches(#[trigger] argss[j], k),
    ensures
        states[m].contains_key(k),
        states[m][k] == v,
    decreases m - i,
{
    lemma_memdb_ops_distinct();
    assert(states[m] == memdb_after(states[m - 1], argss[m - 1]));
    if m - 1 > i {
        lemma_memdb_kept(states, argss, i, k, v, m - 1);
        assert(!memdb_touches(argss[m - 1], k));
    }
}

} // verus!
