//! The text processor tool: regular-expression search and replace (by the regex
//! crate), splitting, joining, counting, case changes, trimming and numbering.

use vstd::prelude::*;
use crate::error::HeliosError;
use crate::json::{JsonValue, str_arg, bool_arg};
use crate::text::{
    owned, push_str, str_eq, chars_of, string_of, decimal, usize_to_string, join, join_strings, lines,
    str_lines, words, words_exec, split_pattern, split_exec, trim, str_trim, utf8_len, byte_len,
    lowercase, uppercase, to_lowercase, to_uppercase,
};
use crate::tools::{ToolResult, is_tool_error, tool_ok};

verus! {

/// `regex::Regex`, a compiled regular expression.
#[verifier::external_type_specification]
#[verifier::external_body]
pub struct ExRegex(regex::Regex);

/// The text of the error that compiling `pattern` gives (case-insensitively when
/// `ci`), if compiling fails (`Regex::new` or `RegexBuilder::build`).
pub uninterp spec fn regex_compile_error(pattern: Seq<char>, ci: bool) -> Option<Seq<char>>;

/// The leftmost-first, non-overlapping matches of the compiled `pattern` in
/// `text` (`find_iter`): each match's byte offset and text.
pub uninterp spec fn regex_matches(pattern: Seq<char>, ci: bool, text: Seq<char>) -> Seq<(nat, Seq<char>)>;

/// The text with every match of the compiled `pattern` replaced by `rep`, with
/// `rep`'s `$` references expanded (`replace_all`).
pub uninterp spec fn regex_replaced(pattern: Seq<char>, ci: bool, text: Seq<char>, rep: Seq<char>) -> Seq<char>;

/// A regular expression compiled from `pattern`, case-insensitively when `ci`.
pub struct CompiledRegex {
    re: regex::Regex,
    pattern: String,
    ci: bool,
}

impl CompiledRegex {
    /// The pattern it was compiled from.
    pub closed spec fn source(&self) -> Seq<char> {
        self.pattern@
    }

    /// Whether it ignores case.
    pub closed spec fn ignores_case(&self) -> bool {
        self.ci
    }
}

/// `Regex::new(pattern)`, or `RegexBuilder::new(pattern).case_insensitive(true).build()`
/// when `ci`; the error's text on failure.
#[verifier::external_body]
pub(crate) fn compile_regex(pattern: &str, ci: bool) -> (r: Result<CompiledRegex, String>)
    ensures
        match regex_compile_error(pattern@, ci) {
            None => r matches Ok(c) && c.source() == pattern@ && c.ignores_case() == ci,
            Some(e) => r matches Err(m) && m@ == e,
        },
{
    let built = regex::RegexBuilder::new(pattern).case_insensitive(ci).build();
    match built {
        Ok(re) => Ok(CompiledRegex { re, pattern: pattern.to_string(), ci }),
        Err(e) => Err(e.to_string()),
    }
}

/// Whether the compiled `pattern` matches somewhere in `text` (`is_match`).
pub uninterp spec fn regex_is_match(pattern: Seq<char>, ci: bool, text: Seq<char>) -> bool;

/// `is_match`: whether `re` matches somewhere in `text`.
#[verifier::external_body]
pub(crate) fn is_match(re: &CompiledRegex, text: &str) -> (b: bool)
    ensures
        b == regex_is_match(re.source(), re.ignores_case(), text@),
{
    re.re.is_match(text)
}

/// `find_iter`: the matches of `re` in `text`, each by its start offset in bytes
/// and its text.
#[verifier::external_body]
fn find_matches(re: &CompiledRegex, text: &str) -> (out: Vec<(usize, String)>)
    ensures
        out@.map_values(|m: (usize, String)| (m.0 as nat, m.1@)) == regex_matches(re.source(), re.ignores_case(), text@),
{
    re.re.find_iter(text).map(|m| (m.start(), m.as_str().to_string())).collect()
}

/// `replace_all` of `re` in `text` by `rep`.
#[verifier::external_body]
fn replace_matches(re: &CompiledRegex, text: &str, rep: &str) -> (out: String)
    ensures
        out@ == regex_replaced(re.source(), re.ignores_case(), text@, rep@),
{
    re.re.replace_all(text, rep).to_string()
}

/// `format!("{:4}", n)`: the decimal text of `n` right-aligned in four columns.
pub open spec fn pad4(n: nat) -> Seq<char> {
    let d = decimal(n);
    if d.len() < 4 {
        Seq::new((4 - d.len()) as nat, |i: int| ' ') + d
    } else {
        d
    }
}

/// The numbered lines of `items`, starting at `first`: `{:4}: item`.
pub open spec fn numbered(items: Seq<Seq<char>>, first: nat) -> Seq<Seq<char>> {
    Seq::new(items.len(), |i: int| pad4((first + i) as nat) + ": "@ + items[i])
}

/// The matches reported by `search`.
pub open spec fn match_report(ms: Seq<(nat, Seq<char>)>) -> Seq<char>
    decreases ms.len(),
{
    if ms.len() == 0 {
        Seq::empty()
    } else {
        match_report(ms.drop_last()) + decimal(ms.len()) + ". Position "@ + decimal(ms.last().0) + ": '"@
            + ms.last().1 + "'\n"@
    }
}

/// The parts reported by `split`.
pub open spec fn part_lines(ps: Seq<Seq<char>>) -> Seq<Seq<char>> {
    Seq::new(ps.len(), |i: int| decimal((i + 1) as nat) + ". '"@ + ps[i] + "'"@)
}

/// The row `Line r: ...` of the given numbered words.
pub open spec fn word_row(r: nat, items: Seq<Seq<char>>) -> Seq<char> {
    "Line "@ + decimal(r) + ": "@ + join(items, " "@)
}

/// The rows of at most ten numbered words reported by `words`, numbered from `r`.
pub open spec fn chunk_rows(items: Seq<Seq<char>>, r: nat) -> Seq<Seq<char>>
    decreases items.len(),
{
    if items.len() == 0 {
        Seq::empty()
    } else if items.len() <= 10 {
        seq![word_row(r, items)]
    } else {
        seq![word_row(r, items.take(10))] + chunk_rows(items.skip(10), r + 1)
    }
}

/// What the text processor answers: `Ok(text)` for success or `Err(text)` for a
/// tool error.
pub open spec fn text_tool_answer(args: JsonValue) -> Result<Seq<char>, Seq<char>> {
    match (str_arg(args, "operation"@), str_arg(args, "text"@)) {
        (None, _) => Err("Missing 'operation' parameter"@),
        (Some(_), None) => Err("Missing 'text' parameter"@),
        (Some(op), Some(text)) => {
            let ci = bool_arg(args, "case_sensitive"@) == Some(false);
            let sep = match str_arg(args, "separator"@) {
                Some(s) => s,
                None => " "@,
            };
            if op == "search"@ || op == "replace"@ {
                match str_arg(args, "pattern"@) {
                    None => Err("Missing 'pattern' parameter for "@ + op + " operation"@),
                    Some(p) => match regex_compile_error(p, ci) {
                        Some(e) => Err("Invalid regex pattern: "@ + e),
                        None => {
                            let ms = regex_matches(p, ci, text);
                            if op == "search"@ {
                                if ms.len() == 0 {
                                    Ok("No matches found"@)
                                } else {
                                    Ok("Found "@ + decimal(ms.len()) + " match(es):\n"@ + match_report(ms))
                                }
                            } else {
                                let rep = match str_arg(args, "replacement"@) {
                                    Some(r) => r,
                                    None => Seq::empty(),
                                };
                                Ok("Replaced "@ + decimal(ms.len()) + " occurrence(s):\n\n"@ + regex_replaced(p, ci, text, rep))
                            }
                        },
                    },
                }
            } else if op == "split"@ {
                let parts = split_pattern(text, sep);
                Ok("Split into "@ + decimal(parts.len()) + " parts:\n"@ + join(part_lines(parts), "\n"@))
            } else if op == "join"@ {
                let ls = lines(text);
                Ok("Joined "@ + decimal(ls.len()) + " lines with '"@ + sep + "':\n"@ + join(ls, sep))
            } else if op == "count"@ {
                Ok("Text statistics:\nCharacters: "@ + decimal(text.len()) + "\nBytes: "@ + decimal(utf8_len(text))
                    + "\nLines: "@ + decimal(lines(text).len()) + "\nWords: "@ + decimal(words(text).len()))
            } else if op == "uppercase"@ {
                Ok(uppercase(text))
            } else if op == "lowercase"@ {
                Ok(lowercase(text))
            } else if op == "trim"@ {
                Ok(trim(text))
            } else if op == "lines"@ {
                let ls = lines(text);
                Ok("Text with line numbers ("@ + decimal(ls.len()) + " lines):\n"@ + join(numbered(ls, 1), "\n"@))
            } else if op == "words"@ {
                let ws = words(text);
                Ok("Words ("@ + decimal(ws.len()) + " total):\n"@ + join(chunk_rows(numbered(ws, 1), 1), "\n"@))
            } else {
                Err("Unknown operation '"@ + op
                    + "'. Valid operations: search, replace, split, join, count, uppercase, lowercase, trim, lines, words"@)
            }
        },
    }
}

fn pad4_exec(n: usize) -> (out: String)
    ensures
        out@ == pad4(n as nat),
{
    let d = usize_to_string(n);
    let dc = chars_of(d.as_str());
    let mut out = String::new();
    if dc.len() < 4 {
        let mut k: usize = 0;
        while k < 4 - dc.len()
            invariant
                k <= 4 - dc@.len(),
                dc@.len() < 4,
                dc@ == d@,
                out@ == Seq::new(k as nat, |i: int| ' '),
            decreases 4 - dc@.len() - k,
        {
            crate::text::push_char(&mut out, ' ');
            k = k + 1;
            assert(out@ =~= Seq::new(k as nat, |i: int| ' '));
        }
    }
    push_str(&mut out, d.as_str());
    assert(out@ =~= pad4(n as nat));
    out
}

fn numbered_exec(items: &Vec<String>) -> (out: Vec<String>)
    ensures
        out@.map_values(|s: String| s@) == numbered(items@.map_values(|s: String| s@), 1),
{
    let ghost iv = items@.map_values(|s: String| s@);
    let mut out: Vec<String> = Vec::new();
    let mut i: usize = 0;
    while i < items.len()
        invariant
            i <= items@.len(),
            iv == items@.map_values(|s: String| s@),
            out@.len() == i,
            forall|k: int| 0 <= k < i ==> #[trigger] out@[k]@ == pad4((1 + k) as nat) + ": "@ + iv[k],
        decreases items@.len() - i,
    {
        let mut line = pad4_exec(i + 1);
        push_str(&mut line, ": ");
        push_str(&mut line, items[i].as_str());
        out.push(line);
        i = i + 1;
    }
    assert(out@.map_values(|s: String| s@) =~= numbered(iv, 1));
    out
}

fn strings_of(vs: &Vec<Vec<char>>) -> (out: Vec<String>)
    ensures
        out@.map_values(|s: String| s@) == vs@.map_values(|v: Vec<char>| v@),
{
    let mut out: Vec<String> = Vec::new();
    let mut i: usize = 0;
    while i < vs.len()
        invariant
            i <= vs@.len(),
            out@.len() == i,
            forall|k: int| 0 <= k < i ==> #[trigger] out@[k]@ == vs@[k]@,
        decreases vs@.len() - i,
    {
        out.push(string_of(vs[i].as_slice()));
        i = i + 1;
    }
    assert(out@.map_values(|s: String| s@) =~= vs@.map_values(|v: Vec<char>| v@));
    out
}

fn search_report(ms: &Vec<(usize, String)>) -> (out: String)
    ensures
        ({
            let mv = ms@.map_values(|m: (usize, String)| (m.0 as nat, m.1@));
            out@ == if mv.len() == 0 {
                "No matches found"@
            } else {
                "Found "@ + decimal(mv.len()) + " match(es):\n"@ + match_report(mv)
            }
        }),
{
    let ghost mv = ms@.map_values(|m: (usize, String)| (m.0 as nat, m.1@));
    if ms.len() == 0 {
        return owned("No matches found");
    }
    let mut out = String::new();
    push_str(&mut out, "Found ");
    push_str(&mut out, usize_to_string(ms.len()).as_str());
    push_str(&mut out, " match(es):\n");
    let ghost head = out@;
    let mut i: usize = 0;
    while i < ms.len()
        invariant
            i <= ms@.len(),
            mv == ms@.map_values(|m: (usize, String)| (m.0 as nat, m.1@)),
            out@ == head + match_report(mv.take(i as int)),
        decreases ms@.len() - i,
    {
        assert(mv.take(i + 1).drop_last() =~= mv.take(i as int));
        push_str(&mut out, usize_to_string(i + 1).as_str());
        push_str(&mut out, ". Position ");
        push_str(&mut out, usize_to_string(ms[i].0).as_str());
        push_str(&mut out, ": '");
        push_str(&mut out, ms[i].1.as_str());
        push_str(&mut out, "'\n");
        i = i + 1;
        assert(out@ =~= head + match_report(mv.take(i as int)));
    }
    assert(mv.take(ms@.len() as int) =~= mv);
    out
}

fn split_report(text: &str, sep: &str) -> (out: String)
    ensures
        out@ == "Split into "@ + decimal(split_pattern(text@, sep@).len()) + " parts:\n"@ + join(
            part_lines(split_pattern(text@, sep@)),
            "\n"@,
        ),
{
    let tc = chars_of(text);
    let sc = chars_of(sep);
    let parts = split_exec(tc.as_slice(), sc.as_slice());
    let ghost pv = parts@.map_values(|l: Vec<char>| l@);
    let mut lines_out: Vec<String> = Vec::new();
    let mut i: usize = 0;
    while i < parts.len()
        invariant
            i <= parts@.len(),
            pv == parts@.map_values(|l: Vec<char>| l@),
            lines_out@.len() == i,
            forall|k: int| 0 <= k < i ==> #[trigger] lines_out@[k]@ == decimal((k + 1) as nat) + ". '"@ + pv[k] + "'"@,
        decreases parts@.len() - i,
    {
        let mut l = usize_to_string(i + 1);
        push_str(&mut l, ". '");
        push_str(&mut l, string_of(parts[i].as_slice()).as_str());
        push_str(&mut l, "'");
        lines_out.push(l);
        i = i + 1;
    }
    assert(lines_out@.map_values(|s: String| s@) =~= part_lines(pv));
    let mut out = String::new();
    push_str(&mut out, "Split into ");
    push_str(&mut out, usize_to_string(parts.len()).as_str());
    push_str(&mut out, " parts:\n");
    push_str(&mut out, join_strings(&lines_out, "\n").as_str());
    out
}

fn count_report(text: &str) -> (out: String)
    ensures
        out@ == "Text statistics:\nCharacters: "@ + decimal(text@.len()) + "\nBytes: "@ + decimal(utf8_len(text@))
            + "\nLines: "@ + decimal(lines(text@).len()) + "\nWords: "@ + decimal(words(text@).len()),
{
    let tc = chars_of(text);
    let ls = str_lines(text);
    let ws = words_exec(tc.as_slice());
    let mut out = String::new();
    push_str(&mut out, "Text statistics:\nCharacters: ");
    push_str(&mut out, usize_to_string(tc.len()).as_str());
    push_str(&mut out, "\nBytes: ");
    push_str(&mut out, usize_to_string(byte_len(text)).as_str());
    push_str(&mut out, "\nLines: ");
    push_str(&mut out, usize_to_string(ls.len()).as_str());
    push_str(&mut out, "\nWords: ");
    push_str(&mut out, usize_to_string(ws.len()).as_str());
    out
}

fn words_report(text: &str) -> (out: String)
    ensures
        out@ == "Words ("@ + decimal(words(text@).len()) + " total):\n"@ + join(
            chunk_rows(numbered(words(text@), 1), 1),
            "\n"@,
        ),
{
    let tc = chars_of(text);
    let ws = strings_of(&words_exec(tc.as_slice()));
    let ghost wv = ws@.map_values(|s: String| s@);
    let nw = numbered_exec(&ws);
    let ghost nv = numbered(wv, 1);
    let n = nw.len();
    let mut rows: Vec<String> = Vec::new();
    let mut start: usize = 0;
    let mut r: usize = 1;
    assert(nv.skip(0) =~= nv);
    assert(rows@.map_values(|s: String| s@) + chunk_rows(nv.skip(0), 1) =~= chunk_rows(nv, 1));
    while start < n
        invariant
            n == nw@.len(),
            nv == nw@.map_values(|s: String| s@),
            start <= n,
            r >= 1,
            start < n ==> start == 10 * (r - 1),
            rows@.map_values(|s: String| s@) + chunk_rows(nv.skip(start as int), r as nat) == chunk_rows(nv, 1),
        decreases n - start,
    {
        let end = if n - start > 10 { start + 10 } else { n };
        let mut chunk: Vec<String> = Vec::new();
        let mut j = start;
        while j < end
            invariant
                start <= j <= end <= n,
                n == nw@.len(),
                nv == nw@.map_values(|s: String| s@),
                chunk@.map_values(|s: String| s@) == nv.subrange(start as int, j as int),
            decreases end - j,
        {
            chunk.push(nw[j].clone());
            assert(chunk@.map_values(|s: String| s@) =~= nv.subrange(start as int, j + 1));
            j = j + 1;
        }
        let mut row = String::new();
        push_str(&mut row, "Line ");
        push_str(&mut row, usize_to_string(r).as_str());
        push_str(&mut row, ": ");
        push_str(&mut row, join_strings(&chunk, " ").as_str());
        let ghost rest = nv.skip(start as int);
        let ghost before = rows@.map_values(|s: String| s@);
        proof {
            if n - start > 10 {
                assert(rest.take(10) =~= nv.subrange(start as int, end as int));
                assert(rest.skip(10) =~= nv.skip(end as int));
            } else {
                assert(rest =~= nv.subrange(start as int, end as int));
                assert(nv.skip(end as int) =~= Seq::<Seq<char>>::empty());
            }
        }
        rows.push(row);
        assert(rows@.map_values(|s: String| s@) =~= before.push(word_row(r as nat, nv.subrange(start as int, end as int))));
        assert(rows@.map_values(|s: String| s@) + chunk_rows(nv.skip(end as int), (r + 1) as nat) =~= before + chunk_rows(rest, r as nat));
        start = end;
        r = r + 1;
    }
    assert(nv.skip(n as int) =~= Seq::<Seq<char>>::empty());
    assert(rows@.map_values(|s: String| s@) =~= chunk_rows(nv, 1));
    let mut out = String::new();
    push_str(&mut out, "Words (");
    push_str(&mut out, usize_to_string(ws.len()).as_str());
    push_str(&mut out, " total):\n");
    push_str(&mut out, join_strings(&rows, "\n").as_str());
    out
}

fn regex_report(op_search: bool, pattern: &str, ci: bool, text: &str, rep: &str) -> (r: Result<String, String>)
    ensures
        match regex_compile_error(pattern@, ci) {
            Some(e) => r matches Err(m) && m@ == "Invalid regex pattern: "@ + e,
            None => r matches Ok(out) && {
                let ms = regex_matches(pattern@, ci, text@);
                out@ == if op_search {
                    if ms.len() == 0 {
                        "No matches found"@
                    } else {
                        "Found "@ + decimal(ms.len()) + " match(es):\n"@ + match_report(ms)
                    }
                } else {
                    "Replaced "@ + decimal(ms.len()) + " occurrence(s):\n\n"@ + regex_replaced(pattern@, ci, text@, rep@)
                }
            },
        },
{
    let re = match compile_regex(pattern, ci) {
        Ok(re) => re,
        Err(e) => {
            let mut m = String::new();
            push_str(&mut m, "Invalid regex pattern: ");
            push_str(&mut m, e.as_str());
            return Err(m);
        },
    };
    let ms = find_matches(&re, text);
    if op_search {
        return Ok(search_report(&ms));
    }
    let replaced = replace_matches(&re, text, rep);
    let mut out = String::new();
    push_str(&mut out, "Replaced ");
    push_str(&mut out, usize_to_string(ms.len()).as_str());
    push_str(&mut out, " occurrence(s):\n\n");
    push_str(&mut out, replaced.as_str());
    Ok(out)
}

/// Runs operation `operation` on the argument `text`.
pub fn text_processor_tool(args: &JsonValue) -> (r: Result<ToolResult, HeliosError>)
    ensures
        match text_tool_answer(*args) {
            Ok(t) => tool_ok(r, t),
            Err(m) => is_tool_error(r, m),
        },
{
    let op = match args.str_member("operation") {
        Some(o) => o,
        None => {
            return Err(HeliosError::ToolError(owned("Missing 'operation' parameter")));
        },
    };
    let text = match args.str_member("text") {
        Some(t) => t,
        None => {
            return Err(HeliosError::ToolError(owned("Missing 'text' parameter")));
        },
    };
    let ci = match args.bool_member("case_sensitive") {
        Some(b) => !b,
        None => false,
    };
    let sep = match args.str_member("separator") {
        Some(s) => s,
        None => " ",
    };
    let is_search = str_eq(op, "search");
    if is_search || str_eq(op, "replace") {
        let pattern = match args.str_member("pattern") {
            Some(p) => p,
            None => {
                let mut m = String::new();
                push_str(&mut m, "Missing 'pattern' parameter for ");
                push_str(&mut m, op);
                push_str(&mut m, " operation");
                return Err(HeliosError::ToolError(m));
            },
        };
        let rep = match args.str_member("replacement") {
            Some(r) => r,
            None => "",
        };
        proof {
            reveal_strlit("");
            assert(""@ =~= Seq::<char>::empty());
        }
        return match regex_report(is_search, pattern, ci, text, rep) {
            Ok(out) => Ok(ToolResult::success(out.as_str())),
            Err(m) => Err(HeliosError::ToolError(m)),
        };
    }
    if str_eq(op, "split") {
        return Ok(ToolResult::success(split_report(text, sep).as_str()));
    }
    if str_eq(op, "join") {
        let ls = str_lines(text);
        let mut out = String::new();
        push_str(&mut out, "Joined ");
        push_str(&mut out, usize_to_string(ls.len()).as_str());
        push_str(&mut out, " lines with '");
        push_str(&mut out, sep);
        push_str(&mut out, "':\n");
        push_str(&mut out, join_strings(&ls, sep).as_str());
        return Ok(ToolResult::success(out.as_str()));
    }
    if str_eq(op, "count") {
        return Ok(ToolResult::success(count_report(text).as_str()));
    }
    if str_eq(op, "uppercase") {
        return Ok(ToolResult::success(to_uppercase(text).as_str()));
    }
    if str_eq(op, "lowercase") {
        return Ok(ToolResult::success(to_lowercase(text).as_str()));
    }
    if str_eq(op, "trim") {
        return Ok(ToolResult::success(str_trim(text).as_str()));
    }
    if str_eq(op, "lines") {
        let ls = str_lines(text);
        let nl = numbered_exec(&ls);
        let mut out = String::new();
        push_str(&mut out, "Text with line numbers (");
        push_str(&mut out, usize_to_string(nl.len()).as_str());
        push_str(&mut out, " lines):\n");
        push_str(&mut out, join_strings(&nl, "\n").as_str());
        return Ok(ToolResult::success(out.as_str()));
    }
    if str_eq(op, "words") {
        return Ok(ToolResult::success(words_report(text).as_str()));
    }
    let mut m = String::new();
    push_str(&mut m, "Unknown operation '");
    push_str(&mut m, op);
    push_str(&mut m, "'. Valid operations: search, replace, split, join, count, uppercase, lowercase, trim, lines, words");
    Err(HeliosError::ToolError(m))
}

} // verus!
