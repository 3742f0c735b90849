//! The echo, calculator, shell, HTTP, web-scraper and system-information tools:
//! how each reads its arguments, decides what to do, and reports what happened.
//! The network, process and machine queries themselves are made by the caller.

use vstd::prelude::*;
use crate::error::HeliosError;
use crate::json::{JsonValue, str_arg, bool_arg, u64_arg};
use crate::text::{owned, push_str, push_char, str_lines, str_trim, join_strings, join, lines, trim, contains, str_contains, u64_to_string, decimal};
use crate::tools::{ToolResult, is_tool_error, tool_ok, tool_failed};

verus! {

/// What the echo tool answers: the message after `Echo: `, or an error when no
/// message is given.
pub fn echo_tool(args: &JsonValue) -> (r: Result<ToolResult, HeliosError>)
    ensures
        match str_arg(*args, "message"@) {
            Some(m) => tool_ok(r, "Echo: "@ + m),
            None => is_tool_error(r, "Missing 'message' parameter"@),
        },
{
    match args.str_member("message") {
        Some(m) => {
            let mut out = owned("Echo: ");
            push_str(&mut out, m);
            Ok(ToolResult::success(out.as_str()))
        },
        None => Err(HeliosError::ToolError(owned("Missing 'message' parameter"))),
    }
}

/// The characters outside markup tags, and whether the scan ends inside a tag:
/// `<` opens a tag, `>` closes one, and both are dropped.
pub open spec fn untagged_fold(s: Seq<char>) -> (Seq<char>, bool)
    decreases s.len(),
{
    if s.len() == 0 {
        (Seq::empty(), false)
    } else {
        let (out, in_tag) = untagged_fold(s.drop_last());
        let c = s.last();
        if c == '<' {
            (out, true)
        } else if c == '>' {
            (out, false)
        } else if !in_tag {
            (out.push(c), in_tag)
        } else {
            (out, in_tag)
        }
    }
}

/// The trimmed lines that are not blank, in order.
pub open spec fn kept_lines(ls: Seq<Seq<char>>) -> Seq<Seq<char>>
    decreases ls.len(),
{
    if ls.len() == 0 {
        Seq::empty()
    } else {
        let rest = kept_lines(ls.drop_last());
        if trim(ls.last()).len() == 0 {
            rest
        } else {
            rest.push(trim(ls.last()))
        }
    }
}

/// The readable text of an HTML document: the characters outside tags, split
/// into lines, each trimmed, blank lines dropped, joined by newlines.
pub open spec fn html_text(html: Seq<char>) -> Seq<char> {
    join(kept_lines(lines(untagged_fold(html).0)), "\n"@)
}

/// Extracts the readable text of an HTML document.
pub fn extract_text_from_html(html: &str) -> (out: String)
    ensures
        out@ == html_text(html@),
{
    let mut result = String::new();
    let mut in_tag = false;
    for ch in it: html.chars()
        invariant
            (result@, in_tag) == untagged_fold(it.seq().take(it.index() as int)),
            it.seq() == html@,
    {
        assert(it.seq().take(it.index() + 1).drop_last() =~= it.seq().take(it.index() as int));
        if ch == '<' {
            in_tag = true;
        } else if ch == '>' {
            in_tag = false;
        } else if !in_tag {
            push_char(&mut result, ch);
        }
    }
    assert(html@.take(html@.len() as int) =~= html@);
    let ls = str_lines(result.as_str());
    let ghost views = ls@.map_values(|l: String| l@);
    let mut kept: Vec<String> = Vec::new();
    let mut i: usize = 0;
    while i < ls.len()
        invariant
            i <= ls@.len(),
            views == ls@.map_values(|l: String| l@),
            views == lines(untagged_fold(html@).0),
            kept@.map_values(|l: String| l@) == kept_lines(views.take(i as int)),
        decreases ls@.len() - i,
    {
        assert(views.take(i + 1).drop_last() =~= views.take(i as int));
        let t = str_trim(ls[i].as_str());
        if !t.as_str().is_empty() {
            let ghost before = kept@.map_values(|l: String| l@);
            kept.push(t);
            assert(kept@.map_values(|l: String| l@) =~= before.push(trim(views[i as int])));
        }
        i = i + 1;
    }
    assert(views.take(ls@.len() as int) =~= views);
    join_strings(&kept, "\n")
}


/// The error for an HTTP client that could not be built.
pub fn client_failure(detail: &str) -> (e: HeliosError)
    ensures
        e matches HeliosError::ToolError(m) && m@ == "Failed to create HTTP client: "@ + detail@,
{
    let mut m = owned("Failed to create HTTP client: ");
    push_str(&mut m, detail);
    HeliosError::ToolError(m)
}

/// Whether an HTTP status code means success (2xx).
pub open spec fn status_ok(code: u16) -> bool {
    200 <= code < 300
}

/// What the web scraper was asked for.
#[derive(Debug)]
pub struct ScrapeRequest {
    /// The page to fetch.
    pub url: String,
    /// Whether to reduce an HTML page to its text.
    pub extract_text: bool,
    /// The request timeout, in seconds.
    pub timeout_seconds: u64,
}

/// Reads the web scraper's arguments: `url` is required, `extract_text`
/// defaults to true and `timeout_seconds` to 30.
pub fn web_scraper_request(args: &JsonValue) -> (r: Result<ScrapeRequest, HeliosError>)
    ensures
        match str_arg(*args, "url"@) {
            None => is_tool_error(r, "Missing 'url' parameter"@),
            Some(u) => r matches Ok(q) && q.url@ == u
                && q.extract_text == (match bool_arg(*args, "extract_text"@) { Some(b) => b, None => true })
                && q.timeout_seconds == (match u64_arg(*args, "timeout_seconds"@) { Some(t) => t, None => 30 }),
        },
{
    let url = match args.str_member("url") {
        Some(u) => u,
        None => {
            return Err(HeliosError::ToolError(owned("Missing 'url' parameter")));
        },
    };
    let extract_text = match args.bool_member("extract_text") {
        Some(b) => b,
        None => true,
    };
    let timeout_seconds = match args.u64_member("timeout_seconds") {
        Some(t) => t,
        None => 30,
    };
    Ok(ScrapeRequest { url: owned(url), extract_text, timeout_seconds })
}

/// What came of fetching a page.
#[derive(Debug)]
pub enum FetchOutcome {
    /// The request could not be sent; the error's text.
    SendFailed(String),
    /// The server answered.
    Responded {
        /// The status code.
        code: u16,
        /// The status as displayed (e.g. `404 Not Found`).
        status: String,
        /// The `Content-Type` header, when present and readable as text.
        content_type: Option<String>,
        /// The body as text, or the error that reading it gave.
        body: Result<String, String>,
    },
}

/// What the web scraper answers for a request and the outcome of the fetch:
/// `Ok(text)` for success, `Err(text)` for a tool error.
pub open spec fn scrape_answer(url: Seq<char>, extract: bool, o: FetchOutcome) -> Result<Seq<char>, Seq<char>> {
    match o {
        FetchOutcome::SendFailed(e) => Err("HTTP request failed: "@ + e@),
        FetchOutcome::Responded { code, status, content_type, body } => {
            let ct = match content_type { Some(c) => c@, None => Seq::empty() };
            if !status_ok(code) {
                Err("HTTP request failed with status: "@ + status@)
            } else {
                match body {
                    Err(e) => Err("Failed to read response body: "@ + e@),
                    Ok(b) => {
                        let shown = if extract && contains(ct, "text/html"@) { html_text(b@) } else { b@ };
                        Ok("Content fetched from: "@ + url + "\nContent-Type: "@ + ct + "\n\n"@ + shown)
                    },
                }
            }
        },
    }
}

/// Reports the outcome of a web-scraper fetch.
pub fn web_scraper_report(req: &ScrapeRequest, outcome: FetchOutcome) -> (r: Result<ToolResult, HeliosError>)
    ensures
        match scrape_answer(req.url@, req.extract_text, outcome) {
            Ok(t) => tool_ok(r, t),
            Err(m) => is_tool_error(r, m),
        },
{
    match outcome {
        FetchOutcome::SendFailed(e) => {
            let mut m = owned("HTTP request failed: ");
            push_str(&mut m, e.as_str());
            Err(HeliosError::ToolError(m))
        },
        FetchOutcome::Responded { code, status, content_type, body } => {
            if !(200 <= code && code < 300) {
                let mut m = owned("HTTP request failed with status: ");
                push_str(&mut m, status.as_str());
                return Err(HeliosError::ToolError(m));
            }
            let ct = match content_type {
                Some(c) => c,
                None => String::new(),
            };
            proof {
                reveal_strlit("");
            }
            match body {
                Err(e) => {
                    let mut m = owned("Failed to read response body: ");
                    push_str(&mut m, e.as_str());
                    Err(HeliosError::ToolError(m))
                },
                Ok(b) => {
                    let shown = if req.extract_text && str_contains(ct.as_str(), "text/html") {
                        extract_text_from_html(b.as_str())
                    } else {
                        b
                    };
                    let mut out = owned("Content fetched from: ");
                    push_str(&mut out, req.url.as_str());
                    push_str(&mut out, "\nContent-Type: ");
                    push_str(&mut out, ct.as_str());
                    push_str(&mut out, "\n\n");
                    push_str(&mut out, shown.as_str());
                    Ok(ToolResult::success(out.as_str()))
                },
            }
        },
    }
}


/// The HTTP tool's required arguments and timeout.
#[derive(Debug)]
pub struct HttpArgs {
    /// The method as given.
    pub method: String,
    /// The target URL.
    pub url: String,
    /// The request timeout, in seconds.
    pub timeout_seconds: u64,
}

/// Reads the HTTP tool's `method` and `url` (both required) and its
/// `timeout_seconds` (default 30).
pub fn http_request_args(args: &JsonValue) -> (r: Result<HttpArgs, HeliosError>)
    ensures
        match (str_arg(*args, "method"@), str_arg(*args, "url"@)) {
            (None, _) => is_tool_error(r, "Missing 'method' parameter"@),
            (Some(_), None) => is_tool_error(r, "Missing 'url' parameter"@),
            (Some(m), Some(u)) => r matches Ok(a) && a.method@ == m && a.url@ == u
                && a.timeout_seconds == (match u64_arg(*args, "timeout_seconds"@) { Some(t) => t, None => 30 }),
        },
{
    let method = match args.str_member("method") {
        Some(m) => m,
        None => {
            return Err(HeliosError::ToolError(owned("Missing 'method' parameter")));
        },
    };
    let url = match args.str_member("url") {
        Some(u) => u,
        None => {
            return Err(HeliosError::ToolError(owned("Missing 'url' parameter")));
        },
    };
    let timeout_seconds = match args.u64_member("timeout_seconds") {
        Some(t) => t,
        None => 30,
    };
    Ok(HttpArgs { method: owned(method), url: owned(url), timeout_seconds })
}

/// The methods the HTTP tool sends, by their upper-case names.
pub open spec fn known_method(m: Seq<char>) -> bool {
    m == "GET"@ || m == "POST"@ || m == "PUT"@ || m == "DELETE"@ || m == "PATCH"@ || m == "HEAD"@
}

/// The methods that carry a body.
pub open spec fn body_method(m: Seq<char>) -> bool {
    m == "POST"@ || m == "PUT"@ || m == "PATCH"@
}

/// The members of an object whose values are strings, in order, as (name, text).
pub open spec fn string_members(ms: Seq<(String, JsonValue)>) -> Seq<(Seq<char>, Seq<char>)>
    decreases ms.len(),
{
    if ms.len() == 0 {
        Seq::empty()
    } else {
        let rest = string_members(ms.drop_last());
        match ms.last().1 {
            JsonValue::String(v) => rest.push((ms.last().0@, v@)),
            _ => rest,
        }
    }
}

/// The request headers: the string members of the `headers` object, if any.
pub open spec fn header_args(args: JsonValue) -> Seq<(Seq<char>, Seq<char>)> {
    match crate::json::json_get(args, "headers"@) {
        Some(JsonValue::Object(ms)) => string_members(ms@),
        _ => Seq::empty(),
    }
}

/// The request the HTTP tool sends.
#[derive(Debug)]
pub struct HttpPlan {
    /// The method, upper-cased.
    pub method: String,
    /// The target URL.
    pub url: String,
    /// The headers to set, in order.
    pub headers: Vec<(String, String)>,
    /// The body, for methods that carry one.
    pub body: Option<String>,
}

/// The text of an optional string.
pub open spec fn opt_view(o: Option<String>) -> Option<Seq<char>> {
    match o {
        Some(s) => Some(s@),
        None => None,
    }
}

/// The view of a list of string pairs.
pub open spec fn pair_views(v: Seq<(String, String)>) -> Seq<(Seq<char>, Seq<char>)> {
    v.map_values(|p: (String, String)| (p.0@, p.1@))
}

/// Decides the request: the method upper-cased must be one the tool knows (else
/// the error names the method as given); the headers are the string members of
/// `headers`; the body is `body` for POST, PUT and PATCH.
pub fn http_request_plan(args: &JsonValue, a: &HttpArgs) -> (r: Result<HttpPlan, HeliosError>)
    ensures
        ({
            let m = crate::text::uppercase(a.method@);
            if known_method(m) {
                r matches Ok(p) && p.method@ == m && p.url@ == a.url@
                    && pair_views(p.headers@) == header_args(*args)
                    && opt_view(p.body) == (if body_method(m) { str_arg(*args, "body"@) } else { None })
            } else {
                is_tool_error(r, "Unsupported HTTP method: "@ + a.method@)
            }
        }),
{
    let m = crate::text::to_uppercase(a.method.as_str());
    let ms = m.as_str();
    let is_body = crate::text::str_eq(ms, "POST") || crate::text::str_eq(ms, "PUT") || crate::text::str_eq(ms, "PATCH");
    if !(is_body || crate::text::str_eq(ms, "GET") || crate::text::str_eq(ms, "DELETE") || crate::text::str_eq(ms, "HEAD")) {
        let mut e = owned("Unsupported HTTP method: ");
        push_str(&mut e, a.method.as_str());
        return Err(HeliosError::ToolError(e));
    }
    let mut headers: Vec<(String, String)> = Vec::new();
    match args.get("headers") {
        Some(JsonValue::Object(members)) => {
            let mut i: usize = 0;
            while i < members.len()
                invariant
                    i <= members@.len(),
                    pair_views(headers@) == string_members(members@.take(i as int)),
                decreases members@.len() - i,
            {
                assert(members@.take(i + 1).drop_last() =~= members@.take(i as int));
                match &members[i].1 {
                    JsonValue::String(v) => {
                        let ghost before = pair_views(headers@);
                        headers.push((members[i].0.clone(), v.clone()));
                        assert(pair_views(headers@) =~= before.push((members@[i as int].0@, v@)));
                    },
                    _ => {},
                }
                i = i + 1;
            }
            assert(members@.take(members@.len() as int) =~= members@);
        },
        _ => {},
    }
    let body = if is_body {
        match args.str_member("body") {
            Some(b) => Some(owned(b)),
            None => None,
        }
    } else {
        None
    };
    Ok(HttpPlan { method: m, url: a.url.clone(), headers, body })
}

/// What came of sending an HTTP request.
#[derive(Debug)]
pub enum HttpOutcome {
    /// The request could not be sent; the error's text.
    SendFailed(String),
    /// The server answered.
    Responded {
        /// The status code.
        code: u16,
        /// The status as displayed (e.g. `200 OK`).
        status: String,
        /// The response headers, each value as text when it is readable as such.
        headers: Vec<(String, Option<String>)>,
        /// The body as text, or nothing when it could not be read as text.
        body: Option<String>,
    },
}

/// The header lines of a response: `name: value` for each value readable as text.
pub open spec fn header_lines(hs: Seq<(String, Option<String>)>) -> Seq<char>
    decreases hs.len(),
{
    if hs.len() == 0 {
        Seq::empty()
    } else {
        let rest = header_lines(hs.drop_last());
        match hs.last().1 {
            Some(v) => rest + hs.last().0@ + ": "@ + v@ + "\n"@,
            None => rest,
        }
    }
}

/// The report of an answered HTTP request.
pub open spec fn http_text(method: Seq<char>, url: Seq<char>, status: Seq<char>, hs: Seq<(String, Option<String>)>, body: Option<String>) -> Seq<char> {
    "HTTP "@ + method + " "@ + url + "\nStatus: "@ + status + "\n\n"@ + "Response Headers:\n"@ + header_lines(hs)
        + "\nResponse Body:\n"@ + (match body { Some(b) => b@, None => "Binary content"@ })
}

/// Reports the outcome of an HTTP request: an error when it could not be sent;
/// otherwise the report, successful exactly for a 2xx status.
pub fn http_request_report(plan: &HttpPlan, outcome: HttpOutcome) -> (r: Result<ToolResult, HeliosError>)
    ensures
        match outcome {
            HttpOutcome::SendFailed(e) => is_tool_error(r, "HTTP request failed: "@ + e@),
            HttpOutcome::Responded { code, status, headers, body } => {
                let t = http_text(plan.method@, plan.url@, status@, headers@, body);
                if status_ok(code) { tool_ok(r, t) } else { tool_failed(r, t) }
            },
        },
{
    match outcome {
        HttpOutcome::SendFailed(e) => {
            let mut m = owned("HTTP request failed: ");
            push_str(&mut m, e.as_str());
            Err(HeliosError::ToolError(m))
        },
        HttpOutcome::Responded { code, status, headers, body } => {
            let mut out = owned("HTTP ");
            push_str(&mut out, plan.method.as_str());
            push_str(&mut out, " ");
            push_str(&mut out, plan.url.as_str());
            push_str(&mut out, "\nStatus: ");
            push_str(&mut out, status.as_str());
            push_str(&mut out, "\n\n");
            push_str(&mut out, "Response Headers:\n");
            let ghost head = out@;
            let mut i: usize = 0;
            while i < headers.len()
                invariant
                    i <= headers@.len(),
                    out@ == head + header_lines(headers@.take(i as int)),
                decreases headers@.len() - i,
            {
                assert(headers@.take(i + 1).drop_last() =~= headers@.take(i as int));
                match &headers[i].1 {
                    Some(v) => {
                        push_str(&mut out, headers[i].0.as_str());
                        push_str(&mut out, ": ");
                        push_str(&mut out, v.as_str());
                        push_str(&mut out, "\n");
                    },
                    None => {},
                }
                i = i + 1;
            }
            assert(headers@.take(headers@.len() as int) =~= headers@);
            push_str(&mut out, "\nResponse Body:\n");
            match &body {
                Some(b) => push_str(&mut out, b.as_str()),
                None => push_str(&mut out, "Binary content"),
            }
            if 200 <= code && code < 300 {
                Ok(ToolResult::success(out.as_str()))
            } else {
                Ok(ToolResult::error(out.as_str()))
            }
        },
    }
}


/// The command fragments the shell tool refuses, in the order it checks them.
pub open spec fn dangerous_patterns() -> Seq<Seq<char>> {
    seq![
        "rm "@, "rmdir"@, "del "@, "format"@, "fdisk"@, "mkfs"@, "dd "@, "shred"@, "wipe"@,
        "sudo"@, "su "@, "chmod 777"@, "chown root"@, "passwd"@, "usermod"@, "userdel"@,
        ">"@, ">>"@, "|"@, ";"@, "&&"@, "||"@, "`"@, "$("@,
    ]
}

/// The first of `pats` that occurs in `cmd`.
pub open spec fn first_match(cmd: Seq<char>, pats: Seq<Seq<char>>) -> Option<Seq<char>>
    decreases pats.len(),
{
    if pats.len() == 0 {
        None
    } else if contains(cmd, pats[0]) {
        Some(pats[0])
    } else {
        first_match(cmd, pats.drop_first())
    }
}

/// A shell command that passed the safety check, with its timeout.
#[derive(Debug)]
pub struct ShellRequest {
    /// The command line, run by `sh -c`.
    pub command: String,
    /// The timeout, in seconds.
    pub timeout_seconds: u64,
}

/// Reads and checks the shell tool's arguments: `command` is required and must
/// hold none of the dangerous fragments (the first found is named); the timeout
/// is `timeout_seconds` (default 30), at most 60.
pub fn shell_command_request(args: &JsonValue) -> (r: Result<ShellRequest, HeliosError>)
    ensures
        match str_arg(*args, "command"@) {
            None => is_tool_error(r, "Missing 'command' parameter"@),
            Some(c) => match first_match(c, dangerous_patterns()) {
                Some(p) => is_tool_error(r, "Command blocked for safety: contains '"@ + p + "'"@),
                None => r matches Ok(q) && q.command@ == c && q.timeout_seconds == ({
                    let t = match u64_arg(*args, "timeout_seconds"@) { Some(t) => t, None => 30 };
                    if t < 60 { t } else { 60 }
                }),
            },
        },
{
    let command = match args.str_member("command") {
        Some(c) => c,
        None => {
            return Err(HeliosError::ToolError(owned("Missing 'command' parameter")));
        },
    };
    let t = match args.u64_member("timeout_seconds") {
        Some(t) => t,
        None => 30,
    };
    let timeout_seconds = if t < 60 { t } else { 60 };
    let pats: Vec<&str> = vec![
        "rm ", "rmdir", "del ", "format", "fdisk", "mkfs", "dd ", "shred", "wipe",
        "sudo", "su ", "chmod 777", "chown root", "passwd", "usermod", "userdel",
        ">", ">>", "|", ";", "&&", "||", "`", "$(",
    ];
    assert(pats@.map_values(|p: &str| p@) =~= dangerous_patterns());
    assert(dangerous_patterns().skip(0) =~= dangerous_patterns());
    let mut i: usize = 0;
    while i < pats.len()
        invariant
            i <= pats@.len(),
            pats@.map_values(|p: &str| p@) == dangerous_patterns(),
            first_match(command@, dangerous_patterns()) == first_match(command@, dangerous_patterns().skip(i as int)),
        decreases pats@.len() - i,
    {
        let ghost rest = dangerous_patterns().skip(i as int);
        assert(rest[0] == pats@[i as int]@);
        if str_contains(command, pats[i]) {
            let mut m = owned("Command blocked for safety: contains '");
            push_str(&mut m, pats[i]);
            push_str(&mut m, "'");
            return Err(HeliosError::ToolError(m));
        }
        assert(rest.drop_first() =~= dangerous_patterns().skip(i + 1));
        i = i + 1;
    }
    Ok(ShellRequest { command: owned(command), timeout_seconds })
}

/// What `String::from_utf8_lossy` makes of a byte sequence.
pub uninterp spec fn utf8_lossy(bytes: Seq<u8>) -> Seq<char>;

/// `String::from_utf8_lossy`: decodes the bytes as UTF-8, each invalid sequence
/// replaced by U+FFFD. The contract names the result and does not restate UTF-8.
#[verifier::external_body]
fn lossy_text(bytes: &[u8]) -> (out: String)
    ensures
        out@ == utf8_lossy(bytes@),
{
    String::from_utf8_lossy(bytes).into_owned()
}

/// What came of running a shell command.
#[derive(Debug)]
pub enum ShellOutcome {
    /// The command did not finish within the timeout.
    TimedOut,
    /// The command could not be started; the error's text.
    Failed(String),
    /// The command ran to its end.
    Exited {
        /// The exit code, absent when a signal ended the process.
        code: Option<i32>,
        /// What it wrote to standard output.
        stdout: Vec<u8>,
        /// What it wrote to standard error.
        stderr: Vec<u8>,
    },
}

/// The report of a finished command with exit code `code`.
pub open spec fn shell_text(cmd: Seq<char>, code: int, out: Seq<char>, err: Seq<char>) -> Seq<char> {
    "Command: "@ + cmd + "\nExit code: "@ + crate::text::signed_decimal(code) + "\n"@
        + (if out.len() > 0 { "Stdout:\n"@ + out + "\n"@ } else { Seq::empty() })
        + (if err.len() > 0 { "Stderr:\n"@ + err + "\n"@ } else { Seq::empty() })
}

/// Reports the outcome of a shell command: errors for a timeout or a failed
/// start; otherwise the report, successful exactly when the exit code is 0 (a
/// missing code counts as -1).
pub fn shell_command_report(req: &ShellRequest, outcome: ShellOutcome) -> (r: Result<ToolResult, HeliosError>)
    ensures
        match outcome {
            ShellOutcome::TimedOut => is_tool_error(r, "Command timed out after "@ + decimal(req.timeout_seconds as nat) + " seconds"@),
            ShellOutcome::Failed(e) => is_tool_error(r, "Failed to execute command: "@ + e@),
            ShellOutcome::Exited { code, stdout, stderr } => {
                let c: int = match code { Some(c) => c as int, None => -1 };
                let t = shell_text(req.command@, c, utf8_lossy(stdout@), utf8_lossy(stderr@));
                if c == 0 { tool_ok(r, t) } else { tool_failed(r, t) }
            },
        },
{
    match outcome {
        ShellOutcome::TimedOut => {
            let n = u64_to_string(req.timeout_seconds);
            let mut m = owned("Command timed out after ");
            push_str(&mut m, n.as_str());
            push_str(&mut m, " seconds");
            assert(m@ == "Command timed out after "@ + decimal(req.timeout_seconds as nat) + " seconds"@);
            Err(HeliosError::ToolError(m))
        },
        ShellOutcome::Failed(e) => {
            let mut m = owned("Failed to execute command: ");
            push_str(&mut m, e.as_str());
            Err(HeliosError::ToolError(m))
        },
        ShellOutcome::Exited { code, stdout, stderr } => {
            let c: i32 = match code {
                Some(c) => c,
                None => -1,
            };
            let out = lossy_text(stdout.as_slice());
            let err = lossy_text(stderr.as_slice());
            let mut text = owned("Command: ");
            push_str(&mut text, req.command.as_str());
            push_str(&mut text, "\nExit code: ");
            push_str(&mut text, crate::text::i64_to_string(c as i64).as_str());
            push_str(&mut text, "\n");
            if !out.as_str().is_empty() {
                push_str(&mut text, "Stdout:\n");
                push_str(&mut text, out.as_str());
                push_str(&mut text, "\n");
            }
            if !err.as_str().is_empty() {
                push_str(&mut text, "Stderr:\n");
                push_str(&mut text, err.as_str());
                push_str(&mut text, "\n");
            }
            assert(text@ == shell_text(req.command@, c as int, utf8_lossy(stdout@), utf8_lossy(stderr@)));
            if c == 0 {
                Ok(ToolResult::success(text.as_str()))
            } else {
                Ok(ToolResult::error(text.as_str()))
            }
        },
    }
}


/// A calculator expression as the calculator reads it: a number's text, or an
/// operator with the expressions on its left and right.
#[derive(Debug)]
pub enum CalcExpr {
    /// A leaf, to be read as a number.
    Number(String),
    /// `left op right`.
    Binary {
        /// One of `*`, `/`, `+`, `-`.
        op: char,
        /// The text before the operator.
        left: Box<CalcExpr>,
        /// The text after the operator.
        right: Box<CalcExpr>,
    },
}

/// The text with its space characters removed.
pub open spec fn without_spaces(s: Seq<char>) -> Seq<char>
    decreases s.len(),
{
    if s.len() == 0 {
        s
    } else if s.last() == ' ' {
        without_spaces(s.drop_last())
    } else {
        without_spaces(s.drop_last()).push(s.last())
    }
}

/// The index of the last `c` in `s`, or -1.
pub open spec fn last_index(s: Seq<char>, c: char) -> int
    decreases s.len(),
{
    if s.len() == 0 {
        -1
    } else if s.last() == c {
        s.len() - 1
    } else {
        last_index(s.drop_last(), c)
    }
}

/// `last_index` is -1 or an index of `c`.
pub proof fn lemma_last_index(s: Seq<char>, c: char)
    ensures
        -1 <= last_index(s, c) < s.len(),
        last_index(s, c) >= 0 ==> s[last_index(s, c)] == c,
        forall|j: int| last_index(s, c) < j < s.len() ==> s[j] != c,
    decreases s.len(),
{
    if s.len() > 0 && s.last() != c {
        lemma_last_index(s.drop_last(), c);
        assert forall|j: int| last_index(s, c) < j < s.len() implies s[j] != c by {
            if j < s.len() - 1 {
                assert(s.drop_last()[j] == s[j]);
            }
        }
    }
}

/// Whether `c` is one of the calculator's operators.
pub open spec fn is_calc_operator(c: char) -> bool {
    c == '*' || c == '/' || c == '+' || c == '-'
}

/// The index of the last `-` of `s` that subtracts: not at the start and not
/// right after another operator (there it is a number's sign); or -1.
pub open spec fn last_binary_minus(s: Seq<char>) -> int
    decreases s.len(),
{
    if s.len() <= 1 {
        -1
    } else if s.last() == '-' && !is_calc_operator(s[s.len() - 2]) {
        s.len() - 1
    } else {
        last_binary_minus(s.drop_last())
    }
}

/// `last_binary_minus` is -1 or the index, after the start, of a subtracting `-`.
pub proof fn lemma_last_binary_minus(s: Seq<char>)
    ensures
        last_binary_minus(s) == -1 || (1 <= last_binary_minus(s) < s.len() && s[last_binary_minus(s)] == '-'
            && !is_calc_operator(s[last_binary_minus(s) - 1])),
    decreases s.len(),
{
    if s.len() > 1 && !(s.last() == '-' && !is_calc_operator(s[s.len() - 2])) {
        lemma_last_binary_minus(s.drop_last());
        let r = last_binary_minus(s.drop_last());
        if r >= 1 {
            assert(s.drop_last()[r] == s[r] && s.drop_last()[r - 1] == s[r - 1]);
        }
    }
}

/// Where the calculator splits a text, so that `*` and `/` bind tighter than
/// `+` and `-` and each associates to the left: at the last `+` that is not at
/// the start; else at the last subtracting `-`; else at the last `*` not at the
/// start; else at the last `/` not at the start.
pub open spec fn calc_split(s: Seq<char>) -> Option<(char, int)> {
    if last_index(s, '+') > 0 {
        Some(('+', last_index(s, '+')))
    } else if last_binary_minus(s) > 0 {
        Some(('-', last_binary_minus(s)))
    } else if last_index(s, '*') > 0 {
        Some(('*', last_index(s, '*')))
    } else if last_index(s, '/') > 0 {
        Some(('/', last_index(s, '/')))
    } else {
        None
    }
}

/// Whether `e` is how the calculator reads the (space-free) text `s`: split at
/// `calc_split` into the readings of the two sides, or a number's text.
pub open spec fn is_calc_tree(s: Seq<char>, e: CalcExpr) -> bool
    decreases s.len(),
{
    match calc_split(s) {
        Some((op, p)) => {
            proof {
                lemma_last_index(s, '*');
                lemma_last_index(s, '/');
                lemma_last_index(s, '+');
                lemma_last_binary_minus(s);
            }
            match e {
                CalcExpr::Binary { op: o, left, right } => o == op && is_calc_tree(s.take(p), *left)
                    && is_calc_tree(s.skip(p + 1), *right),
                _ => false,
            }
        },
        None => match e {
            CalcExpr::Number(t) => t@ == s,
            _ => false,
        },
    }
}

/// The index of the last `c` in `s`, or none.
fn last_index_exec(s: &[char], c: char) -> (r: Option<usize>)
    ensures
        match r {
            Some(i) => i as int == last_index(s@, c),
            None => last_index(s@, c) == -1,
        },
{
    let mut i: usize = s.len();
    assert(s@.take(s@.len() as int) =~= s@);
    while i > 0
        invariant
            i <= s@.len(),
            last_index(s@, c) == last_index(s@.take(i as int), c),
        decreases i,
    {
        assert(s@.take(i as int).drop_last() =~= s@.take(i - 1));
        if s[i - 1] == c {
            return Some(i - 1);
        }
        i = i - 1;
    }
    None
}

/// The index of the last subtracting `-`, or none.
fn last_binary_minus_exec(s: &[char]) -> (r: Option<usize>)
    ensures
        match r {
            Some(i) => i as int == last_binary_minus(s@),
            None => last_binary_minus(s@) == -1,
        },
{
    let mut i: usize = s.len();
    assert(s@.take(s@.len() as int) =~= s@);
    while i > 1
        invariant
            i <= s@.len(),
            last_binary_minus(s@) == last_binary_minus(s@.take(i as int)),
        decreases i,
    {
        let ghost t = s@.take(i as int);
        assert(t.drop_last() =~= s@.take(i - 1));
        assert(t.last() == s@[i - 1] && t[t.len() - 2] == s@[i - 2]);
        let prev = s[i - 2];
        if s[i - 1] == '-' && !(prev == '*' || prev == '/' || prev == '+' || prev == '-') {
            return Some(i - 1);
        }
        i = i - 1;
    }
    None
}

/// Splits `s` at `p` and reads both sides.
fn parse_calc_at(s: &[char], op: char, p: usize) -> (e: CalcExpr)
    requires
        0 < p < s@.len(),
        calc_split(s@) == Some((op, p as int)),
    ensures
        is_calc_tree(s@, e),
    decreases s@.len(), 0int,
{
    let n = s.len();
    let l = crate::text::slice_range(s, 0, p);
    let r = crate::text::slice_range(s, p + 1, n);
    assert(l@ =~= s@.take(p as int));
    assert(r@ =~= s@.skip(p + 1));
    let left = parse_calc(l.as_slice());
    let right = parse_calc(r.as_slice());
    CalcExpr::Binary { op, left: Box::new(left), right: Box::new(right) }
}

/// Reads a space-free expression as the calculator does.
pub fn parse_calc(s: &[char]) -> (e: CalcExpr)
    ensures
        is_calc_tree(s@, e),
    decreases s@.len(), 1int,
{
    proof {
        lemma_last_index(s@, '*');
        lemma_last_index(s@, '/');
        lemma_last_index(s@, '+');
        lemma_last_binary_minus(s@);
    }
    if let Some(p) = last_index_exec(s, '+') {
        if p > 0 {
            return parse_calc_at(s, '+', p);
        }
    }
    if let Some(p) = last_binary_minus_exec(s) {
        if p > 0 {
            return parse_calc_at(s, '-', p);
        }
    }
    if let Some(p) = last_index_exec(s, '*') {
        if p > 0 {
            return parse_calc_at(s, '*', p);
        }
    }
    if let Some(p) = last_index_exec(s, '/') {
        if p > 0 {
            return parse_calc_at(s, '/', p);
        }
    }
    CalcExpr::Number(crate::text::string_of(s))
}

/// Reads the calculator's `expression` argument, without its spaces, as an
/// expression tree; an error when the argument is missing.
pub fn calculator_expression(args: &JsonValue) -> (r: Result<CalcExpr, HeliosError>)
    ensures
        match str_arg(*args, "expression"@) {
            None => is_tool_error(r, "Missing 'expression' parameter"@),
            Some(x) => r matches Ok(e) && is_calc_tree(without_spaces(x), e),
        },
{
    let x = match args.str_member("expression") {
        Some(x) => x,
        None => {
            return Err(HeliosError::ToolError(owned("Missing 'expression' parameter")));
        },
    };
    let mut cs: Vec<char> = Vec::new();
    for ch in it: x.chars()
        invariant
            it.seq() == x@,
            cs@ == without_spaces(it.seq().take(it.index() as int)),
    {
        assert(it.seq().take(it.index() + 1).drop_last() =~= it.seq().take(it.index() as int));
        if ch != ' ' {
            cs.push(ch);
        }
    }
    assert(x@.take(x@.len() as int) =~= x@);
    Ok(parse_calc(cs.as_slice()))
}


/// Which part of the machine's description the system-information tool gives.
#[derive(Debug, Clone, Copy, PartialEq, Eq, Structural)]
pub enum SystemCategory {
    /// Every part, in the order below.
    All,
    /// The operating system.
    Os,
    /// The processors.
    Cpu,
    /// The memory.
    Memory,
    /// The disks.
    Disk,
    /// The network interfaces.
    Network,
}

/// The category named by `c`, if it is one.
pub open spec fn category_named(c: Seq<char>) -> Option<SystemCategory> {
    if c == "all"@ {
        Some(SystemCategory::All)
    } else if c == "os"@ {
        Some(SystemCategory::Os)
    } else if c == "cpu"@ {
        Some(SystemCategory::Cpu)
    } else if c == "memory"@ {
        Some(SystemCategory::Memory)
    } else if c == "disk"@ {
        Some(SystemCategory::Disk)
    } else if c == "network"@ {
        Some(SystemCategory::Network)
    } else {
        None
    }
}

/// Reads the `category` argument (default `all`); an error names an unknown one.
pub fn system_info_category(args: &JsonValue) -> (r: Result<SystemCategory, HeliosError>)
    ensures
        ({
            let c = match str_arg(*args, "category"@) { Some(c) => c, None => "all"@ };
            match category_named(c) {
                Some(k) => r == Ok::<SystemCategory, HeliosError>(k),
                None => is_tool_error(r, "Unknown category '"@ + c + "'. Use: all, os, cpu, memory, disk, network"@),
            }
        }),
{
    let c = match args.str_member("category") {
        Some(c) => c,
        None => "all",
    };
    if crate::text::str_eq(c, "all") {
        Ok(SystemCategory::All)
    } else if crate::text::str_eq(c, "os") {
        Ok(SystemCategory::Os)
    } else if crate::text::str_eq(c, "cpu") {
        Ok(SystemCategory::Cpu)
    } else if crate::text::str_eq(c, "memory") {
        Ok(SystemCategory::Memory)
    } else if crate::text::str_eq(c, "disk") {
        Ok(SystemCategory::Disk)
    } else if crate::text::str_eq(c, "network") {
        Ok(SystemCategory::Network)
    } else {
        let mut m = owned("Unknown category '");
        push_str(&mut m, c);
        push_str(&mut m, "'. Use: all, os, cpu, memory, disk, network");
        Err(HeliosError::ToolError(m))
    }
}

/// The operating-system section.
pub open spec fn os_text(os: Seq<char>, arch: Seq<char>, family: Seq<char>, host: Option<String>, uptime: u64) -> Seq<char> {
    "=== Operating System ===\n"@ + "OS: "@ + os + "\n"@ + "Architecture: "@ + arch + "\n"@ + "Family: "@ + family + "\n"@
        + (match host { Some(h) => "Hostname: "@ + h@ + "\n"@, None => Seq::empty() })
        + "Uptime: "@ + decimal(uptime as nat) + " seconds\n"@ + "\n"@
}

/// Writes the operating-system section: name, architecture, family, the host's
/// name when it is known, and the uptime in seconds.
pub fn os_section(os: &str, arch: &str, family: &str, host: Option<String>, uptime: u64) -> (out: String)
    ensures
        out@ == os_text(os@, arch@, family@, host, uptime),
{
    let mut out = owned("=== Operating System ===\n");
    push_str(&mut out, "OS: ");
    push_str(&mut out, os);
    push_str(&mut out, "\n");
    push_str(&mut out, "Architecture: ");
    push_str(&mut out, arch);
    push_str(&mut out, "\n");
    push_str(&mut out, "Family: ");
    push_str(&mut out, family);
    push_str(&mut out, "\n");
    match &host {
        Some(h) => {
            push_str(&mut out, "Hostname: ");
            push_str(&mut out, h.as_str());
            push_str(&mut out, "\n");
        },
        None => {},
    }
    push_str(&mut out, "Uptime: ");
    push_str(&mut out, u64_to_string(uptime).as_str());
    push_str(&mut out, " seconds\n");
    push_str(&mut out, "\n");
    out
}

/// The per-processor lines for the first `k` processors.
pub open spec fn usage_lines(us: Seq<String>, k: nat) -> Seq<char>
    decreases k,
{
    if k == 0 {
        Seq::empty()
    } else {
        usage_lines(us, (k - 1) as nat) + "CPU "@ + decimal((k - 1) as nat) + ": "@ + us[k - 1]@ + "% usage\n"@
    }
}

/// The processor section, given the physical core count and each logical
/// processor's usage as displayed: at most four usage lines, then a note when
/// there are more.
pub open spec fn cpu_text(physical: usize, us: Seq<String>) -> Seq<char> {
    "=== CPU Information ===\n"@ + "Physical cores: "@ + decimal(physical as nat) + "\n"@ + "Logical cores: "@
        + decimal(us.len()) + "\n"@ + usage_lines(us, if us.len() < 4 { us.len() } else { 4 })
        + (if us.len() > 4 { "... and more CPUs\n"@ } else { Seq::empty() }) + "\n"@
}

/// Writes the processor section.
pub fn cpu_section(physical: usize, usages: &Vec<String>) -> (out: String)
    ensures
        out@ == cpu_text(physical, usages@),
{
    let mut out = owned("=== CPU Information ===\n");
    push_str(&mut out, "Physical cores: ");
    push_str(&mut out, crate::text::usize_to_string(physical).as_str());
    push_str(&mut out, "\n");
    push_str(&mut out, "Logical cores: ");
    push_str(&mut out, crate::text::usize_to_string(usages.len()).as_str());
    push_str(&mut out, "\n");
    let ghost head = out@;
    let mut i: usize = 0;
    while i < usages.len()
        invariant
            i <= usages@.len(),
            i <= 4,
            out@ == head + usage_lines(usages@, i as nat),
        decreases usages@.len() - i,
    {
        if i >= 4 {
            push_str(&mut out, "... and more CPUs\n");
            break;
        }
        push_str(&mut out, "CPU ");
        push_str(&mut out, crate::text::usize_to_string(i).as_str());
        push_str(&mut out, ": ");
        push_str(&mut out, usages[i].as_str());
        push_str(&mut out, "% usage\n");
        i = i + 1;
    }
    push_str(&mut out, "\n");
    out
}

/// A number of bytes in whole mebibytes.
pub open spec fn mib(n: u64) -> nat {
    (n / 1024 / 1024) as nat
}

/// A number of bytes in whole gibibytes.
pub open spec fn gib(n: u64) -> nat {
    (n / 1024 / 1024 / 1024) as nat
}

/// The memory section, given the totals in bytes and the usage as displayed.
pub open spec fn memory_text(total: u64, used: u64, available: u64, usage: Seq<char>) -> Seq<char> {
    "=== Memory Information ===\n"@ + "Total memory: "@ + decimal(mib(total)) + " MB\n"@ + "Used memory: "@
        + decimal(mib(used)) + " MB\n"@ + "Available memory: "@ + decimal(mib(available)) + " MB\n"@
        + "Memory usage: "@ + usage + "%\n"@ + "\n"@
}

/// Writes the memory section, sizes in whole megabytes.
pub fn memory_section(total: u64, used: u64, available: u64, usage: &str) -> (out: String)
    ensures
        out@ == memory_text(total, used, available, usage@),
{
    let mut out = owned("=== Memory Information ===\n");
    push_str(&mut out, "Total memory: ");
    push_str(&mut out, u64_to_string(total / 1024 / 1024).as_str());
    push_str(&mut out, " MB\n");
    push_str(&mut out, "Used memory: ");
    push_str(&mut out, u64_to_string(used / 1024 / 1024).as_str());
    push_str(&mut out, " MB\n");
    push_str(&mut out, "Available memory: ");
    push_str(&mut out, u64_to_string(available / 1024 / 1024).as_str());
    push_str(&mut out, " MB\n");
    push_str(&mut out, "Memory usage: ");
    push_str(&mut out, usage);
    push_str(&mut out, "%\n");
    push_str(&mut out, "\n");
    out
}

/// What the disk section shows of one disk.
#[derive(Debug)]
pub struct DiskFacts {
    /// Where the disk is mounted.
    pub mount_point: String,
    /// Its file system.
    pub file_system: String,
    /// Its size in bytes.
    pub total: u64,
    /// Its free space in bytes.
    pub available: u64,
    /// The used share as displayed.
    pub usage: String,
}

/// The lines of one disk.
pub open spec fn disk_lines(d: DiskFacts) -> Seq<char> {
    "Mount point: "@ + d.mount_point@ + "\n"@ + "File system: "@ + d.file_system@ + "\n"@ + "Total space: "@
        + decimal(gib(d.total)) + " GB\n"@ + "Used space: "@ + decimal(gib((d.total - d.available) as u64)) + " GB\n"@
        + "Available space: "@ + decimal(gib(d.available)) + " GB\n"@ + "Usage: "@ + d.usage@ + "%\n\n"@
}

/// The lines of the first `k` disks.
pub open spec fn disks_lines(ds: Seq<DiskFacts>, k: nat) -> Seq<char>
    decreases k,
{
    if k == 0 {
        Seq::empty()
    } else {
        disks_lines(ds, (k - 1) as nat) + disk_lines(ds[k - 1])
    }
}

/// Appends the lines of one disk.
fn push_disk(out: &mut String, d: &DiskFacts)
    requires
        d.available <= d.total,
    ensures
        final(out)@ == old(out)@ + disk_lines(*d),
{
    let used = d.total - d.available;
    push_str(out, "Mount point: ");
    push_str(out, d.mount_point.as_str());
    push_str(out, "\n");
    push_str(out, "File system: ");
    push_str(out, d.file_system.as_str());
    push_str(out, "\n");
    push_str(out, "Total space: ");
    push_str(out, u64_to_string(d.total / 1024 / 1024 / 1024).as_str());
    push_str(out, " GB\n");
    push_str(out, "Used space: ");
    push_str(out, u64_to_string(used / 1024 / 1024 / 1024).as_str());
    push_str(out, " GB\n");
    push_str(out, "Available space: ");
    push_str(out, u64_to_string(d.available / 1024 / 1024 / 1024).as_str());
    push_str(out, " GB\n");
    push_str(out, "Usage: ");
    push_str(out, d.usage.as_str());
    push_str(out, "%\n\n");
}

/// Writes the disk section, sizes in whole gigabytes; the used space is the
/// size less the free space.
pub fn disk_section(disks: &Vec<DiskFacts>) -> (out: String)
    requires
        forall|i: int| 0 <= i < disks@.len() ==> disks@[i].available <= disks@[i].total,
    ensures
        out@ == "=== Disk Information ===\n"@ + disks_lines(disks@, disks@.len()),
{
    let mut out = owned("=== Disk Information ===\n");
    let mut i: usize = 0;
    while i < disks.len()
        invariant
            i <= disks@.len(),
            out@ == "=== Disk Information ===\n"@ + disks_lines(disks@, i as nat),
        decreases disks@.len() - i,
    {
        push_disk(&mut out, &disks[i]);
        i = i + 1;
    }
    out
}

/// The lines of the first `k` network interfaces, each (name, received, sent).
pub open spec fn network_lines(ns: Seq<(String, u64, u64)>, k: nat) -> Seq<char>
    decreases k,
{
    if k == 0 {
        Seq::empty()
    } else {
        let n = ns[k - 1];
        network_lines(ns, (k - 1) as nat) + "Interface: "@ + n.0@ + "\n"@ + "Received: "@ + decimal(n.1 as nat)
            + " bytes\n"@ + "Transmitted: "@ + decimal(n.2 as nat) + " bytes\n"@ + "\n"@
    }
}

/// Writes the network section: each interface with the bytes it received and sent.
pub fn network_section(nets: &Vec<(String, u64, u64)>) -> (out: String)
    ensures
        out@ == "=== Network Information ===\n"@ + network_lines(nets@, nets@.len()),
{
    let mut out = owned("=== Network Information ===\n");
    let mut i: usize = 0;
    while i < nets.len()
        invariant
            i <= nets@.len(),
            out@ == "=== Network Information ===\n"@ + network_lines(nets@, i as nat),
        decreases nets@.len() - i,
    {
        push_str(&mut out, "Interface: ");
        push_str(&mut out, nets[i].0.as_str());
        push_str(&mut out, "\n");
        push_str(&mut out, "Received: ");
        push_str(&mut out, u64_to_string(nets[i].1).as_str());
        push_str(&mut out, " bytes\n");
        push_str(&mut out, "Transmitted: ");
        push_str(&mut out, u64_to_string(nets[i].2).as_str());
        push_str(&mut out, " bytes\n");
        push_str(&mut out, "\n");
        i = i + 1;
    }
    out
}

/// Puts the system-information answer together from the sections: all of them
/// in order for `All`, else the one asked for.
pub fn system_info_report(cat: SystemCategory, os: &str, cpu: &str, memory: &str, disk: &str, network: &str) -> (r: ToolResult)
    ensures
        r.success,
        r.output@ == match cat {
            SystemCategory::All => os@ + cpu@ + memory@ + disk@ + network@,
            SystemCategory::Os => os@,
            SystemCategory::Cpu => cpu@,
            SystemCategory::Memory => memory@,
            SystemCategory::Disk => disk@,
            SystemCategory::Network => network@,
        },
{
    let mut out = String::new();
    match cat {
        SystemCategory::All => {
            push_str(&mut out, os);
            push_str(&mut out, cpu);
            push_str(&mut out, memory);
            push_str(&mut out, disk);
            push_str(&mut out, network);
        },
        SystemCategory::Os => push_str(&mut out, os),
        SystemCategory::Cpu => push_str(&mut out, cpu),
        SystemCategory::Memory => push_str(&mut out, memory),
        SystemCategory::Disk => push_str(&mut out, disk),
        SystemCategory::Network => push_str(&mut out, network),
    }
    ToolResult::success(out.as_str())
}

} // verus!
