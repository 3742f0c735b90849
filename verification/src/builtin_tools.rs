//! The descriptions of the built-in tools: each tool's name, what it does and
//! the parameters it takes, as offered to a language model.

use vstd::prelude::*;
use crate::memory_db::MemoryDBTool;
use crate::strmap::StringMap;
use crate::text::owned;
use crate::tool_builder::params_view;
use crate::error::HeliosError;
use crate::json::{JsonValue, str_arg};
use crate::text_tool::{text_processor_tool, text_tool_answer};
use crate::timestamp::{DateTimeParts, answers, timestamp_outcome, timestamp_tool, from_timestamp_ok, diff_never_negative};
use crate::tools::{ToolParameter, ToolDefinition, ToolResult, tool_definition, tool_ok, is_tool_error};
use crate::web_tools::echo_tool;

verus! {

/// Adds a parameter to a parameter map.
fn add_param(ps: &mut StringMap<ToolParameter>, name: &str, param_type: &str, description: &str, required: bool)
    ensures
        params_view(*final(ps)) == params_view(*old(ps)).insert(name@, (param_type@, description@, Some(required))),
{
    let ghost before = *ps;
    ps.insert(owned(name), ToolParameter { param_type: owned(param_type), description: owned(description), required: Some(required) });
    assert(params_view(*ps) =~= params_view(before).insert(name@, (param_type@, description@, Some(required))));
}

/// The calculator: evaluates `+ - * /` expressions.
#[derive(Debug, Clone, Copy)]
pub struct CalculatorTool;

impl CalculatorTool {
    /// The tool's name.
    pub fn name(&self) -> (s: &'static str)
        ensures
            s@ == "calculator"@,
    {
        "calculator"
    }

    /// What the tool does.
    pub fn description(&self) -> (s: &'static str)
        ensures
            s@ == "Perform basic arithmetic operations. Supports +, -, *, / operations."@,
    {
        "Perform basic arithmetic operations. Supports +, -, *, / operations."
    }

    /// The tool's parameters.
    pub fn parameters(&self) -> (ps: StringMap<ToolParameter>)
        ensures
            params_view(ps) == map!["expression"@ => ("string"@, "Mathematical expression to evaluate (e.g., '2 + 2')"@, Some(true))],
    {
        let mut ps: StringMap<ToolParameter> = StringMap::new();
        add_param(&mut ps, "expression", "string", "Mathematical expression to evaluate (e.g., '2 + 2')", true);
        assert(params_view(ps) =~= map!["expression"@ => ("string"@, "Mathematical expression to evaluate (e.g., '2 + 2')"@, Some(true))]);
        ps
    }

    /// The tool's definition for a language model.
    pub fn to_definition(&self) -> (d: ToolDefinition)
        ensures
            d.function.name@ == "calculator"@,
            d.function.description@ == "Perform basic arithmetic operations. Supports +, -, *, / operations."@,
            params_view(d.function.parameters.properties) == map!["expression"@ => ("string"@, "Mathematical expression to evaluate (e.g., '2 + 2')"@, Some(true))],
    {
        tool_definition(self.name(), self.description(), self.parameters())
    }
}

/// Echoes its message back.
#[derive(Debug, Clone, Copy)]
pub struct EchoTool;

impl EchoTool {
    /// The tool's name.
    pub fn name(&self) -> (s: &'static str)
        ensures
            s@ == "echo"@,
    {
        "echo"
    }

    /// What the tool does.
    pub fn description(&self) -> (s: &'static str)
        ensures
            s@ == "Echo back the provided message."@,
    {
        "Echo back the provided message."
    }

    /// The tool's parameters.
    pub fn parameters(&self) -> (ps: StringMap<ToolParameter>)
        ensures
            params_view(ps) == map!["message"@ => ("string"@, "The message to echo back"@, Some(true))],
    {
        let mut ps: StringMap<ToolParameter> = StringMap::new();
        add_param(&mut ps, "message", "string", "The message to echo back", true);
        assert(params_view(ps) =~= map!["message"@ => ("string"@, "The message to echo back"@, Some(true))]);
        ps
    }

    /// The tool's definition for a language model.
    pub fn to_definition(&self) -> (d: ToolDefinition)
        ensures
            d.function.name@ == "echo"@,
            d.function.description@ == "Echo back the provided message."@,
            params_view(d.function.parameters.properties) == map!["message"@ => ("string"@, "The message to echo back"@, Some(true))],
    {
        tool_definition(self.name(), self.description(), self.parameters())
    }
}

/// Searches for files by name pattern or content.
#[derive(Debug, Clone, Copy)]
pub struct FileSearchTool;

impl FileSearchTool {
    /// The tool's name.
    pub fn name(&self) -> (s: &'static str)
        ensures
            s@ == "file_search"@,
    {
        "file_search"
    }

    /// What the tool does.
    pub fn description(&self) -> (s: &'static str)
        ensures
            s@ == "Search for files by name pattern or search for content within files. Can search recursively in directories."@,
    {
        "Search for files by name pattern or search for content within files. Can search recursively in directories."
    }

    /// The tool's parameters.
    pub fn parameters(&self) -> (ps: StringMap<ToolParameter>)
        ensures
            params_view(ps) == map!["path"@ => ("string"@, "The directory path to search in (default: current directory)"@, Some(false)), "pattern"@ => ("string"@, "File name pattern to search for (supports wildcards like *.rs)"@, Some(false)), "content"@ => ("string"@, "Text content to search for within files"@, Some(false)), "max_results"@ => ("number"@, "Maximum number of results to return (default: 50)"@, Some(false))],
    {
        let mut ps: StringMap<ToolParameter> = StringMap::new();
        add_param(&mut ps, "path", "string", "The directory path to search in (default: current directory)", false);
        add_param(&mut ps, "pattern", "string", "File name pattern to search for (supports wildcards like *.rs)", false);
        add_param(&mut ps, "content", "string", "Text content to search for within files", false);
        add_param(&mut ps, "max_results", "number", "Maximum number of results to return (default: 50)", false);
        assert(params_view(ps) =~= map!["path"@ => ("string"@, "The directory path to search in (default: current directory)"@, Some(false)), "pattern"@ => ("string"@, "File name pattern to search for (supports wildcards like *.rs)"@, Some(false)), "content"@ => ("string"@, "Text content to search for within files"@, Some(false)), "max_results"@ => ("number"@, "Maximum number of results to return (default: 50)"@, Some(false))]);
        ps
    }

    /// The tool's definition for a language model.
    pub fn to_definition(&self) -> (d: ToolDefinition)
        ensures
            d.function.name@ == "file_search"@,
            d.function.description@ == "Search for files by name pattern or search for content within files. Can search recursively in directories."@,
            params_view(d.function.parameters.properties) == map!["path"@ => ("string"@, "The directory path to search in (default: current directory)"@, Some(false)), "pattern"@ => ("string"@, "File name pattern to search for (supports wildcards like *.rs)"@, Some(false)), "content"@ => ("string"@, "Text content to search for within files"@, Some(false)), "max_results"@ => ("number"@, "Maximum number of results to return (default: 50)"@, Some(false))],
    {
        tool_definition(self.name(), self.description(), self.parameters())
    }
}

/// Reads a file, whole or a range of lines.
#[derive(Debug, Clone, Copy)]
pub struct FileReadTool;

impl FileReadTool {
    /// The tool's name.
    pub fn name(&self) -> (s: &'static str)
        ensures
            s@ == "file_read"@,
    {
        "file_read"
    }

    /// What the tool does.
    pub fn description(&self) -> (s: &'static str)
        ensures
            s@ == "Read the contents of a file. Returns the full file content or specific lines."@,
    {
        "Read the contents of a file. Returns the full file content or specific lines."
    }

    /// The tool's parameters.
    pub fn parameters(&self) -> (ps: StringMap<ToolParameter>)
        ensures
            params_view(ps) == map!["path"@ => ("string"@, "The file path to read"@, Some(true)), "start_line"@ => ("number"@, "Starting line number (1-indexed, optional)"@, Some(false)), "end_line"@ => ("number"@, "Ending line number (1-indexed, optional)"@, Some(false))],
    {
        let mut ps: StringMap<ToolParameter> = StringMap::new();
        add_param(&mut ps, "path", "string", "The file path to read", true);
        add_param(&mut ps, "start_line", "number", "Starting line number (1-indexed, optional)", false);
        add_param(&mut ps, "end_line", "number", "Ending line number (1-indexed, optional)", false);
        assert(params_view(ps) =~= map!["path"@ => ("string"@, "The file path to read"@, Some(true)), "start_line"@ => ("number"@, "Starting line number (1-indexed, optional)"@, Some(false)), "end_line"@ => ("number"@, "Ending line number (1-indexed, optional)"@, Some(false))]);
        ps
    }

    /// The tool's definition for a language model.
    pub fn to_definition(&self) -> (d: ToolDefinition)
        ensures
            d.function.name@ == "file_read"@,
            d.function.description@ == "Read the contents of a file. Returns the full file content or specific lines."@,
            params_view(d.function.parameters.properties) == map!["path"@ => ("string"@, "The file path to read"@, Some(true)), "start_line"@ => ("number"@, "Starting line number (1-indexed, optional)"@, Some(false)), "end_line"@ => ("number"@, "Ending line number (1-indexed, optional)"@, Some(false))],
    {
        tool_definition(self.name(), self.description(), self.parameters())
    }
}

/// Writes a file.
#[derive(Debug, Clone, Copy)]
pub struct FileWriteTool;

impl FileWriteTool {
    /// The tool's name.
    pub fn name(&self) -> (s: &'static str)
        ensures
            s@ == "file_write"@,
    {
        "file_write"
    }

    /// What the tool does.
    pub fn description(&self) -> (s: &'static str)
        ensures
            s@ == "Write content to a file. Creates new file or overwrites existing file."@,
    {
        "Write content to a file. Creates new file or overwrites existing file."
    }

    /// The tool's parameters.
    pub fn parameters(&self) -> (ps: StringMap<ToolParameter>)
        ensures
            params_view(ps) == map!["path"@ => ("string"@, "The file path to write to"@, Some(true)), "content"@ => ("string"@, "The content to write to the file"@, Some(true))],
    {
        let mut ps: StringMap<ToolParameter> = StringMap::new();
        add_param(&mut ps, "path", "string", "The file path to write to", true);
        add_param(&mut ps, "content", "string", "The content to write to the file", true);
        assert(params_view(ps) =~= map!["path"@ => ("string"@, "The file path to write to"@, Some(true)), "content"@ => ("string"@, "The content to write to the file"@, Some(true))]);
        ps
    }

    /// The tool's definition for a language model.
    pub fn to_definition(&self) -> (d: ToolDefinition)
        ensures
            d.function.name@ == "file_write"@,
            d.function.description@ == "Write content to a file. Creates new file or overwrites existing file."@,
            params_view(d.function.parameters.properties) == map!["path"@ => ("string"@, "The file path to write to"@, Some(true)), "content"@ => ("string"@, "The content to write to the file"@, Some(true))],
    {
        tool_definition(self.name(), self.description(), self.parameters())
    }
}

/// Replaces text in a file.
#[derive(Debug, Clone, Copy)]
pub struct FileEditTool;

impl FileEditTool {
    /// The tool's name.
    pub fn name(&self) -> (s: &'static str)
        ensures
            s@ == "file_edit"@,
    {
        "file_edit"
    }

    /// What the tool does.
    pub fn description(&self) -> (s: &'static str)
        ensures
            s@ == "Edit a file by replacing specific text or lines. Use this to make targeted changes to existing files."@,
    {
        "Edit a file by replacing specific text or lines. Use this to make targeted changes to existing files."
    }

    /// The tool's parameters.
    pub fn parameters(&self) -> (ps: StringMap<ToolParameter>)
        ensures
            params_view(ps) == map!["path"@ => ("string"@, "The file path to edit"@, Some(true)), "find"@ => ("string"@, "The text to find and replace"@, Some(true)), "replace"@ => ("string"@, "The replacement text"@, Some(true))],
    {
        let mut ps: StringMap<ToolParameter> = StringMap::new();
        add_param(&mut ps, "path", "string", "The file path to edit", true);
        add_param(&mut ps, "find", "string", "The text to find and replace", true);
        add_param(&mut ps, "replace", "string", "The replacement text", true);
        assert(params_view(ps) =~= map!["path"@ => ("string"@, "The file path to edit"@, Some(true)), "find"@ => ("string"@, "The text to find and replace"@, Some(true)), "replace"@ => ("string"@, "The replacement text"@, Some(true))]);
        ps
    }

    /// The tool's definition for a language model.
    pub fn to_definition(&self) -> (d: ToolDefinition)
        ensures
            d.function.name@ == "file_edit"@,
            d.function.description@ == "Edit a file by replacing specific text or lines. Use this to make targeted changes to existing files."@,
            params_view(d.function.parameters.properties) == map!["path"@ => ("string"@, "The file path to edit"@, Some(true)), "find"@ => ("string"@, "The text to find and replace"@, Some(true)), "replace"@ => ("string"@, "The replacement text"@, Some(true))],
    {
        tool_definition(self.name(), self.description(), self.parameters())
    }
}

impl MemoryDBTool {
    /// The tool's name.
    pub fn name(&self) -> (s: &'static str)
        ensures
            s@ == "memory_db"@,
    {
        "memory_db"
    }

    /// What the tool does.
    pub fn description(&self) -> (s: &'static str)
        ensures
            s@ == "In-memory key-value database for caching data. Operations: set, get, delete, list, clear, exists"@,
    {
        "In-memory key-value database for caching data. Operations: set, get, delete, list, clear, exists"
    }

    /// The tool's parameters.
    pub fn parameters(&self) -> (ps: StringMap<ToolParameter>)
        ensures
            params_view(ps) == map!["operation"@ => ("string"@, "Operation to perform: 'set', 'get', 'delete', 'list', 'clear', 'exists'"@, Some(true)), "key"@ => ("string"@, "Key for set, get, delete, exists operations"@, Some(false)), "value"@ => ("string"@, "Value for set operation"@, Some(false))],
    {
        let mut ps: StringMap<ToolParameter> = StringMap::new();
        add_param(&mut ps, "operation", "string", "Operation to perform: 'set', 'get', 'delete', 'list', 'clear', 'exists'", true);
        add_param(&mut ps, "key", "string", "Key for set, get, delete, exists operations", false);
        add_param(&mut ps, "value", "string", "Value for set operation", false);
        assert(params_view(ps) =~= map!["operation"@ => ("string"@, "Operation to perform: 'set', 'get', 'delete', 'list', 'clear', 'exists'"@, Some(true)), "key"@ => ("string"@, "Key for set, get, delete, exists operations"@, Some(false)), "value"@ => ("string"@, "Value for set operation"@, Some(false))]);
        ps
    }

    /// The tool's definition for a language model.
    pub fn to_definition(&self) -> (d: ToolDefinition)
        ensures
            d.function.name@ == "memory_db"@,
            d.function.description@ == "In-memory key-value database for caching data. Operations: set, get, delete, list, clear, exists"@,
            params_view(d.function.parameters.properties) == map!["operation"@ => ("string"@, "Operation to perform: 'set', 'get', 'delete', 'list', 'clear', 'exists'"@, Some(true)), "key"@ => ("string"@, "Key for set, get, delete, exists operations"@, Some(false)), "value"@ => ("string"@, "Value for set operation"@, Some(false))],
    {
        tool_definition(self.name(), self.description(), self.parameters())
    }
}

/// Fetches a web page, optionally reduced to its text.
#[derive(Debug, Clone, Copy)]
pub struct WebScraperTool;

impl WebScraperTool {
    /// The tool's name.
    pub fn name(&self) -> (s: &'static str)
        ensures
            s@ == "web_scraper"@,
    {
        "web_scraper"
    }

    /// What the tool does.
    pub fn description(&self) -> (s: &'static str)
        ensures
            s@ == "Fetch and extract content from web URLs. Supports HTML text extraction and basic web scraping."@,
    {
        "Fetch and extract content from web URLs. Supports HTML text extraction and basic web scraping."
    }

    /// The tool's parameters.
    pub fn parameters(&self) -> (ps: StringMap<ToolParameter>)
        ensures
            params_view(ps) == map!["url"@ => ("string"@, "The URL to scrape content from"@, Some(true)), "extract_text"@ => ("boolean"@, "Whether to extract readable text from HTML (default: true)"@, Some(false)), "timeout_seconds"@ => ("number"@, "Request timeout in seconds (default: 30)"@, Some(false))],
    {
        let mut ps: StringMap<ToolParameter> = StringMap::new();
        add_param(&mut ps, "url", "string", "The URL to scrape content from", true);
        add_param(&mut ps, "extract_text", "boolean", "Whether to extract readable text from HTML (default: true)", false);
        add_param(&mut ps, "timeout_seconds", "number", "Request timeout in seconds (default: 30)", false);
        assert(params_view(ps) =~= map!["url"@ => ("string"@, "The URL to scrape content from"@, Some(true)), "extract_text"@ => ("boolean"@, "Whether to extract readable text from HTML (default: true)"@, Some(false)), "timeout_seconds"@ => ("number"@, "Request timeout in seconds (default: 30)"@, Some(false))]);
        ps
    }

    /// The tool's definition for a language model.
    pub fn to_definition(&self) -> (d: ToolDefinition)
        ensures
            d.function.name@ == "web_scraper"@,
            d.function.description@ == "Fetch and extract content from web URLs. Supports HTML text extraction and basic web scraping."@,
            params_view(d.function.parameters.properties) == map!["url"@ => ("string"@, "The URL to scrape content from"@, Some(true)), "extract_text"@ => ("boolean"@, "Whether to extract readable text from HTML (default: true)"@, Some(false)), "timeout_seconds"@ => ("number"@, "Request timeout in seconds (default: 30)"@, Some(false))],
    {
        tool_definition(self.name(), self.description(), self.parameters())
    }
}

/// Parses, prints, queries and edits JSON.
#[derive(Debug, Clone, Copy)]
pub struct JsonParserTool;

impl JsonParserTool {
    /// The tool's name.
    pub fn name(&self) -> (s: &'static str)
        ensures
            s@ == "json_parser"@,
    {
        "json_parser"
    }

    /// What the tool does.
    pub fn description(&self) -> (s: &'static str)
        ensures
            s@ == "Parse, validate, format, and manipulate JSON data. Supports operations: parse, stringify, get_value, set_value, validate"@,
    {
        "Parse, validate, format, and manipulate JSON data. Supports operations: parse, stringify, get_value, set_value, validate"
    }

    /// The tool's parameters.
    pub fn parameters(&self) -> (ps: StringMap<ToolParameter>)
        ensures
            params_view(ps) == map!["operation"@ => ("string"@, "Operation to perform: 'parse', 'stringify', 'get_value', 'set_value', 'validate'"@, Some(true)), "json"@ => ("string"@, "JSON string for parse/stringify/validate operations"@, Some(false)), "path"@ => ("string"@, "JSON path for get_value/set_value operations (e.g., '$.key' or 'key.subkey')"@, Some(false)), "value"@ => ("string"@, "Value to set for set_value operation (JSON string)"@, Some(false)), "indent"@ => ("number"@, "Indentation spaces for stringify operation (default: 2)"@, Some(false))],
    {
        let mut ps: StringMap<ToolParameter> = StringMap::new();
        add_param(&mut ps, "operation", "string", "Operation to perform: 'parse', 'stringify', 'get_value', 'set_value', 'validate'", true);
        add_param(&mut ps, "json", "string", "JSON string for parse/stringify/validate operations", false);
        add_param(&mut ps, "path", "string", "JSON path for get_value/set_value operations (e.g., '$.key' or 'key.subkey')", false);
        add_param(&mut ps, "value", "string", "Value to set for set_value operation (JSON string)", false);
        add_param(&mut ps, "indent", "number", "Indentation spaces for stringify operation (default: 2)", false);
        assert(params_view(ps) =~= map!["operation"@ => ("string"@, "Operation to perform: 'parse', 'stringify', 'get_value', 'set_value', 'validate'"@, Some(true)), "json"@ => ("string"@, "JSON string for parse/stringify/validate operations"@, Some(false)), "path"@ => ("string"@, "JSON path for get_value/set_value operations (e.g., '$.key' or 'key.subkey')"@, Some(false)), "value"@ => ("string"@, "Value to set for set_value operation (JSON string)"@, Some(false)), "indent"@ => ("number"@, "Indentation spaces for stringify operation (default: 2)"@, Some(false))]);
        ps
    }

    /// The tool's definition for a language model.
    pub fn to_definition(&self) -> (d: ToolDefinition)
        ensures
            d.function.name@ == "json_parser"@,
            d.function.description@ == "Parse, validate, format, and manipulate JSON data. Supports operations: parse, stringify, get_value, set_value, validate"@,
            params_view(d.function.parameters.properties) == map!["operation"@ => ("string"@, "Operation to perform: 'parse', 'stringify', 'get_value', 'set_value', 'validate'"@, Some(true)), "json"@ => ("string"@, "JSON string for parse/stringify/validate operations"@, Some(false)), "path"@ => ("string"@, "JSON path for get_value/set_value operations (e.g., '$.key' or 'key.subkey')"@, Some(false)), "value"@ => ("string"@, "Value to set for set_value operation (JSON string)"@, Some(false)), "indent"@ => ("number"@, "Indentation spaces for stringify operation (default: 2)"@, Some(false))],
    {
        tool_definition(self.name(), self.description(), self.parameters())
    }
}

/// Works with timestamps: current time, formatting, parsing, arithmetic.
#[derive(Debug, Clone, Copy)]
pub struct TimestampTool;

impl TimestampTool {
    /// The tool's name.
    pub fn name(&self) -> (s: &'static str)
        ensures
            s@ == "timestamp"@,
    {
        "timestamp"
    }

    /// What the tool does.
    pub fn description(&self) -> (s: &'static str)
        ensures
            s@ == "Work with timestamps and date/time operations. Supports current time, formatting, parsing, and time arithmetic."@,
    {
        "Work with timestamps and date/time operations. Supports current time, formatting, parsing, and time arithmetic."
    }

    /// The tool's parameters.
    pub fn parameters(&self) -> (ps: StringMap<ToolParameter>)
        ensures
            params_view(ps) == map!["operation"@ => ("string"@, "Operation: 'now', 'format', 'parse', 'add', 'subtract', 'diff'"@, Some(true)), "timestamp"@ => ("string"@, "Timestamp string for parse/format operations"@, Some(false)), "format"@ => ("string"@, "Date format string (default: RFC3339)"@, Some(false)), "unit"@ => ("string"@, "Time unit for arithmetic: 'seconds', 'minutes', 'hours', 'days'"@, Some(false)), "amount"@ => ("number"@, "Amount for add/subtract operations"@, Some(false)), "timestamp1"@ => ("string"@, "First timestamp for diff operation"@, Some(false)), "timestamp2"@ => ("string"@, "Second timestamp for diff operation"@, Some(false))],
    {
        let mut ps: StringMap<ToolParameter> = StringMap::new();
        add_param(&mut ps, "operation", "string", "Operation: 'now', 'format', 'parse', 'add', 'subtract', 'diff'", true);
        add_param(&mut ps, "timestamp", "string", "Timestamp string for parse/format operations", false);
        add_param(&mut ps, "format", "string", "Date format string (default: RFC3339)", false);
        add_param(&mut ps, "unit", "string", "Time unit for arithmetic: 'seconds', 'minutes', 'hours', 'days'", false);
        add_param(&mut ps, "amount", "number", "Amount for add/subtract operations", false);
        add_param(&mut ps, "timestamp1", "string", "First timestamp for diff operation", false);
        add_param(&mut ps, "timestamp2", "string", "Second timestamp for diff operation", false);
        assert(params_view(ps) =~= map!["operation"@ => ("string"@, "Operation: 'now', 'format', 'parse', 'add', 'subtract', 'diff'"@, Some(true)), "timestamp"@ => ("string"@, "Timestamp string for parse/format operations"@, Some(false)), "format"@ => ("string"@, "Date format string (default: RFC3339)"@, Some(false)), "unit"@ => ("string"@, "Time unit for arithmetic: 'seconds', 'minutes', 'hours', 'days'"@, Some(false)), "amount"@ => ("number"@, "Amount for add/subtract operations"@, Some(false)), "timestamp1"@ => ("string"@, "First timestamp for diff operation"@, Some(false)), "timestamp2"@ => ("string"@, "Second timestamp for diff operation"@, Some(false))]);
        ps
    }

    /// The tool's definition for a language model.
    pub fn to_definition(&self) -> (d: ToolDefinition)
        ensures
            d.function.name@ == "timestamp"@,
            d.function.description@ == "Work with timestamps and date/time operations. Supports current time, formatting, parsing, and time arithmetic."@,
            params_view(d.function.parameters.properties) == map!["operation"@ => ("string"@, "Operation: 'now', 'format', 'parse', 'add', 'subtract', 'diff'"@, Some(true)), "timestamp"@ => ("string"@, "Timestamp string for parse/format operations"@, Some(false)), "format"@ => ("string"@, "Date format string (default: RFC3339)"@, Some(false)), "unit"@ => ("string"@, "Time unit for arithmetic: 'seconds', 'minutes', 'hours', 'days'"@, Some(false)), "amount"@ => ("number"@, "Amount for add/subtract operations"@, Some(false)), "timestamp1"@ => ("string"@, "First timestamp for diff operation"@, Some(false)), "timestamp2"@ => ("string"@, "Second timestamp for diff operation"@, Some(false))],
    {
        tool_definition(self.name(), self.description(), self.parameters())
    }
}

/// Basic file operations under one interface.
#[derive(Debug, Clone, Copy)]
pub struct FileIOTool;

impl FileIOTool {
    /// The tool's name.
    pub fn name(&self) -> (s: &'static str)
        ensures
            s@ == "file_io"@,
    {
        "file_io"
    }

    /// What the tool does.
    pub fn description(&self) -> (s: &'static str)
        ensures
            s@ == "Basic file operations: read, write, append, delete, copy, move. Unified interface for common file I/O tasks."@,
    {
        "Basic file operations: read, write, append, delete, copy, move. Unified interface for common file I/O tasks."
    }

    /// The tool's parameters.
    pub fn parameters(&self) -> (ps: StringMap<ToolParameter>)
        ensures
            params_view(ps) == map!["operation"@ => ("string"@, "Operation: 'read', 'write', 'append', 'delete', 'copy', 'move', 'exists', 'size'"@, Some(true)), "path"@ => ("string"@, "File path for operations"@, Some(false)), "src_path"@ => ("string"@, "Source path for copy/move operations"@, Some(false)), "dst_path"@ => ("string"@, "Destination path for copy/move operations"@, Some(false)), "content"@ => ("string"@, "Content for write/append operations"@, Some(false))],
    {
        let mut ps: StringMap<ToolParameter> = StringMap::new();
        add_param(&mut ps, "operation", "string", "Operation: 'read', 'write', 'append', 'delete', 'copy', 'move', 'exists', 'size'", true);
        add_param(&mut ps, "path", "string", "File path for operations", false);
        add_param(&mut ps, "src_path", "string", "Source path for copy/move operations", false);
        add_param(&mut ps, "dst_path", "string", "Destination path for copy/move operations", false);
        add_param(&mut ps, "content", "string", "Content for write/append operations", false);
        assert(params_view(ps) =~= map!["operation"@ => ("string"@, "Operation: 'read', 'write', 'append', 'delete', 'copy', 'move', 'exists', 'size'"@, Some(true)), "path"@ => ("string"@, "File path for operations"@, Some(false)), "src_path"@ => ("string"@, "Source path for copy/move operations"@, Some(false)), "dst_path"@ => ("string"@, "Destination path for copy/move operations"@, Some(false)), "content"@ => ("string"@, "Content for write/append operations"@, Some(false))]);
        ps
    }

    /// The tool's definition for a language model.
    pub fn to_definition(&self) -> (d: ToolDefinition)
        ensures
            d.function.name@ == "file_io"@,
            d.function.description@ == "Basic file operations: read, write, append, delete, copy, move. Unified interface for common file I/O tasks."@,
            params_view(d.function.parameters.properties) == map!["operation"@ => ("string"@, "Operation: 'read', 'write', 'append', 'delete', 'copy', 'move', 'exists', 'size'"@, Some(true)), "path"@ => ("string"@, "File path for operations"@, Some(false)), "src_path"@ => ("string"@, "Source path for copy/move operations"@, Some(false)), "dst_path"@ => ("string"@, "Destination path for copy/move operations"@, Some(false)), "content"@ => ("string"@, "Content for write/append operations"@, Some(false))],
    {
        tool_definition(self.name(), self.description(), self.parameters())
    }
}

/// Runs shell commands that pass a safety check.
#[derive(Debug, Clone, Copy)]
pub struct ShellCommandTool;

impl ShellCommandTool {
    /// The tool's name.
    pub fn name(&self) -> (s: &'static str)
        ensures
            s@ == "shell_command"@,
    {
        "shell_command"
    }

    /// What the tool does.
    pub fn description(&self) -> (s: &'static str)
        ensures
            s@ == "Execute shell commands with safety restrictions. Limited to basic commands, no destructive operations allowed."@,
    {
        "Execute shell commands with safety restrictions. Limited to basic commands, no destructive operations allowed."
    }

    /// The tool's parameters.
    pub fn parameters(&self) -> (ps: StringMap<ToolParameter>)
        ensures
            params_view(ps) == map!["command"@ => ("string"@, "Shell command to execute"@, Some(true)), "timeout_seconds"@ => ("number"@, "Command timeout in seconds (default: 30, max: 60)"@, Some(false))],
    {
        let mut ps: StringMap<ToolParameter> = StringMap::new();
        add_param(&mut ps, "command", "string", "Shell command to execute", true);
        add_param(&mut ps, "timeout_seconds", "number", "Command timeout in seconds (default: 30, max: 60)", false);
        assert(params_view(ps) =~= map!["command"@ => ("string"@, "Shell command to execute"@, Some(true)), "timeout_seconds"@ => ("number"@, "Command timeout in seconds (default: 30, max: 60)"@, Some(false))]);
        ps
    }

    /// The tool's definition for a language model.
    pub fn to_definition(&self) -> (d: ToolDefinition)
        ensures
            d.function.name@ == "shell_command"@,
            d.function.description@ == "Execute shell commands with safety restrictions. Limited to basic commands, no destructive operations allowed."@,
            params_view(d.function.parameters.properties) == map!["command"@ => ("string"@, "Shell command to execute"@, Some(true)), "timeout_seconds"@ => ("number"@, "Command timeout in seconds (default: 30, max: 60)"@, Some(false))],
    {
        tool_definition(self.name(), self.description(), self.parameters())
    }
}

/// Makes HTTP requests.
#[derive(Debug, Clone, Copy)]
pub struct HttpRequestTool;

impl HttpRequestTool {
    /// The tool's name.
    pub fn name(&self) -> (s: &'static str)
        ensures
            s@ == "http_request"@,
    {
        "http_request"
    }

    /// What the tool does.
    pub fn description(&self) -> (s: &'static str)
        ensures
            s@ == "Make HTTP requests with various methods. Supports GET, POST, PUT, DELETE with custom headers and body."@,
    {
        "Make HTTP requests with various methods. Supports GET, POST, PUT, DELETE with custom headers and body."
    }

    /// The tool's parameters.
    pub fn parameters(&self) -> (ps: StringMap<ToolParameter>)
        ensures
            params_view(ps) == map!["method"@ => ("string"@, "HTTP method: GET, POST, PUT, DELETE, PATCH, HEAD, OPTIONS"@, Some(true)), "url"@ => ("string"@, "Request URL"@, Some(true)), "headers"@ => ("object"@, "Request headers as JSON object (optional)"@, Some(false)), "body"@ => ("string"@, "Request body for POST/PUT/PATCH methods"@, Some(false)), "timeout_seconds"@ => ("number"@, "Request timeout in seconds (default: 30)"@, Some(false))],
    {
        let mut ps: StringMap<ToolParameter> = StringMap::new();
        add_param(&mut ps, "method", "string", "HTTP method: GET, POST, PUT, DELETE, PATCH, HEAD, OPTIONS", true);
        add_param(&mut ps, "url", "string", "Request URL", true);
        add_param(&mut ps, "headers", "object", "Request headers as JSON object (optional)", false);
        add_param(&mut ps, "body", "string", "Request body for POST/PUT/PATCH methods", false);
        add_param(&mut ps, "timeout_seconds", "number", "Request timeout in seconds (default: 30)", false);
        assert(params_view(ps) =~= map!["method"@ => ("string"@, "HTTP method: GET, POST, PUT, DELETE, PATCH, HEAD, OPTIONS"@, Some(true)), "url"@ => ("string"@, "Request URL"@, Some(true)), "headers"@ => ("object"@, "Request headers as JSON object (optional)"@, Some(false)), "body"@ => ("string"@, "Request body for POST/PUT/PATCH methods"@, Some(false)), "timeout_seconds"@ => ("number"@, "Request timeout in seconds (default: 30)"@, Some(false))]);
        ps
    }

    /// The tool's definition for a language model.
    pub fn to_definition(&self) -> (d: ToolDefinition)
        ensures
            d.function.name@ == "http_request"@,
            d.function.description@ == "Make HTTP requests with various methods. Supports GET, POST, PUT, DELETE with custom headers and body."@,
            params_view(d.function.parameters.properties) == map!["method"@ => ("string"@, "HTTP method: GET, POST, PUT, DELETE, PATCH, HEAD, OPTIONS"@, Some(true)), "url"@ => ("string"@, "Request URL"@, Some(true)), "headers"@ => ("object"@, "Request headers as JSON object (optional)"@, Some(false)), "body"@ => ("string"@, "Request body for POST/PUT/PATCH methods"@, Some(false)), "timeout_seconds"@ => ("number"@, "Request timeout in seconds (default: 30)"@, Some(false))],
    {
        tool_definition(self.name(), self.description(), self.parameters())
    }
}

/// Lists directory contents.
#[derive(Debug, Clone, Copy)]
pub struct FileListTool;

impl FileListTool {
    /// The tool's name.
    pub fn name(&self) -> (s: &'static str)
        ensures
            s@ == "file_list"@,
    {
        "file_list"
    }

    /// What the tool does.
    pub fn description(&self) -> (s: &'static str)
        ensures
            s@ == "List directory contents with detailed information including file sizes, types, and modification times."@,
    {
        "List directory contents with detailed information including file sizes, types, and modification times."
    }

    /// The tool's parameters.
    pub fn parameters(&self) -> (ps: StringMap<ToolParameter>)
        ensures
            params_view(ps) == map!["path"@ => ("string"@, "Directory path to list (default: current directory)"@, Some(false)), "show_hidden"@ => ("boolean"@, "Show hidden files/directories (default: false)"@, Some(false)), "recursive"@ => ("boolean"@, "List contents recursively (default: false)"@, Some(false)), "max_depth"@ => ("number"@, "Maximum recursion depth (default: 3)"@, Some(false))],
    {
        let mut ps: StringMap<ToolParameter> = StringMap::new();
        add_param(&mut ps, "path", "string", "Directory path to list (default: current directory)", false);
        add_param(&mut ps, "show_hidden", "boolean", "Show hidden files/directories (default: false)", false);
        add_param(&mut ps, "recursive", "boolean", "List contents recursively (default: false)", false);
        add_param(&mut ps, "max_depth", "number", "Maximum recursion depth (default: 3)", false);
        assert(params_view(ps) =~= map!["path"@ => ("string"@, "Directory path to list (default: current directory)"@, Some(false)), "show_hidden"@ => ("boolean"@, "Show hidden files/directories (default: false)"@, Some(false)), "recursive"@ => ("boolean"@, "List contents recursively (default: false)"@, Some(false)), "max_depth"@ => ("number"@, "Maximum recursion depth (default: 3)"@, Some(false))]);
        ps
    }

    /// The tool's definition for a language model.
    pub fn to_definition(&self) -> (d: ToolDefinition)
        ensures
            d.function.name@ == "file_list"@,
            d.function.description@ == "List directory contents with detailed information including file sizes, types, and modification times."@,
            params_view(d.function.parameters.properties) == map!["path"@ => ("string"@, "Directory path to list (default: current directory)"@, Some(false)), "show_hidden"@ => ("boolean"@, "Show hidden files/directories (default: false)"@, Some(false)), "recursive"@ => ("boolean"@, "List contents recursively (default: false)"@, Some(false)), "max_depth"@ => ("number"@, "Maximum recursion depth (default: 3)"@, Some(false))],
    {
        tool_definition(self.name(), self.description(), self.parameters())
    }
}

/// Describes the machine: OS, CPU, memory, disks, network.
#[derive(Debug, Clone, Copy)]
pub struct SystemInfoTool;

impl SystemInfoTool {
    /// The tool's name.
    pub fn name(&self) -> (s: &'static str)
        ensures
            s@ == "system_info"@,
    {
        "system_info"
    }

    /// What the tool does.
    pub fn description(&self) -> (s: &'static str)
        ensures
            s@ == "Retrieve system information including OS, CPU, memory, disk usage, and network interfaces."@,
    {
        "Retrieve system information including OS, CPU, memory, disk usage, and network interfaces."
    }

    /// The tool's parameters.
    pub fn parameters(&self) -> (ps: StringMap<ToolParameter>)
        ensures
            params_view(ps) == map!["category"@ => ("string"@, "Info category: 'all', 'os', 'cpu', 'memory', 'disk', 'network' (default: all)"@, Some(false))],
    {
        let mut ps: StringMap<ToolParameter> = StringMap::new();
        add_param(&mut ps, "category", "string", "Info category: 'all', 'os', 'cpu', 'memory', 'disk', 'network' (default: all)", false);
        assert(params_view(ps) =~= map!["category"@ => ("string"@, "Info category: 'all', 'os', 'cpu', 'memory', 'disk', 'network' (default: all)"@, Some(false))]);
        ps
    }

    /// The tool's definition for a language model.
    pub fn to_definition(&self) -> (d: ToolDefinition)
        ensures
            d.function.name@ == "system_info"@,
            d.function.description@ == "Retrieve system information including OS, CPU, memory, disk usage, and network interfaces."@,
            params_view(d.function.parameters.properties) == map!["category"@ => ("string"@, "Info category: 'all', 'os', 'cpu', 'memory', 'disk', 'network' (default: all)"@, Some(false))],
    {
        tool_definition(self.name(), self.description(), self.parameters())
    }
}

/// Searches, replaces, splits, counts and reformats text.
#[derive(Debug, Clone, Copy)]
pub struct TextProcessorTool;

impl TextProcessorTool {
    /// The tool's name.
    pub fn name(&self) -> (s: &'static str)
        ensures
            s@ == "text_processor"@,
    {
        "text_processor"
    }

    /// What the tool does.
    pub fn description(&self) -> (s: &'static str)
        ensures
            s@ == "Process and manipulate text with operations like search, replace, split, join, count, and format."@,
    {
        "Process and manipulate text with operations like search, replace, split, join, count, and format."
    }

    /// The tool's parameters.
    pub fn parameters(&self) -> (ps: StringMap<ToolParameter>)
        ensures
            params_view(ps) == map!["operation"@ => ("string"@, "Operation: 'search', 'replace', 'split', 'join', 'count', 'uppercase', 'lowercase', 'trim', 'lines', 'words'"@, Some(true)), "text"@ => ("string"@, "Input text for processing"@, Some(true)), "pattern"@ => ("string"@, "Search pattern for search/replace/split operations"@, Some(false)), "replacement"@ => ("string"@, "Replacement text for replace operation"@, Some(false)), "separator"@ => ("string"@, "Separator for join/split operations (default: space)"@, Some(false)), "case_sensitive"@ => ("boolean"@, "Case sensitive search (default: true)"@, Some(false))],
    {
        let mut ps: StringMap<ToolParameter> = StringMap::new();
        add_param(&mut ps, "operation", "string", "Operation: 'search', 'replace', 'split', 'join', 'count', 'uppercase', 'lowercase', 'trim', 'lines', 'words'", true);
        add_param(&mut ps, "text", "string", "Input text for processing", true);
        add_param(&mut ps, "pattern", "string", "Search pattern for search/replace/split operations", false);
        add_param(&mut ps, "replacement", "string", "Replacement text for replace operation", false);
        add_param(&mut ps, "separator", "string", "Separator for join/split operations (default: space)", false);
        add_param(&mut ps, "case_sensitive", "boolean", "Case sensitive search (default: true)", false);
        assert(params_view(ps) =~= map!["operation"@ => ("string"@, "Operation: 'search', 'replace', 'split', 'join', 'count', 'uppercase', 'lowercase', 'trim', 'lines', 'words'"@, Some(true)), "text"@ => ("string"@, "Input text for processing"@, Some(true)), "pattern"@ => ("string"@, "Search pattern for search/replace/split operations"@, Some(false)), "replacement"@ => ("string"@, "Replacement text for replace operation"@, Some(false)), "separator"@ => ("string"@, "Separator for join/split operations (default: space)"@, Some(false)), "case_sensitive"@ => ("boolean"@, "Case sensitive search (default: true)"@, Some(false))]);
        ps
    }

    /// The tool's definition for a language model.
    pub fn to_definition(&self) -> (d: ToolDefinition)
        ensures
            d.function.name@ == "text_processor"@,
            d.function.description@ == "Process and manipulate text with operations like search, replace, split, join, count, and format."@,
            params_view(d.function.parameters.properties) == map!["operation"@ => ("string"@, "Operation: 'search', 'replace', 'split', 'join', 'count', 'uppercase', 'lowercase', 'trim', 'lines', 'words'"@, Some(true)), "text"@ => ("string"@, "Input text for processing"@, Some(true)), "pattern"@ => ("string"@, "Search pattern for search/replace/split operations"@, Some(false)), "replacement"@ => ("string"@, "Replacement text for replace operation"@, Some(false)), "separator"@ => ("string"@, "Separator for join/split operations (default: space)"@, Some(false)), "case_sensitive"@ => ("boolean"@, "Case sensitive search (default: true)"@, Some(false))],
    {
        tool_definition(self.name(), self.description(), self.parameters())
    }
}


impl EchoTool {
    /// Runs the echo tool.
    pub fn execute(&self, args: &JsonValue) -> (r: Result<ToolResult, HeliosError>)
        ensures
            match str_arg(*args, "message"@) {
                Some(m) => tool_ok(r, "Echo: "@ + m),
                None => is_tool_error(r, "Missing 'message' parameter"@),
            },
    {
        echo_tool(args)
    }
}

impl TextProcessorTool {
    /// Runs the text processor.
    pub fn execute(&self, args: &JsonValue) -> (r: Result<ToolResult, HeliosError>)
        ensures
            match text_tool_answer(*args) {
                Ok(t) => tool_ok(r, t),
                Err(m) => is_tool_error(r, m),
            },
    {
        text_processor_tool(args)
    }
}

impl TimestampTool {
    /// Runs the timestamp tool at the current time; nothing where the
    /// date-time library would fail on the arguments (see `timestamp_tool_at`).
    pub fn execute(&self, args: &JsonValue) -> (r: Option<Result<ToolResult, HeliosError>>)
        ensures
            exists|t: DateTimeParts, local: Seq<char>|
                t.offset == 0 && from_timestamp_ok(t.secs, t.nanos) && answers(r, #[trigger] timestamp_outcome(*args, t, local)),
            diff_never_negative(*args),
    {
        timestamp_tool(args)
    }
}

} // verus!
