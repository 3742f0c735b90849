//! The error type of the library.

use vstd::prelude::*;
use crate::text::push_str;

verus! {

/// The errors of the Helios engine. Each variant carries the text of the error;
/// variants that stand for an error of another component (network, JSON, I/O,
/// TOML, llama.cpp) carry that error's own message.
#[derive(Debug, Clone)]
pub enum HeliosError {
    /// An error related to configuration.
    ConfigError(String),
    /// An error related to the language model.
    LLMError(String),
    /// An error related to a tool.
    ToolError(String),
    /// An error related to an agent.
    AgentError(String),
    /// An error related to a network request.
    NetworkError(String),
    /// An error related to serialization or deserialization.
    SerializationError(String),
    /// An I/O error.
    IoError(String),
    /// An error while parsing TOML.
    TomlError(String),
    /// An error from the llama.cpp backend.
    LlamaCppError(String),
}

/// The fixed text that introduces an error of each kind.
pub open spec fn error_prefix(e: HeliosError) -> Seq<char> {
    match e {
        HeliosError::ConfigError(_) => "Configuration error: "@,
        HeliosError::LLMError(_) => "LLM error: "@,
        HeliosError::ToolError(_) => "Tool error: "@,
        HeliosError::AgentError(_) => "Agent error: "@,
        HeliosError::NetworkError(_) => "Network error: "@,
        HeliosError::SerializationError(_) => "Serialization error: "@,
        HeliosError::IoError(_) => "IO error: "@,
        HeliosError::TomlError(_) => "TOML parsing error: "@,
        HeliosError::LlamaCppError(_) => "Llama C++ error: "@,
    }
}

/// The text carried by an error.
pub open spec fn error_detail(e: HeliosError) -> Seq<char> {
    match e {
        HeliosError::ConfigError(m) => m@,
        HeliosError::LLMError(m) => m@,
        HeliosError::ToolError(m) => m@,
        HeliosError::AgentError(m) => m@,
        HeliosError::NetworkError(m) => m@,
        HeliosError::SerializationError(m) => m@,
        HeliosError::IoError(m) => m@,
        HeliosError::TomlError(m) => m@,
        HeliosError::LlamaCppError(m) => m@,
    }
}

/// How an error is displayed: its kind's prefix, then its text.
pub open spec fn error_display(e: HeliosError) -> Seq<char> {
    error_prefix(e) + error_detail(e)
}

impl HeliosError {
    /// The displayed text of the error, e.g. `Tool error: Tool issue`.
    pub fn message(&self) -> (out: String)
        ensures
            out@ == error_display(*self),
    {
        let (prefix, detail) = match self {
            HeliosError::ConfigError(m) => ("Configuration error: ", m),
            HeliosError::LLMError(m) => ("LLM error: ", m),
            HeliosError::ToolError(m) => ("Tool error: ", m),
            HeliosError::AgentError(m) => ("Agent error: ", m),
            HeliosError::NetworkError(m) => ("Network error: ", m),
            HeliosError::SerializationError(m) => ("Serialization error: ", m),
            HeliosError::IoError(m) => ("IO error: ", m),
            HeliosError::TomlError(m) => ("TOML parsing error: ", m),
            HeliosError::LlamaCppError(m) => ("Llama C++ error: ", m),
        };
        let mut out = String::new();
        push_str(&mut out, prefix);
        push_str(&mut out, detail.as_str());
        out
    }
}

} // verus!
