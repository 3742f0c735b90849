//! Configuration defaults and the choice of model by the command line's mode.
//!
//! The configuration itself holds floating-point settings and is read from
//! TOML, so it lives with the program; what is decided from it is here.

use vstd::prelude::*;
use crate::error::HeliosError;
use crate::text::{push_str, str_eq, str_trim, trim, to_lowercase, lowercase};

verus! {

/// The token limit used when the configuration sets none.
pub fn default_max_tokens() -> (n: u32)
    ensures
        n == 2048,
{
    2048
}

/// The context size used when the configuration sets none.
pub fn default_context_size() -> (n: usize)
    ensures
        n == 2048,
{
    2048
}

/// The placeholder API key that a new configuration file holds.
pub open spec fn placeholder_api_key() -> Seq<char> {
    "your-api-key-here"@
}

/// Which model a run uses.
#[derive(Debug, Clone, Copy, PartialEq, Eq, Structural)]
pub enum ModeChoice {
    /// The remote API, the local section being set aside.
    Online,
    /// The local model.
    Offline,
    /// The local model, because one is configured.
    AutoLocal,
    /// The remote API, because no local model is configured.
    AutoRemote,
}

/// Why a mode cannot be used.
#[derive(Debug, Clone, Copy, PartialEq, Eq, Structural)]
pub enum ModeProblem {
    /// The remote API would be used but its key is still the placeholder.
    ApiKeyNotSet,
    /// Offline mode was asked for without a local section.
    NoLocalSection,
    /// The mode is none of `auto`, `online` and `offline`.
    InvalidMode,
}

/// The model that mode `mode` selects, given whether a local model is
/// configured and the remote API key.
pub open spec fn mode_outcome(mode: Seq<char>, has_local: bool, api_key: Seq<char>) -> Result<ModeChoice, ModeProblem> {
    if mode == "online"@ {
        if api_key == placeholder_api_key() {
            Err(ModeProblem::ApiKeyNotSet)
        } else {
            Ok(ModeChoice::Online)
        }
    } else if mode == "offline"@ {
        if has_local {
            Ok(ModeChoice::Offline)
        } else {
            Err(ModeProblem::NoLocalSection)
        }
    } else if mode == "auto"@ {
        if has_local {
            Ok(ModeChoice::AutoLocal)
        } else if api_key == placeholder_api_key() {
            Err(ModeProblem::ApiKeyNotSet)
        } else {
            Ok(ModeChoice::AutoRemote)
        }
    } else {
        Err(ModeProblem::InvalidMode)
    }
}

/// Decides which model mode `mode` selects (the command line's `--mode`).
pub fn choose_mode(mode: &str, has_local: bool, api_key: &str) -> (r: Result<ModeChoice, ModeProblem>)
    ensures
        r == mode_outcome(mode@, has_local, api_key@),
{
    let key_unset = str_eq(api_key, "your-api-key-here");
    if str_eq(mode, "online") {
        if key_unset {
            Err(ModeProblem::ApiKeyNotSet)
        } else {
            Ok(ModeChoice::Online)
        }
    } else if str_eq(mode, "offline") {
        if has_local {
            Ok(ModeChoice::Offline)
        } else {
            Err(ModeProblem::NoLocalSection)
        }
    } else if str_eq(mode, "auto") {
        if has_local {
            Ok(ModeChoice::AutoLocal)
        } else if key_unset {
            Err(ModeProblem::ApiKeyNotSet)
        } else {
            Ok(ModeChoice::AutoRemote)
        }
    } else {
        Err(ModeProblem::InvalidMode)
    }
}

/// The error for a configuration file that cannot be read.
pub fn config_not_found(path: &str) -> (e: HeliosError)
    ensures
        e matches HeliosError::ConfigError(m) && m@ == "Configuration file '"@ + path@ + "' not found"@,
{
    let mut m = String::new();
    push_str(&mut m, "Configuration file '");
    push_str(&mut m, path);
    push_str(&mut m, "' not found");
    HeliosError::ConfigError(m)
}


/// What a line typed in an interactive chat asks for.
#[derive(Debug)]
pub enum ChatCommand {
    /// A blank line: nothing to do.
    Nothing,
    /// `exit` or `quit`: end the chat.
    Exit,
    /// `clear`: forget the conversation.
    Clear,
    /// `help`: show the commands.
    Help,
    /// `history`: show the conversation.
    History,
    /// `summary`: show the session summary.
    Summary,
    /// Anything else: a message to send, without its surrounding whitespace.
    Message(String),
}

/// The command a typed line gives: the line is trimmed, a blank one asks for
/// nothing, and the command words are recognised whatever their case.
pub open spec fn chat_command_of(line: Seq<char>) -> ChatCommandKind {
    let t = trim(line);
    let w = lowercase(t);
    if t.len() == 0 {
        ChatCommandKind::Nothing
    } else if w == "exit"@ || w == "quit"@ {
        ChatCommandKind::Exit
    } else if w == "clear"@ {
        ChatCommandKind::Clear
    } else if w == "help"@ {
        ChatCommandKind::Help
    } else if w == "history"@ {
        ChatCommandKind::History
    } else if w == "summary"@ {
        ChatCommandKind::Summary
    } else {
        ChatCommandKind::Message(t)
    }
}

/// A command by its parts, the message by its text.
pub enum ChatCommandKind {
    /// See `ChatCommand::Nothing`.
    Nothing,
    /// See `ChatCommand::Exit`.
    Exit,
    /// See `ChatCommand::Clear`.
    Clear,
    /// See `ChatCommand::Help`.
    Help,
    /// See `ChatCommand::History`.
    History,
    /// See `ChatCommand::Summary`.
    Summary,
    /// See `ChatCommand::Message`.
    Message(Seq<char>),
}

/// A command as its kind.
pub open spec fn command_kind(c: ChatCommand) -> ChatCommandKind {
    match c {
        ChatCommand::Nothing => ChatCommandKind::Nothing,
        ChatCommand::Exit => ChatCommandKind::Exit,
        ChatCommand::Clear => ChatCommandKind::Clear,
        ChatCommand::Help => ChatCommandKind::Help,
        ChatCommand::History => ChatCommandKind::History,
        ChatCommand::Summary => ChatCommandKind::Summary,
        ChatCommand::Message(m) => ChatCommandKind::Message(m@),
    }
}

/// Reads a line typed in an interactive chat.
pub fn chat_command(line: &str) -> (c: ChatCommand)
    ensures
        command_kind(c) == chat_command_of(line@),
{
    let t = str_trim(line);
    if t.as_str().is_empty() {
        return ChatCommand::Nothing;
    }
    let w = to_lowercase(t.as_str());
    let w = w.as_str();
    if str_eq(w, "exit") || str_eq(w, "quit") {
        ChatCommand::Exit
    } else if str_eq(w, "clear") {
        ChatCommand::Clear
    } else if str_eq(w, "help") {
        ChatCommand::Help
    } else if str_eq(w, "history") {
        ChatCommand::History
    } else if str_eq(w, "summary") {
        ChatCommand::Summary
    } else {
        ChatCommand::Message(t)
    }
}

} // verus!
