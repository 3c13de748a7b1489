//! The commands of the interactive shell, read from a line of input.

use crate::text::{join_from, joined, same_text, split_words, words};
use vstd::prelude::*;

verus! {

/// What a line of input asks for.
#[derive(Debug, Clone, PartialEq, Eq)]
pub enum Command {
    /// The line holds nothing: ask again.
    Nothing,
    /// Show the commands.
    Help,
    /// Show the status of every backend.
    Status,
    /// List the tools of every connected backend.
    ListTools,
    /// List the resources of every connected backend.
    ListResources,
    /// Call a tool, with arguments where any are given.
    Call { server: String, tool: String, args: Option<String> },
    /// `call` without a backend and a tool: show how it is used.
    CallUsage,
    /// Read a resource.
    Read { server: String, uri: String },
    /// `read` without a backend and a resource: show how it is used.
    ReadUsage,
    /// Reconnect a backend.
    Reconnect { server: String },
    /// `reconnect` without a backend: show how it is used.
    ReconnectUsage,
    /// Shut down and leave.
    Quit,
    /// Anything else.
    Unknown { command: String },
}

/// The mathematical content of a [`Command`].
pub enum CommandView {
    Nothing,
    Help,
    Status,
    ListTools,
    ListResources,
    Call { server: Seq<char>, tool: Seq<char>, args: Option<Seq<char>> },
    CallUsage,
    Read { server: Seq<char>, uri: Seq<char> },
    ReadUsage,
    Reconnect { server: Seq<char> },
    ReconnectUsage,
    Quit,
    Unknown { command: Seq<char> },
}

impl View for Command {
    type V = CommandView;

    open spec fn view(&self) -> CommandView {
        match *self {
            Command::Nothing => CommandView::Nothing,
            Command::Help => CommandView::Help,
            Command::Status => CommandView::Status,
            Command::ListTools => CommandView::ListTools,
            Command::ListResources => CommandView::ListResources,
            Command::Call { server, tool, args } => CommandView::Call {
                server: server@,
                tool: tool@,
                args: crate::text::text_of(args),
            },
            Command::CallUsage => CommandView::CallUsage,
            Command::Read { server, uri } => CommandView::Read { server: server@, uri: uri@ },
            Command::ReadUsage => CommandView::ReadUsage,
            Command::Reconnect { server } => CommandView::Reconnect { server: server@ },
            Command::ReconnectUsage => CommandView::ReconnectUsage,
            Command::Quit => CommandView::Quit,
            Command::Unknown { command } => CommandView::Unknown { command: command@ },
        }
    }
}

/// What the words of a line ask for. The first word names the command.
/// `call` takes a backend, a tool and, joined by single spaces, whatever
/// follows as arguments; `read` a backend and a resource; `reconnect` a
/// backend. Words beyond those are ignored.
pub open spec fn command_of(parts: Seq<Seq<char>>) -> CommandView {
    if parts.len() == 0 {
        CommandView::Nothing
    } else if parts[0] == "help"@ {
        CommandView::Help
    } else if parts[0] == "status"@ {
        CommandView::Status
    } else if parts[0] == "list-tools"@ {
        CommandView::ListTools
    } else if parts[0] == "list-resources"@ {
        CommandView::ListResources
    } else if parts[0] == "call"@ {
        if parts.len() < 3 {
            CommandView::CallUsage
        } else {
            CommandView::Call {
                server: parts[1],
                tool: parts[2],
                args: if parts.len() > 3 {
                    Some(joined(parts.skip(3), " "@))
                } else {
                    None
                },
            }
        }
    } else if parts[0] == "read"@ {
        if parts.len() < 3 {
            CommandView::ReadUsage
        } else {
            CommandView::Read { server: parts[1], uri: parts[2] }
        }
    } else if parts[0] == "reconnect"@ {
        if parts.len() < 2 {
            CommandView::ReconnectUsage
        } else {
            CommandView::Reconnect { server: parts[1] }
        }
    } else if parts[0] == "quit"@ || parts[0] == "exit"@ {
        CommandView::Quit
    } else {
        CommandView::Unknown { command: parts[0] }
    }
}

/// Reads a command from a line of input. White space separates the words
/// and does not count otherwise.
pub fn parse_command(input: &str) -> (r: Command)
    ensures
        r@ == command_of(words(input@)),
{
    let parts = split_words(input);
    if parts.len() == 0 {
        return Command::Nothing;
    }
    let command = parts[0].as_str();
    if same_text(command, "help") {
        Command::Help
    } else if same_text(command, "status") {
        Command::Status
    } else if same_text(command, "list-tools") {
        Command::ListTools
    } else if same_text(command, "list-resources") {
        Command::ListResources
    } else if same_text(command, "call") {
        if parts.len() < 3 {
            Command::CallUsage
        } else {
            Command::Call {
                server: parts[1].clone(),
                tool: parts[2].clone(),
                args: if parts.len() > 3 {
                    Some(join_from(&parts, 3, " "))
                } else {
                    None
                },
            }
        }
    } else if same_text(command, "read") {
        if parts.len() < 3 {
            Command::ReadUsage
        } else {
            Command::Read { server: parts[1].clone(), uri: parts[2].clone() }
        }
    } else if same_text(command, "reconnect") {
        if parts.len() < 2 {
            Command::ReconnectUsage
        } else {
            Command::Reconnect { server: parts[1].clone() }
        }
    } else if same_text(command, "quit") || same_text(command, "exit") {
        Command::Quit
    } else {
        Command::Unknown { command: parts[0].clone() }
    }
}

} // verus!
