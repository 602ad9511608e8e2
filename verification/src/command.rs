//! The remote-control commands the workflow issues.
//!
//! A command is an ordered sequence of string tokens; the surrounding
//! program sends it to the control endpoint as a JSON array of strings.

use vstd::prelude::*;
use crate::chars::{dec_digits, u16_digits, chars_to_string};

verus! {

/// The tokens of a command, as character sequences.
pub open spec fn cmd_view(c: Vec<String>) -> Seq<Seq<char>> {
    c@.map_values(|s: String| s@)
}

/// The command that enumerates all workspace entries.
pub open spec fn tabs_command_spec() -> Seq<Seq<char>> {
    seq!["--all_pages"@]
}

/// The command that opens a fresh workspace entry of the reserved kind.
pub open spec fn open_command_spec() -> Seq<Seq<char>> {
    seq!["--add_page"@, "3"@]
}

/// The command that closes the workspace entry at `index`.
pub open spec fn close_command_spec(index: u16) -> Seq<Seq<char>> {
    seq!["--del_page"@, dec_digits(index as nat)]
}

/// The command that hands the document at `path` to the workspace entry:
/// the path is wrapped as a single-element JSON array argument.
pub open spec fn add_docs_command_spec(path: Seq<char>) -> Seq<Seq<char>> {
    seq!["--call_qml"@, "BatchDOC"@, "--func"@, "addDocs"@, "[\""@ + path + "\"]"@]
}

/// The command that starts processing in the workspace entry.
pub open spec fn doc_start_command_spec() -> Seq<Seq<char>> {
    seq!["--call_qml"@, "BatchDOC"@, "--func"@, "docStart"@]
}

/// Builds the listing command.
pub fn tabs_command() -> (c: Vec<String>)
    ensures
        cmd_view(c) == tabs_command_spec(),
{
    let mut c: Vec<String> = Vec::new();
    c.push(String::from_str("--all_pages"));
    proof {
        assert(cmd_view(c) =~= tabs_command_spec());
    }
    c
}

/// Builds the open command.
pub fn open_command() -> (c: Vec<String>)
    ensures
        cmd_view(c) == open_command_spec(),
{
    let mut c: Vec<String> = Vec::new();
    c.push(String::from_str("--add_page"));
    c.push(String::from_str("3"));
    proof {
        assert(cmd_view(c) =~= open_command_spec());
    }
    c
}

/// Builds the close command for the entry at `index`.
pub fn close_command(index: u16) -> (c: Vec<String>)
    ensures
        cmd_view(c) == close_command_spec(index),
{
    let mut c: Vec<String> = Vec::new();
    c.push(String::from_str("--del_page"));
    c.push(chars_to_string(u16_digits(index)));
    proof {
        assert(cmd_view(c) =~= close_command_spec(index));
    }
    c
}

/// Builds the add-documents command for the document at `path`.
pub fn add_docs_command(path: &str) -> (c: Vec<String>)
    ensures
        cmd_view(c) == add_docs_command_spec(path@),
{
    let mut c: Vec<String> = Vec::new();
    c.push(String::from_str("--call_qml"));
    c.push(String::from_str("BatchDOC"));
    c.push(String::from_str("--func"));
    c.push(String::from_str("addDocs"));
    let payload = String::from_str("[\"").concat(path).concat("\"]");
    proof {
        assert(payload@ == "[\""@ + path@ + "\"]"@);
    }
    c.push(payload);
    proof {
        assert(cmd_view(c) =~= add_docs_command_spec(path@));
    }
    c
}

/// Builds the start-processing command.
pub fn doc_start_command() -> (c: Vec<String>)
    ensures
        cmd_view(c) == doc_start_command_spec(),
{
    let mut c: Vec<String> = Vec::new();
    c.push(String::from_str("--call_qml"));
    c.push(String::from_str("BatchDOC"));
    c.push(String::from_str("--func"));
    c.push(String::from_str("docStart"));
    proof {
        assert(cmd_view(c) =~= doc_start_command_spec());
    }
    c
}

} // verus!
