//! The name of one file directly under a path.

#![allow(non_snake_case)]

use crate::command::{Command, CommandView, Step};
use crate::error::HandlerError;
use crate::filesystem::{EntryKind, Facts, FactsView};
use crate::handlers::get_directory::{answer_entry, pick_entry};
use vstd::prelude::*;

verus! {

/// What the handler does: it picks among the files.
pub open spec fn get_file(state: CommandView, facts: FactsView) -> Step {
    pick_entry(state, facts, EntryKind::File)
}

/// Answers what the file at the requested index under the requested path is
/// called.
pub fn GetFile(command: &mut Command, facts: &Facts) -> (result: Result<(), HandlerError>)
    ensures
        (Step { state: final(command)@, result }) == get_file(old(command)@, facts@),
{
    answer_entry(command, facts, EntryKind::File)
}

} // verus!
