//! The number of files directly under a path.

#![allow(non_snake_case)]

use crate::command::{Command, CommandView, Step};
use crate::error::HandlerError;
use crate::filesystem::{EntryKind, Facts, FactsView};
use crate::handlers::get_directory_count::{answer_count, count_entries};
use vstd::prelude::*;

verus! {

/// What the handler does: it counts the files.
pub open spec fn get_file_count(state: CommandView, facts: FactsView) -> Step {
    count_entries(state, facts, EntryKind::File)
}

/// Answers how many files lie directly under the requested path.
pub fn GetFileCount(command: &mut Command, facts: &Facts) -> (result: Result<(), HandlerError>)
    ensures
        (Step { state: final(command)@, result }) == get_file_count(old(command)@, facts@),
{
    answer_count(command, facts, EntryKind::File)
}

} // verus!
