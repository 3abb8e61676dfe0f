//! The number of directories directly under a path.

#![allow(non_snake_case)]

use crate::command::{protocol, Command, CommandView, Step};
use crate::error::{HandlerError, RequestError};
use crate::filesystem::{count_of_kind, entries_of, of_kind, EntryKind, Facts, FactsView};
use crate::traits::serializable::Serializable;
use vstd::prelude::*;

verus! {

/// What a counting handler does: it reads a path, and answers with the
/// number of entries of one kind in the listing of that path, as a signed
/// 32-bit integer.
pub open spec fn count_entries(state: CommandView, facts: FactsView, kind: EntryKind) -> Step {
    let after = state.read_state::<String>();
    match state.read_result::<String>() {
        Err(error) => Step { state: after, result: Err(HandlerError::Protocol(error)) },
        Ok(_) => match entries_of(facts) {
            Err(error) => Step { state: after, result: Err(error) },
            Ok(entries) => if of_kind(entries, kind).len() > i32::MAX {
                Step { state: after, result: Err(HandlerError::Request(RequestError::Overflow)) }
            } else {
                after.response_start().and_write(
                    <i32 as Serializable<i32>>::wire(of_kind(entries, kind).len() as i32),
                )
            },
        },
    }
}

/// Reads a path and answers how many entries of `kind` its listing holds.
pub fn answer_count(command: &mut Command, facts: &Facts, kind: EntryKind) -> (result: Result<
    (),
    HandlerError,
>)
    ensures
        (Step { state: final(command)@, result }) == count_entries(old(command)@, facts@, kind),
{
    let _path = protocol(command.read::<String>())?;
    let entries = facts.entries()?;
    let count = count_of_kind(entries, kind);
    if count > i32::MAX as usize {
        return Err(HandlerError::Request(RequestError::Overflow));
    }
    protocol(command.response_start())?;
    protocol(command.write::<i32>(count as i32))?;
    Ok(())
}

/// What the handler does: it counts the directories.
pub open spec fn get_directory_count(state: CommandView, facts: FactsView) -> Step {
    count_entries(state, facts, EntryKind::Directory)
}

/// Answers how many directories lie directly under the requested path.
pub fn GetDirectoryCount(command: &mut Command, facts: &Facts) -> (result: Result<
    (),
    HandlerError,
>)
    ensures
        (Step { state: final(command)@, result }) == get_directory_count(old(command)@, facts@),
{
    answer_count(command, facts, EntryKind::Directory)
}

} // verus!
