//! The name of one directory directly under a path.

#![allow(non_snake_case)]

use crate::command::{protocol, Command, CommandView, Step};
use crate::error::{HandlerError, RequestError};
use crate::filesystem::{entries_of, nth_of_kind, of_kind, EntryKind, Facts, FactsView};
use crate::traits::serializable::Serializable;
use vstd::prelude::*;

verus! {

/// What a picking handler does: it reads a path and an index, and answers
/// with the name of the entry at that index among the entries of one kind in
/// the listing of the path, in the order of the listing.
pub open spec fn pick_entry(state: CommandView, facts: FactsView, kind: EntryKind) -> Step {
    let middle = state.read_state::<String>();
    let after = middle.read_state::<i32>();
    match state.read_result::<String>() {
        Err(error) => Step { state: middle, result: Err(HandlerError::Protocol(error)) },
        Ok(_) => match middle.read_result::<i32>() {
            Err(error) => Step { state: after, result: Err(HandlerError::Protocol(error)) },
            Ok(index) => match entries_of(facts) {
                Err(error) => Step { state: after, result: Err(error) },
                Ok(entries) => if 0 <= index < of_kind(entries, kind).len() {
                    after.response_start().and_write(
                        <String as Serializable<String>>::wire(
                            of_kind(entries, kind)[index as int].name,
                        ),
                    )
                } else {
                    Step {
                        state: after,
                        result: Err(HandlerError::Request(RequestError::IndexOutOfRange)),
                    }
                },
            },
        },
    }
}

/// Reads a path and an index and answers with the name of the entry of
/// `kind` at that index.
pub fn answer_entry(command: &mut Command, facts: &Facts, kind: EntryKind) -> (result: Result<
    (),
    HandlerError,
>)
    ensures
        (Step { state: final(command)@, result }) == pick_entry(old(command)@, facts@, kind),
{
    let _path = protocol(command.read::<String>())?;
    let index = protocol(command.read::<i32>())?;
    let entries = facts.entries()?;
    let entry = match nth_of_kind(entries, kind, index) {
        Some(entry) => entry,
        None => {
            return Err(HandlerError::Request(RequestError::IndexOutOfRange));
        },
    };
    protocol(command.response_start())?;
    protocol(command.write::<String>(entry.name.clone()))?;
    Ok(())
}

/// What the handler does: it picks among the directories.
pub open spec fn get_directory(state: CommandView, facts: FactsView) -> Step {
    pick_entry(state, facts, EntryKind::Directory)
}

/// Answers what the directory at the requested index under the requested
/// path is called.
pub fn GetDirectory(command: &mut Command, facts: &Facts) -> (result: Result<(), HandlerError>)
    ensures
        (Step { state: final(command)@, result }) == get_directory(old(command)@, facts@),
{
    answer_entry(command, facts, EntryKind::Directory)
}

} // verus!
