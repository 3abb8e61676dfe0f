//! Whether a path is a file or a directory, and how long it is.

#![allow(non_snake_case)]

use crate::command::{protocol, Command, CommandView, Step};
use crate::error::{HandlerError, RequestError};
use crate::filesystem::{metadata_of, Facts, FactsView, Metadata};
use crate::traits::serializable::Serializable;
use vstd::prelude::*;

verus! {

/// The kind that stands for a file in a response.
pub const KIND_FILE: i32 = 1;

/// The kind that stands for a directory in a response.
pub const KIND_DIRECTORY: i32 = 2;

/// What a client is told of a path.
#[derive(Clone, Copy, Debug, PartialEq, Eq, Structural)]
pub struct PathStat {
    /// `KIND_FILE` or `KIND_DIRECTORY`.
    pub kind: i32,
    /// The length in bytes; zero for a directory.
    pub size: i64,
}

/// What a client is told of a path with the given metadata: a directory has
/// no size, and a file has its length, if the field for it can hold it.
pub open spec fn path_stat(metadata: Metadata) -> Result<PathStat, RequestError> {
    if metadata.is_directory {
        Ok(PathStat { kind: KIND_DIRECTORY, size: 0 })
    } else if metadata.length > i64::MAX {
        Err(RequestError::Overflow)
    } else {
        Ok(PathStat { kind: KIND_FILE, size: metadata.length as i64 })
    }
}

impl PathStat {
    /// What a client is told of a path with the given metadata.
    pub fn of(metadata: Metadata) -> (result: Result<PathStat, RequestError>)
        ensures
            result == path_stat(metadata),
    {
        if metadata.is_directory {
            Ok(PathStat { kind: KIND_DIRECTORY, size: 0 })
        } else if metadata.length > i64::MAX as u64 {
            Err(RequestError::Overflow)
        } else {
            Ok(PathStat { kind: KIND_FILE, size: metadata.length as i64 })
        }
    }
}

/// What the handler does: it reads a path, and answers with the kind of the
/// path as a signed 32-bit integer and its size as a signed 64-bit integer.
pub open spec fn stat_path(state: CommandView, facts: FactsView) -> Step {
    let after = state.read_state::<String>();
    match state.read_result::<String>() {
        Err(error) => Step { state: after, result: Err(HandlerError::Protocol(error)) },
        Ok(_) => match metadata_of(facts) {
            Err(error) => Step { state: after, result: Err(error) },
            Ok(metadata) => match path_stat(metadata) {
                Err(error) => Step { state: after, result: Err(HandlerError::Request(error)) },
                Ok(stat) => after.response_start().and_write(
                    <i32 as Serializable<i32>>::wire(stat.kind),
                ).and_write(<i64 as Serializable<i64>>::wire(stat.size)),
            },
        },
    }
}

/// Answers whether the requested path is a file or a directory, and how long
/// it is.
pub fn StatPath(command: &mut Command, facts: &Facts) -> (result: Result<(), HandlerError>)
    ensures
        (Step { state: final(command)@, result }) == stat_path(old(command)@, facts@),
{
    let _path = protocol(command.read::<String>())?;
    let metadata = facts.metadata()?;
    let stat = match PathStat::of(metadata) {
        Ok(stat) => stat,
        Err(error) => {
            return Err(HandlerError::Request(error));
        },
    };
    protocol(command.response_start())?;
    protocol(command.write::<i32>(stat.kind))?;
    protocol(command.write::<i64>(stat.size))?;
    Ok(())
}

} // verus!
