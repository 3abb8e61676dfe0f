//! The number of mounted volumes.

#![allow(non_snake_case)]

use crate::command::{protocol, Command, CommandView, Step};
use crate::error::{HandlerError, RequestError};
use crate::filesystem::{volumes_of, Facts, FactsView};
use crate::traits::serializable::Serializable;
use vstd::prelude::*;

verus! {

/// What the handler does: it reads nothing, and answers with the number of
/// volumes as a signed 32-bit integer.
pub open spec fn get_drive_count(state: CommandView, facts: FactsView) -> Step {
    match volumes_of(facts) {
        Err(error) => Step { state, result: Err(error) },
        Ok(volumes) => if volumes.len() > i32::MAX {
            Step { state, result: Err(HandlerError::Request(RequestError::Overflow)) }
        } else {
            state.response_start().and_write(
                <i32 as Serializable<i32>>::wire(volumes.len() as i32),
            )
        },
    }
}

/// Answers how many volumes are mounted.
pub fn GetDriveCount(command: &mut Command, facts: &Facts) -> (result: Result<(), HandlerError>)
    ensures
        (Step { state: final(command)@, result }) == get_drive_count(old(command)@, facts@),
{
    let volumes = facts.volumes()?;
    if volumes.len() > i32::MAX as usize {
        return Err(HandlerError::Request(RequestError::Overflow));
    }
    protocol(command.response_start())?;
    protocol(command.write::<i32>(volumes.len() as i32))?;
    Ok(())
}

} // verus!
