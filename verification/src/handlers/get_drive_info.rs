//! The label and the mount point of one volume.

#![allow(non_snake_case)]

use crate::command::{protocol, Command, CommandView, Step};
use crate::error::{HandlerError, RequestError};
use crate::filesystem::{volumes_of, Facts, FactsView};
use crate::traits::serializable::Serializable;
use vstd::prelude::*;

verus! {

/// What the handler does: it reads the index of a volume, and answers with
/// the volume's label, its mount point, and two reserved integers that are
/// zero.
pub open spec fn get_drive_info(state: CommandView, facts: FactsView) -> Step {
    let after = state.read_state::<i32>();
    match state.read_result::<i32>() {
        Err(error) => Step { state: after, result: Err(HandlerError::Protocol(error)) },
        Ok(index) => match volumes_of(facts) {
            Err(error) => Step { state: after, result: Err(error) },
            Ok(volumes) => if 0 <= index < volumes.len() {
                after.response_start().and_write(
                    <String as Serializable<String>>::wire(volumes[index as int].label),
                ).and_write(
                    <String as Serializable<String>>::wire(volumes[index as int].mount_point),
                ).and_write(<i32 as Serializable<i32>>::wire(0)).and_write(
                    <i32 as Serializable<i32>>::wire(0),
                )
            } else {
                Step {
                    state: after,
                    result: Err(HandlerError::Request(RequestError::IndexOutOfRange)),
                }
            },
        },
    }
}

/// Answers what the volume at the requested index is called and where it is
/// mounted.
pub fn GetDriveInfo(command: &mut Command, facts: &Facts) -> (result: Result<(), HandlerError>)
    ensures
        (Step { state: final(command)@, result }) == get_drive_info(old(command)@, facts@),
{
    let index = protocol(command.read::<i32>())?;
    let volumes = facts.volumes()?;
    if index < 0 || index as usize >= volumes.len() {
        return Err(HandlerError::Request(RequestError::IndexOutOfRange));
    }
    let volume = &volumes[index as usize];
    protocol(command.response_start())?;
    protocol(command.write::<String>(volume.label.clone()))?;
    protocol(command.write::<String>(volume.mount_point.clone()))?;
    protocol(command.write::<i32>(0))?;
    protocol(command.write::<i32>(0))?;
    Ok(())
}

} // verus!
