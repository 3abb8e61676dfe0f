//! Serving one request: what the server does with an inbound buffer before
//! the file system is asked, and what it does with the answer.
//!
//! The caller owns the byte channel and the file system. It hands each
//! buffer that arrives to `receive`, asks the file system what the returned
//! query names, and hands the facts to `respond`, which returns the frame to
//! send. A buffer that `receive` or `respond` refuses is dropped, and the
//! caller goes on with the next.

use crate::command::{Command, CommandView};
use crate::error::{HandlerError, ProtocolError};
use crate::filesystem::{Facts, FactsView, PathPolicy, Query, QueryView};
use vstd::prelude::*;

verus! {

/// What an inbound frame asks of the file system: the query of the command
/// that the frame names, or the reason why the frame is dropped.
pub open spec fn inquiry(frame: Seq<u8>, policy: PathPolicy) -> Result<QueryView, ProtocolError> {
    let fresh = CommandView::fresh(frame);
    match fresh.identify_result() {
        Ok(id) => fresh.identify_state().query_result(id, policy),
        Err(error) => Err(error),
    }
}

/// What handing the facts to a command yields: the command is identified and
/// handled.
pub open spec fn respond_result(state: CommandView, facts: FactsView) -> Result<
    Seq<u8>,
    ProtocolError,
> {
    match state.identify_result() {
        Ok(id) => state.identify_state().handle_result(id, facts),
        Err(error) => Err(error),
    }
}

/// The response frame to an inbound frame, given the facts, or the reason
/// why the frame is dropped: what a command that was made from the frame
/// yields when it is handed the facts.
pub open spec fn exchange(frame: Seq<u8>, facts: FactsView) -> Result<Seq<u8>, ProtocolError> {
    respond_result(CommandView::fresh(frame), facts)
}

/// How handing the facts to a command ends: as identifying the command and
/// running its handler ends.
pub open spec fn respond_outcome(state: CommandView, facts: FactsView) -> Result<
    (),
    HandlerError,
> {
    match state.identify_result() {
        Ok(id) => state.identify_state().dispatch_result(id, facts),
        Err(error) => Err(HandlerError::Protocol(error)),
    }
}

/// The failure that a frame reports, if handling ended with one.
pub open spec fn reported(outcome: Result<(), HandlerError>) -> Option<HandlerError> {
    match outcome {
        Ok(_) => None,
        Err(error) => Some(error),
    }
}

/// What is sent in answer to a request.
#[derive(Clone, Debug, PartialEq, Eq)]
pub struct Reply {
    /// The response frame.
    pub frame: Vec<u8>,
    /// The failure that the frame reports to the client, for the caller to
    /// take note of; `None` where the frame reports success.
    pub failure: Option<HandlerError>,
}

/// The command after the facts were handed to it.
pub open spec fn respond_state(state: CommandView, facts: FactsView) -> CommandView {
    match state.identify_result() {
        Ok(id) => state.identify_state().handle_state(id, facts),
        Err(_) => state.identify_state(),
    }
}

/// Takes in one inbound buffer: checks the head of the frame, identifies the
/// command, and says what has to be asked of the file system to answer it.
pub fn receive(buffer: Vec<u8>, policy: PathPolicy) -> (result: Result<
    (Command, Query),
    ProtocolError,
>)
    ensures
        match result {
            Ok((command, query)) => {
                &&& inquiry(buffer@, policy) == Ok::<QueryView, ProtocolError>(query@)
                &&& command@ == CommandView::fresh(buffer@).identify_state()
                &&& forall|facts: FactsView| #[trigger]
                    respond_result(command@, facts) == exchange(buffer@, facts)
            },
            Err(error) => inquiry(buffer@, policy) == Err::<QueryView, ProtocolError>(error),
        },
{
    let mut command = Command::new(buffer);
    let id = command.identify()?;
    let query = command.query(id, policy)?;
    Ok((command, query))
}

/// Answers a command that `receive` took in, with the facts that the file
/// system gave: the frame to send, and the failure that it reports if it
/// reports one; or the reason why nothing is sent.
pub fn respond(command: &mut Command, facts: &Facts) -> (result: Result<Reply, ProtocolError>)
    ensures
        final(command)@ == respond_state(old(command)@, facts@),
        match result {
            Ok(reply) => {
                &&& respond_result(old(command)@, facts@) == Ok::<Seq<u8>, ProtocolError>(
                    reply.frame@,
                )
                &&& reply.failure == reported(respond_outcome(old(command)@, facts@))
                &&& reply.frame@.len() == crate::command::FRAME_SIZE
            },
            Err(error) => respond_result(old(command)@, facts@) == Err::<Seq<u8>, ProtocolError>(
                error,
            ),
        },
{
    let id = command.identify()?;
    let outcome = command.dispatch(id, facts);
    let frame = command.conclude(outcome)?;
    let failure = match outcome {
        Ok(_) => None,
        Err(error) => Some(error),
    };
    Ok(Reply { frame, failure })
}

/// The response is a matter of the frame and the facts alone. A command made
/// from a frame gives the response `exchange(frame, facts)` whether it is
/// fresh, has had its magic number checked, has been identified, or has been
/// asked for its query; so the same frame, served again with the same facts,
/// is answered with the same response.
pub proof fn theorem_response_is_determined(frame: Seq<u8>, facts: FactsView)
    ensures
        respond_result(CommandView::fresh(frame), facts) == exchange(frame, facts),
        respond_result(CommandView::fresh(frame).capture(), facts) == exchange(frame, facts),
        respond_result(CommandView::fresh(frame).identify_state(), facts) == exchange(
            frame,
            facts,
        ),
        respond_result(CommandView::fresh(frame).identify_state().capture(), facts) == exchange(
            frame,
            facts,
        ),
{
    let fresh = CommandView::fresh(frame);
    let checked = fresh.capture();
    assert(checked.capture() == checked);
    assert(checked.header_error() == fresh.header_error());
    assert(checked.identify_result() == fresh.identify_result());
    assert(checked.identify_state() == fresh.identify_state());
    let known = fresh.identify_state();
    assert(known.capture() == known);
}

} // verus!
