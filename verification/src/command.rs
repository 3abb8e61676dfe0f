//! One request frame and the response to it: the frame protocol around the
//! wire codec.

use crate::cursor::{Cursor, CursorView};
use crate::error::{failure_code, CodecError, HandlerError, ProtocolError, RESULT_SUCCESS};
use crate::filesystem::{normalize_path, normalized, Facts, FactsView, PathPolicy, Query, QueryView};
use crate::handlers::get_directory::get_directory;
use crate::handlers::get_directory_count::get_directory_count;
use crate::handlers::get_drive_count::get_drive_count;
use crate::handlers::get_drive_info::get_drive_info;
use crate::handlers::get_file::get_file;
use crate::handlers::get_file_count::get_file_count;
use crate::handlers::stat_path::stat_path;
use crate::handlers::{
    GetDirectory, GetDirectoryCount, GetDriveCount, GetDriveInfo, GetFile, GetFileCount, StatPath,
};
use crate::traits::serializable::wire_signed;
pub use crate::traits::serializable::Serializable;
use vstd::prelude::*;

verus! {

/// The magic number that opens every request frame.
pub const INPUT_MAGIC_NUMBER: i32 = 0x49434C47;

/// The magic number that opens every response frame.
pub const OUTPUT_MAGIC_NUMBER: i32 = 0x4F434C47;

/// The size of every response frame, in bytes.
pub const FRAME_SIZE: usize = 4096;

/// One inbound frame, and the response that grows while it is handled.
pub struct Command {
    /// The command identifier, once the caller has read it.
    pub id: Option<i32>,
    /// The magic number of the frame, once it has been read.
    pub magic_number: Option<i32>,
    input_cursor: Cursor,
    output_cursor: Cursor,
}

/// A command, to a contract.
pub struct CommandView {
    pub id: Option<i32>,
    pub magic_number: Option<i32>,
    /// The inbound frame, and how far it has been read.
    pub input: CursorView,
    /// The response written so far.
    pub output: CursorView,
}

/// Where a run of reads and writes has got to, and whether it got there.
pub struct Step {
    pub state: CommandView,
    pub result: Result<(), HandlerError>,
}

/// A protocol error as the error of a handler, and success as success.
pub open spec fn lift(result: Result<(), ProtocolError>) -> Result<(), HandlerError> {
    match result {
        Ok(_) => Ok(()),
        Err(error) => Err(HandlerError::Protocol(error)),
    }
}

/// A protocol error as the error of a handler, and any value as itself.
pub fn protocol<T>(result: Result<T, ProtocolError>) -> (lifted: Result<T, HandlerError>)
    ensures
        lifted == (match result {
            Ok(value) => Ok::<T, HandlerError>(value),
            Err(error) => Err(HandlerError::Protocol(error)),
        }),
{
    match result {
        Ok(value) => Ok(value),
        Err(error) => Err(HandlerError::Protocol(error)),
    }
}

impl CommandView {
    /// Both cursors are valid.
    pub open spec fn wf(self) -> bool {
        self.input.wf() && self.output.wf()
    }

    /// The command once the magic number has been looked at: if it was not
    /// known yet, and the frame has four bytes left, it is read from them.
    pub open spec fn capture(self) -> CommandView {
        if self.magic_number is Some {
            self
        } else {
            match <i32 as Serializable<i32>>::parse(self.input.remaining()) {
                Ok((magic, used)) => CommandView {
                    magic_number: Some(magic),
                    input: self.input.advance(used),
                    ..self
                },
                Err(_) => self,
            }
        }
    }

    /// What is wrong with the head of the frame, if anything: it is too short
    /// to hold a magic number, or holds another than that of a request.
    pub open spec fn header_error(self) -> Option<ProtocolError> {
        match self.capture().magic_number {
            None => Some(ProtocolError::Malformed(CodecError::Truncated)),
            Some(magic) => if magic == INPUT_MAGIC_NUMBER {
                None
            } else {
                Some(ProtocolError::BadMagic)
            },
        }
    }

    /// What reading a `T` yields: the value at the input position behind the
    /// magic number, unless the head of the frame or the value is faulty.
    pub open spec fn read_result<T: Serializable<T> + View>(self) -> Result<T::V, ProtocolError> {
        match self.header_error() {
            Some(error) => Err(error),
            None => match T::parse(self.capture().input.remaining()) {
                Ok((value, _)) => Ok(value),
                Err(error) => Err(ProtocolError::Malformed(error)),
            },
        }
    }

    /// The command after reading a `T`: the magic number has been looked at,
    /// and the input position is behind the value if one was read.
    pub open spec fn read_state<T: Serializable<T> + View>(self) -> CommandView {
        let captured = self.capture();
        if self.header_error() is Some {
            captured
        } else {
            match T::parse(captured.input.remaining()) {
                Ok((_, used)) => CommandView { input: captured.input.advance(used), ..captured },
                Err(_) => captured,
            }
        }
    }

    /// Whether a value with the given bytes can be written: it must have
    /// bytes, and they must end within the frame.
    pub open spec fn write_result(self, wire: Result<Seq<u8>, CodecError>) -> Result<
        (),
        ProtocolError,
    > {
        match wire {
            Err(error) => Err(ProtocolError::Malformed(error)),
            Ok(bytes) => if self.output.position + bytes.len() > FRAME_SIZE {
                Err(ProtocolError::FrameOverflow)
            } else {
                Ok(())
            },
        }
    }

    /// The command after writing a value with the given bytes: they stand in
    /// the output if they could be written, and nothing has changed if not.
    pub open spec fn write_state(self, wire: Result<Seq<u8>, CodecError>) -> CommandView {
        match self.write_result(wire) {
            Ok(_) => CommandView { output: self.output.put(wire->Ok_0), ..self },
            Err(_) => self,
        }
    }

    /// The head of a response: the output magic number, then a result field
    /// of zero.
    pub open spec fn response_start(self) -> Step {
        (Step { state: self, result: Ok(()) }).and_write(
            <i32 as Serializable<i32>>::wire(OUTPUT_MAGIC_NUMBER),
        ).and_write(<i32 as Serializable<i32>>::wire(RESULT_SUCCESS))
    }
}

/// `bytes`, followed by as many zero bytes as fill a frame.
pub open spec fn padded(bytes: Seq<u8>) -> Seq<u8> {
    bytes + Seq::new((FRAME_SIZE - bytes.len()) as nat, |i: int| 0u8)
}

/// The frame that holds `written`: the bytes padded to the size of a frame,
/// unless they are too many.
pub open spec fn frame_of(written: Seq<u8>) -> Result<Seq<u8>, ProtocolError> {
    if written.len() > FRAME_SIZE {
        Err(ProtocolError::FrameOverflow)
    } else {
        Ok(padded(written))
    }
}

/// The frame that reports a failure: the output magic number, the result
/// field `code`, and zero bytes to the end.
pub open spec fn failure_frame(code: i32) -> Seq<u8> {
    padded(wire_signed(OUTPUT_MAGIC_NUMBER as int, 4) + wire_signed(code as int, 4))
}

/// The frame that reports `error` to the client.
pub open spec fn report(error: HandlerError) -> Seq<u8> {
    failure_frame(failure_code(error)->Ok_0)
}

/// What is sent for a step of handling: the response that was written where
/// the handler succeeded, a failure frame where it failed in a way that the
/// client is told of, and nothing where the frame was faulty.
pub open spec fn reply(step: Step) -> Result<Seq<u8>, ProtocolError> {
    match step.result {
        Ok(_) => frame_of(step.state.output.bytes),
        Err(error) => match failure_code(error) {
            Ok(code) => Ok(failure_frame(code)),
            Err(error) => Err(error),
        },
    }
}

impl CommandView {
    /// A command around a frame of which nothing has been read, with no
    /// response yet.
    pub open spec fn fresh(frame: Seq<u8>) -> CommandView {
        CommandView {
            id: None,
            magic_number: None,
            input: CursorView { bytes: frame, position: 0 },
            output: CursorView { bytes: Seq::empty(), position: 0 },
        }
    }

    /// The command identifier: the one that is known, or else the next field
    /// of the request.
    pub open spec fn identify_result(self) -> Result<i32, ProtocolError> {
        match self.id {
            Some(id) => Ok(id),
            None => self.read_result::<i32>(),
        }
    }

    /// The command once its identifier has been asked for: if it was not
    /// known yet, it has been read from the request and is known now.
    pub open spec fn identify_state(self) -> CommandView {
        match self.id {
            Some(_) => self,
            None => match self.read_result::<i32>() {
                Ok(id) => CommandView { id: Some(id), ..self.read_state::<i32>() },
                Err(_) => self.read_state::<i32>(),
            },
        }
    }

    /// The command after it was handled as the command `command_id`: the
    /// magic number has been looked at, and if the head of the frame is sound
    /// and the identifier names a command, that command's handler has run.
    pub open spec fn handle_state(self, command_id: i32, facts: FactsView) -> CommandView {
        if self.header_error() is Some {
            self.capture()
        } else {
            match CommandIDs::resolve(command_id) {
                None => self.capture(),
                Some(command) => command.outcome(self.capture(), facts).state,
            }
        }
    }

    /// How handling the frame as the command `command_id` ends: with a faulty
    /// head or an unknown command before any handler runs, and else as the
    /// command's handler ends.
    pub open spec fn dispatch_result(self, command_id: i32, facts: FactsView) -> Result<
        (),
        HandlerError,
    > {
        match self.header_error() {
            Some(error) => Err(HandlerError::Protocol(error)),
            None => match CommandIDs::resolve(command_id) {
                None => Err(HandlerError::Protocol(ProtocolError::UnknownCommand)),
                Some(command) => command.outcome(self.capture(), facts).result,
            },
        }
    }

    /// What handling the frame as the command `command_id` yields: the
    /// response frame, or the reason why the frame is dropped.
    pub open spec fn handle_result(self, command_id: i32, facts: FactsView) -> Result<
        Seq<u8>,
        ProtocolError,
    > {
        reply(
            Step {
                state: self.handle_state(command_id, facts),
                result: self.dispatch_result(command_id, facts),
            },
        )
    }

    /// What has to be asked of the file system before the frame can be
    /// handled as the command `command_id`: nothing, the volumes, or the
    /// listing or the metadata of the local path that `policy` makes of the
    /// path at the front of the request.
    pub open spec fn query_result(self, command_id: i32, policy: PathPolicy) -> Result<
        QueryView,
        ProtocolError,
    > {
        match self.header_error() {
            Some(error) => Err(error),
            None => match CommandIDs::resolve(command_id) {
                None => Err(ProtocolError::UnknownCommand),
                Some(command) => match command.subject() {
                    Subject::Nothing => Ok(QueryView::Nothing),
                    Subject::Volumes => Ok(QueryView::Volumes),
                    Subject::Entries => match self.read_result::<String>() {
                        Ok(path) => Ok(QueryView::Entries(normalized(path, policy))),
                        Err(error) => Err(error),
                    },
                    Subject::Metadata => match self.read_result::<String>() {
                        Ok(path) => Ok(QueryView::Metadata(normalized(path, policy))),
                        Err(error) => Err(error),
                    },
                },
            },
        }
    }
}

impl Step {
    /// The run with one more write, which happens only if all went well so
    /// far.
    pub open spec fn and_write(self, wire: Result<Seq<u8>, CodecError>) -> Step {
        match self.result {
            Err(_) => self,
            Ok(_) => Step {
                state: self.state.write_state(wire),
                result: lift(self.state.write_result(wire)),
            },
        }
    }
}

impl View for Command {
    type V = CommandView;

    closed spec fn view(&self) -> CommandView {
        CommandView {
            id: self.id,
            magic_number: self.magic_number,
            input: self.input_cursor@,
            output: self.output_cursor@,
        }
    }
}

impl Command {
    /// Both cursors of a command are valid.
    pub proof fn lemma_wf(&self)
        ensures
            self@.wf(),
    {
        self.input_cursor.lemma_wf();
        self.output_cursor.lemma_wf();
    }

    /// A command around one inbound frame, with nothing read and nothing
    /// written.
    pub fn new(input_buffer: Vec<u8>) -> (command: Command)
        ensures
            command@ == CommandView::fresh(input_buffer@),
    {
        Command {
            id: None,
            magic_number: None,
            output_cursor: Cursor::new(Vec::new()),
            input_cursor: Cursor::new(input_buffer),
        }
    }

    /// Looks at the magic number: reads it if it has not been read yet, and
    /// holds it against that of a request.
    pub fn check_magic(&mut self) -> (result: Result<(), ProtocolError>)
        ensures
            final(self)@ == old(self)@.capture(),
            result == (match old(self)@.header_error() {
                Some(error) => Err::<(), ProtocolError>(error),
                None => Ok(()),
            }),
    {
        let magic = match self.magic_number {
            Some(magic) => magic,
            None => match <i32 as Serializable<i32>>::read(&mut self.input_cursor) {
                Ok(magic) => {
                    self.magic_number = Some(magic);
                    magic
                },
                Err(error) => {
                    return Err(ProtocolError::Malformed(error));
                },
            },
        };
        if magic == INPUT_MAGIC_NUMBER {
            Ok(())
        } else {
            Err(ProtocolError::BadMagic)
        }
    }

    /// Reads the next field of the request. The magic number is looked at
    /// first, and no field is read from a frame that does not carry the right
    /// one.
    pub fn read<T: Serializable<T> + View>(&mut self) -> (result: Result<T, ProtocolError>)
        ensures
            final(self)@ == old(self)@.read_state::<T>(),
            match result {
                Ok(value) => old(self)@.read_result::<T>() == Ok::<T::V, ProtocolError>(value@),
                Err(error) => old(self)@.read_result::<T>() == Err::<T::V, ProtocolError>(error),
            },
    {
        match self.check_magic() {
            Ok(_) => {},
            Err(error) => {
                return Err(error);
            },
        }
        match T::read(&mut self.input_cursor) {
            Ok(value) => Ok(value),
            Err(error) => Err(ProtocolError::Malformed(error)),
        }
    }

    /// Writes the next field of the response, unless it would end beyond the
    /// frame.
    pub fn write<T: Serializable<T> + View>(&mut self, data: T) -> (result: Result<
        (),
        ProtocolError,
    >)
        ensures
            final(self)@ == old(self)@.write_state(T::wire(data@)),
            result == old(self)@.write_result(T::wire(data@)),
    {
        let start: usize = self.output_cursor.position();
        let mut scratch = Cursor::new(Vec::new());
        match T::write(&mut scratch, data) {
            Ok(_) => {},
            Err(error) => {
                return Err(ProtocolError::Malformed(error));
            },
        }
        let bytes = scratch.get_ref();
        assert(bytes@ =~= T::wire(data@)->Ok_0);
        if bytes.len() > FRAME_SIZE || start > FRAME_SIZE - bytes.len() {
            return Err(ProtocolError::FrameOverflow);
        }
        self.output_cursor.put(bytes.as_slice());
        Ok(())
    }

    /// Starts the response: writes the output magic number and a result field
    /// of zero, which stands for success.
    pub fn response_start(&mut self) -> (result: Result<(), ProtocolError>)
        ensures
            final(self)@ == old(self)@.response_start().state,
            lift(result) == old(self)@.response_start().result,
    {
        self.write::<i32>(OUTPUT_MAGIC_NUMBER)?;
        self.write::<i32>(RESULT_SUCCESS)?;
        Ok(())
    }

    /// The command identifier. It is read from the request the first time it
    /// is asked for, and kept in `id`.
    pub fn identify(&mut self) -> (result: Result<i32, ProtocolError>)
        ensures
            final(self)@ == old(self)@.identify_state(),
            result == old(self)@.identify_result(),
    {
        match self.id {
            Some(id) => Ok(id),
            None => {
                let id = self.read::<i32>()?;
                self.id = Some(id);
                Ok(id)
            },
        }
    }

    /// Reads the path at the input position and leaves the position where it
    /// was.
    fn peek_path(&mut self) -> (result: Result<String, ProtocolError>)
        ensures
            final(self)@ == old(self)@.capture(),
            match result {
                Ok(path) => old(self)@.read_result::<String>() == Ok::<Seq<char>, ProtocolError>(
                    path@,
                ),
                Err(error) => old(self)@.read_result::<String>() == Err::<
                    Seq<char>,
                    ProtocolError,
                >(error),
            },
    {
        self.check_magic()?;
        let mark: usize = self.input_cursor.position();
        proof {
            self.input_cursor.lemma_wf();
        }
        let result = <String as Serializable<String>>::read(&mut self.input_cursor);
        self.input_cursor.set_position(mark);
        match result {
            Ok(path) => Ok(path),
            Err(error) => Err(ProtocolError::Malformed(error)),
        }
    }

    /// Says what has to be asked of the file system before the frame can be
    /// handled as the command `command_id`. Nothing of the request is used
    /// up: the fields are still there for the handler to read.
    pub fn query(&mut self, command_id: i32, policy: PathPolicy) -> (result: Result<
        Query,
        ProtocolError,
    >)
        ensures
            final(self)@ == old(self)@.capture(),
            match result {
                Ok(query) => old(self)@.query_result(command_id, policy) == Ok::<
                    QueryView,
                    ProtocolError,
                >(query@),
                Err(error) => old(self)@.query_result(command_id, policy) == Err::<
                    QueryView,
                    ProtocolError,
                >(error),
            },
    {
        self.check_magic()?;
        let command = match CommandIDs::try_from_primitive(command_id) {
            Some(command) => command,
            None => {
                return Err(ProtocolError::UnknownCommand);
            },
        };
        match command.asks() {
            Subject::Nothing => Ok(Query::Nothing),
            Subject::Volumes => Ok(Query::Volumes),
            Subject::Entries => {
                let path = self.peek_path()?;
                Ok(Query::Entries(normalize_path(path.as_str(), policy)))
            },
            Subject::Metadata => {
                let path = self.peek_path()?;
                Ok(Query::Metadata(normalize_path(path.as_str(), policy)))
            },
        }
    }

    /// The response frame as it stands: all that has been written, padded with
    /// zero bytes to the size of a frame.
    pub fn response(&self) -> (result: Result<Vec<u8>, ProtocolError>)
        ensures
            match result {
                Ok(frame) => frame_of(self@.output.bytes) == Ok::<Seq<u8>, ProtocolError>(frame@),
                Err(error) => frame_of(self@.output.bytes) == Err::<Seq<u8>, ProtocolError>(
                    error,
                ),
            },
            result is Ok ==> result->Ok_0@.len() == FRAME_SIZE,
    {
        finalize(self.output_cursor.get_ref().as_slice())
    }

    /// Runs the handler of the command `command_id`, with the facts that the
    /// file system gave. A frame with a faulty head or an unknown command is
    /// refused before any handler runs.
    pub fn dispatch(&mut self, command_id: i32, facts: &Facts) -> (result: Result<
        (),
        HandlerError,
    >)
        ensures
            final(self)@ == old(self)@.handle_state(command_id, facts@),
            result == old(self)@.dispatch_result(command_id, facts@),
    {
        protocol(self.check_magic())?;
        let command = match CommandIDs::try_from_primitive(command_id) {
            Some(command) => command,
            None => {
                return Err(HandlerError::Protocol(ProtocolError::UnknownCommand));
            },
        };
        command.handle(self, facts)
    }

    /// The frame to send after handling ended with `outcome`: the response
    /// that was written, the frame that reports the failure, or nothing where
    /// the frame is dropped.
    pub fn conclude(&self, outcome: Result<(), HandlerError>) -> (result: Result<
        Vec<u8>,
        ProtocolError,
    >)
        ensures
            match result {
                Ok(frame) => reply(Step { state: self@, result: outcome }) == Ok::<
                    Seq<u8>,
                    ProtocolError,
                >(frame@),
                Err(error) => reply(Step { state: self@, result: outcome }) == Err::<
                    Seq<u8>,
                    ProtocolError,
                >(error),
            },
            result is Ok ==> result->Ok_0@.len() == FRAME_SIZE,
    {
        match outcome {
            Ok(_) => self.response(),
            Err(error) => {
                let code = error.code()?;
                Ok(failure(code))
            },
        }
    }

    /// Handles the frame as the command `command_id`, with the facts that the
    /// file system gave, and returns the response frame.
    ///
    /// A frame with a faulty head or an unknown command is dropped before any
    /// handler runs. A request that cannot be granted, and a command without
    /// a handler, are answered with a frame whose result field says so.
    pub fn handle(&mut self, command_id: i32, facts: &Facts) -> (result: Result<
        Vec<u8>,
        ProtocolError,
    >)
        ensures
            final(self)@ == old(self)@.handle_state(command_id, facts@),
            match result {
                Ok(frame) => old(self)@.handle_result(command_id, facts@) == Ok::<
                    Seq<u8>,
                    ProtocolError,
                >(frame@),
                Err(error) => old(self)@.handle_result(command_id, facts@) == Err::<
                    Seq<u8>,
                    ProtocolError,
                >(error),
            },
            result is Ok ==> result->Ok_0@.len() == FRAME_SIZE,
    {
        let outcome = self.dispatch(command_id, facts);
        self.conclude(outcome)
    }
}

/// `written`, padded with zero bytes to the size of a frame.
fn fill(written: &[u8]) -> (frame: Vec<u8>)
    requires
        written@.len() <= FRAME_SIZE,
    ensures
        frame@ == padded(written@),
        frame@.len() == FRAME_SIZE,
{
    let mut frame: Vec<u8> = Vec::with_capacity(FRAME_SIZE);
    let mut i: usize = 0;
    while i < written.len()
        invariant
            i <= written.len() <= FRAME_SIZE,
            frame@ == written@.take(i as int),
        decreases written.len() - i,
    {
        frame.push(written[i]);
        i = i + 1;
        assert(frame@ =~= written@.take(i as int));
    }
    assert(written@.take(i as int) =~= written@);
    while i < FRAME_SIZE
        invariant
            written.len() <= i <= FRAME_SIZE,
            frame@ == written@ + Seq::new((i - written.len()) as nat, |k: int| 0u8),
        decreases FRAME_SIZE - i,
    {
        frame.push(0);
        i = i + 1;
        assert(frame@ =~= written@ + Seq::new((i - written.len()) as nat, |k: int| 0u8));
    }
    frame
}

/// The frame that holds `written`: the bytes, padded with zero bytes to the
/// size of a frame. More bytes than a frame holds are refused.
pub fn finalize(written: &[u8]) -> (result: Result<Vec<u8>, ProtocolError>)
    ensures
        match result {
            Ok(frame) => frame_of(written@) == Ok::<Seq<u8>, ProtocolError>(frame@),
            Err(error) => frame_of(written@) == Err::<Seq<u8>, ProtocolError>(error),
        },
        result is Ok ==> result->Ok_0@.len() == FRAME_SIZE,
{
    if written.len() > FRAME_SIZE {
        Err(ProtocolError::FrameOverflow)
    } else {
        Ok(fill(written))
    }
}

/// The frame that reports a failure with the result field `code`.
pub fn failure(code: i32) -> (frame: Vec<u8>)
    ensures
        frame@ == failure_frame(code),
        frame@.len() == FRAME_SIZE,
{
    let magic = crate::endian::write_i32(OUTPUT_MAGIC_NUMBER);
    let field = crate::endian::write_i32(code);
    let head: [u8; 8] = [
        magic[0],
        magic[1],
        magic[2],
        magic[3],
        field[0],
        field[1],
        field[2],
        field[3],
    ];
    proof {
        crate::endian::lemma_le_bytes_len(
            crate::endian::to_unsigned(OUTPUT_MAGIC_NUMBER as int, 4),
            4,
        );
        crate::endian::lemma_le_bytes_len(crate::endian::to_unsigned(code as int, 4), 4);
        assert(head@ =~= magic@ + field@);
    }
    fill(head.as_slice())
}

/// The commands of the protocol. Each has its identifier on the wire, from
/// zero for `Invalid` up to seventeen for `SelectFile`, in the order written
/// here.
#[derive(Clone, Copy, Debug, PartialEq, Eq, Structural)]
pub enum CommandIDs {
    Invalid,
    GetDriveCount,
    GetDriveInfo,
    StatPath,
    GetFileCount,
    GetFile,
    GetDirectoryCount,
    GetDirectory,
    StartFile,
    ReadFile,
    WriteFile,
    EndFile,
    Create,
    Delete,
    Rename,
    GetSpecialPathCount,
    GetSpecialPath,
    SelectFile,
}

/// What a command has to ask of the file system.
#[derive(Clone, Copy, Debug, PartialEq, Eq, Structural)]
pub enum Subject {
    /// Nothing.
    Nothing,
    /// The mounted volumes.
    Volumes,
    /// The listing of the path that the request begins with.
    Entries,
    /// The metadata of the path that the request begins with.
    Metadata,
}

impl CommandIDs {
    /// The identifier of the command on the wire.
    pub open spec fn number(self) -> i32 {
        match self {
            CommandIDs::Invalid => 0,
            CommandIDs::GetDriveCount => 1,
            CommandIDs::GetDriveInfo => 2,
            CommandIDs::StatPath => 3,
            CommandIDs::GetFileCount => 4,
            CommandIDs::GetFile => 5,
            CommandIDs::GetDirectoryCount => 6,
            CommandIDs::GetDirectory => 7,
            CommandIDs::StartFile => 8,
            CommandIDs::ReadFile => 9,
            CommandIDs::WriteFile => 10,
            CommandIDs::EndFile => 11,
            CommandIDs::Create => 12,
            CommandIDs::Delete => 13,
            CommandIDs::Rename => 14,
            CommandIDs::GetSpecialPathCount => 15,
            CommandIDs::GetSpecialPath => 16,
            CommandIDs::SelectFile => 17,
        }
    }

    /// The command with the given identifier: the one whose `number` it is,
    /// if there is one.
    pub open spec fn resolve(id: i32) -> Option<CommandIDs> {
        if exists|command: CommandIDs| command.number() == id {
            Some(choose|command: CommandIDs| command.number() == id)
        } else {
            None
        }
    }

    /// Whether this server has a handler for the command.
    pub open spec fn is_implemented(self) -> bool {
        match self {
            CommandIDs::GetDriveCount
            | CommandIDs::GetDriveInfo
            | CommandIDs::StatPath
            | CommandIDs::GetFileCount
            | CommandIDs::GetFile
            | CommandIDs::GetDirectoryCount
            | CommandIDs::GetDirectory => true,
            _ => false,
        }
    }

    /// What the command has to ask of the file system.
    pub open spec fn subject(self) -> Subject {
        match self {
            CommandIDs::GetDriveCount | CommandIDs::GetDriveInfo => Subject::Volumes,
            CommandIDs::StatPath => Subject::Metadata,
            CommandIDs::GetFileCount
            | CommandIDs::GetFile
            | CommandIDs::GetDirectoryCount
            | CommandIDs::GetDirectory => Subject::Entries,
            _ => Subject::Nothing,
        }
    }

    /// What handling the command does to a frame, given the facts: what its
    /// handler does, or nothing but the report that there is no handler.
    pub open spec fn outcome(self, state: CommandView, facts: FactsView) -> Step {
        match self {
            CommandIDs::GetDriveCount => get_drive_count(state, facts),
            CommandIDs::GetDriveInfo => get_drive_info(state, facts),
            CommandIDs::StatPath => stat_path(state, facts),
            CommandIDs::GetFileCount => get_file_count(state, facts),
            CommandIDs::GetFile => get_file(state, facts),
            CommandIDs::GetDirectoryCount => get_directory_count(state, facts),
            CommandIDs::GetDirectory => get_directory(state, facts),
            _ => Step { state, result: Err(HandlerError::NotImplemented) },
        }
    }

    /// The identifier of the command on the wire.
    pub fn into_primitive(self) -> (id: i32)
        ensures
            id == self.number(),
            0 <= id <= 17,
    {
        match self {
            CommandIDs::Invalid => 0,
            CommandIDs::GetDriveCount => 1,
            CommandIDs::GetDriveInfo => 2,
            CommandIDs::StatPath => 3,
            CommandIDs::GetFileCount => 4,
            CommandIDs::GetFile => 5,
            CommandIDs::GetDirectoryCount => 6,
            CommandIDs::GetDirectory => 7,
            CommandIDs::StartFile => 8,
            CommandIDs::ReadFile => 9,
            CommandIDs::WriteFile => 10,
            CommandIDs::EndFile => 11,
            CommandIDs::Create => 12,
            CommandIDs::Delete => 13,
            CommandIDs::Rename => 14,
            CommandIDs::GetSpecialPathCount => 15,
            CommandIDs::GetSpecialPath => 16,
            CommandIDs::SelectFile => 17,
        }
    }

    /// The command with the given identifier, for the identifiers from zero
    /// to seventeen, and `None` for every other.
    pub fn try_from_primitive(id: i32) -> (command: Option<CommandIDs>)
        ensures
            command == Self::resolve(id),
            command is Some <==> 0 <= id <= 17,
            command is Some ==> command->Some_0.number() == id,
    {
        let command = match id {
            0 => Some(CommandIDs::Invalid),
            1 => Some(CommandIDs::GetDriveCount),
            2 => Some(CommandIDs::GetDriveInfo),
            3 => Some(CommandIDs::StatPath),
            4 => Some(CommandIDs::GetFileCount),
            5 => Some(CommandIDs::GetFile),
            6 => Some(CommandIDs::GetDirectoryCount),
            7 => Some(CommandIDs::GetDirectory),
            8 => Some(CommandIDs::StartFile),
            9 => Some(CommandIDs::ReadFile),
            10 => Some(CommandIDs::WriteFile),
            11 => Some(CommandIDs::EndFile),
            12 => Some(CommandIDs::Create),
            13 => Some(CommandIDs::Delete),
            14 => Some(CommandIDs::Rename),
            15 => Some(CommandIDs::GetSpecialPathCount),
            16 => Some(CommandIDs::GetSpecialPath),
            17 => Some(CommandIDs::SelectFile),
            _ => None,
        };
        proof {
            match command {
                Some(found) => {
                    assert(found.number() == id);
                    let chosen = choose|other: CommandIDs| other.number() == id;
                    assert(chosen.number() == id);
                    assert(chosen == found);
                },
                None => {
                    assert forall|other: CommandIDs| other.number() != id by {
                        assert(0 <= other.number() <= 17);
                    }
                },
            }
        }
        command
    }

    /// What the command has to ask of the file system.
    pub fn asks(self) -> (subject: Subject)
        ensures
            subject == self.subject(),
    {
        match self {
            CommandIDs::GetDriveCount | CommandIDs::GetDriveInfo => Subject::Volumes,
            CommandIDs::StatPath => Subject::Metadata,
            CommandIDs::GetFileCount
            | CommandIDs::GetFile
            | CommandIDs::GetDirectoryCount
            | CommandIDs::GetDirectory => Subject::Entries,
            _ => Subject::Nothing,
        }
    }

    /// Runs the handler of the command. A command without a handler is
    /// answered with `NotImplemented`, and the frame is left as it is.
    pub fn handle(&self, command: &mut Command, facts: &Facts) -> (result: Result<
        (),
        HandlerError,
    >)
        ensures
            (Step { state: final(command)@, result }) == self.outcome(old(command)@, facts@),
    {
        match self {
            CommandIDs::GetDriveCount => GetDriveCount(command, facts),
            CommandIDs::GetDriveInfo => GetDriveInfo(command, facts),
            CommandIDs::StatPath => StatPath(command, facts),
            CommandIDs::GetFileCount => GetFileCount(command, facts),
            CommandIDs::GetFile => GetFile(command, facts),
            CommandIDs::GetDirectoryCount => GetDirectoryCount(command, facts),
            CommandIDs::GetDirectory => GetDirectory(command, facts),
            _ => Err(HandlerError::NotImplemented),
        }
    }
}

/// A frame whose next four bytes are not those of the input magic number has
/// another magic number; a frame with fewer than four bytes has none.
pub proof fn lemma_magic_bytes(state: CommandView)
    requires
        state.magic_number is None,
    ensures
        state.header_error() is None <==> state.input.remaining().len() >= 4
            && state.input.remaining().take(4) == wire_signed(INPUT_MAGIC_NUMBER as int, 4),
        state.input.remaining().len() < 4 ==> state.header_error() == Some(
            ProtocolError::Malformed(CodecError::Truncated),
        ),
        state.input.remaining().len() >= 4 && state.input.remaining().take(4) != wire_signed(
            INPUT_MAGIC_NUMBER as int,
            4,
        ) ==> state.header_error() == Some(ProtocolError::BadMagic),
{
    let bytes = state.input.remaining();
    crate::endian::lemma_radix_values();
    if bytes.len() >= 4 {
        let head = bytes.take(4);
        let unsigned = crate::endian::le_value(head);
        crate::endian::lemma_le_value_bound(head);
        crate::endian::lemma_unsigned_round_trip(unsigned, 4);
        crate::endian::lemma_le_bytes_of_value(head);
        crate::endian::lemma_signed_round_trip(INPUT_MAGIC_NUMBER as int, 4);
        crate::endian::lemma_le_value_of_bytes(
            crate::endian::to_unsigned(INPUT_MAGIC_NUMBER as int, 4),
            4,
        );
    }
}

/// A frame that does not begin with the input magic number is rejected
/// before any handler runs: whatever the command and the facts, it is
/// dropped, no field of it is read, and no byte of a response is written.
pub proof fn lemma_bad_magic_rejected(
    state: CommandView,
    command_id: i32,
    facts: FactsView,
    policy: PathPolicy,
)
    requires
        state.magic_number is None,
        state.input.remaining().len() >= 4,
        state.input.remaining().take(4) != wire_signed(INPUT_MAGIC_NUMBER as int, 4),
    ensures
        state.handle_result(command_id, facts) == Err::<Seq<u8>, ProtocolError>(
            ProtocolError::BadMagic,
        ),
        state.query_result(command_id, policy) == Err::<QueryView, ProtocolError>(
            ProtocolError::BadMagic,
        ),
        state.handle_state(command_id, facts).output == state.output,
        state.handle_state(command_id, facts).input == state.input.advance(4),
{
    lemma_magic_bytes(state);
}

/// Every response frame has the size of a frame, whatever the command: the
/// answer of a handler, and the report of a failure.
pub proof fn lemma_frame_size(state: CommandView, command_id: i32, facts: FactsView)
    ensures
        match state.handle_result(command_id, facts) {
            Ok(frame) => frame.len() == FRAME_SIZE,
            Err(_) => true,
        },
        forall|step: Step| (#[trigger] reply(step)) is Ok ==> reply(step)->Ok_0.len() == FRAME_SIZE,
{
    assert forall|step: Step| (#[trigger] reply(step)) is Ok implies reply(step)->Ok_0.len()
        == FRAME_SIZE by {
        lemma_reply_size(step);
    }
}

/// What is sent for a step has the size of a frame.
pub proof fn lemma_reply_size(step: Step)
    ensures
        reply(step) is Ok ==> reply(step)->Ok_0.len() == FRAME_SIZE,
{
    match step.result {
        Ok(_) => {},
        Err(error) => match failure_code(error) {
            Ok(code) => {
                crate::endian::lemma_le_bytes_len(
                    crate::endian::to_unsigned(OUTPUT_MAGIC_NUMBER as int, 4),
                    4,
                );
                crate::endian::lemma_le_bytes_len(crate::endian::to_unsigned(code as int, 4), 4);
            },
            Err(_) => {},
        },
    }
}

/// The identifiers from zero to seventeen are the commands, and no other
/// number is one.
pub proof fn lemma_resolve(id: i32)
    ensures
        CommandIDs::resolve(id) is Some <==> 0 <= id <= 17,
        CommandIDs::resolve(id) is Some ==> CommandIDs::resolve(id)->Some_0.number() == id,
{
    if 0 <= id <= 17 {
        let command = if id == 0 {
            CommandIDs::Invalid
        } else if id == 1 {
            CommandIDs::GetDriveCount
        } else if id == 2 {
            CommandIDs::GetDriveInfo
        } else if id == 3 {
            CommandIDs::StatPath
        } else if id == 4 {
            CommandIDs::GetFileCount
        } else if id == 5 {
            CommandIDs::GetFile
        } else if id == 6 {
            CommandIDs::GetDirectoryCount
        } else if id == 7 {
            CommandIDs::GetDirectory
        } else if id == 8 {
            CommandIDs::StartFile
        } else if id == 9 {
            CommandIDs::ReadFile
        } else if id == 10 {
            CommandIDs::WriteFile
        } else if id == 11 {
            CommandIDs::EndFile
        } else if id == 12 {
            CommandIDs::Create
        } else if id == 13 {
            CommandIDs::Delete
        } else if id == 14 {
            CommandIDs::Rename
        } else if id == 15 {
            CommandIDs::GetSpecialPathCount
        } else if id == 16 {
            CommandIDs::GetSpecialPath
        } else {
            CommandIDs::SelectFile
        };
        assert(command.number() == id);
    } else {
        assert forall|command: CommandIDs| command.number() != id by {
            assert(0 <= command.number() <= 17);
        }
    }
}

/// A command is found again by its identifier.
pub proof fn lemma_resolve_number(command: CommandIDs)
    ensures
        CommandIDs::resolve(command.number()) == Some(command),
{
    let found = choose|other: CommandIDs| other.number() == command.number();
    assert(found.number() == command.number());
}

/// Every identifier of the closed range has a defined outcome, and none is
/// passed over in silence: on a frame with a sound head, a command with a
/// handler is answered with what its handler does, a command without one is
/// answered with the frame that says `NotImplemented`, which is no frame of
/// success, and only a number outside the range is an unknown command.
pub proof fn lemma_dispatch_is_total(state: CommandView, command_id: i32, facts: FactsView)
    requires
        state.header_error() is None,
    ensures
        0 <= command_id <= 17 ==> {
            let command = CommandIDs::resolve(command_id)->Some_0;
            &&& CommandIDs::resolve(command_id) is Some
            &&& command.number() == command_id
            &&& state.handle_result(command_id, facts) == reply(
                command.outcome(state.capture(), facts),
            )
            &&& !command.is_implemented() ==> state.handle_result(command_id, facts) == Ok::<
                Seq<u8>,
                ProtocolError,
            >(report(HandlerError::NotImplemented))
            &&& !command.is_implemented() ==> state.handle_state(command_id, facts)
                == state.capture()
        },
        !(0 <= command_id <= 17) ==> state.handle_result(command_id, facts) == Err::<
            Seq<u8>,
            ProtocolError,
        >(ProtocolError::UnknownCommand),
{
    lemma_resolve(command_id);
}

/// The frame that reports a failure differs from every frame of success in
/// its result field, the fifth to eighth byte.
pub proof fn lemma_failure_is_no_success(error: HandlerError, payload: Seq<u8>)
    requires
        failure_code(error) is Ok,
        payload.len() + 8 <= FRAME_SIZE,
    ensures
        failure_frame(failure_code(error)->Ok_0).subrange(4, 8) == wire_signed(
            failure_code(error)->Ok_0 as int,
            4,
        ),
        padded(
            wire_signed(OUTPUT_MAGIC_NUMBER as int, 4) + wire_signed(RESULT_SUCCESS as int, 4)
                + payload,
        ).subrange(4, 8) == wire_signed(RESULT_SUCCESS as int, 4),
        wire_signed(failure_code(error)->Ok_0 as int, 4) != wire_signed(RESULT_SUCCESS as int, 4),
{
    let code = failure_code(error)->Ok_0;
    let magic = wire_signed(OUTPUT_MAGIC_NUMBER as int, 4);
    let failed = wire_signed(code as int, 4);
    let succeeded = wire_signed(RESULT_SUCCESS as int, 4);
    crate::endian::lemma_radix_values();
    crate::endian::lemma_le_bytes_len(crate::endian::to_unsigned(OUTPUT_MAGIC_NUMBER as int, 4), 4);
    crate::endian::lemma_le_bytes_len(crate::endian::to_unsigned(code as int, 4), 4);
    crate::endian::lemma_le_bytes_len(crate::endian::to_unsigned(RESULT_SUCCESS as int, 4), 4);
    assert(failure_frame(code).subrange(4, 8) =~= failed);
    assert(padded(magic + succeeded + payload).subrange(4, 8) =~= succeeded);
    crate::endian::lemma_signed_round_trip(code as int, 4);
    crate::endian::lemma_signed_round_trip(RESULT_SUCCESS as int, 4);
    crate::endian::lemma_le_value_of_bytes(crate::endian::to_unsigned(code as int, 4), 4);
    crate::endian::lemma_le_value_of_bytes(
        crate::endian::to_unsigned(RESULT_SUCCESS as int, 4),
        4,
    );
}

} // verus!
