//! What the frames of the protocol look like on the wire, and what each
//! well-formed request frame is answered with.

use crate::command::{
    padded, reply, report, CommandIDs, CommandView, Step, FRAME_SIZE, INPUT_MAGIC_NUMBER,
    OUTPUT_MAGIC_NUMBER,
};
use crate::endian;
use crate::error::{
    failure_code, CodecError, HandlerError, ProtocolError, RequestError, RESULT_SUCCESS,
};
use crate::filesystem::{
    normalized, of_kind, DriveInfoView, EntryKind, EntryView, FactsView, Metadata, PathPolicy,
    QueryView,
};
use crate::handlers::stat_path::path_stat;
use crate::server::{exchange, inquiry};
use crate::traits::serializable::{text_wire, wire_signed, Serializable};
use vstd::prelude::*;

verus! {

/// A request frame: the input magic number, the command identifier, and the
/// fields of the command.
pub open spec fn request(id: i32, fields: Seq<u8>) -> Seq<u8> {
    wire_signed(INPUT_MAGIC_NUMBER as int, 4) + wire_signed(id as int, 4) + fields
}

/// The head of a response that reports success: the output magic number and
/// a result field of zero.
pub open spec fn success_head() -> Seq<u8> {
    wire_signed(OUTPUT_MAGIC_NUMBER as int, 4) + wire_signed(RESULT_SUCCESS as int, 4)
}

/// A response frame that reports success: the head, the fields of the
/// answer, and zero bytes to the end of the frame.
pub open spec fn response(fields: Seq<u8>) -> Seq<u8> {
    padded(success_head() + fields)
}

/// The bytes of a signed 32-bit field.
pub open spec fn int32(value: i32) -> Seq<u8> {
    wire_signed(value as int, 4)
}

/// The bytes of a signed 64-bit field.
pub open spec fn int64(value: i64) -> Seq<u8> {
    wire_signed(value as int, 8)
}

/// The bytes of a text field, for a text that has them.
pub open spec fn text(chars: Seq<char>) -> Seq<u8> {
    text_wire(chars)->Ok_0
}

/// The head of the frame is sound, and `fields` are what is left to read.
pub open spec fn reads(state: CommandView, fields: Seq<u8>) -> bool {
    &&& state.magic_number == Some(INPUT_MAGIC_NUMBER)
    &&& state.input.wf()
    &&& state.input.remaining() == fields
}

/// `written` is the response so far, and the next write goes behind it.
pub open spec fn wrote(state: CommandView, written: Seq<u8>) -> bool {
    &&& state.output.bytes == written
    &&& state.output.position == written.len()
}

/// The magic numbers on the wire: the letters `GLCI` open a request, and the
/// letters `GLCO` open a response.
pub proof fn lemma_magic_on_the_wire()
    ensures
        wire_signed(INPUT_MAGIC_NUMBER as int, 4) == seq![0x47u8, 0x4Cu8, 0x43u8, 0x49u8],
        wire_signed(OUTPUT_MAGIC_NUMBER as int, 4) == seq![0x47u8, 0x4Cu8, 0x43u8, 0x4Fu8],
        wire_signed(RESULT_SUCCESS as int, 4) == seq![0u8, 0u8, 0u8, 0u8],
{
    reveal_with_fuel(endian::le_bytes, 5);
    assert(wire_signed(INPUT_MAGIC_NUMBER as int, 4) =~= seq![0x47u8, 0x4Cu8, 0x43u8, 0x49u8]);
    assert(wire_signed(OUTPUT_MAGIC_NUMBER as int, 4) =~= seq![0x47u8, 0x4Cu8, 0x43u8, 0x4Fu8]);
    assert(wire_signed(RESULT_SUCCESS as int, 4) =~= seq![0u8, 0u8, 0u8, 0u8]);
}

/// The bytes of a signed field are as many as its width.
pub proof fn lemma_field_sizes(value: int)
    ensures
        wire_signed(value, 2).len() == 2,
        wire_signed(value, 4).len() == 4,
        wire_signed(value, 8).len() == 8,
{
    endian::lemma_le_bytes_len(endian::to_unsigned(value, 2), 2);
    endian::lemma_le_bytes_len(endian::to_unsigned(value, 4), 4);
    endian::lemma_le_bytes_len(endian::to_unsigned(value, 8), 8);
}

/// Reading a field whose bytes are next yields its value and leaves the rest.
pub proof fn lemma_read_field<T: Serializable<T> + View>(
    state: CommandView,
    value: T::V,
    rest: Seq<u8>,
)
    requires
        T::wire(value) is Ok,
        reads(state, T::wire(value)->Ok_0 + rest),
    ensures
        state.read_result::<T>() == Ok::<T::V, ProtocolError>(value),
        reads(state.read_state::<T>(), rest),
        state.read_state::<T>().output == state.output,
        state.read_state::<T>().id == state.id,
{
    let bytes = T::wire(value)->Ok_0;
    T::lemma_round_trip(value, rest);
    let after = state.read_state::<T>();
    let here = state.input.position as int;
    assert(state.capture() == state);
    assert(after.input == state.input.advance(bytes.len()));
    assert(state.input.bytes.skip(here + bytes.len()) =~= state.input.bytes.skip(here).skip(
        bytes.len() as int,
    ));
    assert((bytes + rest).skip(bytes.len() as int) =~= rest);
}

/// Writing a field that fits puts its bytes behind the response so far.
pub proof fn lemma_write_field(step: Step, written: Seq<u8>, bytes: Seq<u8>)
    requires
        step.result is Ok,
        wrote(step.state, written),
        written.len() + bytes.len() <= FRAME_SIZE,
    ensures
        step.and_write(Ok(bytes)).result is Ok,
        wrote(step.and_write(Ok(bytes)).state, written + bytes),
        step.and_write(Ok(bytes)).state.input == step.state.input,
{
    let after = step.and_write(Ok(bytes)).state;
    assert(after.output.bytes =~= written + bytes);
}

/// Starting a response on an empty output writes the head of success.
pub proof fn lemma_response_start(state: CommandView)
    requires
        wrote(state, Seq::empty()),
    ensures
        state.response_start().result is Ok,
        wrote(state.response_start().state, success_head()),
        state.response_start().state.input == state.input,
{
    lemma_field_sizes(OUTPUT_MAGIC_NUMBER as int);
    lemma_field_sizes(RESULT_SUCCESS as int);
    let start = Step { state, result: Ok(()) };
    let magic = wire_signed(OUTPUT_MAGIC_NUMBER as int, 4);
    lemma_write_field(start, Seq::empty(), magic);
    assert(Seq::<u8>::empty() + magic =~= magic);
    lemma_write_field(start.and_write(Ok(magic)), magic, wire_signed(RESULT_SUCCESS as int, 4));
}

/// A frame that is a request is accepted: its command is identified, and its
/// fields are what is left to read.
pub proof fn lemma_accept(id: i32, fields: Seq<u8>)
    ensures
        CommandView::fresh(request(id, fields)).identify_result() == Ok::<i32, ProtocolError>(id),
        reads(CommandView::fresh(request(id, fields)).identify_state(), fields),
        wrote(CommandView::fresh(request(id, fields)).identify_state(), Seq::empty()),
        CommandView::fresh(request(id, fields)).identify_state().id == Some(id),
{
    let frame = request(id, fields);
    let fresh = CommandView::fresh(frame);
    let magic = wire_signed(INPUT_MAGIC_NUMBER as int, 4);
    let number = wire_signed(id as int, 4);
    lemma_field_sizes(INPUT_MAGIC_NUMBER as int);
    lemma_field_sizes(id as int);
    assert(fresh.input.remaining() =~= magic + (number + fields));
    <i32 as Serializable<i32>>::lemma_round_trip(INPUT_MAGIC_NUMBER, number + fields);
    let opened = fresh.capture();
    assert(opened.input.remaining() =~= number + fields);
    lemma_read_field::<i32>(opened, id, fields);
}

/// The command that `receive` makes of a request frame.
pub open spec fn accepted(id: i32, fields: Seq<u8>) -> CommandView {
    CommandView::fresh(request(id, fields)).identify_state()
}

/// A request frame for a command is answered with what the command's handler
/// does to the accepted frame, and asks what the command asks.
pub proof fn lemma_exchange(command: CommandIDs, fields: Seq<u8>, facts: FactsView)
    ensures
        exchange(request(command.number(), fields), facts) == reply(
            command.outcome(accepted(command.number(), fields), facts),
        ),
        reads(accepted(command.number(), fields), fields),
        wrote(accepted(command.number(), fields), Seq::empty()),
{
    lemma_accept(command.number(), fields);
    crate::command::lemma_resolve_number(command);
    let state = accepted(command.number(), fields);
    assert(state.capture() == state);
}

/// What is sent for a handler that succeeded with a response that fits.
pub proof fn lemma_reply_success(step: Step, fields: Seq<u8>)
    requires
        step.result is Ok,
        wrote(step.state, success_head() + fields),
        success_head().len() + fields.len() <= FRAME_SIZE,
    ensures
        reply(step) == Ok::<Seq<u8>, ProtocolError>(response(fields)),
{
}

/// The head of a response takes up eight bytes.
pub proof fn lemma_head_size()
    ensures
        success_head().len() == 8,
{
    lemma_field_sizes(OUTPUT_MAGIC_NUMBER as int);
    lemma_field_sizes(RESULT_SUCCESS as int);
}

/// A request for the number of volumes is answered with that number, and
/// asks for the volumes.
pub proof fn theorem_get_drive_count(
    fields: Seq<u8>,
    volumes: Seq<DriveInfoView>,
    policy: PathPolicy,
)
    requires
        volumes.len() <= i32::MAX,
    ensures
        inquiry(request(CommandIDs::GetDriveCount.number(), fields), policy) == Ok::<
            QueryView,
            ProtocolError,
        >(QueryView::Volumes),
        exchange(
            request(CommandIDs::GetDriveCount.number(), fields),
            FactsView::Volumes(volumes),
        ) == Ok::<Seq<u8>, ProtocolError>(response(int32(volumes.len() as i32))),
{
    let command = CommandIDs::GetDriveCount;
    let facts = FactsView::Volumes(volumes);
    let count = int32(volumes.len() as i32);
    lemma_exchange(command, fields, facts);
    lemma_accept(command.number(), fields);
    crate::command::lemma_resolve_number(command);
    let state = accepted(command.number(), fields);
    assert(state.capture() == state);
    lemma_response_start(state);
    lemma_head_size();
    lemma_field_sizes(volumes.len() as i32 as int);
    lemma_write_field(state.response_start(), success_head(), count);
    lemma_reply_success(command.outcome(state, facts), count);
}

/// A request for one volume, with an index that names a volume whose texts
/// fit into the frame, is answered with the volume's label, its mount point
/// and two reserved fields of zero. An index that names none is answered
/// with the report `IndexOutOfRange`.
pub proof fn theorem_get_drive_info(index: i32, rest: Seq<u8>, volumes: Seq<DriveInfoView>)
    requires
        0 <= index < volumes.len() ==> {
            &&& text_wire(volumes[index as int].label) is Ok
            &&& text_wire(volumes[index as int].mount_point) is Ok
            &&& 16 + text(volumes[index as int].label).len() + text(
                volumes[index as int].mount_point,
            ).len() <= FRAME_SIZE
        },
    ensures
        exchange(
            request(CommandIDs::GetDriveInfo.number(), int32(index) + rest),
            FactsView::Volumes(volumes),
        ) == Ok::<Seq<u8>, ProtocolError>(
            if 0 <= index < volumes.len() {
                response(
                    text(volumes[index as int].label) + text(volumes[index as int].mount_point)
                        + int32(0) + int32(0),
                )
            } else {
                report(HandlerError::Request(RequestError::IndexOutOfRange))
            },
        ),
{
    let command = CommandIDs::GetDriveInfo;
    let facts = FactsView::Volumes(volumes);
    let fields = int32(index) + rest;
    lemma_exchange(command, fields, facts);
    let state = accepted(command.number(), fields);
    lemma_read_field::<i32>(state, index, rest);
    let after = state.read_state::<i32>();
    if 0 <= index < volumes.len() {
        let label = text(volumes[index as int].label);
        let mount = text(volumes[index as int].mount_point);
        let zero = int32(0);
        lemma_head_size();
        lemma_field_sizes(0);
        lemma_response_start(after);
        let first = after.response_start();
        lemma_write_field(first, success_head(), label);
        let second = first.and_write(Ok(label));
        lemma_write_field(second, success_head() + label, mount);
        let third = second.and_write(Ok(mount));
        lemma_write_field(third, success_head() + label + mount, zero);
        let fourth = third.and_write(Ok(zero));
        lemma_write_field(fourth, success_head() + label + mount + zero, zero);
        let last = fourth.and_write(Ok(zero));
        assert(success_head() + label + mount + zero + zero =~= success_head() + (label + mount
            + zero + zero));
        lemma_reply_success(last, label + mount + zero + zero);
    }
}

/// A request for the metadata of a path asks for the metadata of the local
/// path, and is answered with the kind and the size of the path, or with the
/// report `Overflow` where the size does not fit its field.
pub proof fn theorem_stat_path(
    path: Seq<char>,
    rest: Seq<u8>,
    metadata: Metadata,
    policy: PathPolicy,
)
    requires
        text_wire(path) is Ok,
    ensures
        inquiry(request(CommandIDs::StatPath.number(), text(path) + rest), policy) == Ok::<
            QueryView,
            ProtocolError,
        >(QueryView::Metadata(normalized(path, policy))),
        exchange(
            request(CommandIDs::StatPath.number(), text(path) + rest),
            FactsView::Metadata(metadata),
        ) == Ok::<Seq<u8>, ProtocolError>(
            match path_stat(metadata) {
                Ok(stat) => response(int32(stat.kind) + int64(stat.size)),
                Err(_) => report(HandlerError::Request(RequestError::Overflow)),
            },
        ),
{
    let command = CommandIDs::StatPath;
    let facts = FactsView::Metadata(metadata);
    let fields = text(path) + rest;
    lemma_exchange(command, fields, facts);
    lemma_accept(command.number(), fields);
    crate::command::lemma_resolve_number(command);
    let state = accepted(command.number(), fields);
    assert(state.capture() == state);
    lemma_read_field::<String>(state, path, rest);
    let after = state.read_state::<String>();
    match path_stat(metadata) {
        Ok(stat) => {
            let kind = int32(stat.kind);
            let size = int64(stat.size);
            lemma_head_size();
            lemma_field_sizes(stat.kind as int);
            lemma_field_sizes(stat.size as int);
            lemma_response_start(after);
            let first = after.response_start();
            lemma_write_field(first, success_head(), kind);
            let second = first.and_write(Ok(kind));
            lemma_write_field(second, success_head() + kind, size);
            assert(success_head() + kind + size =~= success_head() + (kind + size));
            lemma_reply_success(second.and_write(Ok(size)), kind + size);
        },
        Err(_) => {},
    }
}

/// A request for a number of entries asks for the listing of the local path,
/// and is answered with the number of entries of the command's kind in that
/// listing.
pub proof fn theorem_count(
    command: CommandIDs,
    path: Seq<char>,
    rest: Seq<u8>,
    entries: Seq<EntryView>,
    policy: PathPolicy,
)
    requires
        command == CommandIDs::GetDirectoryCount || command == CommandIDs::GetFileCount,
        text_wire(path) is Ok,
        entries.len() <= i32::MAX,
    ensures
        inquiry(request(command.number(), text(path) + rest), policy) == Ok::<
            QueryView,
            ProtocolError,
        >(QueryView::Entries(normalized(path, policy))),
        exchange(request(command.number(), text(path) + rest), FactsView::Entries(entries))
            == Ok::<Seq<u8>, ProtocolError>(
            response(int32(of_kind(entries, listed_kind(command)).len() as i32)),
        ),
        of_kind(entries, listed_kind(command)).len() <= entries.len(),
{
    let facts = FactsView::Entries(entries);
    let fields = text(path) + rest;
    let kind = listed_kind(command);
    lemma_exchange(command, fields, facts);
    lemma_accept(command.number(), fields);
    crate::command::lemma_resolve_number(command);
    let state = accepted(command.number(), fields);
    assert(state.capture() == state);
    lemma_read_field::<String>(state, path, rest);
    let after = state.read_state::<String>();
    entries.lemma_filter_len(crate::filesystem::is_kind(kind));
    let count = int32(of_kind(entries, kind).len() as i32);
    lemma_head_size();
    lemma_field_sizes(of_kind(entries, kind).len() as i32 as int);
    lemma_response_start(after);
    lemma_write_field(after.response_start(), success_head(), count);
    lemma_reply_success(after.response_start().and_write(Ok(count)), count);
}

/// The kind of entry that a listing command is about.
pub open spec fn listed_kind(command: CommandIDs) -> EntryKind {
    match command {
        CommandIDs::GetDirectoryCount | CommandIDs::GetDirectory => EntryKind::Directory,
        _ => EntryKind::File,
    }
}

/// A request for one entry asks for the listing of the local path, and is
/// answered with the name of the entry at the index among the entries of the
/// command's kind, in the order of the listing, where the name fits into the
/// frame. An index that names none is answered with the report
/// `IndexOutOfRange`.
pub proof fn theorem_pick(
    command: CommandIDs,
    path: Seq<char>,
    index: i32,
    rest: Seq<u8>,
    entries: Seq<EntryView>,
    policy: PathPolicy,
)
    requires
        command == CommandIDs::GetDirectory || command == CommandIDs::GetFile,
        text_wire(path) is Ok,
        0 <= index < of_kind(entries, listed_kind(command)).len() ==> {
            &&& text_wire(of_kind(entries, listed_kind(command))[index as int].name) is Ok
            &&& 8 + text(of_kind(entries, listed_kind(command))[index as int].name).len()
                <= FRAME_SIZE
        },
    ensures
        inquiry(request(command.number(), text(path) + int32(index) + rest), policy) == Ok::<
            QueryView,
            ProtocolError,
        >(QueryView::Entries(normalized(path, policy))),
        exchange(
            request(command.number(), text(path) + int32(index) + rest),
            FactsView::Entries(entries),
        ) == Ok::<Seq<u8>, ProtocolError>(
            if 0 <= index < of_kind(entries, listed_kind(command)).len() {
                response(text(of_kind(entries, listed_kind(command))[index as int].name))
            } else {
                report(HandlerError::Request(RequestError::IndexOutOfRange))
            },
        ),
{
    let facts = FactsView::Entries(entries);
    let fields = text(path) + int32(index) + rest;
    let kind = listed_kind(command);
    lemma_exchange(command, fields, facts);
    lemma_accept(command.number(), fields);
    crate::command::lemma_resolve_number(command);
    let state = accepted(command.number(), fields);
    assert(state.capture() == state);
    assert(fields =~= text(path) + (int32(index) + rest));
    lemma_read_field::<String>(state, path, int32(index) + rest);
    let middle = state.read_state::<String>();
    lemma_read_field::<i32>(middle, index, rest);
    let after = middle.read_state::<i32>();
    if 0 <= index < of_kind(entries, kind).len() {
        let name = text(of_kind(entries, kind)[index as int].name);
        lemma_head_size();
        lemma_response_start(after);
        lemma_write_field(after.response_start(), success_head(), name);
        lemma_reply_success(after.response_start().and_write(Ok(name)), name);
    }
}

/// A request that begins with a path is answered with a report of failure
/// where the facts are not what the command asked for: `NotFound` for a path
/// that does not exist, `WrongPathKind` for a listing of what is no
/// directory, and a report of the file system or of the adapter otherwise.
pub proof fn theorem_failed_facts(
    command: CommandIDs,
    path: Seq<char>,
    rest: Seq<u8>,
    facts: FactsView,
)
    requires
        text_wire(path) is Ok,
        command.is_implemented(),
        command != CommandIDs::GetDriveCount,
        command != CommandIDs::GetDriveInfo,
        command != CommandIDs::GetDirectory,
        command != CommandIDs::GetFile,
        match facts {
            FactsView::Entries(_) => command == CommandIDs::StatPath,
            FactsView::Metadata(_) => command != CommandIDs::StatPath,
            _ => true,
        },
    ensures
        exchange(request(command.number(), text(path) + rest), facts) == Ok::<
            Seq<u8>,
            ProtocolError,
        >(report(crate::filesystem::failure_of(facts))),
        failure_code(crate::filesystem::failure_of(facts)) is Ok,
{
    let fields = text(path) + rest;
    lemma_exchange(command, fields, facts);
    let state = accepted(command.number(), fields);
    lemma_read_field::<String>(state, path, rest);
}

/// A request for a command that has no handler is answered with the report
/// `NotImplemented`, whatever its fields and the facts, and asks nothing of
/// the file system.
pub proof fn theorem_not_implemented(
    command: CommandIDs,
    fields: Seq<u8>,
    facts: FactsView,
    policy: PathPolicy,
)
    requires
        !command.is_implemented(),
    ensures
        inquiry(request(command.number(), fields), policy) == Ok::<QueryView, ProtocolError>(
            QueryView::Nothing,
        ),
        exchange(request(command.number(), fields), facts) == Ok::<Seq<u8>, ProtocolError>(
            report(HandlerError::NotImplemented),
        ),
{
    lemma_exchange(command, fields, facts);
    lemma_accept(command.number(), fields);
    crate::command::lemma_resolve_number(command);
    let state = accepted(command.number(), fields);
    assert(state.capture() == state);
}

/// A request with an identifier outside the closed range of commands is
/// dropped as an unknown command.
pub proof fn theorem_unknown_command(
    id: i32,
    fields: Seq<u8>,
    facts: FactsView,
    policy: PathPolicy,
)
    requires
        !(0 <= id <= 17),
    ensures
        inquiry(request(id, fields), policy) == Err::<QueryView, ProtocolError>(
            ProtocolError::UnknownCommand,
        ),
        exchange(request(id, fields), facts) == Err::<Seq<u8>, ProtocolError>(
            ProtocolError::UnknownCommand,
        ),
{
    lemma_accept(id, fields);
    crate::command::lemma_resolve(id);
    let state = accepted(id, fields);
    assert(state.capture() == state);
}

/// A frame that does not begin with the input magic number is dropped,
/// whatever else it holds and whatever the facts: for its magic number if it
/// has four bytes, as truncated if it has fewer.
pub proof fn theorem_bad_magic(frame: Seq<u8>, facts: FactsView, policy: PathPolicy)
    requires
        frame.len() < 4 || frame.take(4) != wire_signed(INPUT_MAGIC_NUMBER as int, 4),
    ensures
        exchange(frame, facts) == Err::<Seq<u8>, ProtocolError>(
            if frame.len() < 4 {
                ProtocolError::Malformed(CodecError::Truncated)
            } else {
                ProtocolError::BadMagic
            },
        ),
        inquiry(frame, policy) == Err::<QueryView, ProtocolError>(
            if frame.len() < 4 {
                ProtocolError::Malformed(CodecError::Truncated)
            } else {
                ProtocolError::BadMagic
            },
        ),
{
    let fresh = CommandView::fresh(frame);
    assert(fresh.input.remaining() =~= frame);
    crate::command::lemma_magic_bytes(fresh);
}

/// A write that succeeds puts the bytes of the field behind the response so
/// far, and the response still fits into a frame.
pub proof fn lemma_write_appends(step: Step, written: Seq<u8>, wire: Result<Seq<u8>, CodecError>)
    requires
        step.result is Ok,
        wrote(step.state, written),
    ensures
        step.and_write(wire).result is Ok ==> {
            &&& wire is Ok
            &&& wrote(step.and_write(wire).state, written + wire->Ok_0)
            &&& written.len() + wire->Ok_0.len() <= FRAME_SIZE
        },
{
    if step.and_write(wire).result is Ok {
        assert(step.and_write(wire).state.output.bytes =~= written + wire->Ok_0);
    }
}

/// Every response of success begins with the head of success: whatever the
/// request and the facts, a handler that succeeds on an empty output has
/// started the response before it wrote anything else, and has written no
/// more than a frame holds.
pub proof fn theorem_success_begins_with_head(
    command: CommandIDs,
    state: CommandView,
    facts: FactsView,
)
    requires
        wrote(state, Seq::empty()),
    ensures
        command.outcome(state, facts).result is Ok ==> {
            let written = command.outcome(state, facts).state.output.bytes;
            &&& 8 <= written.len() <= FRAME_SIZE
            &&& written.take(8) == success_head()
            &&& reply(command.outcome(state, facts)) == Ok::<Seq<u8>, ProtocolError>(
                response(written.skip(8)),
            )
        },
{
    let done = command.outcome(state, facts);
    if done.result is Ok {
        lemma_head_size();
        let path = state.read_state::<String>();
        let index = state.read_state::<i32>();
        let both = path.read_state::<i32>();
        let ready = match command {
            CommandIDs::GetDriveCount => state,
            CommandIDs::GetDriveInfo => index,
            CommandIDs::GetDirectory | CommandIDs::GetFile => both,
            _ => path,
        };
        assert(wrote(ready, Seq::empty()));
        lemma_response_start(ready);
        let started = ready.response_start();
        let head = success_head();
        match command {
            CommandIDs::GetDriveCount => {
                let volumes = crate::filesystem::volumes_of(facts)->Ok_0;
                lemma_write_appends(
                    started,
                    head,
                    <i32 as Serializable<i32>>::wire(volumes.len() as i32),
                );
            },
            CommandIDs::GetDriveInfo => {
                let volumes = crate::filesystem::volumes_of(facts)->Ok_0;
                let at = state.read_result::<i32>()->Ok_0 as int;
                let label = <String as Serializable<String>>::wire(volumes[at].label);
                let mount = <String as Serializable<String>>::wire(volumes[at].mount_point);
                let zero = <i32 as Serializable<i32>>::wire(0);
                lemma_write_appends(started, head, label);
                let first = started.and_write(label);
                lemma_write_appends(first, head + label->Ok_0, mount);
                let second = first.and_write(mount);
                lemma_write_appends(second, head + label->Ok_0 + mount->Ok_0, zero);
                let third = second.and_write(zero);
                lemma_write_appends(third, head + label->Ok_0 + mount->Ok_0 + zero->Ok_0, zero);
            },
            CommandIDs::StatPath => {
                let stat = path_stat(crate::filesystem::metadata_of(facts)->Ok_0)->Ok_0;
                let kind = <i32 as Serializable<i32>>::wire(stat.kind);
                let size = <i64 as Serializable<i64>>::wire(stat.size);
                lemma_write_appends(started, head, kind);
                lemma_write_appends(started.and_write(kind), head + kind->Ok_0, size);
            },
            CommandIDs::GetDirectoryCount | CommandIDs::GetFileCount => {
                let entries = crate::filesystem::entries_of(facts)->Ok_0;
                let count = of_kind(entries, listed_kind(command)).len() as i32;
                lemma_write_appends(started, head, <i32 as Serializable<i32>>::wire(count));
            },
            CommandIDs::GetDirectory | CommandIDs::GetFile => {
                let entries = crate::filesystem::entries_of(facts)->Ok_0;
                let at = path.read_result::<i32>()->Ok_0 as int;
                let name = of_kind(entries, listed_kind(command))[at].name;
                lemma_write_appends(started, head, <String as Serializable<String>>::wire(name));
            },
            _ => {},
        }
        let written = done.state.output.bytes;
        assert(written.take(8) =~= head);
        assert(head + written.skip(8) =~= written);
    }
}

} // verus!
