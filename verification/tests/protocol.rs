use goldleaf_fs::command::{
    failure, finalize, Command, CommandIDs, Subject, FRAME_SIZE, INPUT_MAGIC_NUMBER,
    OUTPUT_MAGIC_NUMBER,
};
use goldleaf_fs::error::{CodecError, HandlerError, ProtocolError, RequestError, SystemError};
use goldleaf_fs::filesystem::{Facts, PathPolicy, Query};

const INPUT_MAGIC: [u8; 4] = [0x47, 0x4C, 0x43, 0x49];
const OUTPUT_MAGIC: [u8; 4] = [0x47, 0x4C, 0x43, 0x4F];

fn text(value: &str) -> Vec<u8> {
    let units: Vec<u16> = value.encode_utf16().collect();
    let mut bytes = (units.len() as i32).to_le_bytes().to_vec();
    for unit in units {
        bytes.extend_from_slice(&unit.to_le_bytes());
    }
    bytes
}

fn request(id: i32, fields: &[u8]) -> Vec<u8> {
    let mut frame = INPUT_MAGIC.to_vec();
    frame.extend_from_slice(&id.to_le_bytes());
    frame.extend_from_slice(fields);
    frame
}

fn padded(mut bytes: Vec<u8>) -> Vec<u8> {
    assert!(bytes.len() <= 4096);
    bytes.resize(4096, 0);
    bytes
}

fn failure_frame(code: i32) -> Vec<u8> {
    let mut bytes = OUTPUT_MAGIC.to_vec();
    bytes.extend_from_slice(&code.to_le_bytes());
    padded(bytes)
}

#[test]
fn magic_numbers_differ_by_direction() {
    assert_eq!(INPUT_MAGIC_NUMBER, 0x49434C47);
    assert_eq!(OUTPUT_MAGIC_NUMBER, 0x4F434C47);
    assert_ne!(INPUT_MAGIC_NUMBER, OUTPUT_MAGIC_NUMBER);
    assert_eq!(INPUT_MAGIC_NUMBER.to_le_bytes(), INPUT_MAGIC);
    assert_eq!(OUTPUT_MAGIC_NUMBER.to_le_bytes(), OUTPUT_MAGIC);
    assert_eq!(FRAME_SIZE, 4096);
}

#[test]
fn new_command_has_read_nothing() {
    let command = Command::new(request(1, &[]));
    assert_eq!(command.id, None);
    assert_eq!(command.magic_number, None);
}

#[test]
fn first_read_captures_the_magic_number() {
    let mut command = Command::new(request(7, &[1, 0, 0, 0]));
    assert_eq!(command.read::<i32>(), Ok(7));
    assert_eq!(command.magic_number, Some(INPUT_MAGIC_NUMBER));
    assert_eq!(command.read::<i32>(), Ok(1));
    assert_eq!(command.read::<i32>(), Err(ProtocolError::Malformed(CodecError::Truncated)));
}

#[test]
fn bad_magic_is_rejected_on_every_read() {
    let mut frame = request(1, &[]);
    frame[0] ^= 1;
    let mut command = Command::new(frame);
    assert_eq!(command.read::<i32>(), Err(ProtocolError::BadMagic));
    assert_eq!(command.read::<i32>(), Err(ProtocolError::BadMagic));
    assert_eq!(command.read::<String>(), Err(ProtocolError::BadMagic));
    assert_eq!(command.check_magic(), Err(ProtocolError::BadMagic));
    assert_eq!(command.magic_number, Some(INPUT_MAGIC_NUMBER ^ 1));
}

#[test]
fn output_magic_is_no_input_magic() {
    let mut frame = OUTPUT_MAGIC.to_vec();
    frame.extend_from_slice(&1i32.to_le_bytes());
    let mut command = Command::new(frame);
    assert_eq!(command.read::<i32>(), Err(ProtocolError::BadMagic));
}

#[test]
fn bad_magic_is_rejected_before_any_handler() {
    for id in -1..=18 {
        let mut frame = request(id, &text("C:/data"));
        frame[3] = 0;
        let mut command = Command::new(frame.clone());
        let facts = Facts::Volumes(Vec::new());
        assert_eq!(command.handle(id, &facts), Err(ProtocolError::BadMagic));
        let mut command = Command::new(frame);
        assert_eq!(command.query(id, PathPolicy::Keep), Err(ProtocolError::BadMagic));
    }
}

#[test]
fn frame_too_short_for_a_magic_number_is_truncated() {
    let mut command = Command::new(vec![0x47, 0x4C, 0x43]);
    assert_eq!(command.read::<u8>(), Err(ProtocolError::Malformed(CodecError::Truncated)));
    assert_eq!(command.magic_number, None);
    assert_eq!(
        command.handle(1, &Facts::Volumes(Vec::new())),
        Err(ProtocolError::Malformed(CodecError::Truncated))
    );
}

#[test]
fn malformed_text_is_a_protocol_error() {
    let mut command = Command::new(request(3, &[1, 0, 0, 0, 0x00, 0xD8]));
    assert_eq!(command.read::<i32>(), Ok(3));
    assert_eq!(command.read::<String>(), Err(ProtocolError::Malformed(CodecError::InvalidText)));
}

#[test]
fn response_start_writes_magic_and_success() {
    let mut command = Command::new(Vec::new());
    assert_eq!(command.response_start(), Ok(()));
    assert_eq!(command.write::<i32>(3), Ok(()));
    let mut expected = OUTPUT_MAGIC.to_vec();
    expected.extend_from_slice(&[0, 0, 0, 0, 3, 0, 0, 0]);
    assert_eq!(command.response(), Ok(padded(expected)));
}

#[test]
fn response_of_nothing_written_is_all_zero() {
    let command = Command::new(request(1, &[]));
    assert_eq!(command.response(), Ok(vec![0u8; 4096]));
}

#[test]
fn write_refuses_what_does_not_fit_the_frame() {
    let mut command = Command::new(Vec::new());
    assert_eq!(command.response_start(), Ok(()));
    for _ in 0..(4096 - 8) / 8 {
        assert_eq!(command.write::<i64>(-1), Ok(()));
    }
    assert_eq!(command.write::<u8>(1), Err(ProtocolError::FrameOverflow));
    assert_eq!(command.write::<String>(String::new()), Err(ProtocolError::FrameOverflow));
}

#[test]
fn write_refuses_text_that_would_cross_the_end() {
    let mut command = Command::new(Vec::new());
    assert_eq!(command.response_start(), Ok(()));
    // 8 + 4 + 2 * 2042 = 4096: fits exactly.
    assert_eq!(command.write::<String>("x".repeat(2042)), Ok(()));
    let mut command = Command::new(Vec::new());
    assert_eq!(command.response_start(), Ok(()));
    assert_eq!(command.write::<String>("x".repeat(2043)), Err(ProtocolError::FrameOverflow));
    // Nothing of the refused text was written.
    assert_eq!(command.write::<String>("x".repeat(2042)), Ok(()));
}

#[test]
fn finalize_pads_to_the_frame_size() {
    assert_eq!(finalize(&[]), Ok(vec![0u8; 4096]));
    assert_eq!(finalize(&[1, 2, 3]), Ok(padded(vec![1, 2, 3])));
    assert_eq!(finalize(&[7u8; 4096]), Ok(vec![7u8; 4096]));
    assert_eq!(finalize(&[7u8; 4097]), Err(ProtocolError::FrameOverflow));
}

#[test]
fn failure_frames_carry_the_code_in_the_result_field() {
    assert_eq!(failure(1), failure_frame(1));
    assert_eq!(failure(-1), failure_frame(-1));
    assert_eq!(failure(0x01020304)[4..8], [4, 3, 2, 1]);
}

#[test]
fn every_failure_has_its_code() {
    assert_eq!(HandlerError::NotImplemented.code(), Ok(1));
    assert_eq!(HandlerError::Request(RequestError::IndexOutOfRange).code(), Ok(2));
    assert_eq!(HandlerError::Request(RequestError::NotFound).code(), Ok(3));
    assert_eq!(HandlerError::Request(RequestError::WrongPathKind).code(), Ok(4));
    assert_eq!(HandlerError::Request(RequestError::Overflow).code(), Ok(5));
    assert_eq!(HandlerError::System(SystemError::Filesystem).code(), Ok(6));
    assert_eq!(HandlerError::System(SystemError::Adapter).code(), Ok(7));
    assert_eq!(
        HandlerError::Protocol(ProtocolError::BadMagic).code(),
        Err(ProtocolError::BadMagic)
    );
}

#[test]
fn identifiers_resolve_to_the_closed_set() {
    let all = [
        CommandIDs::Invalid,
        CommandIDs::GetDriveCount,
        CommandIDs::GetDriveInfo,
        CommandIDs::StatPath,
        CommandIDs::GetFileCount,
        CommandIDs::GetFile,
        CommandIDs::GetDirectoryCount,
        CommandIDs::GetDirectory,
        CommandIDs::StartFile,
        CommandIDs::ReadFile,
        CommandIDs::WriteFile,
        CommandIDs::EndFile,
        CommandIDs::Create,
        CommandIDs::Delete,
        CommandIDs::Rename,
        CommandIDs::GetSpecialPathCount,
        CommandIDs::GetSpecialPath,
        CommandIDs::SelectFile,
    ];
    for (number, command) in all.iter().enumerate() {
        assert_eq!(command.into_primitive(), number as i32);
        assert_eq!(CommandIDs::try_from_primitive(number as i32), Some(*command));
    }
    assert_eq!(CommandIDs::try_from_primitive(-1), None);
    assert_eq!(CommandIDs::try_from_primitive(18), None);
    assert_eq!(CommandIDs::try_from_primitive(i32::MAX), None);
    assert_eq!(CommandIDs::try_from_primitive(i32::MIN), None);
}

#[test]
fn unknown_command_is_rejected() {
    for id in [-1, 18, 1000, i32::MIN, i32::MAX] {
        let mut command = Command::new(request(id, &[]));
        assert_eq!(command.read::<i32>(), Ok(id));
        assert_eq!(command.handle(id, &Facts::Nothing), Err(ProtocolError::UnknownCommand));
        assert_eq!(command.query(id, PathPolicy::Keep), Err(ProtocolError::UnknownCommand));
    }
}

#[test]
fn commands_without_a_handler_answer_not_implemented() {
    for id in [0, 8, 9, 10, 11, 12, 13, 14, 15, 16, 17] {
        let mut command = Command::new(request(id, &[1, 2, 3]));
        assert_eq!(command.read::<i32>(), Ok(id));
        assert_eq!(command.query(id, PathPolicy::Keep), Ok(Query::Nothing));
        let frame = command.handle(id, &Facts::Nothing).unwrap();
        assert_eq!(frame, failure_frame(1));
        assert_ne!(&frame[4..8], &[0, 0, 0, 0]);
        assert_eq!(
            CommandIDs::try_from_primitive(id).unwrap().handle(&mut command, &Facts::Nothing),
            Err(HandlerError::NotImplemented)
        );
    }
}

#[test]
fn every_command_in_range_gives_a_whole_frame() {
    for id in 0..=17 {
        for facts in [
            Facts::Nothing,
            Facts::Volumes(Vec::new()),
            Facts::Entries(Vec::new()),
            Facts::NotFound,
            Facts::NotDirectory,
            Facts::Failed,
        ] {
            let mut fields = text("C:/data");
            fields.extend_from_slice(&0i32.to_le_bytes());
            let mut command = Command::new(request(id, &fields));
            assert_eq!(command.read::<i32>(), Ok(id));
            let frame = command.handle(id, &facts).unwrap();
            assert_eq!(frame.len(), 4096);
            assert_eq!(&frame[..4], &OUTPUT_MAGIC);
        }
    }
}

#[test]
fn commands_ask_for_what_they_need() {
    assert_eq!(CommandIDs::GetDriveCount.asks(), Subject::Volumes);
    assert_eq!(CommandIDs::GetDriveInfo.asks(), Subject::Volumes);
    assert_eq!(CommandIDs::StatPath.asks(), Subject::Metadata);
    assert_eq!(CommandIDs::GetFileCount.asks(), Subject::Entries);
    assert_eq!(CommandIDs::GetFile.asks(), Subject::Entries);
    assert_eq!(CommandIDs::GetDirectoryCount.asks(), Subject::Entries);
    assert_eq!(CommandIDs::GetDirectory.asks(), Subject::Entries);
    assert_eq!(CommandIDs::Invalid.asks(), Subject::Nothing);
    assert_eq!(CommandIDs::SelectFile.asks(), Subject::Nothing);
}

#[test]
fn query_names_the_local_path_and_uses_nothing_up() {
    let mut fields = text("C:/data");
    fields.extend_from_slice(&1i32.to_le_bytes());
    let mut command = Command::new(request(7, &fields));
    assert_eq!(command.read::<i32>(), Ok(7));
    assert_eq!(command.query(7, PathPolicy::StripDrive), Ok(Query::Entries("/data".to_string())));
    assert_eq!(command.query(7, PathPolicy::StripColons), Ok(Query::Entries("C/data".to_string())));
    assert_eq!(command.query(3, PathPolicy::Keep), Ok(Query::Metadata("C:/data".to_string())));
    assert_eq!(command.query(1, PathPolicy::Keep), Ok(Query::Volumes));
    assert_eq!(command.query(2, PathPolicy::Keep), Ok(Query::Volumes));
    // The fields are still there.
    assert_eq!(command.read::<String>(), Ok("C:/data".to_string()));
    assert_eq!(command.read::<i32>(), Ok(1));
}

#[test]
fn query_reports_a_malformed_path() {
    let mut command = Command::new(request(3, &[5, 0, 0, 0, b'a', 0]));
    assert_eq!(command.read::<i32>(), Ok(3));
    assert_eq!(
        command.query(3, PathPolicy::Keep),
        Err(ProtocolError::Malformed(CodecError::Truncated))
    );
}

#[test]
fn dispatch_and_conclude_make_up_handle() {
    let mut command = Command::new(request(1, &[]));
    assert_eq!(command.identify(), Ok(1));
    let outcome = command.dispatch(1, &Facts::Failed);
    assert_eq!(outcome, Err(HandlerError::System(SystemError::Filesystem)));
    assert_eq!(command.conclude(outcome), Ok(failure_frame(6)));
    let mut command = Command::new(request(1, &[]));
    assert_eq!(command.identify(), Ok(1));
    let outcome = command.dispatch(1, &Facts::Volumes(Vec::new()));
    assert_eq!(outcome, Ok(()));
    let mut expected = OUTPUT_MAGIC.to_vec();
    expected.extend_from_slice(&[0; 8]);
    assert_eq!(command.conclude(outcome), Ok(padded(expected)));
    let mut command = Command::new(request(40, &[]));
    assert_eq!(
        command.dispatch(40, &Facts::Nothing),
        Err(HandlerError::Protocol(ProtocolError::UnknownCommand))
    );
    assert_eq!(
        command.conclude(Err(HandlerError::Protocol(ProtocolError::UnknownCommand))),
        Err(ProtocolError::UnknownCommand)
    );
}

#[test]
fn identify_reads_the_identifier_once() {
    let mut command = Command::new(request(6, &9i32.to_le_bytes()));
    assert_eq!(command.identify(), Ok(6));
    assert_eq!(command.id, Some(6));
    assert_eq!(command.identify(), Ok(6));
    assert_eq!(command.read::<i32>(), Ok(9));
    let mut short = Command::new(INPUT_MAGIC.to_vec());
    assert_eq!(short.identify(), Err(ProtocolError::Malformed(CodecError::Truncated)));
    assert_eq!(short.id, None);
}
