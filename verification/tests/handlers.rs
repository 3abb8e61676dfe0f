use goldleaf_fs::command::Command;
use goldleaf_fs::error::{CodecError, HandlerError, ProtocolError, RequestError, SystemError};
use goldleaf_fs::filesystem::{DirectoryEntry, DriveInfo, EntryKind, Facts, Metadata};
use goldleaf_fs::handlers::stat_path::{PathStat, KIND_DIRECTORY, KIND_FILE};
use goldleaf_fs::handlers::{
    GetDirectory, GetDirectoryCount, GetDriveCount, GetDriveInfo, GetFile, GetFileCount, StatPath,
};

const INPUT_MAGIC: [u8; 4] = [0x47, 0x4C, 0x43, 0x49];
const OUTPUT_MAGIC: [u8; 4] = [0x47, 0x4C, 0x43, 0x4F];

fn text(value: &str) -> Vec<u8> {
    let units: Vec<u16> = value.encode_utf16().collect();
    let mut bytes = (units.len() as i32).to_le_bytes().to_vec();
    for unit in units {
        bytes.extend_from_slice(&unit.to_le_bytes());
    }
    bytes
}

fn join(parts: &[Vec<u8>]) -> Vec<u8> {
    parts.concat()
}

/// A command whose identifier has been read, as a handler finds it.
fn opened(id: i32, fields: &[u8]) -> Command {
    let mut frame = INPUT_MAGIC.to_vec();
    frame.extend_from_slice(&id.to_le_bytes());
    frame.extend_from_slice(fields);
    let mut command = Command::new(frame);
    assert_eq!(command.read::<i32>(), Ok(id));
    command.id = Some(id);
    command
}

fn success(fields: &[u8]) -> Vec<u8> {
    let mut bytes = OUTPUT_MAGIC.to_vec();
    bytes.extend_from_slice(&[0, 0, 0, 0]);
    bytes.extend_from_slice(fields);
    bytes.resize(4096, 0);
    bytes
}

fn failure(code: i32) -> Vec<u8> {
    let mut bytes = OUTPUT_MAGIC.to_vec();
    bytes.extend_from_slice(&code.to_le_bytes());
    bytes.resize(4096, 0);
    bytes
}

fn drive(label: &str, mount_point: &str) -> DriveInfo {
    DriveInfo { label: label.to_string(), mount_point: mount_point.to_string() }
}

fn entry(name: &str, kind: EntryKind) -> DirectoryEntry {
    DirectoryEntry { name: name.to_string(), kind }
}

/// Two directories and five files, as the file system lists them.
fn data_listing() -> Facts {
    Facts::Entries(vec![
        entry("one.bin", EntryKind::File),
        entry("alpha", EntryKind::Directory),
        entry("two.bin", EntryKind::File),
        entry("three.bin", EntryKind::File),
        entry("beta", EntryKind::Directory),
        entry("four.bin", EntryKind::File),
        entry("five.bin", EntryKind::File),
    ])
}

fn three_volumes() -> Facts {
    Facts::Volumes(vec![drive("root", "/"), drive("home", "/home"), drive("usb", "/mnt/usb")])
}

#[test]
fn get_drive_count_answers_the_number_of_volumes() {
    let mut command = opened(1, &[]);
    assert_eq!(GetDriveCount(&mut command, &three_volumes()), Ok(()));
    assert_eq!(command.response(), Ok(success(&3i32.to_le_bytes())));
    let mut command = opened(1, &[]);
    assert_eq!(command.handle(1, &three_volumes()), Ok(success(&3i32.to_le_bytes())));
}

#[test]
fn get_drive_count_of_no_volumes_is_zero() {
    let mut command = opened(1, &[]);
    assert_eq!(command.handle(1, &Facts::Volumes(Vec::new())), Ok(success(&0i32.to_le_bytes())));
}

#[test]
fn get_drive_count_without_volumes_fails() {
    let mut command = opened(1, &[]);
    assert_eq!(
        GetDriveCount(&mut command, &Facts::Failed),
        Err(HandlerError::System(SystemError::Filesystem))
    );
    assert_eq!(
        GetDriveCount(&mut command, &Facts::Nothing),
        Err(HandlerError::System(SystemError::Adapter))
    );
    let mut command = opened(1, &[]);
    assert_eq!(command.handle(1, &Facts::Failed), Ok(failure(6)));
    let mut command = opened(1, &[]);
    assert_eq!(command.handle(1, &data_listing()), Ok(failure(7)));
}

#[test]
fn get_drive_info_answers_label_mount_point_and_reserved_fields() {
    let mut command = opened(2, &1i32.to_le_bytes());
    let expected = join(&[
        text("home"),
        text("/home"),
        0i32.to_le_bytes().to_vec(),
        0i32.to_le_bytes().to_vec(),
    ]);
    assert_eq!(command.handle(2, &three_volumes()), Ok(success(&expected)));
}

#[test]
fn get_drive_info_index_out_of_range() {
    for index in [3, 4, -1, i32::MIN, i32::MAX] {
        let mut command = opened(2, &index.to_le_bytes());
        assert_eq!(
            GetDriveInfo(&mut command, &three_volumes()),
            Err(HandlerError::Request(RequestError::IndexOutOfRange))
        );
        let mut command = opened(2, &index.to_le_bytes());
        assert_eq!(command.handle(2, &three_volumes()), Ok(failure(2)));
    }
}

#[test]
fn get_drive_info_without_an_index_is_malformed() {
    let mut command = opened(2, &[1, 0]);
    assert_eq!(
        GetDriveInfo(&mut command, &three_volumes()),
        Err(HandlerError::Protocol(ProtocolError::Malformed(CodecError::Truncated)))
    );
    let mut command = opened(2, &[1, 0]);
    assert_eq!(
        command.handle(2, &three_volumes()),
        Err(ProtocolError::Malformed(CodecError::Truncated))
    );
}

#[test]
fn get_directory_count_counts_directories_only() {
    let mut command = opened(6, &text("C:/data"));
    assert_eq!(command.handle(6, &data_listing()), Ok(success(&2i32.to_le_bytes())));
    let mut command = opened(6, &text("C:/data"));
    assert_eq!(GetDirectoryCount(&mut command, &data_listing()), Ok(()));
    assert_eq!(command.response(), Ok(success(&2i32.to_le_bytes())));
}

#[test]
fn get_file_count_counts_files_only() {
    let mut command = opened(4, &text("C:/data"));
    assert_eq!(command.handle(4, &data_listing()), Ok(success(&5i32.to_le_bytes())));
    let mut command = opened(4, &text("C:/data"));
    assert_eq!(GetFileCount(&mut command, &data_listing()), Ok(()));
    assert_eq!(command.response(), Ok(success(&5i32.to_le_bytes())));
}

#[test]
fn counts_skip_what_is_neither_file_nor_directory() {
    let facts = Facts::Entries(vec![
        entry("pipe", EntryKind::Other),
        entry("dir", EntryKind::Directory),
        entry("socket", EntryKind::Other),
    ]);
    let mut command = opened(4, &text("/x"));
    assert_eq!(command.handle(4, &facts), Ok(success(&0i32.to_le_bytes())));
    let mut command = opened(6, &text("/x"));
    assert_eq!(command.handle(6, &facts), Ok(success(&1i32.to_le_bytes())));
}

#[test]
fn counts_of_an_unreadable_path_fail() {
    let mut command = opened(6, &text("/gone"));
    assert_eq!(
        GetDirectoryCount(&mut command, &Facts::NotFound),
        Err(HandlerError::Request(RequestError::NotFound))
    );
    let mut command = opened(4, &text("/file"));
    assert_eq!(
        GetFileCount(&mut command, &Facts::NotDirectory),
        Err(HandlerError::Request(RequestError::WrongPathKind))
    );
    let mut command = opened(6, &text("/gone"));
    assert_eq!(command.handle(6, &Facts::NotFound), Ok(failure(3)));
    let mut command = opened(4, &text("/file"));
    assert_eq!(command.handle(4, &Facts::NotDirectory), Ok(failure(4)));
    let mut command = opened(4, &text("/file"));
    assert_eq!(command.handle(4, &Facts::Failed), Ok(failure(6)));
}

#[test]
fn get_directory_answers_the_name_at_the_index() {
    let fields = join(&[text("C:/data"), 1i32.to_le_bytes().to_vec()]);
    let mut command = opened(7, &fields);
    assert_eq!(command.handle(7, &data_listing()), Ok(success(&text("beta"))));
    let fields = join(&[text("C:/data"), 0i32.to_le_bytes().to_vec()]);
    let mut command = opened(7, &fields);
    assert_eq!(command.handle(7, &data_listing()), Ok(success(&text("alpha"))));
}

#[test]
fn get_directory_index_out_of_range() {
    for index in [2, 3, -1, i32::MAX] {
        let fields = join(&[text("C:/data"), index.to_le_bytes().to_vec()]);
        let mut command = opened(7, &fields);
        assert_eq!(
            GetDirectory(&mut command, &data_listing()),
            Err(HandlerError::Request(RequestError::IndexOutOfRange))
        );
        let mut command = opened(7, &fields);
        assert_eq!(command.handle(7, &data_listing()), Ok(failure(2)));
    }
}

#[test]
fn get_file_answers_the_name_at_the_index() {
    for (index, name) in ["one.bin", "two.bin", "three.bin", "four.bin", "five.bin"].iter().enumerate() {
        let fields = join(&[text("C:/data"), (index as i32).to_le_bytes().to_vec()]);
        let mut command = opened(5, &fields);
        assert_eq!(command.handle(5, &data_listing()), Ok(success(&text(name))));
    }
    let fields = join(&[text("C:/data"), 5i32.to_le_bytes().to_vec()]);
    let mut command = opened(5, &fields);
    assert_eq!(
        GetFile(&mut command, &data_listing()),
        Err(HandlerError::Request(RequestError::IndexOutOfRange))
    );
}

#[test]
fn get_file_with_a_name_beyond_the_basic_plane() {
    let facts = Facts::Entries(vec![entry("\u{1F600}.txt", EntryKind::File)]);
    let fields = join(&[text("/"), 0i32.to_le_bytes().to_vec()]);
    let mut command = opened(5, &fields);
    assert_eq!(command.handle(5, &facts), Ok(success(&text("\u{1F600}.txt"))));
}

#[test]
fn a_name_too_long_for_the_frame_overflows() {
    let facts = Facts::Entries(vec![entry(&"n".repeat(2043), EntryKind::Directory)]);
    let fields = join(&[text("/"), 0i32.to_le_bytes().to_vec()]);
    let mut command = opened(7, &fields);
    assert_eq!(
        GetDirectory(&mut command, &facts),
        Err(HandlerError::Protocol(ProtocolError::FrameOverflow))
    );
    let mut command = opened(7, &fields);
    assert_eq!(command.handle(7, &facts), Err(ProtocolError::FrameOverflow));
    let fits = Facts::Entries(vec![entry(&"n".repeat(2042), EntryKind::Directory)]);
    let mut command = opened(7, &fields);
    assert_eq!(command.handle(7, &fits), Ok(success(&text(&"n".repeat(2042)))));
}

#[test]
fn pick_without_an_index_is_malformed() {
    let mut command = opened(7, &text("C:/data"));
    assert_eq!(
        GetDirectory(&mut command, &data_listing()),
        Err(HandlerError::Protocol(ProtocolError::Malformed(CodecError::Truncated)))
    );
}

#[test]
fn stat_path_of_a_file() {
    let facts = Facts::Metadata(Metadata { is_directory: false, length: 12345 });
    let mut command = opened(3, &text("C:/data/one.bin"));
    let expected = join(&[1i32.to_le_bytes().to_vec(), 12345i64.to_le_bytes().to_vec()]);
    assert_eq!(command.handle(3, &facts), Ok(success(&expected)));
    let mut command = opened(3, &text("C:/data/one.bin"));
    assert_eq!(StatPath(&mut command, &facts), Ok(()));
    assert_eq!(command.response(), Ok(success(&expected)));
}

#[test]
fn stat_path_of_a_directory() {
    let facts = Facts::Metadata(Metadata { is_directory: true, length: 4096 });
    let mut command = opened(3, &text("C:/data"));
    let expected = join(&[2i32.to_le_bytes().to_vec(), 0i64.to_le_bytes().to_vec()]);
    assert_eq!(command.handle(3, &facts), Ok(success(&expected)));
}

#[test]
fn stat_path_of_nothing_is_not_found() {
    let mut command = opened(3, &text("C:/gone"));
    assert_eq!(
        StatPath(&mut command, &Facts::NotFound),
        Err(HandlerError::Request(RequestError::NotFound))
    );
    let mut command = opened(3, &text("C:/gone"));
    assert_eq!(command.handle(3, &Facts::NotFound), Ok(failure(3)));
}

#[test]
fn stat_path_of_a_length_beyond_the_field_overflows() {
    let facts = Facts::Metadata(Metadata { is_directory: false, length: i64::MAX as u64 + 1 });
    let mut command = opened(3, &text("/huge"));
    assert_eq!(
        StatPath(&mut command, &facts),
        Err(HandlerError::Request(RequestError::Overflow))
    );
    let mut command = opened(3, &text("/huge"));
    assert_eq!(command.handle(3, &facts), Ok(failure(5)));
    let facts = Facts::Metadata(Metadata { is_directory: false, length: i64::MAX as u64 });
    let mut command = opened(3, &text("/huge"));
    let expected = join(&[1i32.to_le_bytes().to_vec(), i64::MAX.to_le_bytes().to_vec()]);
    assert_eq!(command.handle(3, &facts), Ok(success(&expected)));
}

#[test]
fn path_stat_of_metadata() {
    assert_eq!(
        PathStat::of(Metadata { is_directory: false, length: 12345 }),
        Ok(PathStat { kind: 1, size: 12345 })
    );
    assert_eq!(
        PathStat::of(Metadata { is_directory: true, length: 12345 }),
        Ok(PathStat { kind: 2, size: 0 })
    );
    assert_eq!(
        PathStat::of(Metadata { is_directory: false, length: u64::MAX }),
        Err(RequestError::Overflow)
    );
    assert_eq!(
        PathStat::of(Metadata { is_directory: true, length: u64::MAX }),
        Ok(PathStat { kind: 2, size: 0 })
    );
    assert_eq!(KIND_FILE, 1);
    assert_eq!(KIND_DIRECTORY, 2);
}

#[test]
fn stat_path_with_a_malformed_path_is_dropped() {
    let facts = Facts::Metadata(Metadata { is_directory: false, length: 1 });
    let mut command = opened(3, &[2, 0, 0, 0, 0x3D, 0xD8, b'a', 0]);
    assert_eq!(
        StatPath(&mut command, &facts),
        Err(HandlerError::Protocol(ProtocolError::Malformed(CodecError::InvalidText)))
    );
    let mut command = opened(3, &[2, 0, 0, 0, 0x3D, 0xD8, b'a', 0]);
    assert_eq!(command.handle(3, &facts), Err(ProtocolError::Malformed(CodecError::InvalidText)));
}

#[test]
fn handlers_check_the_magic_number_themselves() {
    let mut frame = vec![0u8; 4];
    frame.extend_from_slice(&text("C:/data"));
    let mut command = Command::new(frame);
    assert_eq!(
        StatPath(&mut command, &Facts::NotFound),
        Err(HandlerError::Protocol(ProtocolError::BadMagic))
    );
}

#[test]
fn repeating_a_request_gives_the_same_response() {
    let stat = Facts::Metadata(Metadata { is_directory: false, length: 12345 });
    let mut first = opened(3, &text("C:/data/one.bin"));
    let mut second = opened(3, &text("C:/data/one.bin"));
    assert_eq!(first.handle(3, &stat), second.handle(3, &stat));
    let mut first = opened(1, &[]);
    let mut second = opened(1, &[]);
    assert_eq!(first.handle(1, &three_volumes()), second.handle(1, &three_volumes()));
}
