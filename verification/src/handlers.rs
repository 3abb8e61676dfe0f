//! One handler for each command that the server answers. A handler reads the
//! fields of the request in their order on the wire, consults the facts that
//! the file system gave, starts the response and writes its fields.

pub mod get_directory;
pub mod get_directory_count;
pub mod get_drive_count;
pub mod get_drive_info;
pub mod get_file;
pub mod get_file_count;
pub mod stat_path;

pub use self::get_directory::GetDirectory;
pub use self::get_directory_count::GetDirectoryCount;
pub use self::get_drive_count::GetDriveCount;
pub use self::get_drive_info::GetDriveInfo;
pub use self::get_file::GetFile;
pub use self::get_file_count::GetFileCount;
pub use self::stat_path::StatPath;
