use rvi::error::{
    BufferError, CommandError, Error, FileError, RegisterError, SearchError, SettingsError,
    TerminalError, UndoError,
};

#[test]
fn test_buffer_error_display() {
    let err = BufferError::RowOutOfBounds { row: 10, len: 5 };
    assert_eq!(err.to_string(), "Row 10 out of bounds (buffer has 5 lines)");
}

#[test]
fn test_error_from_buffer_error() {
    let buf_err = BufferError::RowOutOfBounds { row: 10, len: 5 };
    let err: Error = buf_err.into();
    assert!(matches!(err, Error::Buffer(_)));
}

#[test]
fn test_terminal_error_display() {
    let io_err = std::io::Error::other("test");
    let err = TerminalError::RawModeEnable(io_err);
    assert!(err.to_string().contains("Failed to enable raw mode"));
}

#[test]
fn test_command_error_display() {
    let err = CommandError::Unknown("foo".to_string());
    assert_eq!(err.to_string(), "Unknown command: foo");

    let err = CommandError::InvalidMotion;
    assert_eq!(err.to_string(), "Invalid motion");
}

#[test]
fn test_file_error_display() {
    let err = FileError::NotFound("/tmp/test.txt".to_string());
    assert_eq!(err.to_string(), "File not found: /tmp/test.txt");

    let err = FileError::PermissionDenied("/etc/passwd".to_string());
    assert_eq!(err.to_string(), "Permission denied: /etc/passwd");
}

#[test]
fn test_file_error_encoding_display() {
    let err = FileError::EncodingError("test.bin: invalid UTF-8 at byte offset 5".to_string());
    assert_eq!(err.to_string(), "Encoding error: test.bin: invalid UTF-8 at byte offset 5");
}

#[test]
fn test_search_error_display() {
    let err = SearchError::InvalidPattern("(unclosed".to_string());
    assert_eq!(err.to_string(), "Invalid pattern: (unclosed");

    let err = SearchError::NotFound;
    assert_eq!(err.to_string(), "Pattern not found");

    let err = SearchError::InvalidRange;
    assert_eq!(err.to_string(), "Invalid range");
}

#[test]
fn test_settings_error_display() {
    let err = SettingsError::InvalidOption("foo".to_string());
    assert_eq!(err.to_string(), "Invalid option: foo");

    let err = SettingsError::InvalidValue { option: "tabstop".to_string(), value: "abc".to_string() };
    assert_eq!(err.to_string(), "Invalid value for option 'tabstop': abc");
}

#[test]
fn test_undo_error_display() {
    let err = UndoError::NothingToUndo;
    assert_eq!(err.to_string(), "Nothing to undo");

    let err = UndoError::NothingToRedo;
    assert_eq!(err.to_string(), "Nothing to redo");
}

#[test]
fn test_register_error_display() {
    let err = RegisterError::InvalidRegister('!');
    assert_eq!(err.to_string(), "Invalid register: '!'");

    let err = RegisterError::EmptyRegister('a');
    assert_eq!(err.to_string(), "Register 'a' is empty");

    let err = RegisterError::ReadOnlyRegister(':');
    assert_eq!(err.to_string(), "Cannot write to read-only register: ':'");
}

#[test]
fn test_error_from_command_error() {
    let cmd_err = CommandError::InvalidMotion;
    let err: Error = cmd_err.into();
    assert!(matches!(err, Error::Command(_)));
}

#[test]
fn test_error_from_file_error() {
    let file_err = FileError::NotFound("test.txt".to_string());
    let err: Error = file_err.into();
    assert!(matches!(err, Error::File(_)));
}

#[test]
fn test_error_from_search_error() {
    let search_err = SearchError::NotFound;
    let err: Error = search_err.into();
    assert!(matches!(err, Error::Search(_)));
}

#[test]
fn test_error_from_settings_error() {
    let settings_err = SettingsError::InvalidOption("foo".to_string());
    let err: Error = settings_err.into();
    assert!(matches!(err, Error::Settings(_)));
}

#[test]
fn test_error_from_undo_error() {
    let undo_err = UndoError::NothingToUndo;
    let err: Error = undo_err.into();
    assert!(matches!(err, Error::Undo(_)));
}

#[test]
fn test_error_from_register_error() {
    let reg_err = RegisterError::InvalidRegister('!');
    let err: Error = reg_err.into();
    assert!(matches!(err, Error::Register(_)));
}

#[test]
fn buffer_error_messages() {
    assert_eq!(
        BufferError::ColOutOfBounds { col: 7, len: 3 }.to_string(),
        "Column 7 out of bounds (line has 3 bytes)"
    );
    let e: Error = BufferError::InvalidCursor { row: 1, col: 2 }.into();
    assert!(e.to_string().contains("1"));
}
