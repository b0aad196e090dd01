//! Error types for the editor.
//!
//! Each error type offers `to_string`, which renders the message shown to
//! the user.

use vstd::prelude::*;
use crate::text::{append_str, decimal, decimal_string, push_char};

verus! {

/// An operating-system I/O error, carried through unchanged.
#[verifier::external_type_specification]
#[verifier::external_body]
pub struct ExIoError(std::io::Error);

/// The text of an I/O error.
///
/// Trusted: the `Display` rendering of `std::io::Error`. It depends on the
/// operating system's error descriptions, so nothing is stated of it.
#[verifier::external_body]
fn io_error_text(e: &std::io::Error) -> String {
    e.to_string()
}

/// `prefix` followed by the rendering of `e`.
fn with_io_text(prefix: &str, e: &std::io::Error) -> (s: String)
    ensures
        s@.take(prefix@.len() as int) == prefix@,
{
    let mut s = String::new();
    append_str(&mut s, prefix);
    let t = io_error_text(e);
    append_str(&mut s, t.as_str());
    assert(s@.take(prefix@.len() as int) =~= prefix@);
    s
}

/// `prefix` followed by `body`.
fn prefixed(prefix: &str, body: &str) -> (s: String)
    ensures
        s@ == prefix@ + body@,
{
    let mut s = String::new();
    append_str(&mut s, prefix);
    append_str(&mut s, body);
    s
}

/// `prefix`, then `c`, then `suffix`.
fn around_char(prefix: &str, c: char, suffix: &str) -> (s: String)
    ensures
        s@ == prefix@.push(c) + suffix@,
{
    let mut s = String::new();
    append_str(&mut s, prefix);
    push_char(&mut s, c);
    append_str(&mut s, suffix);
    s
}

/// Terminal-related errors.
#[derive(Debug)]
pub enum TerminalError {
    /// Failed to enable raw mode
    RawModeEnable(std::io::Error),
    /// Failed to get terminal size
    GetSize(std::io::Error),
    /// Failed to read input
    ReadInput(std::io::Error),
    /// Failed to write output
    WriteOutput(std::io::Error),
}

impl TerminalError {
    /// The message of this error: a fixed description followed by the I/O error.
    pub fn to_string(&self) -> (s: String)
        ensures
            ({
                let p = match *self {
                    TerminalError::RawModeEnable(_) => "Failed to enable raw mode: "@,
                    TerminalError::GetSize(_) => "Failed to get terminal size: "@,
                    TerminalError::ReadInput(_) => "Failed to read input: "@,
                    TerminalError::WriteOutput(_) => "Failed to write output: "@,
                };
                s@.take(p.len() as int) == p
            }),
    {
        match self {
            TerminalError::RawModeEnable(e) => with_io_text("Failed to enable raw mode: ", e),
            TerminalError::GetSize(e) => with_io_text("Failed to get terminal size: ", e),
            TerminalError::ReadInput(e) => with_io_text("Failed to read input: ", e),
            TerminalError::WriteOutput(e) => with_io_text("Failed to write output: ", e),
        }
    }
}

/// Buffer-related errors.
#[derive(Debug, Clone, Copy, PartialEq, Eq, Structural)]
pub enum BufferError {
    /// Row index out of bounds
    RowOutOfBounds {
        /// The requested row
        row: usize,
        /// The buffer length
        len: usize,
    },
    /// Column (byte offset) out of bounds
    ColOutOfBounds {
        /// The requested column
        col: usize,
        /// The line length
        len: usize,
    },
    /// Invalid byte offset (not at character boundary)
    InvalidByteOffset {
        /// The invalid column
        col: usize,
    },
    /// Invalid cursor position
    InvalidCursor {
        /// The row
        row: usize,
        /// The column
        col: usize,
    },
}

/// The message of a buffer error.
pub open spec fn buffer_error_message(e: BufferError) -> Seq<char> {
    match e {
        BufferError::RowOutOfBounds { row, len } => "Row "@ + decimal(row as nat)
            + " out of bounds (buffer has "@ + decimal(len as nat) + " lines)"@,
        BufferError::ColOutOfBounds { col, len } => "Column "@ + decimal(col as nat)
            + " out of bounds (line has "@ + decimal(len as nat) + " bytes)"@,
        BufferError::InvalidByteOffset { col } => "Column "@ + decimal(col as nat)
            + " is not a valid UTF-8 byte boundary"@,
        BufferError::InvalidCursor { row, col } => "Invalid cursor position: row "@ + decimal(
            row as nat,
        ) + ", col "@ + decimal(col as nat),
    }
}

/// `a`, the decimal form of `x`, `b`, the decimal form of `y`, then `c`.
fn two_numbers(a: &str, x: usize, b: &str, y: usize, c: &str) -> (s: String)
    ensures
        s@ == a@ + decimal(x as nat) + b@ + decimal(y as nat) + c@,
{
    let mut s = String::new();
    append_str(&mut s, a);
    let dx = decimal_string(x);
    append_str(&mut s, dx.as_str());
    append_str(&mut s, b);
    let dy = decimal_string(y);
    append_str(&mut s, dy.as_str());
    append_str(&mut s, c);
    s
}

impl BufferError {
    /// The message of this error.
    pub fn to_string(&self) -> (s: String)
        ensures
            s@ == buffer_error_message(*self),
    {
        match self {
            BufferError::RowOutOfBounds { row, len } => two_numbers(
                "Row ",
                *row,
                " out of bounds (buffer has ",
                *len,
                " lines)",
            ),
            BufferError::ColOutOfBounds { col, len } => two_numbers(
                "Column ",
                *col,
                " out of bounds (line has ",
                *len,
                " bytes)",
            ),
            BufferError::InvalidByteOffset { col } => {
                let mut s = String::new();
                append_str(&mut s, "Column ");
                let d = decimal_string(*col);
                append_str(&mut s, d.as_str());
                append_str(&mut s, " is not a valid UTF-8 byte boundary");
                s
            },
            BufferError::InvalidCursor { row, col } => {
                let mut s = String::new();
                append_str(&mut s, "Invalid cursor position: row ");
                let dr = decimal_string(*row);
                append_str(&mut s, dr.as_str());
                append_str(&mut s, ", col ");
                let dc = decimal_string(*col);
                append_str(&mut s, dc.as_str());
                s
            },
        }
    }
}

/// Render-related errors.
#[derive(Debug)]
pub enum RenderError {
    /// Failed to render to terminal
    RenderFailed(std::io::Error),
    /// Failed to position cursor
    CursorPosition(std::io::Error),
}

impl RenderError {
    /// The message of this error: a fixed description followed by the I/O error.
    pub fn to_string(&self) -> (s: String)
        ensures
            ({
                let p = match *self {
                    RenderError::RenderFailed(_) => "Failed to render: "@,
                    RenderError::CursorPosition(_) => "Failed to position cursor: "@,
                };
                s@.take(p.len() as int) == p
            }),
    {
        match self {
            RenderError::RenderFailed(e) => with_io_text("Failed to render: ", e),
            RenderError::CursorPosition(e) => with_io_text("Failed to position cursor: ", e),
        }
    }
}

/// Command-related errors.
#[derive(Debug, PartialEq, Eq)]
pub enum CommandError {
    /// Unknown command
    Unknown(String),
    /// Invalid motion
    InvalidMotion,
    /// Invalid count
    InvalidCount,
    /// Invalid text object
    InvalidTextObject,
    /// Command cancelled
    Cancelled,
}

/// The message of a command error.
pub open spec fn command_error_message(e: CommandError) -> Seq<char> {
    match e {
        CommandError::Unknown(s) => "Unknown command: "@ + s@,
        CommandError::InvalidMotion => "Invalid motion"@,
        CommandError::InvalidCount => "Invalid count"@,
        CommandError::InvalidTextObject => "Invalid text object"@,
        CommandError::Cancelled => "Command cancelled"@,
    }
}

impl CommandError {
    /// The message of this error.
    pub fn to_string(&self) -> (s: String)
        ensures
            s@ == command_error_message(*self),
    {
        match self {
            CommandError::Unknown(c) => prefixed("Unknown command: ", c.as_str()),
            CommandError::InvalidMotion => "Invalid motion".to_owned(),
            CommandError::InvalidCount => "Invalid count".to_owned(),
            CommandError::InvalidTextObject => "Invalid text object".to_owned(),
            CommandError::Cancelled => "Command cancelled".to_owned(),
        }
    }
}

/// File-related errors.
#[derive(Debug)]
pub enum FileError {
    /// File not found
    NotFound(String),
    /// Permission denied
    PermissionDenied(String),
    /// I/O error during file operation
    Io(std::io::Error),
    /// File is read-only
    ReadOnly(String),
    /// File modified since last read
    Modified(String),
    /// Encoding error (not valid UTF-8)
    EncodingError(String),
}

/// The message of a file error that carries a text.
pub open spec fn file_error_message(e: FileError) -> Seq<char> {
    match e {
        FileError::NotFound(s) => "File not found: "@ + s@,
        FileError::PermissionDenied(s) => "Permission denied: "@ + s@,
        FileError::Io(_) => "I/O error: "@,
        FileError::ReadOnly(s) => "File is read-only: "@ + s@,
        FileError::Modified(s) => "File modified since last read: "@ + s@,
        FileError::EncodingError(s) => "Encoding error: "@ + s@,
    }
}

impl FileError {
    /// The message of this error (for `Io`, the prefix is followed by the I/O error).
    pub fn to_string(&self) -> (s: String)
        ensures
            !(*self is Io) ==> s@ == file_error_message(*self),
            *self is Io ==> s@.take(file_error_message(*self).len() as int)
                == file_error_message(*self),
    {
        match self {
            FileError::NotFound(p) => prefixed("File not found: ", p.as_str()),
            FileError::PermissionDenied(p) => prefixed("Permission denied: ", p.as_str()),
            FileError::Io(e) => with_io_text("I/O error: ", e),
            FileError::ReadOnly(p) => prefixed("File is read-only: ", p.as_str()),
            FileError::Modified(p) => prefixed("File modified since last read: ", p.as_str()),
            FileError::EncodingError(p) => prefixed("Encoding error: ", p.as_str()),
        }
    }
}

/// Search-related errors.
#[derive(Debug, PartialEq, Eq)]
pub enum SearchError {
    /// Invalid search pattern
    InvalidPattern(String),
    /// Pattern not found
    NotFound,
    /// Regex compilation error
    RegexError(String),
    /// Search wrapped around
    Wrapped,
    /// Substitute range out of bounds
    InvalidRange,
}

/// The message of a search error.
pub open spec fn search_error_message(e: SearchError) -> Seq<char> {
    match e {
        SearchError::InvalidPattern(s) => "Invalid pattern: "@ + s@,
        SearchError::NotFound => "Pattern not found"@,
        SearchError::RegexError(s) => "Regex error: "@ + s@,
        SearchError::Wrapped => "Search wrapped"@,
        SearchError::InvalidRange => "Invalid range"@,
    }
}

impl SearchError {
    /// The message of this error.
    pub fn to_string(&self) -> (s: String)
        ensures
            s@ == search_error_message(*self),
    {
        match self {
            SearchError::InvalidPattern(p) => prefixed("Invalid pattern: ", p.as_str()),
            SearchError::NotFound => "Pattern not found".to_owned(),
            SearchError::RegexError(p) => prefixed("Regex error: ", p.as_str()),
            SearchError::Wrapped => "Search wrapped".to_owned(),
            SearchError::InvalidRange => "Invalid range".to_owned(),
        }
    }
}

/// Settings-related errors.
#[derive(Debug, PartialEq, Eq)]
pub enum SettingsError {
    /// Invalid option name
    InvalidOption(String),
    /// Invalid option value
    InvalidValue {
        /// The option name
        option: String,
        /// The invalid value
        value: String,
    },
    /// Option is read-only
    ReadOnly(String),
}

/// The message of a settings error.
pub open spec fn settings_error_message(e: SettingsError) -> Seq<char> {
    match e {
        SettingsError::InvalidOption(s) => "Invalid option: "@ + s@,
        SettingsError::InvalidValue { option, value } => "Invalid value for option '"@
            + option@ + "': "@ + value@,
        SettingsError::ReadOnly(s) => "Option is read-only: "@ + s@,
    }
}

impl SettingsError {
    /// The message of this error.
    pub fn to_string(&self) -> (s: String)
        ensures
            s@ == settings_error_message(*self),
    {
        match self {
            SettingsError::InvalidOption(o) => prefixed("Invalid option: ", o.as_str()),
            SettingsError::InvalidValue { option, value } => {
                let mut s = String::new();
                append_str(&mut s, "Invalid value for option '");
                append_str(&mut s, option.as_str());
                append_str(&mut s, "': ");
                append_str(&mut s, value.as_str());
                s
            },
            SettingsError::ReadOnly(o) => prefixed("Option is read-only: ", o.as_str()),
        }
    }
}

/// Undo/redo errors.
#[derive(Debug, Clone, Copy, PartialEq, Eq, Structural)]
pub enum UndoError {
    /// Nothing to undo
    NothingToUndo,
    /// Nothing to redo
    NothingToRedo,
    /// Undo history corrupted
    Corrupted,
}

/// The message of an undo error.
pub open spec fn undo_error_message(e: UndoError) -> Seq<char> {
    match e {
        UndoError::NothingToUndo => "Nothing to undo"@,
        UndoError::NothingToRedo => "Nothing to redo"@,
        UndoError::Corrupted => "Undo history corrupted"@,
    }
}

impl UndoError {
    /// The message of this error.
    pub fn to_string(&self) -> (s: String)
        ensures
            s@ == undo_error_message(*self),
    {
        match self {
            UndoError::NothingToUndo => "Nothing to undo".to_owned(),
            UndoError::NothingToRedo => "Nothing to redo".to_owned(),
            UndoError::Corrupted => "Undo history corrupted".to_owned(),
        }
    }
}

/// Register-related errors.
#[derive(Debug, Clone, Copy, PartialEq, Eq, Structural)]
pub enum RegisterError {
    /// Invalid register character
    InvalidRegister(char),
    /// Register is empty
    EmptyRegister(char),
    /// Cannot write to read-only register
    ReadOnlyRegister(char),
}

/// The message of a register error.
pub open spec fn register_error_message(e: RegisterError) -> Seq<char> {
    match e {
        RegisterError::InvalidRegister(c) => "Invalid register: '"@.push(c) + "'"@,
        RegisterError::EmptyRegister(c) => "Register '"@.push(c) + "' is empty"@,
        RegisterError::ReadOnlyRegister(c) => "Cannot write to read-only register: '"@.push(c)
            + "'"@,
    }
}

impl RegisterError {
    /// The message of this error.
    pub fn to_string(&self) -> (s: String)
        ensures
            s@ == register_error_message(*self),
    {
        match self {
            RegisterError::InvalidRegister(c) => around_char("Invalid register: '", *c, "'"),
            RegisterError::EmptyRegister(c) => around_char("Register '", *c, "' is empty"),
            RegisterError::ReadOnlyRegister(c) => around_char(
                "Cannot write to read-only register: '",
                *c,
                "'",
            ),
        }
    }
}

/// Main error type for the editor.
#[derive(Debug)]
pub enum Error {
    /// Terminal-related errors
    Terminal(TerminalError),
    /// Buffer-related errors
    Buffer(BufferError),
    /// Render-related errors
    Render(RenderError),
    /// Command-related errors
    Command(CommandError),
    /// File-related errors
    File(FileError),
    /// Search-related errors
    Search(SearchError),
    /// Settings-related errors
    Settings(SettingsError),
    /// Undo/redo errors
    Undo(UndoError),
    /// Register-related errors
    Register(RegisterError),
    /// I/O errors
    Io(std::io::Error),
}

impl Error {
    /// The message of this error: that of the wrapped error (for `Io`, a prefix
    /// followed by the I/O error).
    pub fn to_string(&self) -> (s: String)
        ensures
            *self matches Error::Buffer(e) ==> s@ == buffer_error_message(e),
            *self matches Error::Command(e) ==> s@ == command_error_message(e),
            *self matches Error::Search(e) ==> s@ == search_error_message(e),
            *self matches Error::Settings(e) ==> s@ == settings_error_message(e),
            *self matches Error::Undo(e) ==> s@ == undo_error_message(e),
            *self matches Error::Register(e) ==> s@ == register_error_message(e),
            *self matches Error::File(e) ==> !(e is Io) ==> s@ == file_error_message(e),
            *self is Io ==> s@.take("I/O error: "@.len() as int) == "I/O error: "@,
    {
        match self {
            Error::Terminal(e) => e.to_string(),
            Error::Buffer(e) => e.to_string(),
            Error::Render(e) => e.to_string(),
            Error::Command(e) => e.to_string(),
            Error::File(e) => e.to_string(),
            Error::Search(e) => e.to_string(),
            Error::Settings(e) => e.to_string(),
            Error::Undo(e) => e.to_string(),
            Error::Register(e) => e.to_string(),
            Error::Io(e) => with_io_text("I/O error: ", e),
        }
    }
}

impl From<TerminalError> for Error {
    fn from(e: TerminalError) -> (r: Error) {
        Error::Terminal(e)
    }
}

impl vstd::std_specs::convert::FromSpecImpl<TerminalError> for Error {
    open spec fn obeys_from_spec() -> bool {
        true
    }

    open spec fn from_spec(e: TerminalError) -> Error {
        Error::Terminal(e)
    }
}

impl From<BufferError> for Error {
    fn from(e: BufferError) -> (r: Error) {
        Error::Buffer(e)
    }
}

impl vstd::std_specs::convert::FromSpecImpl<BufferError> for Error {
    open spec fn obeys_from_spec() -> bool {
        true
    }

    open spec fn from_spec(e: BufferError) -> Error {
        Error::Buffer(e)
    }
}

impl From<RenderError> for Error {
    fn from(e: RenderError) -> (r: Error) {
        Error::Render(e)
    }
}

impl vstd::std_specs::convert::FromSpecImpl<RenderError> for Error {
    open spec fn obeys_from_spec() -> bool {
        true
    }

    open spec fn from_spec(e: RenderError) -> Error {
        Error::Render(e)
    }
}

impl From<CommandError> for Error {
    fn from(e: CommandError) -> (r: Error) {
        Error::Command(e)
    }
}

impl vstd::std_specs::convert::FromSpecImpl<CommandError> for Error {
    open spec fn obeys_from_spec() -> bool {
        true
    }

    open spec fn from_spec(e: CommandError) -> Error {
        Error::Command(e)
    }
}

impl From<FileError> for Error {
    fn from(e: FileError) -> (r: Error) {
        Error::File(e)
    }
}

impl vstd::std_specs::convert::FromSpecImpl<FileError> for Error {
    open spec fn obeys_from_spec() -> bool {
        true
    }

    open spec fn from_spec(e: FileError) -> Error {
        Error::File(e)
    }
}

impl From<SearchError> for Error {
    fn from(e: SearchError) -> (r: Error) {
        Error::Search(e)
    }
}

impl vstd::std_specs::convert::FromSpecImpl<SearchError> for Error {
    open spec fn obeys_from_spec() -> bool {
        true
    }

    open spec fn from_spec(e: SearchError) -> Error {
        Error::Search(e)
    }
}

impl From<SettingsError> for Error {
    fn from(e: SettingsError) -> (r: Error) {
        Error::Settings(e)
    }
}

impl vstd::std_specs::convert::FromSpecImpl<SettingsError> for Error {
    open spec fn obeys_from_spec() -> bool {
        true
    }

    open spec fn from_spec(e: SettingsError) -> Error {
        Error::Settings(e)
    }
}

impl From<UndoError> for Error {
    fn from(e: UndoError) -> (r: Error) {
        Error::Undo(e)
    }
}

impl vstd::std_specs::convert::FromSpecImpl<UndoError> for Error {
    open spec fn obeys_from_spec() -> bool {
        true
    }

    open spec fn from_spec(e: UndoError) -> Error {
        Error::Undo(e)
    }
}

impl From<RegisterError> for Error {
    fn from(e: RegisterError) -> (r: Error) {
        Error::Register(e)
    }
}

impl vstd::std_specs::convert::FromSpecImpl<RegisterError> for Error {
    open spec fn obeys_from_spec() -> bool {
        true
    }

    open spec fn from_spec(e: RegisterError) -> Error {
        Error::Register(e)
    }
}

impl From<std::io::Error> for Error {
    fn from(e: std::io::Error) -> (r: Error) {
        Error::Io(e)
    }
}

impl vstd::std_specs::convert::FromSpecImpl<std::io::Error> for Error {
    open spec fn obeys_from_spec() -> bool {
        true
    }

    open spec fn from_spec(e: std::io::Error) -> Error {
        Error::Io(e)
    }
}

} // verus!
