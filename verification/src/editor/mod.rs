//! Editor core: the document being edited, the editor state, and the
//! `Editor` that coordinates them.
//!
//! - `mod.rs`: core types, key notation, file-name handling
//! - `case_ops.rs`: the case operators over lines and ranges
//! - `editing.rs`: text editing methods with undo recording
//! - `ex_lines.rs`: the line-range ex commands
//! - `files.rs`: loading, saving and naming files, the argument list
//! - `history.rs`: applying undo and redo to the buffer
//! - `jumps.rs`: the jump list
//! - `movement.rs`: cursor movement and scrolling
//! - `preserve.rs`: preserve files: their names and their order
//! - `snapshot.rs`: the line snapshot and `U`
//! - `undo_laws.rs`: what undo and redo give back
//! - `keys.rs`: key encoding and case conversion helpers
//! - `mappings.rs`: key notation, `:map` and `:abbreviate`
//! - `yank_put.rs`: yank and delete into registers
//! - `put.rs`: putting register text back
//! - `reflow.rs`: re-wrapping a paragraph to a width

pub mod case_ops;
pub mod editing;
pub mod ex;
pub mod ex_lines;
pub mod files;
pub mod history;
pub mod insert;
pub mod jumps;
pub mod keys;
pub mod mappings;
pub mod mode_change;
pub mod normal;
pub mod operators;
pub mod put;
pub mod reflow;
pub mod replace;
pub mod movement;
pub mod preserve;
pub mod simple;
pub mod snapshot;
pub mod undo_laws;
pub mod visual;
pub mod visual_keys;
pub mod words;
pub mod yank_put;

use vstd::prelude::*;
use std::collections::{HashMap, VecDeque};
use crate::buffer::{Buffer, Cursor, Selection};
use crate::command::{ModeChangeKind, RepeatableChange};
use crate::file::LineEnding;
use crate::mode::Mode;
use crate::registers::Registers;
use crate::render::Viewport;
use crate::settings::Settings;
use crate::terminal::Key;
use crate::undo::UndoHistory;

verus! {

/// Maximum number of keys recorded during insert mode for dot repeat.
pub const MAX_INSERT_KEYS: usize = 10_000;

/// A message displayed on the status line.
#[derive(Debug)]
pub enum StatusMessage {
    /// An informational message.
    Info(String),
    /// An error message (rings the bell when `errorbells` is on).
    Error(String),
    /// A message about a file, rendered as `"<path>"<suffix>`.
    WithPath { path: String, suffix: String },
}

/// The plain text of a status message.
pub open spec fn status_text(m: StatusMessage) -> Seq<char> {
    match m {
        StatusMessage::Info(s) => s@,
        StatusMessage::Error(s) => s@,
        StatusMessage::WithPath { path, suffix } => seq!['"'] + path@ + seq!['"'] + suffix@,
    }
}

impl StatusMessage {
    /// Returns `true` if this is an error message.
    pub fn is_error(&self) -> (b: bool)
        ensures
            b == (*self is Error),
    {
        matches!(self, StatusMessage::Error(_))
    }

    /// The message text; for `WithPath`, `"<path>"<suffix>`.
    pub fn as_str_formatted(&self) -> (s: String)
        ensures
            s@ == status_text(*self),
    {
        match self {
            StatusMessage::Info(s) => s.clone(),
            StatusMessage::Error(s) => s.clone(),
            StatusMessage::WithPath { path, suffix } => {
                let mut s = String::new();
                crate::text::push_char(&mut s, '"');
                crate::text::append_str(&mut s, path.as_str());
                crate::text::push_char(&mut s, '"');
                crate::text::append_str(&mut s, suffix.as_str());
                s
            },
        }
    }
}

/// The content being edited.
#[derive(Debug)]
pub struct Document {
    /// The text buffer
    pub buffer: Buffer,
    /// Current cursor position
    pub cursor: Cursor,
    /// Current selection (if any)
    pub selection: Option<Selection>,
    /// File name (if opened from a file)
    pub filename: Option<String>,
    /// File path as provided by the user
    pub file_path: Option<String>,
    /// Whether the buffer has been modified since the last save or load
    pub modified: bool,
    /// Line ending detected in the file (preserved on save)
    pub line_ending: LineEnding,
}

impl Document {
    /// An empty, unnamed, unmodified document.
    pub fn new() -> (d: Document)
        ensures
            d.buffer.wf(),
            d.buffer@ == seq![Seq::<char>::empty()],
            d.cursor == (Cursor { row: 0, col: 0 }),
            d.selection is None,
            d.filename is None,
            d.file_path is None,
            !d.modified,
            d.line_ending == LineEnding::Lf,
    {
        Document {
            buffer: Buffer::new(),
            cursor: Cursor::new(0, 0),
            selection: None,
            filename: None,
            file_path: None,
            modified: false,
            line_ending: LineEnding::Lf,
        }
    }

    /// An unnamed, unmodified document holding `content`.
    pub fn from_string(content: String) -> (d: Document)
        ensures
            d.buffer.wf(),
            d.buffer@ == crate::buffer::text_lines(content@),
            d.cursor == (Cursor { row: 0, col: 0 }),
            d.selection is None,
            d.filename is None,
            d.file_path is None,
            !d.modified,
            d.line_ending == LineEnding::Lf,
    {
        Document {
            buffer: Buffer::from_string(content),
            cursor: Cursor::new(0, 0),
            selection: None,
            filename: None,
            file_path: None,
            modified: false,
            line_ending: LineEnding::Lf,
        }
    }
}

/// Macro recording and playback state.
#[derive(Debug)]
pub struct MacroState {
    /// The register being recorded into, if recording.
    pub recording: Option<char>,
    /// Keys recorded so far.
    pub buffer: Vec<Key>,
    /// Current playback nesting depth.
    pub playback_depth: usize,
    /// The register of the most recently played macro, for `@@`.
    pub last_macro: Option<char>,
}

/// Insert mode transient state.
#[derive(Debug)]
pub struct InsertState {
    /// Keys typed during the current insert session (for dot repeat).
    pub insert_keys: Vec<Key>,
    /// True while replaying a dot command.
    pub replaying_dot: bool,
    /// How the current insert session was entered, if applicable.
    pub insert_entry_kind: Option<ModeChangeKind>,
    /// The count the insert session was entered with.
    pub insert_count: usize,
    /// The next key is inserted literally (after Ctrl-V).
    pub insert_literal_next: bool,
    /// The next key names a register to insert (after Ctrl-R).
    pub insert_register_next: bool,
    /// Indent to use for the next Enter.
    pub saved_indent: Option<String>,
    /// Characters overwritten during a Replace session.
    pub replace_originals: Vec<Option<String>>,
    /// Rows and column for a visual-block insert.
    pub block_insert: Option<(usize, usize, usize)>,
}

impl InsertState {
    /// A fresh state: nothing recorded, no pending flags.
    pub fn new() -> (s: InsertState)
        ensures
            s.insert_keys@.len() == 0,
            !s.replaying_dot,
            s.insert_entry_kind is None,
            s.insert_count == 0,
            !s.insert_literal_next,
            !s.insert_register_next,
            s.saved_indent is None,
            s.replace_originals@.len() == 0,
            s.block_insert is None,
    {
        InsertState {
            insert_keys: Vec::new(),
            replaying_dot: false,
            insert_entry_kind: None,
            insert_count: 0,
            insert_literal_next: false,
            insert_register_next: false,
            saved_indent: None,
            replace_originals: Vec::new(),
            block_insert: None,
        }
    }

    /// Record `key` for dot repeat, unless a dot command is being replayed or
    /// the record is already full.
    pub fn maybe_record_key(&mut self, key: Key)
        ensures
            if !old(self).replaying_dot && old(self).insert_keys@.len() < MAX_INSERT_KEYS {
                final(self).insert_keys@ == old(self).insert_keys@.push(key)
            } else {
                final(self).insert_keys@ == old(self).insert_keys@
            },
            *final(self) == (InsertState { insert_keys: final(self).insert_keys, ..*old(self) }),
    {
        if !self.replaying_dot && self.insert_keys.len() < MAX_INSERT_KEYS {
            self.insert_keys.push(key);
        }
    }
}

/// Marks, jump list and the line snapshot for `U`.
#[derive(Debug)]
pub struct NavigationState {
    /// Marks set by `m{a-z}` and the visual marks `<` and `>`, keyed by
    /// the mark character's code point.
    pub marks: HashMap<u32, Cursor>,
    /// Cursor positions before major jumps, oldest first.
    pub jump_list: VecDeque<Cursor>,
    /// Position in the jump list, counted from the newest entry.
    pub jump_list_idx: usize,
    /// Cursor saved when first pressing Ctrl-O.
    pub jump_origin: Option<Cursor>,
    /// Row and content of the line when the cursor entered it.
    pub line_snapshot: Option<(usize, String)>,
}

/// File argument list navigation state.
#[derive(Debug)]
pub struct FileNavigation {
    /// The file names given on the command line.
    pub arg_list: Vec<String>,
    /// Index into `arg_list` of the file being edited.
    pub arg_idx: usize,
    /// Alternate file for Ctrl-^.
    pub alternate_file: Option<String>,
}

/// Key mappings and abbreviations.
#[derive(Debug)]
pub struct MappingsState {
    /// Normal-mode mappings: (lhs keys, rhs keys).
    pub normal_maps: Vec<(Vec<Key>, Vec<Key>)>,
    /// Insert-mode mappings: (lhs keys, rhs keys).
    pub insert_maps: Vec<(Vec<Key>, Vec<Key>)>,
    /// Insert-mode abbreviations: (lhs, rhs).
    pub abbreviations: Vec<(String, String)>,
    /// Keys buffered while resolving a multi-key mapping.
    pub map_pending: Vec<Key>,
    /// Current map-dispatch recursion depth.
    pub map_depth: usize,
}

/// Mode and the other transient editor state.
#[derive(Debug)]
pub struct EditorState {
    /// Current editing mode
    pub mode: Mode,
    /// The visible portion of the buffer
    pub viewport: Viewport,
    /// Whether the editor should quit
    pub should_quit: bool,
    /// Status message for the bottom line
    pub status_message: Option<StatusMessage>,
    /// Registers for yank, delete and put
    pub registers: Registers,
    /// Undo/redo history
    pub undo_history: UndoHistory,
    /// The last buffer-modifying command, for dot repeat
    pub last_change: Option<RepeatableChange>,
    /// Options controlled by `:set`
    pub settings: Settings,
    /// Anchor of the visual selection
    pub visual_anchor: Option<Cursor>,
    /// Ring the bell at the next render
    pub bell_pending: bool,
    /// Half-screen scroll size for Ctrl-D/Ctrl-U
    pub scroll_half_size: Option<usize>,
    /// Line range awaiting a filter command
    pub pending_filter_range: Option<(usize, usize)>,
    /// Macro recording and playback
    pub macro_state: MacroState,
    /// Insert mode transient state
    pub insert_state: InsertState,
    /// Jumps and the line snapshot
    pub navigation: NavigationState,
    /// Argument list navigation
    pub file_navigation: FileNavigation,
    /// Mappings and abbreviations
    pub mappings: MappingsState,
}

/// `s` is the state of a new session with a viewport of `height` rows and
/// `width` columns: normal mode, nothing recorded, stored or pending.
pub open spec fn fresh_state(s: EditorState, height: usize, width: usize) -> bool {
    &&& s.mode == Mode::Normal
    &&& s.viewport.spec_top() == 0
    &&& s.viewport.spec_height() == height
    &&& s.viewport.spec_width() == width
    &&& !s.should_quit
    &&& s.status_message is None
    &&& s.registers.wf()
    &&& forall|id| s.registers.spec_get(id) is None
    &&& s.undo_history.spec_undo().len() == 0
    &&& s.undo_history.spec_redo().len() == 0
    &&& s.undo_history.spec_current() is None
    &&& s.last_change is None
    &&& crate::settings::default_settings(s.settings)
    &&& s.visual_anchor is None
    &&& !s.bell_pending
    &&& s.scroll_half_size is None
    &&& s.pending_filter_range is None
    &&& s.macro_state.recording is None
    &&& s.macro_state.buffer@.len() == 0
    &&& s.macro_state.playback_depth == 0
    &&& s.macro_state.last_macro is None
    &&& s.insert_state.insert_keys@.len() == 0
    &&& !s.insert_state.replaying_dot
    &&& s.insert_state.insert_entry_kind is None
    &&& s.insert_state.insert_count == 0
    &&& !s.insert_state.insert_literal_next
    &&& !s.insert_state.insert_register_next
    &&& s.insert_state.saved_indent is None
    &&& s.insert_state.replace_originals@.len() == 0
    &&& s.insert_state.block_insert is None
    &&& s.navigation.marks@ == Map::<u32, Cursor>::empty()
    &&& s.navigation.jump_list@.len() == 0
    &&& s.navigation.jump_list_idx == 0
    &&& s.navigation.jump_origin is None
    &&& s.navigation.line_snapshot is None
    &&& s.file_navigation.arg_list@.len() == 0
    &&& s.file_navigation.arg_idx == 0
    &&& s.file_navigation.alternate_file is None
    &&& s.mappings.abbreviations@.len() == 0
    &&& s.mappings.normal_maps@.len() == 0
    &&& s.mappings.insert_maps@.len() == 0
    &&& s.mappings.map_pending@.len() == 0
    &&& s.mappings.map_depth == 0
}

impl EditorState {
    /// Fresh state for a viewport of the given size.
    pub fn new(viewport_height: usize, viewport_width: usize) -> (s: EditorState)
        ensures
            fresh_state(s, viewport_height, viewport_width),
    {
        EditorState {
            mode: Mode::Normal,
            viewport: Viewport::new(0, viewport_height, viewport_width),
            should_quit: false,
            status_message: None,
            registers: Registers::new(),
            undo_history: UndoHistory::new(),
            last_change: None,
            settings: Settings::default(),
            visual_anchor: None,
            bell_pending: false,
            scroll_half_size: None,
            pending_filter_range: None,
            macro_state: MacroState {
                recording: None,
                buffer: Vec::new(),
                playback_depth: 0,
                last_macro: None,
            },
            insert_state: InsertState::new(),
            navigation: NavigationState {
                marks: HashMap::new(),
                jump_list: VecDeque::new(),
                jump_list_idx: 0,
                jump_origin: None,
                line_snapshot: None,
            },
            file_navigation: FileNavigation {
                arg_list: Vec::new(),
                arg_idx: 0,
                alternate_file: None,
            },
            mappings: MappingsState {
                normal_maps: Vec::new(),
                insert_maps: Vec::new(),
                abbreviations: Vec::new(),
                map_pending: Vec::new(),
                map_depth: 0,
            },
        }
    }
}

/// The editor: a document and the state of the session.
#[derive(Debug)]
pub struct Editor {
    /// The document being edited
    pub document: Document,
    /// Editor state
    pub state: EditorState,
}

impl Editor {
    /// The invariants the editing commands rely on.
    pub open spec fn wf(&self) -> bool {
        self.document.buffer.wf() && self.state.registers.wf()
    }

    /// The cursor, if on an existing line, is at a character boundary of it.
    pub open spec fn cursor_ok(&self) -> bool {
        self.document.cursor.row < self.document.buffer@.len() ==> crate::buffer::position_error(
            self.document.buffer@,
            self.document.cursor.row,
            self.document.cursor.col,
        ) is None
    }

    /// An editor with an empty document and a viewport of the given size.
    pub fn new(viewport_height: usize, viewport_width: usize) -> (e: Editor)
        ensures
            e.wf(),
            e.document.buffer@ == seq![Seq::<char>::empty()],
            e.document.cursor == (Cursor { row: 0, col: 0 }),
            e.document.selection is None,
            e.document.filename is None,
            e.document.file_path is None,
            !e.document.modified,
            e.document.line_ending == LineEnding::Lf,
            fresh_state(e.state, viewport_height, viewport_width),
    {
        Editor { document: Document::new(), state: EditorState::new(viewport_height, viewport_width) }
    }

    /// An editor holding `content`, with a viewport of the given size.
    pub fn with_content(content: String, viewport_height: usize, viewport_width: usize) -> (e:
        Editor)
        ensures
            e.wf(),
            e.document.buffer@ == crate::buffer::text_lines(content@),
            e.document.cursor == (Cursor { row: 0, col: 0 }),
            fresh_state(e.state, viewport_height, viewport_width),
    {
        Editor {
            document: Document::from_string(content),
            state: EditorState::new(viewport_height, viewport_width),
        }
    }

    /// An editor holding `content` on a 24x80 terminal (23 text rows).
    pub fn for_testing(content: &str) -> (e: Editor)
        ensures
            e.wf(),
            e.document.buffer@ == crate::buffer::text_lines(content@),
            e.document.cursor == (Cursor { row: 0, col: 0 }),
            e.state.mode == Mode::Normal,
            e.state.viewport.spec_height() == 23,
            e.state.viewport.spec_top() == 0,
            e.state.status_message is None,
            e.state.file_navigation.arg_list@.len() == 0,
            e.document.selection is None,
            e.document.filename is None,
            e.document.file_path is None,
            !e.document.modified,
            e.document.line_ending == LineEnding::Lf,
            fresh_state(e.state, 23, 80),
    {
        Editor {
            document: Document::from_string(content.to_owned()),
            state: EditorState::new(23, 80),
        }
    }

    /// Set the read-only flag (the `-R` option).
    pub fn set_readonly(&mut self, value: bool)
        ensures
            final(self).state.settings.readonly == value,
            final(self).document == old(self).document,
    {
        self.state.settings.readonly = value;
    }
}

} // verus!
