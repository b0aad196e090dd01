//! Descriptions of commands, as recorded for dot repeat.

use vstd::prelude::*;
use crate::mode::Operator;
use crate::terminal::Key;

verus! {

/// How insert mode was entered.
#[derive(Debug, Clone, Copy, PartialEq, Eq, Structural)]
pub enum ModeChangeKind {
    /// `i`
    InsertBeforeCursor,
    /// `a`
    InsertAfterCursor,
    /// `I`
    InsertAtFirstNonBlank,
    /// `A`
    InsertAtLineEnd,
    /// `o`
    OpenLineBelow,
    /// `O`
    OpenLineAbove,
    /// `R`
    ReplaceMode,
}

/// A cursor motion.
#[derive(Debug, Clone, Copy, PartialEq, Eq, Structural)]
pub enum Motion {
    /// `h`
    Left,
    /// `l`
    Right,
    /// `k`
    Up,
    /// `j`
    Down,
    /// `0`
    LineStart,
    /// `$`
    LineEnd,
    /// `^`
    FirstNonBlank,
    /// `w`
    WordForward,
    /// `b`
    WordBackward,
    /// `e`
    WordEnd,
    /// `gg`
    DocumentStart,
    /// `G`
    DocumentEnd,
    /// `{n}G`
    GotoLine(usize),
}

/// Inner or around text object.
#[derive(Debug, Clone, Copy, PartialEq, Eq, Structural)]
pub enum TextObjectKind {
    /// `i`
    Inner,
    /// `a`
    Around,
}

/// A text object.
#[derive(Debug, Clone, Copy, PartialEq, Eq, Structural)]
pub enum TextObject {
    /// `w`
    Word,
    /// `W`
    BigWord,
    /// `"`
    DoubleQuote,
    /// `'`
    SingleQuote,
    /// `(`
    Parenthesis,
    /// `[`
    Bracket,
    /// `{`
    Brace,
}

/// A simple (non-operator) command of normal mode.
#[derive(Debug, Clone, Copy, PartialEq, Eq, Structural)]
pub enum SimpleAction {
    /// `x`
    DeleteCharAtCursor,
    /// `X`
    DeleteCharBeforeCursor,
    /// `r{c}`
    ReplaceChar(char),
    /// `u`
    Undo,
    /// Ctrl-R
    Redo,
    /// `p`
    PutAfter,
    /// `P`
    PutBefore,
    /// `D`
    DeleteToEndOfLine,
    /// `C`
    ChangeToEndOfLine,
    /// `Y`, `yy`
    YankLine,
    /// `J`
    JoinLines,
    /// `gJ`
    JoinLinesNoSpace,
    /// `~`
    ToggleCase,
    /// `m{c}`
    SetMark(char),
    /// `'{c}` (to the line) or `` `{c} `` (to the position)
    JumpToMark { mark: char, line_start: bool },
    /// Ctrl-O
    JumpBack,
    /// Ctrl-I
    JumpForward,
    /// `q{c}`
    ToggleMacroRecord(char),
    /// `zt`
    ScrollCursorTop,
    /// `zz`
    ScrollCursorMiddle,
    /// `zb`
    ScrollCursorBottom,
    /// Ctrl-G
    ShowFileInfo,
    /// `U`
    UndoLine,
    /// `ZZ`
    WriteQuit,
    /// `ZQ`
    ForceQuit,
    /// Ctrl-^
    EditAlternateFile,
}

/// The last buffer-modifying command, for dot repeat.
#[derive(Debug, Clone, PartialEq, Eq)]
pub enum RepeatableChange {
    /// A simple command.
    SimpleAction { action: SimpleAction, register: Option<char>, count: usize },
    /// An operator applied over a motion.
    OperatorMotion {
        operator: Operator,
        motion: Motion,
        count: usize,
        register: Option<char>,
        insert_keys: Option<Vec<Key>>,
        linewise_self: bool,
    },
    /// An operator applied to a text object.
    OperatorTextObject {
        operator: Operator,
        kind: TextObjectKind,
        object: TextObject,
        count: usize,
        register: Option<char>,
        insert_keys: Option<Vec<Key>>,
    },
    /// An insert session: how it was entered and the keys typed.
    InsertSession { entry_kind: ModeChangeKind, typed_keys: Vec<Key>, count: usize },
}

} // verus!

verus! {

/// The lines an ex command applies to, as parsed (rows counted from 0).
#[derive(Debug, Clone, Copy, PartialEq, Eq, Structural)]
pub enum SubstituteRange {
    /// The cursor's line (no address given).
    CurrentLine,
    /// One line.
    Line(usize),
    /// The lines `start..=end`.
    Range { start: usize, end: usize },
    /// `%`: every line.
    WholeFile,
}

} // verus!
