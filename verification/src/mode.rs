//! Editing modes and related types.
//!
//! The current mode determines how key presses are interpreted.

use vstd::prelude::*;

verus! {

/// Operator type for operator-pending mode.
#[derive(Debug, Clone, Copy, PartialEq, Eq, Structural)]
pub enum Operator {
    /// Delete operator (d)
    Delete,
    /// Yank (copy) operator (y)
    Yank,
    /// Change operator (c)
    Change,
    /// Indent left operator (<)
    IndentLeft,
    /// Indent right operator (>)
    IndentRight,
    /// Format operator (gq)
    Format,
    /// Uppercase operator (gU)
    Uppercase,
    /// Lowercase operator (gu)
    Lowercase,
    /// Toggle case operator (g~)
    ToggleCase,
    /// Filter through external program (!)
    Filter,
}

/// Visual mode variant.
#[derive(Debug, Clone, Copy, PartialEq, Eq, Structural)]
pub enum VisualKind {
    /// Character-wise visual mode (v)
    Character,
    /// Line-wise visual mode (V)
    Line,
    /// Block-wise visual mode (Ctrl-V)
    Block,
}

/// Editor mode.
#[derive(Debug, Clone, Copy, PartialEq, Eq, Structural)]
pub enum Mode {
    /// Normal mode for navigation and commands.
    Normal,
    /// Insert mode for text entry.
    Insert,
    /// Replace mode for overwriting existing text.
    Replace,
    /// Operator-pending mode, waiting for a motion after an operator.
    OperatorPending(Operator),
    /// Visual selection mode.
    Visual(VisualKind),
    /// Command-line mode for `:` commands.
    CommandLine,
}

/// The status-line name of a mode.
pub open spec fn mode_name(m: Mode) -> Seq<char> {
    match m {
        Mode::Normal => "NORMAL"@,
        Mode::Insert => "INSERT"@,
        Mode::Replace => "REPLACE"@,
        Mode::OperatorPending(_) => "OP-PENDING"@,
        Mode::Visual(VisualKind::Character) => "VISUAL"@,
        Mode::Visual(VisualKind::Line) => "VISUAL LINE"@,
        Mode::Visual(VisualKind::Block) => "VISUAL BLOCK"@,
        Mode::CommandLine => "COMMAND"@,
    }
}

/// Modes in which the cursor may rest one past the last character.
pub open spec fn spec_allows_cursor_past_end(m: Mode) -> bool {
    m is Insert || m is Replace || m is CommandLine
}

impl Default for Mode {
    fn default() -> (m: Mode)
        ensures
            m == Mode::Normal,
    {
        Mode::Normal
    }
}

impl Mode {
    /// Get a display string for the mode.
    pub fn as_str(&self) -> (s: &'static str)
        ensures
            s@ == mode_name(*self),
    {
        match self {
            Mode::Normal => "NORMAL",
            Mode::Insert => "INSERT",
            Mode::Replace => "REPLACE",
            Mode::OperatorPending(_) => "OP-PENDING",
            Mode::Visual(kind) => match kind {
                VisualKind::Character => "VISUAL",
                VisualKind::Line => "VISUAL LINE",
                VisualKind::Block => "VISUAL BLOCK",
            },
            Mode::CommandLine => "COMMAND",
        }
    }

    /// Check if the mode is a visual mode variant.
    pub fn is_visual(&self) -> (b: bool)
        ensures
            b == (*self is Visual),
    {
        matches!(self, Mode::Visual(_))
    }

    /// Check if the mode allows the cursor past the end of the line.
    pub fn allows_cursor_past_end(&self) -> (b: bool)
        ensures
            b == spec_allows_cursor_past_end(*self),
    {
        matches!(self, Mode::Insert | Mode::Replace | Mode::CommandLine)
    }
}

/// The key character of an operator.
pub open spec fn operator_char(op: Operator) -> char {
    match op {
        Operator::Delete => 'd',
        Operator::Yank => 'y',
        Operator::Change => 'c',
        Operator::IndentLeft => '<',
        Operator::IndentRight => '>',
        Operator::Format => 'q',
        Operator::Uppercase => 'U',
        Operator::Lowercase => 'u',
        Operator::ToggleCase => '~',
        Operator::Filter => '!',
    }
}

impl Operator {
    /// Get the character representation of the operator.
    pub fn as_char(&self) -> (c: char)
        ensures
            c == operator_char(*self),
    {
        match self {
            Operator::Delete => 'd',
            Operator::Yank => 'y',
            Operator::Change => 'c',
            Operator::IndentLeft => '<',
            Operator::IndentRight => '>',
            Operator::Format => 'q',
            Operator::Uppercase => 'U',
            Operator::Lowercase => 'u',
            Operator::ToggleCase => '~',
            Operator::Filter => '!',
        }
    }

    /// Check if the operator enters insert mode after execution.
    pub fn enters_insert_mode(&self) -> (b: bool)
        ensures
            b == (*self is Change),
    {
        matches!(self, Operator::Change)
    }
}

impl VisualKind {
    /// Get the character that enters this visual mode.
    pub fn trigger_char(&self) -> (c: char)
        ensures
            c == (match *self {
                VisualKind::Character => 'v',
                VisualKind::Line => 'V',
                VisualKind::Block => '\x16',
            }),
    {
        match self {
            VisualKind::Character => 'v',
            VisualKind::Line => 'V',
            VisualKind::Block => '\x16',
        }
    }
}

} // verus!
