//! Editor options controlled by `:set`.

use vstd::prelude::*;

verus! {

/// The options the editing commands consult.
#[derive(Debug)]
pub struct Settings {
    /// Copy the indent of the current line to new lines.
    pub autoindent: bool,
    /// Columns per indent level for `>>`, `<<` and Ctrl-T/Ctrl-D.
    pub shiftwidth: usize,
    /// Display width of a tab.
    pub tabstop: usize,
    /// Insert spaces instead of tabs.
    pub expandtab: bool,
    /// Refuse to write the file without `!`.
    pub readonly: bool,
    /// Write the file before switching to another one.
    pub autowrite: bool,
    /// Directory for preserve (crash-recovery) files.
    pub directory: String,
    /// Ring the bell on errors.
    pub errorbells: bool,
    /// Read `.exrc` in the current directory at startup.
    pub exrc: bool,
    /// Wrap inserted text at this column (0 = off).
    pub textwidth: usize,
    /// Wrap inserted text this many columns before the right margin (0 = off).
    pub wrapmargin: usize,
    /// Ignore case in searches.
    pub ignorecase: bool,
    /// Suppress messages about changed lines.
    pub terse: bool,
    /// Report changes of at least this many lines.
    pub report: usize,
    /// Warn before a shell command when the document has unwritten changes.
    pub warn: bool,
}

/// `s` holds the default options.
pub open spec fn default_settings(s: Settings) -> bool {
    &&& !s.autoindent
    &&& s.shiftwidth == 8
    &&& s.tabstop == 8
    &&& !s.expandtab
    &&& !s.readonly
    &&& !s.autowrite
    &&& s.directory@ == "/tmp"@
    &&& !s.errorbells
    &&& !s.exrc
    &&& s.textwidth == 0
    &&& s.wrapmargin == 0
    &&& !s.ignorecase
    &&& !s.terse
    &&& s.report == 5
    &&& s.warn
}

impl Default for Settings {
    fn default() -> (s: Settings)
        ensures
            default_settings(s),
    {
        Settings {
            autoindent: false,
            shiftwidth: 8,
            tabstop: 8,
            expandtab: false,
            readonly: false,
            autowrite: false,
            directory: "/tmp".to_owned(),
            errorbells: false,
            exrc: false,
            textwidth: 0,
            wrapmargin: 0,
            ignorecase: false,
            terse: false,
            report: 5,
            warn: true,
        }
    }
}

} // verus!
