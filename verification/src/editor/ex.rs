//! Ex commands (`:w`, `:q`, `:e`, `:d`, `:m`, `:map`, ...): what one
//! parsed command does to the editor, and what it leaves for the caller
//! (writes, reads, shell commands) to perform.

use vstd::prelude::*;
use crate::command::SubstituteRange;
use crate::editor::ex_lines::{
    copy_ok, ex_copied, ex_deleted, ex_lines_joined, ex_listed, ex_moved, ex_numbered, ex_printed,
    ex_put_done, ex_yanked, failed_with, join_ok, move_ok,
};
use crate::editor::files::{expand, opt_view, read_only_message, ArgStep, SaveRequest};
use crate::editor::jumps::jump_pushed;
use crate::editor::mappings::{abbreviated, abbreviations_shown, mapped, maps_shown, unabbreviated, unmapped};
use crate::editor::movement::at_first_non_blank;
use crate::editor::{Document, Editor, EditorState, NavigationState, StatusMessage};
use crate::error::Error;
use crate::file::writer::file_text;
use crate::render::top_showing;
use crate::text::decimal;

verus! {

broadcast use vstd::std_specs::hash::group_hash_axioms;

/// A parsed ex command.
#[derive(Debug, Clone)]
pub enum ExCommand {
    /// `:w`
    Write,
    /// `:w!`
    ForceWrite,
    /// `:w {file}`
    WriteAs(String),
    /// `:w! {file}`
    ForceWriteAs(String),
    /// `:q`
    Quit,
    /// `:q!`
    ForceQuit,
    /// `:wq`
    WriteQuit,
    /// `:wq!`
    ForceWriteQuit,
    /// `:wq {file}`
    WriteQuitAs(String),
    /// `:x`
    WriteQuitIfModified,
    /// `:e {file}`
    Edit(String),
    /// `:e!`
    ForceEdit,
    /// `:{n}`
    GotoLine(usize),
    /// `:!{cmd}`
    Shell(String),
    /// `:r {file}`
    ReadFile(String),
    /// `:=` (the row, 0-based)
    PrintLineNumber(usize),
    /// `:[range]d [x]`
    DeleteLines { range: SubstituteRange, register: Option<char> },
    /// `:[range]y [x]`
    YankLines { range: SubstituteRange, register: Option<char> },
    /// `:[line]pu [x]`
    Put { after_row: usize, register: Option<char> },
    /// `:[range]m {dest}`
    MoveLines { range: SubstituteRange, dest: usize },
    /// `:[range]t {dest}`
    CopyLines { range: SubstituteRange, dest: usize },
    /// `:[range]j`
    JoinLines { range: SubstituteRange },
    /// `:n [file]`
    NextFile(Option<String>),
    /// `:N`
    PrevFile,
    /// `:args`
    ShowArgs,
    /// `:rew`
    RewindArgs,
    /// `:r !{cmd}`
    ReadShellCommand { cmd: String },
    /// `:[range]p`
    PrintLines { range: SubstituteRange },
    /// `:[range]nu`
    PrintNumberedLines { range: SubstituteRange },
    /// `:[range]l`
    PrintListLines { range: SubstituteRange },
    /// `:map` / `:map!`
    MapKeys { insert_mode: bool, lhs: String, rhs: String },
    /// `:unmap` / `:unmap!`
    Unmap { insert_mode: bool, lhs: String },
    /// `:map` / `:map!` alone
    ShowMaps { insert_mode: bool },
    /// `:ab {lhs} {rhs}`
    Abbreviate { lhs: String, rhs: String },
    /// `:una {lhs}`
    Unabbreviate { lhs: String },
    /// `:ab` alone
    ShowAbbreviations,
    /// `:sh`
    ShellInteractive,
    /// `:cd {dir}`
    ChangeDir(String),
    /// `:so {file}`
    Source(String),
    /// `:k{c}` / `:mark {c}`
    SetMark(char),
    /// `:st` / `:sus`
    Suspend,
    /// `:ve`
    Version,
    /// `:vi` (leaves ex mode)
    Visual,
    /// `:pre`
    Preserve,
    /// `:rec [file]`
    Recover(Option<String>),
}

/// What to do once a write asked for by an ex command succeeded.
#[derive(Debug, Clone, Copy, PartialEq, Eq, Structural)]
pub enum AfterWrite {
    /// Nothing more.
    Stay,
    /// Quit the editor.
    Quit,
    /// Run the same command again (it was held back by the unwritten change).
    Retry,
}

/// What an ex command leaves for the caller.
#[derive(Debug)]
pub enum ExOutcome {
    /// The command is done.
    Done,
    /// Make the write `req` (then `finish_save`); if it succeeded, do `then`.
    Write { req: SaveRequest, then: AfterWrite },
    /// Read the file `path` and open it (`open_file`); `prev` becomes the
    /// alternate file.
    Open { path: String, prev: Option<String> },
    /// Read the file `path` and open it (`open_file`), the alternate file
    /// staying as it is.
    Load { path: String },
    /// Move in the argument list as the step says.
    Args(ArgStep),
    /// Perform the command, which needs the file system, a shell or the
    /// terminal (its file names already expanded).
    Run(ExCommand),
}

/// `No write since last change (add ! to override)`.
pub open spec fn not_written_message() -> Seq<char> {
    "No write since last change (add ! to override)"@
}

/// `e2` is `e` with the status message `Info(msg)`.
pub open spec fn informed(e: Editor, e2: Editor, msg: Seq<char>) -> bool {
    &&& e2.document == e.document
    &&& e2.state == (EditorState { status_message: e2.state.status_message, ..e.state })
    &&& e2.state.status_message matches Some(StatusMessage::Info(s)) && s@ == msg
}

/// Writing the document to its own file (`force`: regardless of
/// `readonly`), then doing `then`: the write handed out in `r`, or the
/// refusal shown in `e2`.
pub open spec fn write_to_file(e: Editor, e2: Editor, r: ExOutcome, then: AfterWrite, force: bool) -> bool {
    if !force && e.state.settings.readonly {
        failed_with(e, e2, "File is read-only: "@ + read_only_message()) && r is Done
    } else {
        match e.document.file_path {
            None => failed_with(e, e2, "File not found: "@ + "No filename"@) && r is Done,
            Some(p) => {
                &&& e2 == e
                &&& r matches ExOutcome::Write { req, then: t }
                &&& t == then
                &&& req.path@ == p@
                &&& !req.rename
                &&& req.content@ == file_text(e.document.buffer@, e.document.line_ending)
            },
        }
    }
}

/// Writing the document to the file named by `arg` (`%` and `#` expanded),
/// then doing `then`.
pub open spec fn write_to_name(e: Editor, e2: Editor, r: ExOutcome, arg: Seq<char>, then: AfterWrite, force: bool) -> bool {
    match expand(arg, opt_view(e.document.filename), opt_view(e.state.file_navigation.alternate_file)) {
        Err(m) => failed_with(e, e2, m) && r is Done,
        Ok(path) => if !force && e.state.settings.readonly {
            failed_with(e, e2, "File is read-only: "@ + read_only_message()) && r is Done
        } else {
            &&& e2 == e
            &&& r matches ExOutcome::Write { req, then: t }
            &&& t == then
            &&& req.path@ == path
            &&& req.rename
            &&& req.content@ == file_text(e.document.buffer@, e.document.line_ending)
        },
    }
}

/// A command that must not drop an unwritten change: with `autowrite` on,
/// the write first (then the command again); without it, the refusal;
/// otherwise `go` (what the command does on an unmodified document).
pub open spec fn guarded(e: Editor, e2: Editor, r: ExOutcome, go: bool) -> bool {
    if e.document.modified && e.state.settings.autowrite {
        write_to_file(e, e2, r, AfterWrite::Retry, false)
    } else if e.document.modified {
        failed_with(e, e2, not_written_message()) && r is Done
    } else {
        go
    }
}

/// `e2` is `e` told to quit.
pub open spec fn quitting(e: Editor, e2: Editor) -> bool {
    &&& e2.document == e.document
    &&& e2.state == (EditorState { should_quit: true, ..e.state })
}

/// `:{n}`: to the first non-blank of line `n` (1-based), the old position
/// pushed on the jump list, scrolled into view; out of range, an error.
pub open spec fn went_to_line(e: Editor, e2: Editor, n: usize) -> bool {
    let total = e.document.buffer@.len();
    if n == 0 || n > total {
        failed_with(e, e2, "Invalid line number: "@ + decimal(n as nat))
    } else {
        exists|e3: Editor|
            {
                &&& #[trigger] jump_pushed(e, e3)
                &&& at_first_non_blank(
                    Editor {
                        document: Document {
                            cursor: crate::buffer::Cursor { row: (n - 1) as usize, col: 0 },
                            ..e3.document
                        },
                        ..e3
                    },
                    Editor { state: EditorState { viewport: e3.state.viewport, ..e2.state }, ..e2 },
                    n - 1,
                )
                &&& e2.state.viewport.spec_height() == e3.state.viewport.spec_height()
                &&& e2.state.viewport.spec_width() == e3.state.viewport.spec_width()
                &&& e2.state.viewport.spec_top() == top_showing(
                    e3.state.viewport.spec_top() as int,
                    e3.state.viewport.spec_height() as int,
                    n - 1,
                )
            }
    }
}

/// Entry `i` of the argument list as `:args` shows it: the current one
/// (`idx`) in brackets.
pub open spec fn arg_shown(a: Seq<char>, i: int, idx: int) -> Seq<char> {
    if i == idx {
        seq!['['] + a + seq![']']
    } else {
        a
    }
}

/// The argument list `l` as `:args` shows it, entries two spaces apart.
pub open spec fn args_listing(l: Seq<Seq<char>>, idx: int) -> Seq<char>
    decreases l.len(),
{
    if l.len() == 0 {
        Seq::empty()
    } else if l.len() == 1 {
        arg_shown(l[0], 0, idx)
    } else {
        args_listing(l.drop_last(), idx) + seq![' ', ' '] + arg_shown(l.last(), l.len() - 1, idx)
    }
}

/// The views of a list of strings.
pub open spec fn views(l: Seq<String>) -> Seq<Seq<char>> {
    l.map_values(|s: String| s@)
}

/// What ex command `cmd` does to `e`, leaving `e2` and handing `r` to the
/// caller.
pub open spec fn ex_step(e: Editor, cmd: ExCommand, e2: Editor, r: ExOutcome) -> bool {
    let keep = e2 == e && r is Done;
    match cmd {
        ExCommand::Write => write_to_file(e, e2, r, AfterWrite::Stay, false),
        ExCommand::ForceWrite => write_to_file(e, e2, r, AfterWrite::Stay, true),
        ExCommand::WriteAs(f) => write_to_name(e, e2, r, f@, AfterWrite::Stay, false),
        ExCommand::ForceWriteAs(f) => write_to_name(e, e2, r, f@, AfterWrite::Stay, true),
        ExCommand::Quit => guarded(e, e2, r, quitting(e, e2) && r is Done),
        ExCommand::ForceQuit => quitting(e, e2) && r is Done,
        ExCommand::WriteQuit => write_to_file(e, e2, r, AfterWrite::Quit, false),
        ExCommand::ForceWriteQuit => write_to_file(e, e2, r, AfterWrite::Quit, true),
        ExCommand::WriteQuitAs(f) => write_to_name(e, e2, r, f@, AfterWrite::Quit, false),
        ExCommand::WriteQuitIfModified => if e.document.modified {
            write_to_file(e, e2, r, AfterWrite::Quit, false)
        } else {
            quitting(e, e2) && r is Done
        },
        ExCommand::Edit(f) => match expand(
            f@,
            opt_view(e.document.filename),
            opt_view(e.state.file_navigation.alternate_file),
        ) {
            Err(m) => failed_with(e, e2, m) && r is Done,
            Ok(path) => guarded(
                e,
                e2,
                r,
                e2 == e && (r matches ExOutcome::Open { path: p, prev } && p@ == path && prev
                    == e.document.filename),
            ),
        },
        ExCommand::ForceEdit => match e.document.filename {
            Some(name) => e2 == e && (r matches ExOutcome::Load { path } && path@ == name@),
            None => failed_with(e, e2, "No file name"@) && r is Done,
        },
        ExCommand::GotoLine(n) => went_to_line(e, e2, n) && r is Done,
        ExCommand::Shell(c) => if e.document.modified && e.state.settings.autowrite {
            write_to_file(e, e2, r, AfterWrite::Retry, false)
        } else {
            &&& r matches ExOutcome::Run(ExCommand::Shell(c2)) && c2@ == c@
            &&& if e.document.modified && e.state.settings.warn {
                failed_with(e, e2, "No write since last change"@)
            } else {
                e2 == e
            }
        },
        ExCommand::ReadFile(f) => match expand(
            f@,
            opt_view(e.document.filename),
            opt_view(e.state.file_navigation.alternate_file),
        ) {
            Err(m) => failed_with(e, e2, m) && r is Done,
            Ok(path) => e2 == e && (r matches ExOutcome::Run(ExCommand::ReadFile(p)) && p@ == path),
        },
        ExCommand::PrintLineNumber(row) => informed(
            e,
            e2,
            decimal((row + 1) as nat) + seq!['/'] + decimal(e.document.buffer@.len()),
        ) && r is Done,
        ExCommand::DeleteLines { range, register } => ex_deleted(e, e2, range, register) && r is Done,
        ExCommand::YankLines { range, register } => ex_yanked(e, e2, range, register) && r is Done,
        ExCommand::Put { after_row, register } => ex_put_done(e, e2, after_row, register) && r is Done,
        ExCommand::MoveLines { range, dest } => ex_moved(e, e2, range, dest) && r is Done,
        ExCommand::CopyLines { range, dest } => ex_copied(e, e2, range, dest) && r is Done,
        ExCommand::JoinLines { range } => ex_lines_joined(e, e2, range) && r is Done,
        ExCommand::NextFile(f) => match f {
            None => {
                let nav = e.state.file_navigation;
                let t = nav.arg_idx + 1;
                &&& r matches ExOutcome::Args(step) && crate::editor::files::arg_move(
                    e,
                    e2,
                    if t < nav.arg_list@.len() {
                        Some(t)
                    } else {
                        None
                    },
                    "Last file in argument list"@,
                    step,
                )
            },
            Some(name) => match expand(
                name@,
                opt_view(e.document.filename),
                opt_view(e.state.file_navigation.alternate_file),
            ) {
                Err(m) => failed_with(e, e2, m) && r is Done,
                Ok(path) => guarded(
                    e,
                    e2,
                    r,
                    e2 == e && (r matches ExOutcome::Load { path: p } && p@ == path),
                ),
            },
        },
        ExCommand::PrevFile => {
            let nav = e.state.file_navigation;
            &&& r matches ExOutcome::Args(step) && crate::editor::files::arg_move(
                e,
                e2,
                if nav.arg_idx >= 1 {
                    Some(nav.arg_idx - 1)
                } else {
                    None
                },
                "First file in argument list"@,
                step,
            )
        },
        ExCommand::ShowArgs => {
            let nav = e.state.file_navigation;
            &&& r is Done
            &&& if nav.arg_list@.len() == 0 {
                failed_with(e, e2, "(no argument list)"@)
            } else {
                informed(e, e2, args_listing(views(nav.arg_list@), nav.arg_idx as int))
            }
        },
        ExCommand::RewindArgs => {
            let nav = e.state.file_navigation;
            if nav.arg_list@.len() == 0 {
                failed_with(e, e2, "(no argument list)"@) && r is Done
            } else {
                guarded(
                    e,
                    e2,
                    r,
                    e2 == e && (r matches ExOutcome::Args(ArgStep::Open { index, path }) && index == 0
                        && path@ == nav.arg_list@[0]@),
                )
            }
        },
        ExCommand::ReadShellCommand { cmd: c } => e2 == e && (r matches ExOutcome::Run(
            ExCommand::ReadShellCommand { cmd: c2 },
        ) && c2@ == c@),
        ExCommand::PrintLines { range } => ex_printed(e, e2, range) && r is Done,
        ExCommand::PrintNumberedLines { range } => ex_numbered(e, e2, range) && r is Done,
        ExCommand::PrintListLines { range } => ex_listed(e, e2, range) && r is Done,
        ExCommand::MapKeys { insert_mode, lhs, rhs } => mapped(e, e2, insert_mode, lhs@, rhs@)
            && r is Done,
        ExCommand::Unmap { insert_mode, lhs } => unmapped(e, e2, insert_mode, lhs@) && r is Done,
        ExCommand::ShowMaps { insert_mode } => maps_shown(e, e2, insert_mode) && r is Done,
        ExCommand::Abbreviate { lhs, rhs } => abbreviated(e, e2, lhs@, rhs@) && r is Done,
        ExCommand::Unabbreviate { lhs } => unabbreviated(e, e2, lhs@) && r is Done,
        ExCommand::ShowAbbreviations => abbreviations_shown(e, e2) && r is Done,
        ExCommand::ShellInteractive => e2 == e && r matches ExOutcome::Run(ExCommand::ShellInteractive),
        ExCommand::ChangeDir(d) => e2 == e && (r matches ExOutcome::Run(ExCommand::ChangeDir(d2)) && d2@
            == d@),
        ExCommand::Source(f) => match expand(
            f@,
            opt_view(e.document.filename),
            opt_view(e.state.file_navigation.alternate_file),
        ) {
            Err(m) => failed_with(e, e2, m) && r is Done,
            Ok(path) => e2 == e && (r matches ExOutcome::Run(ExCommand::Source(p)) && p@ == path),
        },
        ExCommand::SetMark(c) => {
            &&& r is Done
            &&& e2.document == e.document
            &&& e2.state == (EditorState {
                navigation: NavigationState { marks: e2.state.navigation.marks, ..e.state.navigation },
                status_message: None,
                ..e.state
            })
            &&& e2.state.navigation.marks@ == e.state.navigation.marks@.insert(c as u32, e.document.cursor)
        },
        ExCommand::Suspend => e2 == e && r matches ExOutcome::Run(ExCommand::Suspend),
        ExCommand::Version => informed(e, e2, "rvi version 0.1.0"@) && r is Done,
        ExCommand::Visual => keep,
        ExCommand::Preserve => e2 == e && r matches ExOutcome::Run(ExCommand::Preserve),
        ExCommand::Recover(f) => e2 == e && (r matches ExOutcome::Run(ExCommand::Recover(f2)) && opt_view(f2)
            == opt_view(f)),
    }
}

/// The inputs on which `execute_ex_command` works: the line commands'
/// ranges and destinations as their own functions need them, and a current
/// argument inside the argument list.
pub open spec fn ex_ready(e: Editor, cmd: ExCommand) -> bool {
    &&& e.wf()
    &&& match cmd {
        ExCommand::Put { after_row, .. } => after_row < usize::MAX,
        ExCommand::MoveLines { range, dest } => move_ok(e, range, dest),
        ExCommand::CopyLines { range, dest } => copy_ok(e, range, dest),
        ExCommand::JoinLines { range } => join_ok(e, range),
        ExCommand::NextFile(None) => e.state.file_navigation.arg_idx < usize::MAX,
        ExCommand::PrevFile => e.state.file_navigation.arg_list@.len() == 0
            || e.state.file_navigation.arg_idx < e.state.file_navigation.arg_list@.len(),
        ExCommand::PrintLineNumber(row) => row < usize::MAX,
        _ => true,
    }
}

impl Editor {
    /// Write the document to its own file, then `then`: hands the write
    /// out, or shows why it is refused.
    fn write_out(&mut self, force: bool, then: AfterWrite) -> (r: ExOutcome)
        requires
            old(self).wf(),
        ensures
            final(self).wf(),
            write_to_file(*old(self), *final(self), r, then, force),
    {
        let sr = if force {
            self.save_file_force()
        } else {
            self.save_file()
        };
        match sr {
            Ok(req) => ExOutcome::Write { req, then },
            Err(err) => {
                self.show_error(&err);
                ExOutcome::Done
            },
        }
    }

    /// Write the document to the file named by `name`, then `then`.
    fn write_out_as(&mut self, name: &str, force: bool, then: AfterWrite) -> (r: ExOutcome)
        requires
            old(self).wf(),
        ensures
            final(self).wf(),
            write_to_name(*old(self), *final(self), r, name@, then, force),
    {
        let path = match self.expand_filename(name) {
            Ok(p) => p,
            Err(m) => {
                self.state.status_message = Some(StatusMessage::Error(m));
                return ExOutcome::Done;
            },
        };
        if force {
            let req = self.save_file_as_force(path.as_str());
            return ExOutcome::Write { req, then };
        }
        match self.save_file_as(path.as_str()) {
            Ok(req) => ExOutcome::Write { req, then },
            Err(err) => {
                self.show_error(&err);
                ExOutcome::Done
            },
        }
    }

    /// The check before a command that would drop an unwritten change:
    /// the write (with `autowrite`) or the refusal, or nothing to stop it.
    fn unwritten_gate(&mut self) -> (r: Option<ExOutcome>)
        requires
            old(self).wf(),
        ensures
            final(self).wf(),
            match r {
                Some(o) => guarded(*old(self), *final(self), o, false),
                None => !old(self).document.modified && *final(self) == *old(self),
            },
    {
        if self.document.modified && self.state.settings.autowrite {
            return Some(self.write_out(false, AfterWrite::Retry));
        }
        if self.document.modified {
            self.state.status_message = Some(StatusMessage::Error(
                "No write since last change (add ! to override)".to_owned(),
            ));
            return Some(ExOutcome::Done);
        }
        None
    }
}

impl Editor {
    /// Execute ex command `cmd`: as `ex_step` says, handing the caller the
    /// writes, reads and shell commands that only it can perform.
    #[verifier::spinoff_prover]
    #[verifier::rlimit(100)]
    pub fn execute_ex_command(&mut self, cmd: ExCommand) -> (r: ExOutcome)
        requires
            ex_ready(*old(self), cmd),
        ensures
            final(self).wf(),
            ex_step(*old(self), cmd, *final(self), r),
    {
        match cmd {
            ExCommand::Write => self.write_out(false, AfterWrite::Stay),
            ExCommand::ForceWrite => self.write_out(true, AfterWrite::Stay),
            ExCommand::WriteAs(f) => self.write_out_as(f.as_str(), false, AfterWrite::Stay),
            ExCommand::ForceWriteAs(f) => self.write_out_as(f.as_str(), true, AfterWrite::Stay),
            ExCommand::Quit => {
                match self.unwritten_gate() {
                    Some(o) => return o,
                    None => {},
                }
                self.state.should_quit = true;
                ExOutcome::Done
            },
            ExCommand::ForceQuit => {
                self.state.should_quit = true;
                ExOutcome::Done
            },
            ExCommand::WriteQuit => self.write_out(false, AfterWrite::Quit),
            ExCommand::ForceWriteQuit => self.write_out(true, AfterWrite::Quit),
            ExCommand::WriteQuitAs(f) => self.write_out_as(f.as_str(), false, AfterWrite::Quit),
            ExCommand::WriteQuitIfModified => {
                if self.document.modified {
                    return self.write_out(false, AfterWrite::Quit);
                }
                self.state.should_quit = true;
                ExOutcome::Done
            },
            ExCommand::Edit(f) => {
                let path = match self.expand_filename(f.as_str()) {
                    Ok(p) => p,
                    Err(m) => {
                        self.state.status_message = Some(StatusMessage::Error(m));
                        return ExOutcome::Done;
                    },
                };
                match self.unwritten_gate() {
                    Some(o) => return o,
                    None => {},
                }
                ExOutcome::Open { path, prev: self.document.filename.clone() }
            },
            ExCommand::ForceEdit => {
                match &self.document.filename {
                    Some(name) => ExOutcome::Load { path: name.clone() },
                    None => {
                        self.state.status_message = Some(StatusMessage::Error("No file name".to_owned()));
                        ExOutcome::Done
                    },
                }
            },
            ExCommand::GotoLine(n) => {
                self.goto_line(n);
                ExOutcome::Done
            },
            ExCommand::Shell(c) => {
                if self.document.modified && self.state.settings.autowrite {
                    return self.write_out(false, AfterWrite::Retry);
                }
                if self.document.modified && self.state.settings.warn {
                    self.state.status_message = Some(StatusMessage::Error("No write since last change".to_owned()));
                }
                ExOutcome::Run(ExCommand::Shell(c))
            },
            ExCommand::ReadFile(f) => {
                match self.expand_filename(f.as_str()) {
                    Ok(p) => ExOutcome::Run(ExCommand::ReadFile(p)),
                    Err(m) => {
                        self.state.status_message = Some(StatusMessage::Error(m));
                        ExOutcome::Done
                    },
                }
            },
            ExCommand::PrintLineNumber(row) => {
                let mut s = crate::text::decimal_string(row + 1);
                crate::text::push_char(&mut s, '/');
                let total = crate::text::decimal_string(self.document.buffer.len());
                crate::text::append_str(&mut s, total.as_str());
                proof {
                    assert(s@ =~= decimal((row + 1) as nat) + seq!['/'] + decimal(self.document.buffer@.len()));
                }
                self.state.status_message = Some(StatusMessage::Info(s));
                ExOutcome::Done
            },
            ExCommand::DeleteLines { range, register } => {
                self.execute_delete_lines(range, register);
                ExOutcome::Done
            },
            ExCommand::YankLines { range, register } => {
                self.execute_yank_lines(range, register);
                ExOutcome::Done
            },
            ExCommand::Put { after_row, register } => {
                self.execute_put_lines(after_row, register);
                ExOutcome::Done
            },
            ExCommand::MoveLines { range, dest } => {
                self.execute_move_lines(range, dest);
                ExOutcome::Done
            },
            ExCommand::CopyLines { range, dest } => {
                self.execute_copy_lines(range, dest);
                ExOutcome::Done
            },
            ExCommand::JoinLines { range } => {
                self.execute_join_lines_range(range);
                ExOutcome::Done
            },
            ExCommand::NextFile(f) => {
                match f {
                    None => ExOutcome::Args(self.navigate_args(1)),
                    Some(name) => {
                        let path = match self.expand_filename(name.as_str()) {
                            Ok(p) => p,
                            Err(m) => {
                                self.state.status_message = Some(StatusMessage::Error(m));
                                return ExOutcome::Done;
                            },
                        };
                        match self.unwritten_gate() {
                            Some(o) => return o,
                            None => {},
                        }
                        ExOutcome::Load { path }
                    },
                }
            },
            ExCommand::PrevFile => ExOutcome::Args(self.navigate_args_backward(1)),
            ExCommand::ShowArgs => {
                self.show_args();
                ExOutcome::Done
            },
            ExCommand::RewindArgs => {
                if self.state.file_navigation.arg_list.len() == 0 {
                    self.state.status_message = Some(StatusMessage::Error("(no argument list)".to_owned()));
                    return ExOutcome::Done;
                }
                match self.unwritten_gate() {
                    Some(o) => return o,
                    None => {},
                }
                let path = self.state.file_navigation.arg_list[0].clone();
                ExOutcome::Args(ArgStep::Open { index: 0, path })
            },
            ExCommand::ReadShellCommand { cmd: c } => ExOutcome::Run(ExCommand::ReadShellCommand { cmd: c }),
            ExCommand::PrintLines { range } => {
                self.execute_print_lines(range);
                ExOutcome::Done
            },
            ExCommand::PrintNumberedLines { range } => {
                self.execute_print_numbered_lines(range);
                ExOutcome::Done
            },
            ExCommand::PrintListLines { range } => {
                self.execute_print_list_lines(range);
                ExOutcome::Done
            },
            ExCommand::MapKeys { insert_mode, lhs, rhs } => {
                self.execute_map(insert_mode, lhs.as_str(), rhs.as_str());
                ExOutcome::Done
            },
            ExCommand::Unmap { insert_mode, lhs } => {
                self.execute_unmap(insert_mode, lhs.as_str());
                ExOutcome::Done
            },
            ExCommand::ShowMaps { insert_mode } => {
                self.execute_show_maps(insert_mode);
                ExOutcome::Done
            },
            ExCommand::Abbreviate { lhs, rhs } => {
                self.execute_abbreviate(lhs.as_str(), rhs.as_str());
                ExOutcome::Done
            },
            ExCommand::Unabbreviate { lhs } => {
                self.execute_unabbreviate(lhs.as_str());
                ExOutcome::Done
            },
            ExCommand::ShowAbbreviations => {
                self.execute_show_abbreviations();
                ExOutcome::Done
            },
            ExCommand::ShellInteractive => ExOutcome::Run(ExCommand::ShellInteractive),
            ExCommand::ChangeDir(d) => ExOutcome::Run(ExCommand::ChangeDir(d)),
            ExCommand::Source(f) => {
                match self.expand_filename(f.as_str()) {
                    Ok(p) => ExOutcome::Run(ExCommand::Source(p)),
                    Err(m) => {
                        self.state.status_message = Some(StatusMessage::Error(m));
                        ExOutcome::Done
                    },
                }
            },
            ExCommand::SetMark(c) => {
                let key: u32 = c as u32;
                self.state.navigation.marks.insert(key, self.document.cursor);
                self.state.status_message = None;
                ExOutcome::Done
            },
            ExCommand::Suspend => ExOutcome::Run(ExCommand::Suspend),
            ExCommand::Version => {
                self.state.status_message = Some(StatusMessage::Info("rvi version 0.1.0".to_owned()));
                ExOutcome::Done
            },
            ExCommand::Visual => ExOutcome::Done,
            ExCommand::Preserve => ExOutcome::Run(ExCommand::Preserve),
            ExCommand::Recover(f) => ExOutcome::Run(ExCommand::Recover(f)),
        }
    }

    /// `:{n}`: as `went_to_line` says.
    pub(crate) fn goto_line(&mut self, n: usize)
        requires
            old(self).wf(),
        ensures
            final(self).wf(),
            went_to_line(*old(self), *final(self), n),
    {
        let total = self.document.buffer.len();
        if n == 0 || n > total {
            let mut s = "Invalid line number: ".to_owned();
            let num = crate::text::decimal_string(n);
            crate::text::append_str(&mut s, num.as_str());
            self.state.status_message = Some(StatusMessage::Error(s));
            return ;
        }
        self.push_jump();
        let ghost e3 = *self;
        self.document.cursor.row = n - 1;
        self.document.cursor.col = 0;
        self.move_to_first_non_blank();
        let row = self.document.cursor.row;
        self.state.viewport.ensure_visible(row, total);
        proof {
            assert(jump_pushed(*old(self), e3));
        }
    }

    /// `:args`: the argument list in the status line, the current entry in
    /// brackets.
    fn show_args(&mut self)
        requires
            old(self).wf(),
        ensures
            final(self).wf(),
            ({
                let e = *old(self);
                let e2 = *final(self);
                let nav = e.state.file_navigation;
                if nav.arg_list@.len() == 0 {
                    failed_with(e, e2, "(no argument list)"@)
                } else {
                    informed(e, e2, args_listing(views(nav.arg_list@), nav.arg_idx as int))
                }
            }),
    {
        let n = self.state.file_navigation.arg_list.len();
        if n == 0 {
            self.state.status_message = Some(StatusMessage::Error("(no argument list)".to_owned()));
            return ;
        }
        let idx = self.state.file_navigation.arg_idx;
        let ghost l = views(self.state.file_navigation.arg_list@);
        let mut s = String::new();
        let mut i: usize = 0;
        while i < n
            invariant
                i <= n,
                n == self.state.file_navigation.arg_list@.len(),
                l == views(self.state.file_navigation.arg_list@),
                s@ == args_listing(l.take(i as int), idx as int),
            decreases n - i,
        {
            if i > 0 {
                crate::text::push_char(&mut s, ' ');
                crate::text::push_char(&mut s, ' ');
            }
            if i == idx {
                crate::text::push_char(&mut s, '[');
            }
            crate::text::append_str(&mut s, self.state.file_navigation.arg_list[i].as_str());
            if i == idx {
                crate::text::push_char(&mut s, ']');
            }
            proof {
                assert(l.take(i + 1).drop_last() =~= l.take(i as int));
                assert(l[i as int] == self.state.file_navigation.arg_list@[i as int]@);
            }
            i = i + 1;
        }
        proof {
            assert(l.take(n as int) =~= l);
        }
        self.state.status_message = Some(StatusMessage::Info(s));
    }
}

} // verus!
