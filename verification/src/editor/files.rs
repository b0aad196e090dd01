//! The editor's side of files: loading read contents into the document,
//! preparing writes and recording them, preserve-file names, `%`/`#`
//! expansion, and moving through the argument list. Reading and writing
//! themselves are done by the caller.

use vstd::prelude::*;
use crate::buffer::{text_lines, Buffer, Cursor};
use crate::editor::{Editor, EditorState, StatusMessage};
use crate::error::{Error, FileError};
use crate::file::{LineEnding, ReadResult};
use crate::text::{decimal, decimal_string, push_char, append_str};
use crate::undo::UndoHistory;

verus! {

/// The final component of path `p`, as `std::path::Path::file_name` gives
/// it (none for an empty path or one ending in `..`).
pub uninterp spec fn spec_file_name(p: Seq<char>) -> Option<Seq<char>>;

/// Trusted: `std::path::Path::new(p).file_name()`, as a string (the
/// component of a `&str` path is valid UTF-8, so `to_str` gives it back);
/// its result is named by `spec_file_name`.
#[verifier::external_body]
fn path_file_name(p: &str) -> (r: Option<String>)
    ensures
        match r {
            Some(s) => spec_file_name(p@) == Some(s@),
            None => spec_file_name(p@) is None,
        },
{
    match std::path::Path::new(p).file_name() {
        Some(n) => match n.to_str() {
            Some(s) => Some(s.to_owned()),
            None => None,
        },
        None => None,
    }
}

/// `unnamed`.
pub open spec fn unnamed() -> Seq<char> {
    seq!['u', 'n', 'n', 'a', 'm', 'e', 'd']
}

/// The base name used for the preserve file of `filename`: its final
/// component, or `unnamed`.
pub open spec fn preserve_base(filename: Option<Seq<char>>) -> Seq<char> {
    match filename {
        Some(f) => match spec_file_name(f) {
            Some(n) => n,
            None => unnamed(),
        },
        None => unnamed(),
    }
}

/// The preserve file of `filename` for process `pid` in directory `dir`:
/// `{dir}/rvi.{base}.{pid}`.
pub open spec fn preserve_file_path(dir: Seq<char>, filename: Option<Seq<char>>, pid: nat) -> Seq<char> {
    dir + seq!['/', 'r', 'v', 'i', '.'] + preserve_base(filename) + seq!['.'] + decimal(pid)
}

/// `"unnamed"`.
fn unnamed_string() -> (s: String)
    ensures
        s@ == unnamed(),
{
    let mut s = String::new();
    push_char(&mut s, 'u');
    push_char(&mut s, 'n');
    push_char(&mut s, 'n');
    push_char(&mut s, 'a');
    push_char(&mut s, 'm');
    push_char(&mut s, 'e');
    push_char(&mut s, 'd');
    s
}

/// The base name for the preserve file of `filename`.
fn base_name_of(filename: Option<&str>) -> (s: String)
    ensures
        s@ == preserve_base(
            match filename {
                Some(f) => Some(f@),
                None => None,
            },
        ),
{
    match filename {
        Some(f) => match path_file_name(f) {
            Some(n) => n,
            None => unnamed_string(),
        },
        None => unnamed_string(),
    }
}

/// The crash-recovery file for `filename` written by process `pid` into
/// directory `dir`: `{dir}/rvi.{basename}.{pid}`, `unnamed` standing for a
/// missing or empty name.
pub fn preserve_path(dir: &str, filename: Option<&str>, pid: u32) -> (p: String)
    ensures
        p@ == preserve_file_path(
            dir@,
            match filename {
                Some(f) => Some(f@),
                None => None,
            },
            pid as nat,
        ),
{
    let base = base_name_of(filename);
    let mut p = dir.to_owned();
    push_char(&mut p, '/');
    push_char(&mut p, 'r');
    push_char(&mut p, 'v');
    push_char(&mut p, 'i');
    push_char(&mut p, '.');
    append_str(&mut p, base.as_str());
    push_char(&mut p, '.');
    let digits = decimal_string(pid as usize);
    append_str(&mut p, digits.as_str());
    p
}

/// `r` with `p` in front of its text.
pub open spec fn prepend(p: Seq<char>, r: Result<Seq<char>, Seq<char>>) -> Result<Seq<char>, Seq<char>> {
    match r {
        Ok(s) => Ok(p + s),
        Err(e) => Err(e),
    }
}

/// `E499: Empty file name for '%'`.
pub open spec fn no_current_name() -> Seq<char> {
    "E499: Empty file name for '%'"@
}

/// `E499: No alternate file name to substitute for '#'`.
pub open spec fn no_alternate_name() -> Seq<char> {
    "E499: No alternate file name to substitute for '#'"@
}

/// `arg` with `%` replaced by the current file name `cur` and `#` by the
/// alternate one `alt` (`\%` and `\#` stand for the characters); the first
/// name that is missing gives its error instead.
pub open spec fn expand(arg: Seq<char>, cur: Option<Seq<char>>, alt: Option<Seq<char>>) -> Result<
    Seq<char>,
    Seq<char>,
>
    decreases arg.len(),
{
    if arg.len() == 0 {
        Ok(Seq::empty())
    } else if arg[0] == '\\' && arg.len() > 1 && (arg[1] == '%' || arg[1] == '#') {
        prepend(seq![arg[1]], expand(arg.skip(2), cur, alt))
    } else if arg[0] == '%' {
        match cur {
            Some(n) => prepend(n, expand(arg.skip(1), cur, alt)),
            None => Err(no_current_name()),
        }
    } else if arg[0] == '#' {
        match alt {
            Some(n) => prepend(n, expand(arg.skip(1), cur, alt)),
            None => Err(no_alternate_name()),
        }
    } else {
        prepend(seq![arg[0]], expand(arg.skip(1), cur, alt))
    }
}

/// The view of an optional string.
pub open spec fn opt_view(s: Option<String>) -> Option<Seq<char>> {
    match s {
        Some(x) => Some(x@),
        None => None,
    }
}

/// `s` with each tab shown as `^I`.
pub open spec fn tabs_shown(s: Seq<char>) -> Seq<char>
    decreases s.len(),
{
    if s.len() == 0 {
        Seq::empty()
    } else {
        tabs_shown(s.drop_last()) + if s.last() == '\t' {
            seq!['^', 'I']
        } else {
            seq![s.last()]
        }
    }
}

/// A line as `:list` shows it: tabs as `^I`, a `$` at the end.
pub fn format_list_line(line: &str) -> (s: String)
    ensures
        s@ == tabs_shown(line@) + seq!['$'],
{
    let cs = crate::text::chars_of(line);
    let mut s = String::new();
    let mut i: usize = 0;
    while i < cs.len()
        invariant
            i <= cs@.len(),
            cs@ == line@,
            s@ == tabs_shown(cs@.take(i as int)),
        decreases cs.len() - i,
    {
        assert(cs@.take(i + 1).drop_last() =~= cs@.take(i as int));
        let ghost before = s@;
        if cs[i] == '\t' {
            push_char(&mut s, '^');
            push_char(&mut s, 'I');
        } else {
            push_char(&mut s, cs[i]);
        }
        assert(s@ =~= before + if cs@[i as int] == '\t' {
            seq!['^', 'I']
        } else {
            seq![cs@[i as int]]
        });
        i = i + 1;
    }
    assert(cs@.take(cs@.len() as int) =~= cs@);
    push_char(&mut s, '$');
    s
}

/// A write the caller is to make: `content` into the file at `path`;
/// `rename` when the document takes `path` as its file name afterwards.
#[derive(Debug)]
pub struct SaveRequest {
    /// The file to write.
    pub path: String,
    /// The text to write.
    pub content: String,
    /// Whether the document is named after `path` once written.
    pub rename: bool,
}

/// `File is read-only (add ! to override)`.
pub open spec fn read_only_message() -> Seq<char> {
    "File is read-only (add ! to override)"@
}

/// The suffix of the message after writing `n` bytes.
pub open spec fn written_suffix(n: nat) -> Seq<char> {
    " written, "@ + decimal(n) + " bytes"@
}

/// What the argument list asks of the caller.
#[derive(Debug)]
pub enum ArgStep {
    /// Nothing more to do (a message says why, if it was refused).
    Stop,
    /// Write the document first (it is modified and `autowrite` is on),
    /// then ask again.
    Save,
    /// Open file `path`, entry `index` of the argument list.
    Open { index: usize, path: String },
}

/// What moving to argument `target` (none when out of range) leaves in
/// `e2` and returns.
pub open spec fn arg_move(e: Editor, e2: Editor, target: Option<int>, out_of_range: Seq<char>, r: ArgStep) -> bool {
    let nav = e.state.file_navigation;
    &&& e2.document == e.document
    &&& if nav.arg_list@.len() == 0 {
        &&& r is Stop
        &&& e2.state == (EditorState { status_message: e2.state.status_message, ..e.state })
        &&& e2.state.status_message matches Some(StatusMessage::Error(s)) && s@ == "(no argument list)"@
    } else if e.document.modified && !e.state.settings.autowrite {
        &&& r is Stop
        &&& e2.state == (EditorState { status_message: e2.state.status_message, ..e.state })
        &&& e2.state.status_message matches Some(StatusMessage::Error(s)) && s@
            == "No write since last change (add ! to override)"@
    } else if e.document.modified {
        &&& r is Save
        &&& e2.state == e.state
    } else {
        match target {
            None => {
                &&& r is Stop
                &&& e2.state == (EditorState { status_message: e2.state.status_message, ..e.state })
                &&& e2.state.status_message matches Some(StatusMessage::Error(s)) && s@ == out_of_range
            },
            Some(t) => {
                &&& r matches ArgStep::Open { index, path } && index == t && path@ == nav.arg_list@[t]@
                &&& e2.state == e.state
            },
        }
    }
}

impl Editor {
    /// The text of `%` and `#` expanded in an ex command's file argument,
    /// or the error message for a name that is not set.
    pub fn expand_filename(&self, arg: &str) -> (r: Result<String, String>)
        ensures
            match r {
                Ok(s) => expand(arg@, opt_view(self.document.filename), opt_view(self.state.file_navigation.alternate_file)) == Ok::<Seq<char>, Seq<char>>(s@),
                Err(m) => expand(arg@, opt_view(self.document.filename), opt_view(self.state.file_navigation.alternate_file)) == Err::<Seq<char>, Seq<char>>(m@),
            },
    {
        let ghost cur = opt_view(self.document.filename);
        let ghost alt = opt_view(self.state.file_navigation.alternate_file);
        let cs = crate::text::chars_of(arg);
        let n = cs.len();
        let mut out = String::new();
        let mut i: usize = 0;
        assert(cs@.skip(0) =~= cs@);
        while i < n
            invariant
                i <= n == cs@.len(),
                cs@ == arg@,
                cur == opt_view(self.document.filename),
                alt == opt_view(self.state.file_navigation.alternate_file),
                expand(arg@, cur, alt) == prepend(out@, expand(cs@.skip(i as int), cur, alt)),
            decreases n - i,
        {
            let ghost tail = cs@.skip(i as int);
            assert(tail[0] == cs@[i as int]);
            assert(i + 1 < n ==> tail[1] == cs@[i + 1]);
            let ghost before = out@;
            let ghost mut p: Seq<char> = Seq::empty();
            let c = cs[i];
            if c == '\\' && i + 1 < n && (cs[i + 1] == '%' || cs[i + 1] == '#') {
                assert(tail.skip(2) =~= cs@.skip(i + 2));
                push_char(&mut out, cs[i + 1]);
                proof {
                    p = seq![cs@[i + 1]];
                }
                i = i + 2;
            } else if c == '%' {
                assert(tail.skip(1) =~= cs@.skip(i + 1));
                match &self.document.filename {
                    Some(name) => {
                        append_str(&mut out, name.as_str());
                        proof {
                            p = name@;
                        }
                    },
                    None => return Err("E499: Empty file name for '%'".to_owned()),
                }
                i = i + 1;
            } else if c == '#' {
                assert(tail.skip(1) =~= cs@.skip(i + 1));
                match &self.state.file_navigation.alternate_file {
                    Some(name) => {
                        append_str(&mut out, name.as_str());
                        proof {
                            p = name@;
                        }
                    },
                    None => return Err("E499: No alternate file name to substitute for '#'".to_owned()),
                }
                i = i + 1;
            } else {
                assert(tail.skip(1) =~= cs@.skip(i + 1));
                push_char(&mut out, c);
                proof {
                    p = seq![c];
                }
                i = i + 1;
            }
            proof {
                assert(out@ =~= before + p);
                assert(expand(tail, cur, alt) == prepend(p, expand(cs@.skip(i as int), cur, alt)));
                match expand(cs@.skip(i as int), cur, alt) {
                    Ok(s) => {
                        assert(before + (p + s) =~= out@ + s);
                    },
                    Err(e) => {},
                }
            }
        }
        assert(cs@.skip(i as int) =~= Seq::<char>::empty());
        assert(out@ + Seq::<char>::empty() =~= out@);
        Ok(out)
    }

    /// Report `count` changed lines (`{count} {noun}`) unless `terse` is on
    /// or the count is below `report`.
    pub fn report_lines(&mut self, count: usize, noun: &str)
        ensures
            final(self).document == old(self).document,
            final(self).state == (EditorState { status_message: final(self).state.status_message, ..old(self).state }),
            reported(old(self).state, final(self).state, count as nat, noun@),
    {
        if !self.state.settings.terse && count >= self.state.settings.report {
            let mut s = decimal_string(count);
            push_char(&mut s, ' ');
            append_str(&mut s, noun);
            assert(s@ =~= decimal(count as nat) + seq![' '] + noun@);
            self.state.status_message = Some(StatusMessage::Info(s));
        }
    }

    /// Show `e` as an error message.
    pub fn show_error(&mut self, e: &Error)
        ensures
            final(self).document == old(self).document,
            final(self).state == (EditorState { status_message: final(self).state.status_message, ..old(self).state }),
            final(self).state.status_message matches Some(StatusMessage::Error(s)) && (*e matches Error::Buffer(be) ==> s@ == crate::error::buffer_error_message(be)) && (*e matches Error::File(fe) ==> !(fe is Io) ==> s@ == crate::error::file_error_message(fe)),
    {
        let s = e.to_string();
        self.state.status_message = Some(StatusMessage::Error(s));
    }
}

/// `e2` holds the file `path` with text `lines` and line ending `ending`:
/// cursor at the start, no selection, unmodified, an empty undo history.
pub open spec fn loaded(e: Editor, e2: Editor, path: Seq<char>, lines: Seq<Seq<char>>, ending: LineEnding) -> bool {
    &&& e2.document.buffer@ == lines
    &&& e2.document.cursor == (Cursor { row: 0, col: 0 })
    &&& e2.document.selection is None
    &&& opt_view(e2.document.filename) == Some(path)
    &&& opt_view(e2.document.file_path) == Some(path)
    &&& !e2.document.modified
    &&& e2.document.line_ending == ending
    &&& e2.state.undo_history.spec_undo().len() == 0
    &&& e2.state.undo_history.spec_redo().len() == 0
    &&& e2.state.undo_history.spec_current() is None
}

impl Editor {
    /// Make the file `path` the document. `read` is its contents as read,
    /// or none when there is no such file yet (then the document starts
    /// empty). A file that was read also sets the line snapshot for `U` and
    /// scrolls to the top.
    pub fn open_file(&mut self, path: &str, read: Option<ReadResult>)
        requires
            old(self).wf(),
        ensures
            final(self).wf(),
            match read {
                None => {
                    &&& loaded(*old(self), *final(self), path@, seq![Seq::<char>::empty()], LineEnding::Lf)
                    &&& final(self).state == (EditorState { undo_history: final(self).state.undo_history, ..old(self).state })
                },
                Some(r) => {
                    let lines = text_lines(r.content@);
                    &&& loaded(*old(self), *final(self), path@, lines, r.line_ending)
                    &&& final(self).state == (EditorState {
                        undo_history: final(self).state.undo_history,
                        navigation: final(self).state.navigation,
                        viewport: final(self).state.viewport,
                        ..old(self).state
                    })
                    &&& final(self).state.navigation.line_snapshot matches Some((row, content)) && row == 0 && content@ == lines[0]
                    &&& final(self).state.navigation.jump_list == old(self).state.navigation.jump_list
                    &&& final(self).state.navigation.jump_list_idx == old(self).state.navigation.jump_list_idx
                    &&& final(self).state.navigation.jump_origin == old(self).state.navigation.jump_origin
                    &&& final(self).state.viewport.spec_top() == crate::render::top_showing(
                        old(self).state.viewport.spec_top() as int,
                        old(self).state.viewport.spec_height() as int,
                        0,
                    )
                    &&& final(self).state.viewport.spec_height() == old(self).state.viewport.spec_height()
                    &&& final(self).state.viewport.spec_width() == old(self).state.viewport.spec_width()
                },
            },
    {
        match read {
            None => {
                self.document.buffer = Buffer::new();
                self.document.cursor = Cursor::new(0, 0);
                self.document.selection = None;
                self.document.filename = Some(path.to_owned());
                self.document.file_path = Some(path.to_owned());
                self.document.modified = false;
                self.document.line_ending = LineEnding::Lf;
                self.state.undo_history = UndoHistory::new();
            },
            Some(result) => {
                self.document.buffer = Buffer::from_string(result.content);
                self.document.cursor = Cursor::new(0, 0);
                self.document.selection = None;
                self.document.filename = Some(path.to_owned());
                self.document.file_path = Some(path.to_owned());
                self.document.modified = false;
                self.document.line_ending = result.line_ending;
                self.state.undo_history = UndoHistory::new();
                let row0 = match self.document.buffer.line(0) {
                    Some(l) => l.to_owned(),
                    None => String::new(),
                };
                self.state.navigation.line_snapshot = Some((0, row0));
                let n = self.document.buffer.len();
                self.state.viewport.ensure_visible(0, n);
            },
        }
    }

    /// Prepare writing the document to its file (`:w`): refused when
    /// `readonly` is on, else as `save_file_force`.
    pub fn save_file(&self) -> (r: Result<SaveRequest, Error>)
        requires
            self.wf(),
        ensures
            self.state.settings.readonly ==> (r matches Err(Error::File(FileError::ReadOnly(m))) && m@ == read_only_message()),
            !self.state.settings.readonly ==> save_prepared(*self, r),
    {
        if self.state.settings.readonly {
            return Err(Error::File(FileError::ReadOnly("File is read-only (add ! to override)".to_owned())));
        }
        self.save_file_force()
    }

    /// Prepare writing the document to its file regardless of `readonly`
    /// (`:w!`): its text with its line ending, or an error when it has no
    /// file name.
    pub fn save_file_force(&self) -> (r: Result<SaveRequest, Error>)
        requires
            self.wf(),
        ensures
            save_prepared(*self, r),
    {
        match &self.document.file_path {
            None => Err(Error::File(FileError::NotFound("No filename".to_owned()))),
            Some(p) => Ok(SaveRequest {
                path: p.clone(),
                content: crate::file::file_content(&self.document.buffer, self.document.line_ending),
                rename: false,
            }),
        }
    }

    /// Prepare writing the document to `path` (`:w path`): refused when
    /// `readonly` is on, else as `save_file_as_force`.
    pub fn save_file_as(&self, path: &str) -> (r: Result<SaveRequest, Error>)
        requires
            self.wf(),
        ensures
            self.state.settings.readonly ==> (r matches Err(Error::File(FileError::ReadOnly(m))) && m@ == read_only_message()),
            !self.state.settings.readonly ==> (r matches Ok(q) && q.path@ == path@ && q.rename
                && q.content@ == crate::file::writer::file_text(self.document.buffer@, self.document.line_ending)),
    {
        if self.state.settings.readonly {
            return Err(Error::File(FileError::ReadOnly("File is read-only (add ! to override)".to_owned())));
        }
        Ok(self.save_file_as_force(path))
    }

    /// Prepare writing the document to `path` regardless of `readonly`
    /// (`:w! path`); once written the document takes that name.
    pub fn save_file_as_force(&self, path: &str) -> (q: SaveRequest)
        requires
            self.wf(),
        ensures
            q.path@ == path@,
            q.rename,
            q.content@ == crate::file::writer::file_text(self.document.buffer@, self.document.line_ending),
    {
        SaveRequest {
            path: path.to_owned(),
            content: crate::file::file_content(&self.document.buffer, self.document.line_ending),
            rename: true,
        }
    }

    /// Record that the write `req` put `bytes` bytes on disk: the document
    /// is unmodified (and named after the file when `req.rename`), and a
    /// message says so.
    pub fn finish_save(&mut self, req: &SaveRequest, bytes: usize)
        requires
            bytes == crate::text::byte_len(req.content@),
        ensures
            final(self).document.buffer == old(self).document.buffer,
            final(self).document.cursor == old(self).document.cursor,
            final(self).document.selection == old(self).document.selection,
            final(self).document.line_ending == old(self).document.line_ending,
            !final(self).document.modified,
            req.rename ==> opt_view(final(self).document.filename) == Some(req.path@)
                && opt_view(final(self).document.file_path) == Some(req.path@),
            !req.rename ==> final(self).document.filename == old(self).document.filename
                && final(self).document.file_path == old(self).document.file_path,
            final(self).state == (EditorState { status_message: final(self).state.status_message, ..old(self).state }),
            final(self).state.status_message matches Some(StatusMessage::WithPath { path, suffix })
                && path@ == req.path@ && suffix@ == written_suffix(bytes as nat),
    {
        if req.rename {
            self.document.file_path = Some(req.path.clone());
            self.document.filename = Some(req.path.clone());
        }
        self.document.modified = false;
        let mut suffix = " written, ".to_owned();
        let digits = decimal_string(bytes);
        append_str(&mut suffix, digits.as_str());
        append_str(&mut suffix, " bytes");
        self.state.status_message = Some(StatusMessage::WithPath { path: req.path.clone(), suffix });
    }

    /// Record that the document was preserved in `path` with `bytes` bytes.
    pub fn finish_preserve(&mut self, path: &str, bytes: usize)
        ensures
            final(self).document == old(self).document,
            final(self).state == (EditorState { status_message: final(self).state.status_message, ..old(self).state }),
            final(self).state.status_message matches Some(StatusMessage::WithPath { path: p, suffix })
                && p@ == path@ && suffix@ == seq![' '] + decimal(old(self).document.buffer@.len()) + " lines, "@
                + decimal(bytes as nat) + " bytes preserved"@,
    {
        let n = self.document.buffer.len();
        let mut suffix = String::new();
        push_char(&mut suffix, ' ');
        append_str(&mut suffix, decimal_string(n).as_str());
        append_str(&mut suffix, " lines, ");
        append_str(&mut suffix, decimal_string(bytes).as_str());
        append_str(&mut suffix, " bytes preserved");
        self.state.status_message = Some(StatusMessage::WithPath { path: path.to_owned(), suffix });
    }
}

/// `r` is the write of the document to its file, or the error for a
/// document without a file name.
pub open spec fn save_prepared(e: Editor, r: Result<SaveRequest, Error>) -> bool {
    match e.document.file_path {
        None => r matches Err(Error::File(FileError::NotFound(m))) && m@ == "No filename"@,
        Some(p) => r matches Ok(q) && q.path@ == p@ && !q.rename
            && q.content@ == crate::file::writer::file_text(e.document.buffer@, e.document.line_ending),
    }
}

/// The status message of `st1` is that of `st0` after reporting `count`
/// changed lines as `{count} {noun}`: set unless `terse` is on or the count
/// is below `report`.
pub open spec fn reported(st0: EditorState, st1: EditorState, count: nat, noun: Seq<char>) -> bool {
    if !st0.settings.terse && count >= st0.settings.report {
        st1.status_message matches Some(StatusMessage::Info(s)) && s@ == decimal(count) + seq![' '] + noun
    } else {
        st1.status_message == st0.status_message
    }
}

impl Editor {
    /// The argument-list checks shared by `:n` and `:N`: a message and
    /// `Stop` when there is no list or the document is modified without
    /// `autowrite`, `Save` when it is modified with `autowrite`.
    fn arg_list_gate(&mut self) -> (r: Option<ArgStep>)
        ensures
            final(self).document == old(self).document,
            ({
                let e = *old(self);
                let e2 = *final(self);
                if e.state.file_navigation.arg_list@.len() == 0 {
                    &&& r matches Some(ArgStep::Stop)
                    &&& e2.state == (EditorState { status_message: e2.state.status_message, ..e.state })
                    &&& e2.state.status_message matches Some(StatusMessage::Error(s)) && s@ == "(no argument list)"@
                } else if e.document.modified && !e.state.settings.autowrite {
                    &&& r matches Some(ArgStep::Stop)
                    &&& e2.state == (EditorState { status_message: e2.state.status_message, ..e.state })
                    &&& e2.state.status_message matches Some(StatusMessage::Error(s)) && s@
                        == "No write since last change (add ! to override)"@
                } else if e.document.modified {
                    &&& r matches Some(ArgStep::Save)
                    &&& e2.state == e.state
                } else {
                    &&& r is None
                    &&& e2.state == e.state
                }
            }),
    {
        if self.state.file_navigation.arg_list.len() == 0 {
            self.state.status_message = Some(StatusMessage::Error("(no argument list)".to_owned()));
            return Some(ArgStep::Stop);
        }
        if self.document.modified && !self.state.settings.autowrite {
            self.state.status_message = Some(
                StatusMessage::Error("No write since last change (add ! to override)".to_owned()),
            );
            return Some(ArgStep::Stop);
        }
        if self.document.modified {
            return Some(ArgStep::Save);
        }
        None
    }

    /// `:n` with a count: move forward `count` files in the argument list.
    /// Says what to do next: stop (with a message when refused or past the
    /// last file), write the document first, or open the target file.
    pub fn navigate_args(&mut self, count: usize) -> (r: ArgStep)
        requires
            old(self).state.file_navigation.arg_idx + count <= usize::MAX,
        ensures
            ({
                let nav = old(self).state.file_navigation;
                let t = nav.arg_idx + count;
                arg_move(
                    *old(self),
                    *final(self),
                    if t < nav.arg_list@.len() {
                        Some(t)
                    } else {
                        None
                    },
                    "Last file in argument list"@,
                    r,
                )
            }),
    {
        match self.arg_list_gate() {
            Some(step) => return step,
            None => {},
        }
        let new_idx = self.state.file_navigation.arg_idx + count;
        if new_idx >= self.state.file_navigation.arg_list.len() {
            self.state.status_message = Some(StatusMessage::Error("Last file in argument list".to_owned()));
            return ArgStep::Stop;
        }
        ArgStep::Open { index: new_idx, path: self.state.file_navigation.arg_list[new_idx].clone() }
    }

    /// `:N` with a count: move back `count` files in the argument list.
    /// Says what to do next, as `navigate_args` does.
    pub fn navigate_args_backward(&mut self, count: usize) -> (r: ArgStep)
        requires
            old(self).state.file_navigation.arg_list@.len() == 0 || old(self).state.file_navigation.arg_idx
                < old(self).state.file_navigation.arg_list@.len(),
        ensures
            ({
                let nav = old(self).state.file_navigation;
                arg_move(
                    *old(self),
                    *final(self),
                    if nav.arg_idx >= count {
                        Some(nav.arg_idx - count)
                    } else {
                        None
                    },
                    "First file in argument list"@,
                    r,
                )
            }),
    {
        match self.arg_list_gate() {
            Some(step) => return step,
            None => {},
        }
        if self.state.file_navigation.arg_idx < count {
            self.state.status_message = Some(StatusMessage::Error("First file in argument list".to_owned()));
            return ArgStep::Stop;
        }
        let new_idx = self.state.file_navigation.arg_idx - count;
        ArgStep::Open { index: new_idx, path: self.state.file_navigation.arg_list[new_idx].clone() }
    }

    /// Record that entry `index` of the argument list was opened, the file
    /// before it, `prev`, becoming the alternate file.
    pub fn arg_opened(&mut self, index: usize, prev: Option<String>)
        ensures
            final(self).document == old(self).document,
            final(self).state.file_navigation.arg_idx == index,
            final(self).state.file_navigation.alternate_file == prev,
            final(self).state.file_navigation.arg_list == old(self).state.file_navigation.arg_list,
            final(self).state == (EditorState { file_navigation: final(self).state.file_navigation, ..old(self).state }),
    {
        self.state.file_navigation.arg_idx = index;
        self.state.file_navigation.alternate_file = prev;
    }

    /// Start with the files given on the command line: open the first (with
    /// `first`, its contents as read, or none when it does not exist yet)
    /// and keep them all as the argument list. No files: nothing happens.
    pub fn set_arg_list(&mut self, files: Vec<String>, first: Option<ReadResult>)
        requires
            old(self).wf(),
        ensures
            final(self).wf(),
            files@.len() == 0 ==> *final(self) == *old(self),
            files@.len() > 0 ==> final(self).state.file_navigation.arg_list@ == files@
                && final(self).state.file_navigation.arg_idx == 0
                && opt_view(final(self).document.filename) == Some(files@[0]@),
    {
        if files.len() == 0 {
            return;
        }
        let name = files[0].clone();
        self.open_file(name.as_str(), first);
        self.state.file_navigation.arg_list = files;
        self.state.file_navigation.arg_idx = 0;
    }

    /// The base name recovery looks for: that of `filename` if given, else
    /// of the document's name, else `unnamed`.
    pub fn recover_base_name(&self, filename: &Option<String>) -> (s: String)
        ensures
            s@ == preserve_base(
                match filename {
                    Some(f) => Some(f@),
                    None => opt_view(self.document.filename),
                },
            ),
    {
        match filename {
            Some(f) => base_name_of(Some(f.as_str())),
            None => match &self.document.filename {
                Some(f) => base_name_of(Some(f.as_str())),
                None => base_name_of(None),
            },
        }
    }

    /// Load the preserve file `preserve_file`, read as `read`: its text
    /// replaces the document's, which counts as modified (it differs from
    /// the file on disk); with `filename`, the document takes that name.
    pub fn recover_buffer(&mut self, filename: Option<String>, preserve_file: &str, read: ReadResult)
        requires
            old(self).wf(),
        ensures
            final(self).wf(),
            final(self).document.buffer@ == text_lines(read.content@),
            final(self).document.cursor == (Cursor { row: 0, col: 0 }),
            final(self).document.selection is None,
            final(self).document.line_ending == read.line_ending,
            final(self).document.modified,
            match filename {
                Some(f) => opt_view(final(self).document.filename) == Some(f@) && opt_view(final(self).document.file_path) == Some(f@),
                None => final(self).document.filename == old(self).document.filename && final(self).document.file_path == old(self).document.file_path,
            },
            final(self).state.undo_history.spec_undo().len() == 0,
            final(self).state.undo_history.spec_redo().len() == 0,
            final(self).state.undo_history.spec_current() is None,
            final(self).state.viewport.spec_top() == crate::render::top_showing(
                old(self).state.viewport.spec_top() as int,
                old(self).state.viewport.spec_height() as int,
                0,
            ),
            final(self).state == (EditorState {
                undo_history: final(self).state.undo_history,
                viewport: final(self).state.viewport,
                status_message: final(self).state.status_message,
                ..old(self).state
            }),
            final(self).state.status_message matches Some(StatusMessage::Info(m)) && m@ == seq!['"'] + preserve_file@
                + seq!['"', ' '] + decimal(text_lines(read.content@).len()) + " lines recovered"@,
    {
        self.document.buffer = Buffer::from_string(read.content);
        self.document.cursor = Cursor::new(0, 0);
        self.document.selection = None;
        self.document.line_ending = read.line_ending;
        match filename {
            Some(f) => {
                self.document.filename = Some(f.clone());
                self.document.file_path = Some(f);
            },
            None => {},
        }
        self.document.modified = true;
        self.state.undo_history = UndoHistory::new();
        let n = self.document.buffer.len();
        self.state.viewport.ensure_visible(0, n);
        let mut m = String::new();
        push_char(&mut m, '"');
        append_str(&mut m, preserve_file);
        push_char(&mut m, '"');
        push_char(&mut m, ' ');
        append_str(&mut m, decimal_string(n).as_str());
        append_str(&mut m, " lines recovered");
        self.state.status_message = Some(StatusMessage::Info(m));
    }
}

} // verus!

verus! {

/// Where the cursor's line `row` (counted from 1) stands in a buffer of
/// `total` lines: `All` when empty, `Top` on the first line, `Bot` on or
/// past the last, else the percentage through it, rounded down.
pub open spec fn file_position(row: nat, total: nat) -> Seq<char> {
    if total == 0 {
        "All"@
    } else if row <= 1 {
        "Top"@
    } else if row >= total {
        "Bot"@
    } else {
        decimal(row * 100 / total) + "%"@
    }
}

/// The `Ctrl-G` message for `e`: the quoted file name (`[No Name]` without
/// one), ` [Modified]` when modified, the line count, the position and the
/// cursor's line, counted from 1.
pub open spec fn file_info_text(e: Editor) -> Seq<char> {
    let name = match e.document.filename {
        Some(f) => f@,
        None => "[No Name]"@,
    };
    let total = e.document.buffer@.len();
    let row = (e.document.cursor.row + 1) as nat;
    seq!['"'] + name + seq!['"'] + (if e.document.modified {
        " [Modified]"@
    } else {
        Seq::<char>::empty()
    }) + "  "@ + decimal(total) + " lines  --"@ + file_position(row, total) + "--  line "@
        + decimal(row)
}

impl Editor {
    /// `Ctrl-G`: show the file name, modified flag, line count and cursor
    /// position on the status line.
    #[verifier::spinoff_prover]
    #[verifier::rlimit(100)]
    pub fn show_file_info(&mut self)
        requires
            old(self).document.cursor.row < usize::MAX,
            1 < old(self).document.cursor.row + 1 < old(self).document.buffer@.len() ==> (
            old(self).document.cursor.row + 1) * 100 <= usize::MAX,
        ensures
            file_info_shown(*old(self), *final(self)),

    {
        let mut msg = String::new();
        push_char(&mut msg, '"');
        match &self.document.filename {
            Some(f) => append_str(&mut msg, f.as_str()),
            None => append_str(&mut msg, "[No Name]"),
        }
        push_char(&mut msg, '"');
        if self.document.modified {
            append_str(&mut msg, " [Modified]");
        }
        let total = self.document.buffer.len();
        let row = self.document.cursor.row + 1;
        append_str(&mut msg, "  ");
        append_str(&mut msg, decimal_string(total).as_str());
        append_str(&mut msg, " lines  --");
        if total == 0 {
            append_str(&mut msg, "All");
        } else if row <= 1 {
            append_str(&mut msg, "Top");
        } else if row >= total {
            append_str(&mut msg, "Bot");
        } else {
            let pct = row * 100 / total;
            append_str(&mut msg, decimal_string(pct).as_str());
            append_str(&mut msg, "%");
        }
        append_str(&mut msg, "--  line ");
        append_str(&mut msg, decimal_string(row).as_str());
        let ghost text = msg@;
        assert(text == file_info_text(*old(self)));
        self.state.status_message = Some(StatusMessage::Info(msg));
    }
}

} // verus!

verus! {

/// What Ctrl-G does to `e`, giving `e2`.
pub open spec fn file_info_shown(e: Editor, e2: Editor) -> bool {
    &&& (e2.document == e.document)
    &&& (e2.state == (EditorState {
        status_message: e2.state.status_message,
        ..e.state
    }))
    &&& (e2.state.status_message matches Some(StatusMessage::Info(s)) && s@
        == file_info_text(e))
}

} // verus!
