//! The text written back to disk, and the options of a write.

use vstd::prelude::*;
use crate::buffer::{split_all, text_lines, Buffer};
use crate::file::encoding::{
    add_counts, clean_seam, detected_ending, ending_chars, ending_counts,
    lemma_counts_concat, lemma_counts_no_line_break, lemma_normalize_concat,
    lemma_normalize_no_cr_identity, no_line_break, normalized_text, LineEnding,
};
use crate::text::append_str;

verus! {

/// Options controlling write behavior.
#[derive(Debug)]
pub struct WriteOptions {
    /// Line ending to use when writing.
    pub line_ending: LineEnding,
    /// Whether to write atomically (write to a temporary file, then rename).
    pub atomic: bool,
    /// Whether to create a backup of the original file before overwriting.
    pub backup: bool,
    /// Backup suffix (e.g. "~" produces "file.txt~").
    pub backup_suffix: String,
}

impl Default for WriteOptions {
    fn default() -> (o: WriteOptions)
        ensures
            o.line_ending == LineEnding::Lf,
            o.atomic,
            !o.backup,
            o.backup_suffix@ == "~"@,
    {
        WriteOptions {
            line_ending: LineEnding::Lf,
            atomic: true,
            backup: false,
            backup_suffix: "~".to_owned(),
        }
    }
}

/// The text of a file holding `lines`: every line followed by the line
/// ending, so the file always ends with one (vi convention).
pub open spec fn file_text(lines: Seq<Seq<char>>, e: LineEnding) -> Seq<char>
    decreases lines.len(),
{
    if lines.len() == 0 {
        Seq::empty()
    } else {
        file_text(lines.drop_last(), e) + lines.last() + ending_chars(e)
    }
}

/// The text to write for `buffer` with line ending `e`.
pub fn file_content(buffer: &Buffer, e: LineEnding) -> (s: String)
    requires
        buffer.wf(),
    ensures
        s@ == file_text(buffer@, e),
{
    let lines = buffer.lines();
    let sep = e.as_str();
    let mut s = String::new();
    let mut i: usize = 0;
    while i < lines.len()
        invariant
            i <= lines@.len(),
            lines@.map_values(|l: String| l@) == buffer@,
            sep@ == ending_chars(e),
            s@ == file_text(buffer@.take(i as int), e),
        decreases lines.len() - i,
    {
        append_str(&mut s, lines[i].as_str());
        append_str(&mut s, sep);
        assert(buffer@.take(i + 1).drop_last() =~= buffer@.take(i as int));
        i = i + 1;
    }
    assert(buffer@.take(i as int) =~= buffer@);
    s
}

} // verus!

verus! {

/// `s` holds no line feed.
pub open spec fn no_newline(s: Seq<char>) -> bool {
    forall|i: int| 0 <= i < s.len() ==> s[i] != '\n'
}

/// Appending text without a line feed extends the last line.
proof fn lemma_split_all_append_plain(t: Seq<char>, u: Seq<char>)
    requires
        no_newline(u),
    ensures
        split_all(t + u) == split_all(t).update(
            split_all(t).len() - 1,
            split_all(t).last() + u,
        ),
    decreases u.len(),
{
    crate::buffer::lemma_split_all_nonempty(t);
    if u.len() == 0 {
        assert(t + u =~= t);
        assert(split_all(t).last() + u =~= split_all(t).last());
        assert(split_all(t).update(split_all(t).len() - 1, split_all(t).last()) =~= split_all(t));
    } else {
        let u0 = u.drop_last();
        lemma_split_all_append_plain(t, u0);
        assert((t + u).drop_last() =~= t + u0);
        assert((t + u).last() == u.last());
        assert(u0.push(u.last()) =~= u);
        let p = split_all(t);
        assert(split_all(t + u0).update(
            split_all(t + u0).len() - 1,
            split_all(t + u0).last().push(u.last()),
        ) =~= p.update(p.len() - 1, p.last() + u));
    }
}

/// The LF text of the first `n` lines, without its final line feed, splits
/// back into those lines.
proof fn lemma_split_written_prefix(lines: Seq<Seq<char>>, n: int)
    requires
        1 <= n <= lines.len(),
        forall|i: int| 0 <= i < lines.len() ==> no_newline(#[trigger] lines[i]),
    ensures
        split_all(file_text(lines.take(n), LineEnding::Lf).drop_last()) == lines.take(n),
    decreases n,
{
    let prev = file_text(lines.take(n - 1), LineEnding::Lf);
    let l = lines[n - 1];
    assert(lines.take(n).drop_last() =~= lines.take(n - 1));
    assert(file_text(lines.take(n), LineEnding::Lf).drop_last() =~= prev + l);
    assert(no_newline(l));
    lemma_split_all_append_plain(prev, l);
    if n == 1 {
        assert(prev =~= Seq::<char>::empty());
        assert(split_all(prev) =~= seq![Seq::<char>::empty()]);
        assert(Seq::<char>::empty() + l =~= l);
        assert(lines.take(1) =~= seq![l]);
    } else {
        lemma_split_written_prefix(lines, n - 1);
        assert(prev.len() > 0 && prev.last() == '\n');
        assert(split_all(prev) == lines.take(n - 1).push(Seq::<char>::empty()));
        assert(Seq::<char>::empty() + l =~= l);
        assert(lines.take(n - 1).push(Seq::<char>::empty()).update(n - 1, l) =~= lines.take(n));
    }
}

/// Law: LF text written for lines without line feeds splits back into
/// exactly those lines (no line is lost or added by the trailing newline).
pub proof fn law_written_lines_read_back(lines: Seq<Seq<char>>)
    requires
        lines.len() >= 1,
        forall|i: int| 0 <= i < lines.len() ==> no_newline(#[trigger] lines[i]),
    ensures
        text_lines(file_text(lines, LineEnding::Lf)) == lines,
{
    lemma_split_written_prefix(lines, lines.len() as int);
    assert(lines.take(lines.len() as int) =~= lines);
}

/// Normalizing written text gives the LF text of the same lines, and its
/// line endings are all of the written kind.
proof fn lemma_written_normalize_counts(lines: Seq<Seq<char>>, e: LineEnding)
    requires
        forall|i: int| 0 <= i < lines.len() ==> no_line_break(#[trigger] lines[i]),
    ensures
        normalized_text(file_text(lines, e)) == file_text(lines, LineEnding::Lf),
        ending_counts(file_text(lines, e)) == (match e {
            LineEnding::Lf => (lines.len(), 0nat, 0nat),
            LineEnding::CrLf => (0nat, lines.len(), 0nat),
            LineEnding::Cr => (0nat, 0nat, lines.len()),
        }),
        file_text(lines, e).len() > 0 ==> file_text(lines, e).last() == ending_chars(e).last(),
    decreases lines.len(),
{
    if lines.len() > 0 {
        let init = lines.drop_last();
        let l = lines.last();
        let a = file_text(init, e);
        let sep = ending_chars(e);
        assert forall|i: int| 0 <= i < init.len() implies no_line_break(#[trigger] init[i]) by {
            assert(init[i] == lines[i]);
        }
        lemma_written_normalize_counts(init, e);
        assert(no_line_break(l)) by {
            assert(l == lines[lines.len() - 1]);
        }
        assert(file_text(lines, e) == a + (l + sep)) by {
            assert(a + l + sep =~= a + (l + sep));
        }
        // The seam between earlier lines and this line creates no CR LF pair.
        assert(clean_seam(a, l + sep)) by {
            if a.len() > 0 && a.last() == '\r' && (l + sep).len() > 0 {
                if l.len() > 0 {
                    assert((l + sep)[0] == l[0]);
                } else {
                    assert((l + sep)[0] == sep[0]);
                }
            }
        }
        assert(clean_seam(l, sep)) by {
            if l.len() > 0 {
                assert(l.last() == l[l.len() - 1]);
            }
        }
        lemma_normalize_concat(a, l + sep);
        lemma_normalize_concat(l, sep);
        lemma_counts_concat(a, l + sep);
        lemma_counts_concat(l, sep);
        lemma_counts_no_line_break(l);
        assert(crate::file::encoding::no_cr(l));
        lemma_normalize_no_cr_identity(l);
        assert(normalized_text(sep) =~= seq!['\n']) by {
            reveal_with_fuel(normalized_text, 3);
            assert(seq!['\r', '\n'].skip(2) =~= Seq::<char>::empty());
            assert(seq!['\r'].skip(1) =~= Seq::<char>::empty());
            assert(seq!['\n'].skip(1) =~= Seq::<char>::empty());
        }
        assert(ending_counts(sep) == (match e {
            LineEnding::Lf => (1nat, 0nat, 0nat),
            LineEnding::CrLf => (0nat, 1nat, 0nat),
            LineEnding::Cr => (0nat, 0nat, 1nat),
        })) by {
            reveal_with_fuel(ending_counts, 3);
            assert(seq!['\r', '\n'].skip(2) =~= Seq::<char>::empty());
            assert(seq!['\r'].skip(1) =~= Seq::<char>::empty());
            assert(seq!['\n'].skip(1) =~= Seq::<char>::empty());
        }
        assert(file_text(lines, LineEnding::Lf) =~= file_text(init, LineEnding::Lf) + l
            + seq!['\n']);
        assert(normalized_text(file_text(lines, e)) =~= file_text(lines, LineEnding::Lf));
    }
}

/// Law: text written with any line ending, once its line endings are
/// normalized, splits back into the written lines, and its line ending is
/// detected as the one it was written with.
pub proof fn law_write_read_round_trip(lines: Seq<Seq<char>>, e: LineEnding)
    requires
        lines.len() >= 1,
        forall|i: int| 0 <= i < lines.len() ==> no_line_break(#[trigger] lines[i]),
    ensures
        text_lines(normalized_text(file_text(lines, e))) == lines,
        detected_ending(file_text(lines, e)) == e,
{
    lemma_written_normalize_counts(lines, e);
    assert forall|i: int| 0 <= i < lines.len() implies no_newline(#[trigger] lines[i]) by {
        assert(no_line_break(lines[i]));
    }
    law_written_lines_read_back(lines);
}


/// Law: the bytes written for lines without line breaks, read back,
/// decode (with no BOM to strip) to the lines each followed by a line feed,
/// which split back into the lines, with the line ending detected as the
/// one they were written with. Bytes that begin as a BOM does (a first
/// line starting with U+FEFF) are left out: reading strips them.
pub proof fn law_written_bytes_read_back(lines: Seq<Seq<char>>, e: LineEnding)
    requires
        lines.len() >= 1,
        forall|i: int| 0 <= i < lines.len() ==> no_line_break(#[trigger] lines[i]),
        !(vstd::utf8::encode_utf8(file_text(lines, e)).len() >= 3 && vstd::utf8::encode_utf8(
            file_text(lines, e),
        ).take(3) == crate::file::encoding::bom()),
    ensures
        ({
            let b = vstd::utf8::encode_utf8(file_text(lines, e));
            &&& crate::file::reader::after_bom(b) == b
            &&& vstd::utf8::valid_utf8(crate::file::reader::after_bom(b))
            &&& normalized_text(vstd::utf8::decode_utf8(crate::file::reader::after_bom(b))) == file_text(
                lines,
                LineEnding::Lf,
            )
            &&& text_lines(normalized_text(vstd::utf8::decode_utf8(crate::file::reader::after_bom(b))))
                == lines
            &&& detected_ending(vstd::utf8::decode_utf8(crate::file::reader::after_bom(b))) == e
        }),
{
    let t = file_text(lines, e);
    vstd::utf8::encode_utf8_valid_utf8(t);
    vstd::utf8::encode_utf8_decode_utf8(t);
    lemma_written_normalize_counts(lines, e);
    law_write_read_round_trip(lines, e);
}

} // verus!
