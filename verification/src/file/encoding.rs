//! Line ending detection and encoding utilities.

use vstd::prelude::*;
use crate::text::{chars_of, string_from_chars};

verus! {

/// Detected line ending style, stored per document so writes preserve it.
#[derive(Debug, Clone, Copy, PartialEq, Eq, Structural)]
pub enum LineEnding {
    /// Unix-style: `\n` (default)
    Lf,
    /// Windows-style: `\r\n`
    CrLf,
    /// Classic Mac-style: `\r`
    Cr,
}

impl Default for LineEnding {
    fn default() -> (e: LineEnding)
        ensures
            e == LineEnding::Lf,
    {
        LineEnding::Lf
    }
}

/// The characters written for a line ending.
pub open spec fn ending_chars(e: LineEnding) -> Seq<char> {
    match e {
        LineEnding::Lf => seq!['\n'],
        LineEnding::CrLf => seq!['\r', '\n'],
        LineEnding::Cr => seq!['\r'],
    }
}

impl LineEnding {
    /// Return the character sequence for this line ending.
    pub fn as_str(&self) -> (s: &'static str)
        ensures
            s@ == ending_chars(*self),
    {
        match self {
            LineEnding::Lf => {
                proof {
                    reveal_strlit("\n");
                }
                "\n"
            },
            LineEnding::CrLf => {
                proof {
                    reveal_strlit("\r\n");
                }
                "\r\n"
            },
            LineEnding::Cr => {
                proof {
                    reveal_strlit("\r");
                }
                "\r"
            },
        }
    }

    /// Display name for the status line (e.g. "[dos]" for CrLf).
    pub fn display_name(&self) -> (s: &'static str)
        ensures
            s@ == (match *self {
                LineEnding::Lf => ""@,
                LineEnding::CrLf => "[dos]"@,
                LineEnding::Cr => "[mac]"@,
            }),
    {
        match self {
            LineEnding::Lf => "",
            LineEnding::CrLf => "[dos]",
            LineEnding::Cr => "[mac]",
        }
    }
}

/// The UTF-8 byte order mark.
pub open spec fn bom() -> Seq<u8> {
    seq![0xEFu8, 0xBBu8, 0xBFu8]
}

/// Strip a UTF-8 BOM from the beginning of `bytes` if present.
///
/// Returns the remaining bytes and whether a BOM was removed.
pub fn strip_bom(bytes: &[u8]) -> (r: (&[u8], bool))
    ensures
        r.1 == (bytes@.len() >= 3 && bytes@.take(3) == bom()),
        r.1 ==> r.0@ == bytes@.skip(3),
        !r.1 ==> r.0@ == bytes@,
{
    if bytes.len() >= 3 && bytes[0] == 0xEF && bytes[1] == 0xBB && bytes[2] == 0xBF {
        assert(bytes@.take(3) =~= bom());
        let rest = vstd::slice::slice_subrange(bytes, 3, bytes.len());
        assert(rest@ =~= bytes@.skip(3));
        (rest, true)
    } else {
        proof {
            if bytes@.len() >= 3 && bytes@.take(3) == bom() {
                assert(bytes@[0] == bytes@.take(3)[0]);
                assert(bytes@[1] == bytes@.take(3)[1]);
                assert(bytes@[2] == bytes@.take(3)[2]);
            }
        }
        (bytes, false)
    }
}

/// Counts of (LF, CRLF, lone CR) line endings in `s`, scanning left to right
/// so that a CR directly followed by LF counts once as CRLF.
pub open spec fn ending_counts(s: Seq<char>) -> (nat, nat, nat)
    decreases s.len(),
{
    if s.len() == 0 {
        (0, 0, 0)
    } else if s[0] == '\r' && s.len() >= 2 && s[1] == '\n' {
        let c = ending_counts(s.skip(2));
        (c.0, c.1 + 1, c.2)
    } else if s[0] == '\r' {
        let c = ending_counts(s.skip(1));
        (c.0, c.1, c.2 + 1)
    } else if s[0] == '\n' {
        let c = ending_counts(s.skip(1));
        (c.0 + 1, c.1, c.2)
    } else {
        ending_counts(s.skip(1))
    }
}

/// The predominant line ending given the counts: CRLF wins ties with both
/// others, CR wins a tie with LF, and LF is the fallback.
pub open spec fn predominant(lf: nat, crlf: nat, cr: nat) -> LineEnding {
    if crlf >= lf && crlf >= cr && crlf > 0 {
        LineEnding::CrLf
    } else if cr >= lf && cr > 0 {
        LineEnding::Cr
    } else {
        LineEnding::Lf
    }
}

/// The line ending detected in a text.
pub open spec fn detected_ending(s: Seq<char>) -> LineEnding {
    let c = ending_counts(s);
    predominant(c.0, c.1, c.2)
}

/// Detect the predominant line ending in a string.
pub fn detect_line_ending(text: &str) -> (e: LineEnding)
    ensures
        e == detected_ending(text@),
{
    let cs = chars_of(text);
    let mut lf_count: usize = 0;
    let mut crlf_count: usize = 0;
    let mut cr_count: usize = 0;
    let mut i: usize = 0;
    assert(cs@.skip(0) =~= cs@);
    while i < cs.len()
        invariant
            i <= cs@.len(),
            lf_count + crlf_count + cr_count <= i,
            ({
                let rest = ending_counts(cs@.skip(i as int));
                ending_counts(cs@) == (
                    (lf_count + rest.0) as nat,
                    (crlf_count + rest.1) as nat,
                    (cr_count + rest.2) as nat,
                )
            }),
        decreases cs.len() - i,
    {
        let ghost rest = cs@.skip(i as int);
        if cs[i] == '\r' {
            if i + 1 < cs.len() && cs[i + 1] == '\n' {
                assert(rest.skip(2) =~= cs@.skip(i + 2));
                crlf_count = crlf_count + 1;
                i = i + 2;
                continue;
            }
            cr_count = cr_count + 1;
        } else if cs[i] == '\n' {
            lf_count = lf_count + 1;
        }
        assert(rest.skip(1) =~= cs@.skip(i + 1));
        i = i + 1;
    }
    assert(cs@.skip(i as int) =~= Seq::<char>::empty());
    if crlf_count >= lf_count && crlf_count >= cr_count && crlf_count > 0 {
        LineEnding::CrLf
    } else if cr_count >= lf_count && cr_count > 0 {
        LineEnding::Cr
    } else {
        LineEnding::Lf
    }
}

/// `s` with every CRLF pair, and then every remaining CR, turned into LF.
pub open spec fn normalized_text(s: Seq<char>) -> Seq<char>
    decreases s.len(),
{
    if s.len() == 0 {
        s
    } else if s[0] == '\r' && s.len() >= 2 && s[1] == '\n' {
        seq!['\n'] + normalized_text(s.skip(2))
    } else if s[0] == '\r' {
        seq!['\n'] + normalized_text(s.skip(1))
    } else {
        seq![s[0]] + normalized_text(s.skip(1))
    }
}

/// Normalize all line endings to `\n` for internal storage.
pub fn normalize_line_endings(text: &str) -> (r: String)
    ensures
        r@ == normalized_text(text@),
{
    let cs = chars_of(text);
    let mut out: Vec<char> = Vec::new();
    let mut i: usize = 0;
    assert(cs@.skip(0) =~= cs@);
    assert(out@ + cs@ =~= cs@);
    while i < cs.len()
        invariant
            i <= cs@.len(),
            normalized_text(cs@) == out@ + normalized_text(cs@.skip(i as int)),
        decreases cs.len() - i,
    {
        let ghost rest = cs@.skip(i as int);
        let ghost old_out = out@;
        if cs[i] == '\r' {
            out.push('\n');
            if i + 1 < cs.len() && cs[i + 1] == '\n' {
                assert(rest.skip(2) =~= cs@.skip(i + 2));
                assert(old_out + (seq!['\n'] + normalized_text(rest.skip(2))) =~= out@
                    + normalized_text(cs@.skip(i + 2)));
                i = i + 2;
            } else {
                assert(rest.skip(1) =~= cs@.skip(i + 1));
                assert(old_out + (seq!['\n'] + normalized_text(rest.skip(1))) =~= out@
                    + normalized_text(cs@.skip(i + 1)));
                i = i + 1;
            }
        } else {
            out.push(cs[i]);
            assert(rest.skip(1) =~= cs@.skip(i + 1));
            assert(old_out + (seq![rest[0]] + normalized_text(rest.skip(1))) =~= out@
                + normalized_text(cs@.skip(i + 1)));
            i = i + 1;
        }
    }
    assert(cs@.skip(i as int) =~= Seq::<char>::empty());
    assert(out@ + Seq::<char>::empty() =~= out@);
    string_from_chars(out.as_slice())
}

} // verus!

verus! {

/// `s` holds no carriage return.
pub open spec fn no_cr(s: Seq<char>) -> bool {
    forall|i: int| 0 <= i < s.len() ==> s[i] != '\r'
}

/// `s` holds neither a carriage return nor a line feed.
pub open spec fn no_line_break(s: Seq<char>) -> bool {
    forall|i: int| 0 <= i < s.len() ==> s[i] != '\r' && s[i] != '\n'
}

/// Joining `a` and `b` does not create a CR LF pair across the seam.
pub open spec fn clean_seam(a: Seq<char>, b: Seq<char>) -> bool {
    !(a.len() > 0 && a.last() == '\r' && b.len() > 0 && b[0] == '\n')
}

/// Normalized text never holds a carriage return.
pub proof fn lemma_normalized_no_cr(s: Seq<char>)
    ensures
        no_cr(normalized_text(s)),
    decreases s.len(),
{
    if s.len() > 0 {
        if s[0] == '\r' && s.len() >= 2 && s[1] == '\n' {
            lemma_normalized_no_cr(s.skip(2));
        } else {
            lemma_normalized_no_cr(s.skip(1));
        }
        let n = normalized_text(s);
        assert forall|i: int| 0 <= i < n.len() implies n[i] != '\r' by {
            if i > 0 {
                if s[0] == '\r' && s.len() >= 2 && s[1] == '\n' {
                    assert(n[i] == normalized_text(s.skip(2))[i - 1]);
                } else {
                    assert(n[i] == normalized_text(s.skip(1))[i - 1]);
                }
            }
        }
    }
}

/// Text without carriage returns is left unchanged by normalization.
pub proof fn lemma_normalize_no_cr_identity(s: Seq<char>)
    requires
        no_cr(s),
    ensures
        normalized_text(s) == s,
    decreases s.len(),
{
    if s.len() > 0 {
        lemma_normalize_no_cr_identity(s.skip(1));
        assert(seq![s[0]] + s.skip(1) =~= s);
    }
}

/// Normalizing line endings twice is the same as normalizing once.
pub proof fn lemma_normalize_idempotent(s: Seq<char>)
    ensures
        normalized_text(normalized_text(s)) == normalized_text(s),
{
    lemma_normalized_no_cr(s);
    lemma_normalize_no_cr_identity(normalized_text(s));
}

/// Normalization distributes over a concatenation that creates no CR LF pair.
#[verifier::spinoff_prover]
#[verifier::rlimit(40)]
pub proof fn lemma_normalize_concat(a: Seq<char>, b: Seq<char>)
    requires
        clean_seam(a, b),
    ensures
        normalized_text(a + b) == normalized_text(a) + normalized_text(b),
    decreases a.len(),
{
    if a.len() == 0 {
        assert(a + b =~= b);
    } else if a[0] == '\r' && a.len() >= 2 && a[1] == '\n' {
        assert((a + b).skip(2) =~= a.skip(2) + b);
        lemma_normalize_concat(a.skip(2), b);
    } else {
        assert((a + b).skip(1) =~= a.skip(1) + b);
        assert((a + b)[0] == a[0]);
        if a.len() == 1 {
            assert(a.skip(1) + b =~= b);
            assert(a.skip(1) =~= Seq::<char>::empty());
            assert(normalized_text(a.skip(1)) =~= Seq::<char>::empty());
        } else {
            lemma_normalize_concat(a.skip(1), b);
        }
        let h = if a[0] == '\r' {
            '\n'
        } else {
            a[0]
        };
        assert(normalized_text(a) == seq![h] + normalized_text(a.skip(1)));
        assert(seq![h] + (normalized_text(a.skip(1)) + normalized_text(b)) =~= (seq![h] + normalized_text(a.skip(1))) + normalized_text(b));
    }
}

/// Line-ending counts of a sum of texts.
pub open spec fn add_counts(x: (nat, nat, nat), y: (nat, nat, nat)) -> (nat, nat, nat) {
    (x.0 + y.0, x.1 + y.1, x.2 + y.2)
}

/// Line-ending counts add up over a concatenation that creates no CR LF pair.
pub proof fn lemma_counts_concat(a: Seq<char>, b: Seq<char>)
    requires
        clean_seam(a, b),
    ensures
        ending_counts(a + b) == add_counts(ending_counts(a), ending_counts(b)),
    decreases a.len(),
{
    if a.len() == 0 {
        assert(a + b =~= b);
    } else if a[0] == '\r' && a.len() >= 2 && a[1] == '\n' {
        assert((a + b).skip(2) =~= a.skip(2) + b);
        lemma_counts_concat(a.skip(2), b);
    } else {
        assert((a + b).skip(1) =~= a.skip(1) + b);
        assert((a + b)[0] == a[0]);
        if a.len() == 1 {
            assert(a.skip(1) + b =~= b);
            assert(a.skip(1) =~= Seq::<char>::empty());
            assert(ending_counts(a.skip(1)) == (0nat, 0nat, 0nat));
        } else {
            assert((a + b)[1] == a[1]);
            lemma_counts_concat(a.skip(1), b);
        }
    }
}

/// Text without line breaks has no line endings.
pub proof fn lemma_counts_no_line_break(s: Seq<char>)
    requires
        no_line_break(s),
    ensures
        ending_counts(s) == (0nat, 0nat, 0nat),
    decreases s.len(),
{
    if s.len() > 0 {
        lemma_counts_no_line_break(s.skip(1));
    }
}

/// Normalized text is always detected as LF text.
pub proof fn lemma_normalized_detects_lf(s: Seq<char>)
    ensures
        detected_ending(normalized_text(s)) == LineEnding::Lf,
{
    lemma_normalized_no_cr(s);
    lemma_counts_no_cr(normalized_text(s));
}

/// Text without carriage returns counts no CRLF and no CR.
pub proof fn lemma_counts_no_cr(s: Seq<char>)
    requires
        no_cr(s),
    ensures
        ending_counts(s).1 == 0,
        ending_counts(s).2 == 0,
    decreases s.len(),
{
    if s.len() > 0 {
        lemma_counts_no_cr(s.skip(1));
    }
}

} // verus!

verus! {

/// The number of line feeds in `s`.
pub open spec fn lf_count(s: Seq<char>) -> nat
    decreases s.len(),
{
    if s.len() == 0 {
        0
    } else {
        (if s[0] == '\n' {
            1nat
        } else {
            0nat
        }) + lf_count(s.skip(1))
    }
}

/// `s` without its carriage returns and line feeds.
pub open spec fn without_breaks(s: Seq<char>) -> Seq<char>
    decreases s.len(),
{
    if s.len() == 0 {
        s
    } else if s[0] == '\r' || s[0] == '\n' {
        without_breaks(s.skip(1))
    } else {
        seq![s[0]] + without_breaks(s.skip(1))
    }
}

/// Normalizing line endings turns each line ending of `s` (CR LF, a lone
/// CR or a lone LF) into exactly one LF, and changes nothing else: the
/// text without its line breaks is the same before and after.
pub proof fn law_normalize_keeps_lines(s: Seq<char>)
    ensures
        lf_count(normalized_text(s)) == ending_counts(s).0 + ending_counts(s).1 + ending_counts(s).2,
        without_breaks(normalized_text(s)) == without_breaks(s),
    decreases s.len(),
{
    if s.len() == 0 {
    } else if s[0] == '\r' && s.len() >= 2 && s[1] == '\n' {
        law_normalize_keeps_lines(s.skip(2));
        let n = normalized_text(s.skip(2));
        let t = seq!['\n'] + n;
        assert(t.skip(1) =~= n);
        assert(s.skip(1).skip(1) =~= s.skip(2));
        assert(s.skip(1)[0] == '\n');
        assert(without_breaks(s.skip(1)) == without_breaks(s.skip(2)));
        assert(without_breaks(t) == without_breaks(n));
    } else if s[0] == '\r' {
        law_normalize_keeps_lines(s.skip(1));
        let n = normalized_text(s.skip(1));
        assert((seq!['\n'] + n).skip(1) =~= n);
        assert(without_breaks(seq!['\n'] + n) == without_breaks(n));
    } else {
        law_normalize_keeps_lines(s.skip(1));
        let n = normalized_text(s.skip(1));
        let t = seq![s[0]] + n;
        assert(t.skip(1) =~= n);
        assert(t[0] == s[0]);
    }
}

} // verus!
