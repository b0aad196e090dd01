//! Character-level text model shared by the buffer and the editor.
//!
//! Lines are modelled as sequences of `char`; column positions are byte
//! offsets into the UTF-8 encoding of a line, as in the rest of the editor.

use vstd::prelude::*;

verus! {

/// Number of bytes in the UTF-8 encoding of `c`.
pub open spec fn char_width(c: char) -> nat {
    if (c as u32) < 0x80 {
        1
    } else if (c as u32) < 0x800 {
        2
    } else if (c as u32) < 0x10000 {
        3
    } else {
        4
    }
}

/// Number of bytes in the UTF-8 encoding of `s`.
pub open spec fn byte_len(s: Seq<char>) -> nat
    decreases s.len(),
{
    if s.len() == 0 {
        0
    } else {
        byte_len(s.drop_last()) + char_width(s.last())
    }
}

/// `col` is the byte offset of the start of some character of `s` (or of its end).
pub open spec fn is_boundary(s: Seq<char>, col: int) -> bool {
    exists|k: int| 0 <= k <= s.len() && #[trigger] byte_len(s.take(k)) == col
}

/// The character index whose start lies at byte offset `col`.
pub open spec fn char_index(s: Seq<char>, col: int) -> int {
    choose|k: int| 0 <= k <= s.len() && #[trigger] byte_len(s.take(k)) == col
}

/// Byte length is additive over concatenation.
pub proof fn lemma_byte_len_concat(a: Seq<char>, b: Seq<char>)
    ensures
        byte_len(a + b) == byte_len(a) + byte_len(b),
    decreases b.len(),
{
    if b.len() == 0 {
        assert(a + b =~= a);
    } else {
        lemma_byte_len_concat(a, b.drop_last());
        assert((a + b).drop_last() =~= a + b.drop_last());
    }
}

/// The byte length of a one-character sequence.
pub proof fn lemma_byte_len_single(c: char)
    ensures
        byte_len(seq![c]) == char_width(c),
{
    assert(seq![c].drop_last() =~= Seq::<char>::empty());
    assert(byte_len(Seq::<char>::empty()) == 0);
    assert(seq![c].last() == c);
}

/// Extending a prefix by one character adds that character's width.
pub proof fn lemma_byte_len_take_step(s: Seq<char>, k: int)
    requires
        0 <= k < s.len(),
    ensures
        byte_len(s.take(k + 1)) == byte_len(s.take(k)) + char_width(s[k]),
{
    assert(s.take(k + 1).drop_last() =~= s.take(k));
}

/// Prefix byte lengths are strictly increasing in the prefix length.
pub proof fn lemma_byte_len_take_strict(s: Seq<char>, i: int, j: int)
    requires
        0 <= i < j <= s.len(),
    ensures
        byte_len(s.take(i)) < byte_len(s.take(j)),
    decreases j - i,
{
    lemma_byte_len_take_step(s, j - 1);
    if i < j - 1 {
        lemma_byte_len_take_strict(s, i, j - 1);
    }
}

/// A byte boundary determines its character index uniquely.
pub proof fn lemma_char_index_unique(s: Seq<char>, k: int)
    requires
        0 <= k <= s.len(),
    ensures
        is_boundary(s, byte_len(s.take(k)) as int),
        char_index(s, byte_len(s.take(k)) as int) == k,
{
    let col = byte_len(s.take(k)) as int;
    assert(is_boundary(s, col));
    let j = char_index(s, col);
    if j < k {
        lemma_byte_len_take_strict(s, j, k);
    } else if k < j {
        lemma_byte_len_take_strict(s, k, j);
    }
}

/// A whole sequence is its own prefix.
pub proof fn lemma_take_full(s: Seq<char>)
    ensures
        s.take(s.len() as int) =~= s,
{
}

/// The UTF-8 width of a character.
pub fn utf8_width(c: char) -> (w: usize)
    ensures
        w == char_width(c),
        1 <= w <= 4,
{
    let u: u32 = c as u32;
    if u < 0x80 {
        1
    } else if u < 0x800 {
        2
    } else if u < 0x10000 {
        3
    } else {
        4
    }
}

/// Appends `c` to `s`.
///
/// Trusted: `String::push`, which appends one character to a string.
#[verifier::external_body]
pub fn push_char(s: &mut String, c: char)
    ensures
        final(s)@ == old(s)@.push(c),
{
    s.push(c);
}

/// The byte length of a string.
///
/// Trusted: `str::len`, which returns the number of bytes of the UTF-8
/// encoding. The contract also states that this is at most `isize::MAX`,
/// the most bytes any Rust value (and so any string) can occupy.
#[verifier::external_body]
pub fn str_byte_len(s: &str) -> (n: usize)
    ensures
        n == byte_len(s@),
        n <= isize::MAX,
{
    s.len()
}

/// The characters of a string, in order.
pub fn chars_of(s: &str) -> (v: Vec<char>)
    ensures
        v@ == s@,
{
    let mut v: Vec<char> = Vec::new();
    for c in it: s.chars()
        invariant
            v@ == it.seq().take(it.index() as int),
            it.seq() == s@,
    {
        v.push(c);
    }
    v
}

/// A string holding the given characters.
pub fn string_from_chars(cs: &[char]) -> (s: String)
    ensures
        s@ == cs@,
{
    let mut s = String::new();
    let mut i: usize = 0;
    while i < cs.len()
        invariant
            i <= cs.len(),
            s@ == cs@.take(i as int),
        decreases cs.len() - i,
    {
        push_char(&mut s, cs[i]);
        assert(cs@.take(i as int).push(cs@[i as int]) =~= cs@.take(i + 1));
        i = i + 1;
    }
    assert(cs@.take(cs.len() as int) =~= cs@);
    s
}

} // verus!

verus! {

/// The decimal digit character for `d < 10`.
pub open spec fn digit_char(d: nat) -> char {
    (('0' as u32) + d) as char
}

/// The decimal representation of `n`, without leading zeros.
pub open spec fn decimal(n: nat) -> Seq<char>
    decreases n,
{
    if n < 10 {
        seq![digit_char(n)]
    } else {
        decimal(n / 10).push(digit_char(n % 10))
    }
}

/// Formats `n` in decimal.
pub fn decimal_string(n: usize) -> (s: String)
    ensures
        s@ == decimal(n as nat),
{
    // Digits are prepended, least-significant first.
    let mut digits: Vec<char> = Vec::new();
    let mut m: usize = n;
    while m >= 10
        invariant
            m <= n,
            decimal(n as nat) == decimal(m as nat) + digits@,
        decreases m,
    {
        let c: char = char_from_digit((m % 10) as u32);
        let ghost old_digits = digits@;
        digits.insert(0, c);
        assert(decimal(m as nat) == decimal((m / 10) as nat).push(c));
        assert(decimal((m / 10) as nat).push(c) + old_digits =~= decimal((m / 10) as nat)
            + digits@);
        m = m / 10;
    }
    let c: char = char_from_digit(m as u32);
    let ghost old_digits = digits@;
    digits.insert(0, c);
    assert(decimal(m as nat) == seq![c]);
    assert(seq![c] + old_digits =~= digits@);
    string_from_chars(digits.as_slice())
}

/// The character of a decimal digit.
fn char_from_digit(d: u32) -> (c: char)
    requires
        d < 10,
    ensures
        c == digit_char(d as nat),
{
    if d == 0 {
        '0'
    } else if d == 1 {
        '1'
    } else if d == 2 {
        '2'
    } else if d == 3 {
        '3'
    } else if d == 4 {
        '4'
    } else if d == 5 {
        '5'
    } else if d == 6 {
        '6'
    } else if d == 7 {
        '7'
    } else if d == 8 {
        '8'
    } else {
        '9'
    }
}

/// Appends the characters of `t` to `s`.
pub fn append_str(s: &mut String, t: &str)
    ensures
        final(s)@ == old(s)@ + t@,
{
    s.append(t);
}

} // verus!

verus! {

/// Appends `src[from..to]` to `dst`.
pub fn extend_range(dst: &mut Vec<char>, src: &[char], from: usize, to: usize)
    requires
        from <= to <= src@.len(),
    ensures
        final(dst)@ == old(dst)@ + src@.subrange(from as int, to as int),
{
    let mut i: usize = from;
    while i < to
        invariant
            from <= i <= to,
            to <= src@.len(),
            dst@ == old(dst)@ + src@.subrange(from as int, i as int),
        decreases to - i,
    {
        dst.push(src[i]);
        assert(src@.subrange(from as int, i + 1) =~= src@.subrange(from as int, i as int).push(
            src@[i as int],
        ));
        i = i + 1;
    }
}

/// `a[..a_end]`, then `mid`, then `b[b_start..]`.
pub fn splice_chars(a: &[char], a_end: usize, mid: &[char], b: &[char], b_start: usize) -> (r: Vec<
    char,
>)
    requires
        a_end <= a@.len(),
        b_start <= b@.len(),
    ensures
        r@ == a@.take(a_end as int) + mid@ + b@.skip(b_start as int),
{
    let mut r: Vec<char> = Vec::new();
    extend_range(&mut r, a, 0, a_end);
    extend_range(&mut r, mid, 0, mid.len());
    extend_range(&mut r, b, b_start, b.len());
    assert(a@.subrange(0, a_end as int) =~= a@.take(a_end as int));
    assert(mid@.subrange(0, mid@.len() as int) =~= mid@);
    assert(b@.subrange(b_start as int, b@.len() as int) =~= b@.skip(b_start as int));
    r
}

} // verus!

verus! {

/// Prefix byte lengths never exceed the whole.
pub proof fn lemma_byte_len_take_le(s: Seq<char>, k: int)
    requires
        0 <= k <= s.len(),
    ensures
        byte_len(s.take(k)) <= byte_len(s),
{
    if k < s.len() {
        lemma_byte_len_take_strict(s, k, s.len() as int);
    }
    assert(s.take(s.len() as int) =~= s);
}

/// The byte offset of character index `k`.
pub fn byte_offset(cs: &[char], k: usize) -> (n: usize)
    requires
        k <= cs@.len(),
        byte_len(cs@) <= usize::MAX,
    ensures
        n == byte_len(cs@.take(k as int)),
{
    let mut i: usize = 0;
    let mut acc: usize = 0;
    while i < k
        invariant
            i <= k <= cs@.len(),
            byte_len(cs@) <= usize::MAX,
            acc == byte_len(cs@.take(i as int)),
        decreases k - i,
    {
        proof {
            lemma_byte_len_take_step(cs@, i as int);
            lemma_byte_len_take_le(cs@, i + 1);
        }
        acc = acc + utf8_width(cs[i]);
        i = i + 1;
    }
    acc
}

/// The character index at byte offset `col`, which must be a boundary.
pub fn index_at_byte(cs: &[char], col: usize) -> (k: usize)
    requires
        is_boundary(cs@, col as int),
    ensures
        k == char_index(cs@, col as int),
        k <= cs@.len(),
        byte_len(cs@.take(k as int)) == col,
{
    let ghost target = char_index(cs@, col as int);
    let mut i: usize = 0;
    let mut acc: usize = 0;
    while acc < col
        invariant
            0 <= target <= cs@.len(),
            byte_len(cs@.take(target)) == col,
            i <= target,
            acc == byte_len(cs@.take(i as int)),
        decreases cs@.len() - i,
    {
        proof {
            if i == target {
                assert(false);
            }
            lemma_byte_len_take_step(cs@, i as int);
            if i + 1 < target {
                lemma_byte_len_take_strict(cs@, i + 1, target);
            }
        }
        acc = acc + utf8_width(cs[i]);
        i = i + 1;
    }
    proof {
        if i < target {
            lemma_byte_len_take_strict(cs@, i as int, target);
        }
        lemma_char_index_unique(cs@, i as int);
    }
    i
}

} // verus!
