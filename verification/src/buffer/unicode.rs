//! Character classification and grapheme-cluster boundaries.

use vstd::prelude::*;
use unicode_segmentation::UnicodeSegmentation;
use crate::text::{byte_len, char_index, is_boundary};

verus! {

/// Whether `c` has the Unicode `White_Space` property.
pub open spec fn spec_is_whitespace(c: char) -> bool {
    let u = c as u32;
    ||| 0x09 <= u <= 0x0d
    ||| u == 0x20
    ||| u == 0x85
    ||| u == 0xa0
    ||| u == 0x1680
    ||| 0x2000 <= u <= 0x200a
    ||| u == 0x2028
    ||| u == 0x2029
    ||| u == 0x202f
    ||| u == 0x205f
    ||| u == 0x3000
}

/// Whether `c` is whitespace (the `White_Space` property, as `char::is_whitespace`).
pub fn is_whitespace(c: char) -> (b: bool)
    ensures
        b == spec_is_whitespace(c),
{
    let u: u32 = c as u32;
    (0x09 <= u && u <= 0x0d) || u == 0x20 || u == 0x85 || u == 0xa0 || u == 0x1680 || (0x2000
        <= u && u <= 0x200a) || u == 0x2028 || u == 0x2029 || u == 0x202f || u == 0x205f || u
        == 0x3000
}

/// Whether `c` is alphabetic or numeric (Unicode `Alphabetic` or `Numeric`).
pub uninterp spec fn spec_is_alphanumeric(c: char) -> bool;

/// Whether `c` has the Unicode `Uppercase` property.
pub uninterp spec fn spec_is_uppercase(c: char) -> bool;

/// Whether `c` has the Unicode `Lowercase` property.
pub uninterp spec fn spec_is_lowercase(c: char) -> bool;

/// The full Unicode uppercase mapping of `c`.
pub uninterp spec fn spec_to_uppercase(c: char) -> Seq<char>;

/// The full Unicode lowercase mapping of `c`.
pub uninterp spec fn spec_to_lowercase(c: char) -> Seq<char>;

/// Trusted: `char::is_alphanumeric`, named by `spec_is_alphanumeric`.
#[verifier::external_body]
pub fn is_alphanumeric(c: char) -> (b: bool)
    ensures
        b == spec_is_alphanumeric(c),
{
    c.is_alphanumeric()
}

/// Trusted: `char::is_uppercase`, named by `spec_is_uppercase`. The
/// contract also states the ASCII case: exactly `A` to `Z` are uppercase.
#[verifier::external_body]
pub fn is_uppercase(c: char) -> (b: bool)
    ensures
        b == spec_is_uppercase(c),
        (c as u32) < 128 ==> (b <==> 'A' <= c <= 'Z'),
{
    c.is_uppercase()
}

/// Trusted: `char::is_lowercase`, named by `spec_is_lowercase`. The
/// contract also states the ASCII case: exactly `a` to `z` are lowercase.
#[verifier::external_body]
pub fn is_lowercase(c: char) -> (b: bool)
    ensures
        b == spec_is_lowercase(c),
        (c as u32) < 128 ==> (b <==> 'a' <= c <= 'z'),
{
    c.is_lowercase()
}

/// The ASCII uppercase of an ASCII character: letters `a` to `z` become
/// `A` to `Z`, everything else stays.
pub open spec fn ascii_upper(c: char) -> char {
    if 'a' <= c <= 'z' {
        ((c as u32) - 32) as char
    } else {
        c
    }
}

/// Trusted: `char::to_uppercase`, whose characters are collected in order;
/// named by `spec_to_uppercase`. The contract also states the documented
/// mapping of ASCII characters (only `a` to `z` change).
#[verifier::external_body]
pub fn to_uppercase(c: char) -> (v: Vec<char>)
    ensures
        v@ == spec_to_uppercase(c),
        (c as u32) < 128 ==> v@ == seq![ascii_upper(c)],
{
    c.to_uppercase().collect()
}

/// The ASCII lowercase of an ASCII character: letters `A` to `Z` become
/// `a` to `z`, everything else stays.
pub open spec fn ascii_lower(c: char) -> char {
    if 'A' <= c <= 'Z' {
        ((c as u32) + 32) as char
    } else {
        c
    }
}

/// Trusted: `char::to_lowercase`, whose characters are collected in order;
/// named by `spec_to_lowercase`. The contract also states the documented
/// mapping of ASCII characters (only `A` to `Z` change).
#[verifier::external_body]
pub fn to_lowercase(c: char) -> (v: Vec<char>)
    ensures
        v@ == spec_to_lowercase(c),
        (c as u32) < 128 ==> v@ == seq![ascii_lower(c)],
{
    c.to_lowercase().collect()
}

/// A "word" character in the vi sense: alphanumeric or underscore.
pub open spec fn spec_is_word_char(c: char) -> bool {
    spec_is_alphanumeric(c) || c == '_'
}

/// Whether `c` is a word character (alphanumeric or `_`).
pub fn is_word_char(c: char) -> (b: bool)
    ensures
        b == spec_is_word_char(c),
{
    is_alphanumeric(c) || c == '_'
}

/// Byte offset of the start of the last extended grapheme cluster of
/// `s[..col]`, if that prefix is not empty.
pub uninterp spec fn last_grapheme_start(s: Seq<char>, col: int) -> Option<usize>;

/// The first extended grapheme cluster of `s[col..]`, if that suffix is not
/// empty.
pub uninterp spec fn first_grapheme(s: Seq<char>, col: int) -> Option<Seq<char>>;

/// Byte offset of the start of the last extended grapheme cluster of
/// `s[..col]` (0 when that prefix is empty).
pub open spec fn prev_grapheme_start(s: Seq<char>, col: int) -> int {
    match last_grapheme_start(s, col) {
        Some(i) => i as int,
        None => 0,
    }
}

/// Byte offset of the end of the first extended grapheme cluster of
/// `s[col..]` (the end of `s` when that suffix is empty).
pub open spec fn next_grapheme_end(s: Seq<char>, col: int) -> int {
    match first_grapheme(s, col) {
        Some(g) => col + byte_len(g),
        None => byte_len(s) as int,
    }
}

/// The offset of the last grapheme cluster of `line[..col]`, if any.
///
/// Trusted: `unicode_segmentation`'s `grapheme_indices` on `line[..col]`,
/// taking the offset of the last cluster. Its result is named by
/// `last_grapheme_start`; the contract also states that there is one
/// exactly when the prefix is not empty, and that it lies before `col` on a
/// character boundary.
#[verifier::external_body]
fn last_grapheme_offset(line: &str, col: usize) -> (r: Option<usize>)
    requires
        is_boundary(line@, col as int),
    ensures
        r == last_grapheme_start(line@, col as int),
        r is None <==> col == 0,
        r matches Some(i) ==> i < col && is_boundary(line@, i as int),
{
    line[..col].grapheme_indices(true).next_back().map(|(i, _)| i)
}

/// The first grapheme cluster of `line[col..]`, if any.
///
/// Trusted: `unicode_segmentation`'s `graphemes` on `line[col..]`, taking
/// the first cluster. Its result is named by `first_grapheme`; the
/// contract also states that there is one exactly when the suffix is not
/// empty, and that it is a non-empty prefix of that suffix.
#[verifier::external_body]
fn first_grapheme_of(line: &str, col: usize) -> (r: Option<&str>)
    requires
        is_boundary(line@, col as int),
    ensures
        match r {
            Some(g) => first_grapheme(line@, col as int) == Some(g@),
            None => first_grapheme(line@, col as int) is None,
        },
        r is None <==> col == byte_len(line@),
        r matches Some(g) ==> g@.len() > 0 && char_index(line@, col as int) + g@.len() <= line@.len()
            && g@ == line@.skip(char_index(line@, col as int)).take(g@.len() as int),
{
    line[col..].graphemes(true).next()
}

/// The start of the grapheme cluster that ends at byte offset `col`.
pub fn prev_grapheme_boundary(line: &str, col: usize) -> (r: usize)
    requires
        is_boundary(line@, col as int),
    ensures
        r == prev_grapheme_start(line@, col as int),
        is_boundary(line@, r as int),
        r <= col,
        col > 0 ==> r < col,
{
    match last_grapheme_offset(line, col) {
        Some(i) => i,
        None => {
            proof {
                assert(line@.take(0) =~= Seq::<char>::empty());
                assert(byte_len(line@.take(0)) == 0);
            }
            0
        },
    }
}

/// The end of the grapheme cluster that starts at byte offset `col`.
pub fn next_grapheme_boundary(line: &str, col: usize) -> (r: usize)
    requires
        is_boundary(line@, col as int),
    ensures
        r == next_grapheme_end(line@, col as int),
        is_boundary(line@, r as int),
        col <= r <= byte_len(line@),
        col < byte_len(line@) ==> col < r,
        col == byte_len(line@) ==> r == col,
{
    let n = crate::text::str_byte_len(line);
    match first_grapheme_of(line, col) {
        Some(g) => {
            let w = crate::text::str_byte_len(g);
            proof {
                let s = line@;
                let k = char_index(s, col as int);
                let m = g@.len() as int;
                assert(0 <= k <= s.len() && byte_len(s.take(k)) == col);
                assert(s.take(k + m) =~= s.take(k) + g@);
                crate::text::lemma_byte_len_concat(s.take(k), g@);
                crate::text::lemma_byte_len_take_le(s, k + m);
                crate::text::lemma_byte_len_take_strict(s, k, k + m);
                assert(byte_len(s.take(k + m)) == col + w);
            }
            col + w
        },
        None => n,
    }
}

} // verus!
