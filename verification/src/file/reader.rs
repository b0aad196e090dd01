//! Decoding of raw file bytes into buffer text: BOM removal, UTF-8
//! validation, line-ending detection and normalization.

use vstd::prelude::*;
use vstd::utf8::{decode_utf8, valid_utf8};
use crate::error::FileError;
use crate::file::encoding::{
    bom, detect_line_ending, detected_ending, normalize_line_endings, normalized_text, strip_bom,
    LineEnding,
};
use crate::text::{append_str, decimal, decimal_string};

verus! {

/// Result of reading a file: its text and metadata.
#[derive(Debug)]
pub struct ReadResult {
    /// The file content with normalized line endings (all `\n`).
    pub content: String,
    /// The detected line ending style of the original file.
    pub line_ending: LineEnding,
    /// Whether the file had a UTF-8 BOM.
    pub had_bom: bool,
}

/// The bytes of a file after removing a leading UTF-8 BOM.
pub open spec fn after_bom(b: Seq<u8>) -> Seq<u8> {
    if b.len() >= 3 && b.take(3) == bom() {
        b.skip(3)
    } else {
        b
    }
}

/// `n` is the length of the longest prefix of `b` that is valid UTF-8.
pub open spec fn is_valid_up_to(b: Seq<u8>, n: int) -> bool {
    &&& 0 <= n <= b.len()
    &&& valid_utf8(b.take(n))
    &&& forall|m: int| n < m <= b.len() ==> !valid_utf8(#[trigger] b.take(m))
}

/// Decode UTF-8 bytes, or report how far they are valid.
///
/// Trusted: `std::str::from_utf8`, which succeeds exactly on valid UTF-8
/// (decoding it), and otherwise reports through `valid_up_to` the length of
/// the longest valid prefix.
#[verifier::external_body]
fn utf8_decode(bytes: &[u8]) -> (r: Result<String, usize>)
    ensures
        r is Ok <==> valid_utf8(bytes@),
        r matches Ok(s) ==> s@ == decode_utf8(bytes@),
        r matches Err(n) ==> is_valid_up_to(bytes@, n as int),
{
    match std::str::from_utf8(bytes) {
        Ok(s) => Ok(s.to_string()),
        Err(e) => Err(e.valid_up_to()),
    }
}

/// The message of the error for bytes of `path` that are not valid UTF-8.
pub open spec fn invalid_utf8_message(path: Seq<char>, n: nat) -> Seq<char> {
    path + ": invalid UTF-8 at byte offset "@ + decimal(n)
}

/// Turn the raw bytes of the file at `path` into a `ReadResult`.
///
/// A leading BOM is removed; the rest must be valid UTF-8, whose line
/// ending style is detected before all line endings are normalized to LF.
/// Invalid UTF-8 gives `FileError::EncodingError` naming the path and the
/// offset up to which the bytes are valid.
pub fn decode_file_bytes(bytes: &[u8], path: &str) -> (r: Result<ReadResult, FileError>)
    ensures
        r is Ok <==> valid_utf8(after_bom(bytes@)),
        r matches Ok(res) ==> ({
            let text = decode_utf8(after_bom(bytes@));
            &&& res.content@ == normalized_text(text)
            &&& res.line_ending == detected_ending(text)
            &&& res.had_bom == (bytes@.len() >= 3 && bytes@.take(3) == bom())
        }),
        r matches Err(e) ==> e matches FileError::EncodingError(m) && exists|n: nat|
            is_valid_up_to(after_bom(bytes@), n as int) && m@ == invalid_utf8_message(path@, n),
{
    let (rest, had_bom) = strip_bom(bytes);
    match utf8_decode(rest) {
        Ok(text) => {
            let line_ending = detect_line_ending(text.as_str());
            let content = normalize_line_endings(text.as_str());
            Ok(ReadResult { content, line_ending, had_bom })
        },
        Err(n) => {
            let mut m = String::new();
            append_str(&mut m, path);
            append_str(&mut m, ": invalid UTF-8 at byte offset ");
            let d = decimal_string(n);
            append_str(&mut m, d.as_str());
            assert(m@ == invalid_utf8_message(path@, n as nat));
            Err(FileError::EncodingError(m))
        },
    }
}

} // verus!
