//! Key encoding for registers and macros, and case conversion of line
//! ranges.

use vstd::prelude::*;
use crate::buffer::SelectionType;
use crate::mode::{Operator, VisualKind};
use crate::terminal::Key;
use crate::text::char_width;

verus! {

/// The control character for `Ctrl(c)`: `c`'s low byte, less `'a'`, plus
/// one, modulo 256.
pub open spec fn ctrl_code(c: char) -> u8 {
    (((c as u32) % 256 + 256 - 97 + 1) % 256) as u8
}

/// The text stored for a key (empty for keys that have none).
pub open spec fn key_text(k: Key) -> Seq<char> {
    match k {
        Key::Char(c) => seq![c],
        Key::Ctrl(c) => seq![ctrl_code(c) as char],
        Key::Esc => seq!['\x1b'],
        Key::Enter => seq!['\n'],
        Key::Backspace => seq!['\x08'],
        Key::Tab => seq!['\t'],
        _ => Seq::<char>::empty(),
    }
}

/// The text stored for a sequence of keys.
pub open spec fn keys_text(ks: Seq<Key>) -> Seq<char>
    decreases ks.len(),
{
    if ks.len() == 0 {
        Seq::<char>::empty()
    } else {
        keys_text(ks.drop_last()) + key_text(ks.last())
    }
}

/// The key a stored character stands for.
pub open spec fn char_key(c: char) -> Key {
    if c == '\x1b' {
        Key::Esc
    } else if c == '\n' {
        Key::Enter
    } else if c == '\x08' {
        Key::Backspace
    } else if c == '\t' {
        Key::Tab
    } else if (c as u32) < 32 {
        Key::Ctrl(((c as u32) + 97 - 1) as char)
    } else {
        Key::Char(c)
    }
}

/// Encode keys as text for a register: characters verbatim, control
/// chords as control characters, Escape, Enter, Backspace and Tab as their
/// characters; other keys are dropped.
pub fn keys_to_string(keys: &[Key]) -> (s: String)
    ensures
        s@ == keys_text(keys@),
{
    let mut s = String::new();
    let mut i: usize = 0;
    while i < keys.len()
        invariant
            i <= keys@.len(),
            s@ == keys_text(keys@.take(i as int)),
        decreases keys.len() - i,
    {
        assert(keys@.take(i + 1).drop_last() =~= keys@.take(i as int));
        let ghost before = s@;
        match keys[i] {
            Key::Char(c) => crate::text::push_char(&mut s, c),
            Key::Ctrl(c) => {
                let cu: u32 = c as u32;
                let code: u32 = (cu % 256 + 256 - 97 + 1) % 256;
                crate::text::push_char(&mut s, byte_char(code as u8));
            },
            Key::Esc => crate::text::push_char(&mut s, '\x1b'),
            Key::Enter => crate::text::push_char(&mut s, '\n'),
            Key::Backspace => crate::text::push_char(&mut s, '\x08'),
            Key::Tab => crate::text::push_char(&mut s, '\t'),
            _ => {},
        }
        assert(s@ =~= before + key_text(keys@[i as int]));
        i = i + 1;
    }
    assert(keys@.take(keys@.len() as int) =~= keys@);
    s
}

/// Decode a register string into keys: Escape, line feed, backspace and
/// tab become their keys, other control characters control chords, and
/// everything else characters.
pub fn string_to_keys(s: &str) -> (keys: Vec<Key>)
    ensures
        keys@ == s@.map_values(|c: char| char_key(c)),
{
    let cs = crate::text::chars_of(s);
    let mut keys: Vec<Key> = Vec::new();
    let mut i: usize = 0;
    while i < cs.len()
        invariant
            i <= cs@.len(),
            cs@ == s@,
            keys@ == cs@.take(i as int).map_values(|c: char| char_key(c)),
        decreases cs.len() - i,
    {
        let c = cs[i];
        let u: u32 = c as u32;
        let key = if c == '\x1b' {
            Key::Esc
        } else if c == '\n' {
            Key::Enter
        } else if c == '\x08' {
            Key::Backspace
        } else if c == '\t' {
            Key::Tab
        } else if u < 32 {
            let letter: u32 = u + 97 - 1;
            Key::Ctrl(char_from(letter))
        } else {
            Key::Char(c)
        };
        keys.push(key);
        assert(cs@.take(i + 1).map_values(|c: char| char_key(c)) =~= cs@.take(i as int).map_values(
            |c: char| char_key(c),
        ).push(char_key(c)));
        i = i + 1;
    }
    assert(cs@.take(cs@.len() as int) =~= cs@);
    keys
}

/// The character with the code `u`, a small ASCII code.
fn char_from(u: u32) -> (c: char)
    requires
        u < 128,
    ensures
        c == u as char,
{
    byte_char(u as u8)
}

/// The character whose code is the byte `b`.
fn byte_char(b: u8) -> (c: char)
    ensures
        c == b as char,
{
    b as char
}

/// Keys that survive storing in a register: characters other than control
/// characters, control chords on the letters other than `h`, `i` and `j`
/// (which read back as Backspace, Tab and Enter), Escape, Enter,
/// Backspace and Tab.
pub open spec fn storable_key(k: Key) -> bool {
    match k {
        Key::Char(c) => (c as u32) >= 32,
        Key::Ctrl(c) => 'a' <= c <= 'z' && c != 'h' && c != 'i' && c != 'j',
        Key::Esc | Key::Enter | Key::Backspace | Key::Tab => true,
        _ => false,
    }
}

/// The key a storable key's text reads back as.
proof fn lemma_key_round_trip(k: Key)
    requires
        storable_key(k),
    ensures
        key_text(k).len() == 1,
        char_key(key_text(k)[0]) == k,
{
    match k {
        Key::Ctrl(c) => {
            let u = c as u32;
            assert(97 <= u <= 122);
            assert(ctrl_code(c) as u32 == u - 96);
            assert(((ctrl_code(c) as char) as u32) == u - 96);
        },
        _ => {},
    }
}

/// Law: storing storable keys in a register and reading them back gives
/// the same keys.
pub proof fn law_keys_round_trip(ks: Seq<Key>)
    requires
        forall|i: int| 0 <= i < ks.len() ==> storable_key(#[trigger] ks[i]),
    ensures
        keys_text(ks).map_values(|c: char| char_key(c)) == ks,
    decreases ks.len(),
{
    if ks.len() > 0 {
        let init = ks.drop_last();
        assert forall|i: int| 0 <= i < init.len() implies storable_key(#[trigger] init[i]) by {
            assert(init[i] == ks[i]);
        }
        law_keys_round_trip(init);
        lemma_key_round_trip(ks.last());
        assert(storable_key(ks[ks.len() - 1]));
        let t = keys_text(init);
        assert((t + key_text(ks.last())).map_values(|c: char| char_key(c)) =~= t.map_values(
            |c: char| char_key(c),
        ).push(char_key(key_text(ks.last())[0])));
        assert(init.push(ks.last()) =~= ks);
    }
}

/// The selection type for a visual mode.
pub fn visual_kind_to_selection_type(kind: VisualKind) -> (t: SelectionType)
    ensures
        t == match kind {
            VisualKind::Character => SelectionType::Character,
            VisualKind::Line => SelectionType::Line,
            VisualKind::Block => SelectionType::Block,
        },
{
    match kind {
        VisualKind::Character => SelectionType::Character,
        VisualKind::Line => SelectionType::Line,
        VisualKind::Block => SelectionType::Block,
    }
}

/// An ASCII letter in the other case; any other character as it is.
pub open spec fn ascii_toggled(c: char) -> char {
    if 'a' <= c <= 'z' {
        ((c as u32) - 32) as char
    } else if 'A' <= c <= 'Z' {
        ((c as u32) + 32) as char
    } else {
        c
    }
}

/// What a case operator makes of a character: its lowercase or uppercase
/// mapping, or, for the toggle, an ASCII letter in the other case.
pub open spec fn case_map(op: Operator, c: char) -> Seq<char> {
    match op {
        Operator::Uppercase => crate::buffer::unicode::spec_to_uppercase(c),
        Operator::Lowercase => crate::buffer::unicode::spec_to_lowercase(c),
        _ => seq![ascii_toggled(c)],
    }
}

/// `c` as `ascii_toggled` gives it.
fn toggle_ascii(c: char) -> (r: char)
    ensures
        r == ascii_toggled(c),
{
    if 'a' <= c && c <= 'z' {
        let u: u32 = (c as u32) - 32;
        char_from(u)
    } else if 'A' <= c && c <= 'Z' {
        let u: u32 = (c as u32) + 32;
        char_from(u)
    } else {
        c
    }
}

/// `s`, whose first character starts at byte `off`, with `op` applied to
/// each character lying wholly within bytes `start..end`.
pub open spec fn recase(s: Seq<char>, off: int, start: int, end: int, op: Operator) -> Seq<char>
    decreases s.len(),
{
    if s.len() == 0 {
        Seq::<char>::empty()
    } else {
        let e = off + char_width(s[0]);
        let here = if off >= start && e <= end {
            case_map(op, s[0])
        } else {
            seq![s[0]]
        };
        here + recase(s.skip(1), e, start, end, op)
    }
}

/// Apply the case operator `op` (`Uppercase`, `Lowercase` or `ToggleCase`)
/// to the characters lying wholly within bytes `col_start..col_end` of
/// `line`.
fn recase_line(line: &str, col_start: usize, col_end: usize, op: Operator) -> (r: String)
    requires
        op == Operator::Uppercase || op == Operator::Lowercase || op == Operator::ToggleCase,
    ensures
        r@ == recase(line@, 0, col_start as int, col_end as int, op),
{
    let n = crate::text::str_byte_len(line);
    let cs = crate::text::chars_of(line);
    let mut out: Vec<char> = Vec::new();
    let mut i: usize = 0;
    let mut off: usize = 0;
    assert(cs@.skip(0) =~= cs@);
    assert(cs@.take(0) =~= Seq::<char>::empty());
    while i < cs.len()
        invariant
            i <= cs@.len(),
            cs@ == line@,
            n == crate::text::byte_len(cs@),
            off == crate::text::byte_len(cs@.take(i as int)),
            op == Operator::Uppercase || op == Operator::Lowercase || op == Operator::ToggleCase,
            recase(cs@, 0, col_start as int, col_end as int, op) == out@ + recase(
                cs@.skip(i as int),
                off as int,
                col_start as int,
                col_end as int,
                op,
            ),
        decreases cs.len() - i,
    {
        proof {
            crate::text::lemma_byte_len_take_step(cs@, i as int);
            crate::text::lemma_byte_len_take_le(cs@, i + 1);
            assert(cs@.skip(i as int)[0] == cs@[i as int]);
            assert(cs@.skip(i as int).skip(1) =~= cs@.skip(i + 1));
        }
        let c = cs[i];
        let w = crate::text::utf8_width(c);
        let e = off + w;
        let ghost before = out@;
        if off >= col_start && e <= col_end {
            let mapped: Vec<char> = match op {
                Operator::Uppercase => crate::buffer::unicode::to_uppercase(c),
                Operator::Lowercase => crate::buffer::unicode::to_lowercase(c),
                _ => {
                    let mut one: Vec<char> = Vec::new();
                    one.push(toggle_ascii(c));
                    one
                },
            };
            crate::text::extend_range(&mut out, mapped.as_slice(), 0, mapped.len());
            assert(mapped@.subrange(0, mapped@.len() as int) =~= mapped@);
        } else {
            out.push(c);
        }
        proof {
            let here = if off >= col_start && e <= col_end {
                case_map(op, c)
            } else {
                seq![c]
            };
            assert(out@ =~= before + here);
            assert(before + recase(cs@.skip(i as int), off as int, col_start as int, col_end as int, op)
                =~= out@ + recase(cs@.skip(i + 1), e as int, col_start as int, col_end as int, op));
        }
        off = e;
        i = i + 1;
    }
    assert(cs@.skip(i as int) =~= Seq::<char>::empty());
    assert(out@ + Seq::<char>::empty() =~= out@);
    crate::text::string_from_chars(out.as_slice())
}

/// Toggle the case of the characters lying wholly within bytes
/// `col_start..col_end` of `line`.
pub fn toggle_case_range(line: &str, col_start: usize, col_end: usize) -> (r: String)
    ensures
        r@ == recase(line@, 0, col_start as int, col_end as int, Operator::ToggleCase),
{
    recase_line(line, col_start, col_end, Operator::ToggleCase)
}

/// Apply the case operator `operator` (`Uppercase`, `Lowercase` or
/// `ToggleCase`) to the characters lying wholly within bytes
/// `col_start..col_end` of `line`.
pub fn apply_case_to_line(line: &str, col_start: usize, col_end: usize, operator: Operator) -> (r: String)
    requires
        operator == Operator::Uppercase || operator == Operator::Lowercase || operator
            == Operator::ToggleCase,
    ensures
        r@ == recase(line@, 0, col_start as int, col_end as int, operator),
{
    match operator {
        Operator::ToggleCase => toggle_case_range(line, col_start, col_end),
        _ => recase_line(line, col_start, col_end, operator),
    }
}

} // verus!
