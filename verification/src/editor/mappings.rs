//! Key notation (`<CR>`, `<Esc>`, ...) and the `:map`, `:unmap`,
//! `:abbreviate` and `:unabbreviate` commands.

use vstd::prelude::*;
use crate::buffer::unicode::{ascii_upper, spec_to_uppercase};
use crate::editor::{Editor, EditorState, StatusMessage};
use crate::terminal::Key;

verus! {

/// The uppercase of a character as `str::to_uppercase` gives it.
pub open spec fn char_upper(c: char) -> Seq<char> {
    if (c as u32) < 128 {
        seq![ascii_upper(c)]
    } else {
        spec_to_uppercase(c)
    }
}

/// The uppercase of a text, character by character.
pub open spec fn upper_text(s: Seq<char>) -> Seq<char>
    decreases s.len(),
{
    if s.len() == 0 {
        Seq::<char>::empty()
    } else {
        upper_text(s.drop_last()) + char_upper(s.last())
    }
}

/// Characters of `s` before its first `'>'` (all of them if there is none).
pub open spec fn tag_len(s: Seq<char>) -> nat
    decreases s.len(),
{
    if s.len() == 0 || s[0] == '>' {
        0
    } else {
        1 + tag_len(s.skip(1))
    }
}

/// The keys a `<tag>` stands for: a named key for `CR`, `Enter`,
/// `Return`, `Esc`, `Escape`, `BS`, `Backspace`, `Tab` and `Space` (in any
/// case), else the characters `<`, the tag and `>` themselves.
pub open spec fn tag_keys(tag: Seq<char>) -> Seq<Key> {
    let u = upper_text(tag);
    if u == seq!['C', 'R'] || u == seq!['E', 'N', 'T', 'E', 'R'] || u == seq!['R', 'E', 'T', 'U', 'R', 'N'] {
        seq![Key::Enter]
    } else if u == seq!['E', 'S', 'C'] || u == seq!['E', 'S', 'C', 'A', 'P', 'E'] {
        seq![Key::Esc]
    } else if u == seq!['B', 'S'] || u == seq!['B', 'A', 'C', 'K', 'S', 'P', 'A', 'C', 'E'] {
        seq![Key::Backspace]
    } else if u == seq!['T', 'A', 'B'] {
        seq![Key::Tab]
    } else if u == seq!['S', 'P', 'A', 'C', 'E'] {
        seq![typed(' ')]
    } else {
        seq![typed('<')] + char_keys(tag) + seq![typed('>')]
    }
}

/// The key for typing character `c`.
pub open spec fn typed(c: char) -> Key {
    Key::Char(c)
}

/// Each character of `s` as a key.
pub open spec fn char_keys(s: Seq<char>) -> Seq<Key>
    decreases s.len(),
{
    if s.len() == 0 {
        Seq::<Key>::empty()
    } else {
        char_keys(s.drop_last()).push(typed(s.last()))
    }
}

/// The keys written in notation `s`: `<tag>` as by `tag_keys` (an
/// unterminated tag runs to the end), any other character as itself.
pub open spec fn notation_keys(s: Seq<char>) -> Seq<Key>
    decreases s.len(),
{
    if s.len() == 0 {
        Seq::<Key>::empty()
    } else if s[0] == '<' {
        let rest = s.skip(1);
        let t = tag_len(rest) as int;
        let after = if t < rest.len() {
            rest.skip(t + 1)
        } else {
            rest.skip(rest.len() as int)
        };
        tag_keys(rest.take(t)) + notation_keys(after)
    } else {
        seq![typed(s[0])] + notation_keys(s.skip(1))
    }
}

/// The notation of a key.
pub open spec fn key_notation(k: Key) -> Seq<char> {
    match k {
        Key::Char(c) => seq![c],
        Key::Enter => seq!['<', 'C', 'R', '>'],
        Key::Esc => seq!['<', 'E', 's', 'c', '>'],
        Key::Backspace => seq!['<', 'B', 'S', '>'],
        Key::Tab => seq!['<', 'T', 'a', 'b', '>'],
        Key::Ctrl(c) => seq!['<', 'C', '-', c, '>'],
        _ => seq!['<', '?', '>'],
    }
}

/// The notation of a sequence of keys.
pub open spec fn keys_notation(ks: Seq<Key>) -> Seq<char>
    decreases ks.len(),
{
    if ks.len() == 0 {
        Seq::<char>::empty()
    } else {
        key_notation(ks[0]) + keys_notation(ks.skip(1))
    }
}

/// `tag_len` never exceeds the length.
proof fn lemma_tag_len(s: Seq<char>)
    ensures
        tag_len(s) <= s.len(),
        tag_len(s) < s.len() ==> s[tag_len(s) as int] == '>',
        forall|i: int| 0 <= i < tag_len(s) ==> s[i] != '>',
    decreases s.len(),
{
    if s.len() > 0 && s[0] != '>' {
        lemma_tag_len(s.skip(1));
        assert forall|i: int| 0 <= i < tag_len(s) implies s[i] != '>' by {
            if i > 0 {
                assert(s[i] == s.skip(1)[i - 1]);
            }
        }
    }
}

/// The uppercase of `cs`, character by character.
fn uppercase_chars(cs: &[char]) -> (u: String)
    ensures
        u@ == upper_text(cs@),
{
    let mut u = String::new();
    let mut i: usize = 0;
    while i < cs.len()
        invariant
            i <= cs@.len(),
            u@ == upper_text(cs@.take(i as int)),
        decreases cs.len() - i,
    {
        let up = crate::buffer::unicode::to_uppercase(cs[i]);
        let s = crate::text::string_from_chars(up.as_slice());
        assert(cs@.take(i + 1).drop_last() =~= cs@.take(i as int));
        crate::text::append_str(&mut u, s.as_str());
        i = i + 1;
    }
    assert(cs@.take(cs@.len() as int) =~= cs@);
    u
}

/// The key for typing `c`.
fn typed_key(c: char) -> (k: Key)
    ensures
        k == typed(c),
{
    Key::Char(c)
}

/// Whether `u` is the word `w`.
fn is_word(u: &String, w: &str) -> (b: bool)
    ensures
        b == (u@ == w@),
{
    let w2 = w.to_owned();
    *u == w2
}

/// The keys a tag stands for.
fn tag_to_keys(tag: &[char]) -> (keys: Vec<Key>)
    ensures
        keys@ == tag_keys(tag@),
{
    let u = uppercase_chars(tag);
    proof {
        reveal_strlit("CR");
        reveal_strlit("ENTER");
        reveal_strlit("RETURN");
        reveal_strlit("ESC");
        reveal_strlit("ESCAPE");
        reveal_strlit("BS");
        reveal_strlit("BACKSPACE");
        reveal_strlit("TAB");
        reveal_strlit("SPACE");
        assert("CR"@ =~= seq!['C', 'R']);
        assert("ENTER"@ =~= seq!['E', 'N', 'T', 'E', 'R']);
        assert("RETURN"@ =~= seq!['R', 'E', 'T', 'U', 'R', 'N']);
        assert("ESC"@ =~= seq!['E', 'S', 'C']);
        assert("ESCAPE"@ =~= seq!['E', 'S', 'C', 'A', 'P', 'E']);
        assert("BS"@ =~= seq!['B', 'S']);
        assert("BACKSPACE"@ =~= seq!['B', 'A', 'C', 'K', 'S', 'P', 'A', 'C', 'E']);
        assert("TAB"@ =~= seq!['T', 'A', 'B']);
        assert("SPACE"@ =~= seq!['S', 'P', 'A', 'C', 'E']);
    }
    let ghost up = upper_text(tag@);
    assert(u@ == up);
    let mut keys: Vec<Key> = Vec::new();
    if is_word(&u, "CR") || is_word(&u, "ENTER") || is_word(&u, "RETURN") {
        keys.push(Key::Enter);
        assert(keys@ =~= seq![Key::Enter]);
    } else if is_word(&u, "ESC") || is_word(&u, "ESCAPE") {
        keys.push(Key::Esc);
        assert(keys@ =~= seq![Key::Esc]);
    } else if is_word(&u, "BS") || is_word(&u, "BACKSPACE") {
        keys.push(Key::Backspace);
        assert(keys@ =~= seq![Key::Backspace]);
    } else if is_word(&u, "TAB") {
        keys.push(Key::Tab);
        assert(keys@ =~= seq![Key::Tab]);
    } else if is_word(&u, "SPACE") {
        keys.push(typed_key(' '));
        assert(keys@ =~= seq![typed(' ')]);
    } else {
        keys = literal_tag_keys(tag);
    }
    keys
}

/// Parse the tag that starts with the `<` at `cs[i]`: its keys, and the
/// index after it.
fn parse_tag(cs: &[char], i: usize) -> (r: (Vec<Key>, usize))
    requires
        i < cs@.len(),
        cs@[i as int] == '<',
    ensures
        i < r.1 <= cs@.len(),
        notation_keys(cs@.skip(i as int)) == r.0@ + notation_keys(cs@.skip(r.1 as int)),
{
    let n = cs.len();
    let ghost tail = cs@.skip(i as int);
    assert(tail[0] == '<');
    let mut j: usize = i + 1;
    let ghost rest = tail.skip(1);
    assert(rest =~= cs@.skip(i + 1));
    while j < n && cs[j] != '>'
        invariant
            i + 1 <= j <= n == cs@.len(),
            rest == cs@.skip(i + 1),
            tag_len(rest) == (j - (i + 1)) + tag_len(cs@.skip(j as int)),
        decreases n - j,
    {
        assert(cs@.skip(j as int)[0] == cs@[j as int]);
        assert(cs@.skip(j as int).skip(1) =~= cs@.skip(j + 1));
        j = j + 1;
    }
    proof {
        if j < n {
            assert(cs@.skip(j as int)[0] == cs@[j as int]);
        }
    }
    let mut tag_chars: Vec<char> = Vec::new();
    crate::text::extend_range(&mut tag_chars, cs, i + 1, j);
    let tk = tag_to_keys(tag_chars.as_slice());
    let new_i = if j < n {
        j + 1
    } else {
        j
    };
    proof {
        let t = tag_len(rest) as int;
        assert(t == j - (i + 1));
        assert(Seq::<char>::empty() + cs@.subrange(i + 1, j as int) =~= rest.take(t));
        assert(tag_chars@ =~= rest.take(t));
        let after = if t < rest.len() {
            rest.skip(t + 1)
        } else {
            rest.skip(rest.len() as int)
        };
        assert(after =~= cs@.skip(new_i as int));
    }
    (tk, new_i)
}

/// Parse key notation: `<CR>`, `<Enter>` and `<Return>` for Enter,
/// `<Esc>`/`<Escape>`, `<BS>`/`<Backspace>`, `<Tab>`, `<Space>` (in any
/// case); an unknown tag stands for its own characters, `<` and `>`
/// included; every other character for itself.
pub fn parse_key_notation(s: &str) -> (keys: Vec<Key>)
    ensures
        keys@ == notation_keys(s@),
{
    let cs = crate::text::chars_of(s);
    let n = cs.len();
    let mut keys: Vec<Key> = Vec::new();
    let mut i: usize = 0;
    assert(cs@.skip(0) =~= cs@);
    while i < n
        invariant
            i <= n == cs@.len(),
            cs@ == s@,
            notation_keys(cs@) == keys@ + notation_keys(cs@.skip(i as int)),
        decreases n - i,
    {
        let ghost tail = cs@.skip(i as int);
        assert(tail[0] == cs@[i as int]);
        if cs[i] == '<' {
            let (tk, new_i) = parse_tag(cs.as_slice(), i);
            let ghost before = keys@;
            let mut k: usize = 0;
            while k < tk.len()
                invariant
                    k <= tk@.len(),
                    keys@ == before + tk@.take(k as int),
                decreases tk.len() - k,
            {
                keys.push(tk[k]);
                assert(tk@.take(k + 1) =~= tk@.take(k as int).push(tk@[k as int]));
                k = k + 1;
            }
            assert(tk@.take(tk@.len() as int) =~= tk@);
            assert(before + (tk@ + notation_keys(cs@.skip(new_i as int))) =~= keys@ + notation_keys(
                cs@.skip(new_i as int),
            ));
            i = new_i;
        } else {
            let ghost before = keys@;
            keys.push(typed_key(cs[i]));
            assert(tail.skip(1) =~= cs@.skip(i + 1));
            assert(before + (seq![typed(cs@[i as int])] + notation_keys(cs@.skip(i + 1))) =~= keys@
                + notation_keys(cs@.skip(i + 1)));
            i = i + 1;
        }
    }
    keys
}

/// Write keys in notation: characters as themselves, `<CR>`, `<Esc>`,
/// `<BS>`, `<Tab>`, `<C-x>` for control chords, `<?>` for other keys.
pub fn keys_to_notation(keys: &[Key]) -> (s: String)
    ensures
        s@ == keys_notation(keys@),
{
    let mut s = String::new();
    let mut i: usize = 0;
    assert(keys@.skip(0) =~= keys@);
    while i < keys.len()
        invariant
            i <= keys@.len(),
            keys_notation(keys@) == s@ + keys_notation(keys@.skip(i as int)),
        decreases keys.len() - i,
    {
        let ghost before = s@;
        assert(keys@.skip(i as int)[0] == keys@[i as int]);
        assert(keys@.skip(i as int).skip(1) =~= keys@.skip(i + 1));
        match keys[i] {
            Key::Char(c) => crate::text::push_char(&mut s, c),
            Key::Enter => {
                crate::text::push_char(&mut s, '<');
                crate::text::push_char(&mut s, 'C');
                crate::text::push_char(&mut s, 'R');
                crate::text::push_char(&mut s, '>');
            },
            Key::Esc => {
                crate::text::push_char(&mut s, '<');
                crate::text::push_char(&mut s, 'E');
                crate::text::push_char(&mut s, 's');
                crate::text::push_char(&mut s, 'c');
                crate::text::push_char(&mut s, '>');
            },
            Key::Backspace => {
                crate::text::push_char(&mut s, '<');
                crate::text::push_char(&mut s, 'B');
                crate::text::push_char(&mut s, 'S');
                crate::text::push_char(&mut s, '>');
            },
            Key::Tab => {
                crate::text::push_char(&mut s, '<');
                crate::text::push_char(&mut s, 'T');
                crate::text::push_char(&mut s, 'a');
                crate::text::push_char(&mut s, 'b');
                crate::text::push_char(&mut s, '>');
            },
            Key::Ctrl(c) => {
                crate::text::push_char(&mut s, '<');
                crate::text::push_char(&mut s, 'C');
                crate::text::push_char(&mut s, '-');
                crate::text::push_char(&mut s, c);
                crate::text::push_char(&mut s, '>');
            },
            _ => {
                crate::text::push_char(&mut s, '<');
                crate::text::push_char(&mut s, '?');
                crate::text::push_char(&mut s, '>');
            },
        }
        assert(s@ =~= before + key_notation(keys@[i as int]));
        i = i + 1;
    }
    assert(keys@.skip(i as int) =~= Seq::<Key>::empty());
    assert(s@ + Seq::<char>::empty() =~= s@);
    s
}

} // verus!

verus! {
/// The keys `<`, each character of `name`, and `>`.
fn literal_tag_keys(name: &[char]) -> (r: Vec<Key>)
    ensures
        r@ == seq![typed('<')] + char_keys(name@) + seq![typed('>')],
{
    let mut out: Vec<Key> = Vec::new();
    out.push(typed_key('<'));
    let mut i: usize = 0;
    assert(name@.take(0) =~= Seq::<char>::empty());
    assert(out@ =~= seq![typed('<')] + char_keys(name@.take(0)));
    while i < name.len()
        invariant
            i <= name@.len(),
            out@ == seq![typed('<')] + char_keys(name@.take(i as int)),
        decreases name.len() - i,
    {
        let ghost before = out@;
        out.push(typed_key(name[i]));
        assert(name@.take(i + 1).drop_last() =~= name@.take(i as int));
        assert(name@.take(i + 1).last() == name@[i as int]);
        assert(char_keys(name@.take(i + 1)) == char_keys(name@.take(i as int)).push(typed(name@[i as int])));
        assert(out@ == before.push(typed(name@[i as int])));
        assert(out@ =~= seq![typed('<')] + char_keys(name@.take(i + 1)));
        i = i + 1;
    }
    assert(name@.take(name@.len() as int) =~= name@);
    let ghost mid = out@;
    out.push(typed_key('>'));
    assert(out@ =~= mid + seq![typed('>')]);
    out
}

/// Keys that read back from their notation: characters other than `<`,
/// Enter, Escape, Backspace and Tab.
pub open spec fn notable_key(k: Key) -> bool {
    match k {
        Key::Char(c) => c != '<',
        Key::Enter | Key::Esc | Key::Backspace | Key::Tab => true,
        _ => false,
    }
}

/// A tag without `>` runs up to the `>` that closes it.
proof fn lemma_tag_len_closed(tag: Seq<char>, y: Seq<char>)
    requires
        forall|i: int| 0 <= i < tag.len() ==> tag[i] != '>',
    ensures
        tag_len(tag + seq!['>'] + y) == tag.len(),
    decreases tag.len(),
{
    let s = tag + seq!['>'] + y;
    if tag.len() == 0 {
        assert(s[0] == '>');
    } else {
        let t1 = tag.skip(1);
        assert forall|i: int| 0 <= i < t1.len() implies t1[i] != '>' by {
            assert(t1[i] == tag[i + 1]);
        }
        lemma_tag_len_closed(t1, y);
        assert(s.skip(1) =~= t1 + seq!['>'] + y);
        assert(s[0] == tag[0]);
    }
}

/// A closed tag reads as its keys, and the rest follows.
proof fn lemma_tag_token(tag: Seq<char>, y: Seq<char>)
    requires
        forall|i: int| 0 <= i < tag.len() ==> tag[i] != '>',
    ensures
        notation_keys(seq!['<'] + tag + seq!['>'] + y) == tag_keys(tag) + notation_keys(y),
{
    let s = seq!['<'] + tag + seq!['>'] + y;
    let rest = s.skip(1);
    assert(rest =~= tag + seq!['>'] + y);
    lemma_tag_len_closed(tag, y);
    assert(rest.take(tag.len() as int) =~= tag);
    assert(rest.skip(tag.len() as int + 1) =~= y);
    assert(s[0] == '<');
}

/// A notable key's notation reads back as the key, and the rest follows.
proof fn lemma_key_token(k: Key, y: Seq<char>)
    requires
        notable_key(k),
    ensures
        notation_keys(key_notation(k) + y) == seq![k] + notation_keys(y),
{
    reveal_with_fuel(upper_text, 4);
    match k {
        Key::Char(c) => {
            let s = seq![c] + y;
            assert(s[0] == c);
            assert(s.skip(1) =~= y);
        },
        Key::Enter => {
            let tag = seq!['C', 'R'];
            lemma_tag_token(tag, y);
            assert(seq!['<'] + tag + seq!['>'] + y =~= key_notation(k) + y);
            assert(tag.drop_last() =~= seq!['C']);
            assert(seq!['C'].drop_last() =~= Seq::<char>::empty());
            assert(upper_text(tag) =~= seq!['C', 'R']);
        },
        Key::Esc => {
            let tag = seq!['E', 's', 'c'];
            lemma_tag_token(tag, y);
            assert(seq!['<'] + tag + seq!['>'] + y =~= key_notation(k) + y);
            assert(tag.drop_last() =~= seq!['E', 's']);
            assert(seq!['E', 's'].drop_last() =~= seq!['E']);
            assert(seq!['E'].drop_last() =~= Seq::<char>::empty());
            assert(ascii_upper('s') == 'S');
            assert(ascii_upper('c') == 'C');
            assert(upper_text(tag) =~= seq!['E', 'S', 'C']);
        },
        Key::Backspace => {
            let tag = seq!['B', 'S'];
            lemma_tag_token(tag, y);
            assert(seq!['<'] + tag + seq!['>'] + y =~= key_notation(k) + y);
            assert(tag.drop_last() =~= seq!['B']);
            assert(seq!['B'].drop_last() =~= Seq::<char>::empty());
            assert(upper_text(tag) =~= seq!['B', 'S']);
        },
        Key::Tab => {
            let tag = seq!['T', 'a', 'b'];
            lemma_tag_token(tag, y);
            assert(seq!['<'] + tag + seq!['>'] + y =~= key_notation(k) + y);
            assert(tag.drop_last() =~= seq!['T', 'a']);
            assert(seq!['T', 'a'].drop_last() =~= seq!['T']);
            assert(seq!['T'].drop_last() =~= Seq::<char>::empty());
            assert(ascii_upper('a') == 'A');
            assert(ascii_upper('b') == 'B');
            assert(upper_text(tag) =~= seq!['T', 'A', 'B']);
        },
        _ => {},
    }
}

/// Law: the notation of notable keys (characters other than `<`, Enter,
/// Escape, Backspace, Tab) parses back to the same keys.
pub proof fn law_notation_round_trip(ks: Seq<Key>)
    requires
        forall|i: int| 0 <= i < ks.len() ==> notable_key(#[trigger] ks[i]),
    ensures
        notation_keys(keys_notation(ks)) == ks,
    decreases ks.len(),
{
    if ks.len() > 0 {
        let rest = ks.skip(1);
        assert forall|i: int| 0 <= i < rest.len() implies notable_key(#[trigger] rest[i]) by {
            assert(rest[i] == ks[i + 1]);
        }
        law_notation_round_trip(rest);
        assert(notable_key(ks[0]));
        lemma_key_token(ks[0], keys_notation(rest));
        assert(seq![ks[0]] + rest =~= ks);
    }
}

/// A mapping as the keys it maps.
pub open spec fn pair_view(p: (Vec<Key>, Vec<Key>)) -> (Seq<Key>, Seq<Key>) {
    (p.0@, p.1@)
}

/// A list of mappings as the keys they map.
pub open spec fn maps_view(m: Seq<(Vec<Key>, Vec<Key>)>) -> Seq<(Seq<Key>, Seq<Key>)>
    decreases m.len(),
{
    if m.len() == 0 {
        Seq::empty()
    } else {
        maps_view(m.drop_last()).push(pair_view(m.last()))
    }
}

/// The entries of `m` whose left side is not `lhs`, in order.
pub open spec fn without_lhs<V>(m: Seq<(Seq<Key>, V)>, lhs: Seq<Key>) -> Seq<(Seq<Key>, V)>
    decreases m.len(),
{
    if m.len() == 0 {
        Seq::empty()
    } else {
        let p = without_lhs(m.drop_last(), lhs);
        if m.last().0 == lhs {
            p
        } else {
            p.push(m.last())
        }
    }
}

/// What the newest entry for `lhs` in `m` maps it to, if any.
pub open spec fn lookup<V>(m: Seq<(Seq<Key>, V)>, lhs: Seq<Key>) -> Option<V>
    decreases m.len(),
{
    if m.len() == 0 {
        None
    } else if m.last().0 == lhs {
        Some(m.last().1)
    } else {
        lookup(m.drop_last(), lhs)
    }
}

/// Whether two key sequences are equal.
fn keys_equal(a: &[Key], b: &[Key]) -> (r: bool)
    ensures
        r == (a@ == b@),
{
    if a.len() != b.len() {
        return false;
    }
    let mut i: usize = 0;
    while i < a.len()
        invariant
            i <= a@.len() == b@.len(),
            a@.take(i as int) == b@.take(i as int),
        decreases a.len() - i,
    {
        if a[i] != b[i] {
            return false;
        }
        assert(a@.take(i + 1) =~= a@.take(i as int).push(a@[i as int]));
        assert(b@.take(i + 1) =~= b@.take(i as int).push(b@[i as int]));
        i = i + 1;
    }
    assert(a@.take(a@.len() as int) =~= a@);
    assert(b@.take(b@.len() as int) =~= b@);
    true
}

/// A copy of `k`.
fn copy_keys(k: &[Key]) -> (r: Vec<Key>)
    ensures
        r@ == k@,
{
    let mut r: Vec<Key> = Vec::new();
    let mut i: usize = 0;
    while i < k.len()
        invariant
            i <= k@.len(),
            r@ == k@.take(i as int),
        decreases k.len() - i,
    {
        r.push(k[i]);
        assert(k@.take(i + 1) =~= k@.take(i as int).push(k@[i as int]));
        i = i + 1;
    }
    assert(k@.take(k@.len() as int) =~= k@);
    r
}

/// The mappings of `maps` whose left side is not `lhs`.
fn maps_without(maps: &Vec<(Vec<Key>, Vec<Key>)>, lhs: &[Key]) -> (r: Vec<(Vec<Key>, Vec<Key>)>)
    ensures
        maps_view(r@) == without_lhs(maps_view(maps@), lhs@),
{
    let mut out: Vec<(Vec<Key>, Vec<Key>)> = Vec::new();
    let mut i: usize = 0;
    while i < maps.len()
        invariant
            i <= maps@.len(),
            maps_view(out@) == without_lhs(maps_view(maps@.take(i as int)), lhs@),
        decreases maps.len() - i,
    {
        assert(maps@.take(i + 1).drop_last() =~= maps@.take(i as int));
        let ghost mv = maps_view(maps@.take(i + 1));
        assert(mv == maps_view(maps@.take(i as int)).push(pair_view(maps@[i as int])));
        assert(mv.drop_last() =~= maps_view(maps@.take(i as int)));
        assert(mv.last() == pair_view(maps@[i as int]));
        let same = keys_equal(maps[i].0.as_slice(), lhs);
        if !same {
            let p = (copy_keys(maps[i].0.as_slice()), copy_keys(maps[i].1.as_slice()));
            let ghost before = out@;
            out.push(p);
            assert(out@.drop_last() =~= before);
            assert(pair_view(p) == pair_view(maps@[i as int]));
            assert(maps_view(out@) == maps_view(before).push(pair_view(p)));
        }
        i = i + 1;
    }
    assert(maps@.take(maps@.len() as int) =~= maps@);
    out
}

/// The abbreviations as the texts they map.
pub open spec fn abbrevs_view(a: Seq<(String, String)>) -> Seq<(Seq<char>, Seq<char>)>
    decreases a.len(),
{
    if a.len() == 0 {
        Seq::empty()
    } else {
        abbrevs_view(a.drop_last()).push((a.last().0@, a.last().1@))
    }
}

/// The entries of `a` whose left side is not `lhs`, in order.
pub open spec fn abbrevs_without(a: Seq<(Seq<char>, Seq<char>)>, lhs: Seq<char>) -> Seq<(Seq<char>, Seq<char>)>
    decreases a.len(),
{
    if a.len() == 0 {
        Seq::empty()
    } else {
        let p = abbrevs_without(a.drop_last(), lhs);
        if a.last().0 == lhs {
            p
        } else {
            p.push(a.last())
        }
    }
}

/// The abbreviations of `a` whose left side is not `lhs`.
fn abbreviations_without(a: &Vec<(String, String)>, lhs: &str) -> (r: Vec<(String, String)>)
    ensures
        abbrevs_view(r@) == abbrevs_without(abbrevs_view(a@), lhs@),
{
    let mut out: Vec<(String, String)> = Vec::new();
    let l = lhs.to_owned();
    let mut i: usize = 0;
    while i < a.len()
        invariant
            i <= a@.len(),
            l@ == lhs@,
            abbrevs_view(out@) == abbrevs_without(abbrevs_view(a@.take(i as int)), lhs@),
        decreases a.len() - i,
    {
        assert(a@.take(i + 1).drop_last() =~= a@.take(i as int));
        let ghost av = abbrevs_view(a@.take(i + 1));
        assert(av == abbrevs_view(a@.take(i as int)).push((a@[i as int].0@, a@[i as int].1@)));
        assert(av.drop_last() =~= abbrevs_view(a@.take(i as int)));
        if a[i].0 != l {
            let p = (a[i].0.clone(), a[i].1.clone());
            let ghost before = out@;
            out.push(p);
            assert(out@.drop_last() =~= before);
            assert(abbrevs_view(out@) == abbrevs_view(before).push((p.0@, p.1@)));
        }
        i = i + 1;
    }
    assert(a@.take(a@.len() as int) =~= a@);
    out
}

/// `e2` is `e` with the mappings of `insert` mode (else normal mode) now
/// `maps`, and maybe a status message; everything else stays.
pub open spec fn maps_set(e: Editor, e2: Editor, insert: bool, maps: Seq<(Seq<Key>, Seq<Key>)>) -> bool {
    &&& e2.document == e.document
    &&& if insert {
        &&& maps_view(e2.state.mappings.insert_maps@) == maps
        &&& e2.state.mappings.normal_maps == e.state.mappings.normal_maps
    } else {
        &&& maps_view(e2.state.mappings.normal_maps@) == maps
        &&& e2.state.mappings.insert_maps == e.state.mappings.insert_maps
    }
    &&& e2.state.mappings.abbreviations == e.state.mappings.abbreviations
    &&& e2.state.mappings.map_pending == e.state.mappings.map_pending
    &&& e2.state.mappings.map_depth == e.state.mappings.map_depth
    &&& e2.state == (EditorState {
        mappings: e2.state.mappings,
        status_message: e2.state.status_message,
        ..e.state
    })
}

/// The mappings of `insert` mode (else normal mode).
pub open spec fn mode_maps(e: Editor, insert: bool) -> Seq<(Seq<Key>, Seq<Key>)> {
    if insert {
        maps_view(e.state.mappings.insert_maps@)
    } else {
        maps_view(e.state.mappings.normal_maps@)
    }
}

impl Editor {
    /// `:map lhs rhs` (`:map!` for insert mode): `lhs` now maps to `rhs`,
    /// replacing any mapping of `lhs`.
    pub fn execute_map(&mut self, insert_mode: bool, lhs: &str, rhs: &str)
        ensures
            mapped(*old(self), *final(self), insert_mode, lhs@, rhs@),

    {
        let lhs_keys = parse_key_notation(lhs);
        let rhs_keys = parse_key_notation(rhs);
        let ghost entry = pair_view((lhs_keys, rhs_keys));
        if insert_mode {
            let mut m = maps_without(&self.state.mappings.insert_maps, lhs_keys.as_slice());
            let ghost before = m@;
            m.push((lhs_keys, rhs_keys));
            assert(m@.drop_last() =~= before);
            self.state.mappings.insert_maps = m;
        } else {
            let mut m = maps_without(&self.state.mappings.normal_maps, lhs_keys.as_slice());
            let ghost before = m@;
            m.push((lhs_keys, rhs_keys));
            assert(m@.drop_last() =~= before);
            self.state.mappings.normal_maps = m;
        }
    }

    /// `:unmap lhs` (`:unmap!` for insert mode): remove the mapping of
    /// `lhs`; without one, an error message.
    pub fn execute_unmap(&mut self, insert_mode: bool, lhs: &str)
        ensures
            unmapped(*old(self), *final(self), insert_mode, lhs@),

    {
        let lhs_keys = parse_key_notation(lhs);
        let before_len;
        let after_len;
        if insert_mode {
            before_len = self.state.mappings.insert_maps.len();
            let m = maps_without(&self.state.mappings.insert_maps, lhs_keys.as_slice());
            after_len = m.len();
            self.state.mappings.insert_maps = m;
        } else {
            before_len = self.state.mappings.normal_maps.len();
            let m = maps_without(&self.state.mappings.normal_maps, lhs_keys.as_slice());
            after_len = m.len();
            self.state.mappings.normal_maps = m;
        }
        proof {
            lemma_maps_view_len(old(self).state.mappings.insert_maps@);
            lemma_maps_view_len(old(self).state.mappings.normal_maps@);
            lemma_maps_view_len(self.state.mappings.insert_maps@);
            lemma_maps_view_len(self.state.mappings.normal_maps@);
        }
        if after_len == before_len {
            self.state.status_message = Some(StatusMessage::Error("E31: No such mapping".to_owned()));
        }
    }

    /// `:abbreviate lhs rhs`: `lhs` now abbreviates `rhs`, replacing any
    /// abbreviation of `lhs`.
    pub fn execute_abbreviate(&mut self, lhs: &str, rhs: &str)
        ensures
            abbreviated(*old(self), *final(self), lhs@, rhs@),

    {
        let mut a = abbreviations_without(&self.state.mappings.abbreviations, lhs);
        let ghost before = a@;
        a.push((lhs.to_owned(), rhs.to_owned()));
        assert(a@.drop_last() =~= before);
        self.state.mappings.abbreviations = a;
    }

    /// `:unabbreviate lhs`: remove the abbreviation of `lhs`; without one,
    /// an error message.
    pub fn execute_unabbreviate(&mut self, lhs: &str)
        ensures
            unabbreviated(*old(self), *final(self), lhs@),

    {
        let before_len = self.state.mappings.abbreviations.len();
        let a = abbreviations_without(&self.state.mappings.abbreviations, lhs);
        let after_len = a.len();
        self.state.mappings.abbreviations = a;
        proof {
            lemma_abbrevs_view_len(old(self).state.mappings.abbreviations@);
            lemma_abbrevs_view_len(self.state.mappings.abbreviations@);
        }
        if after_len == before_len {
            self.state.status_message = Some(StatusMessage::Error("E31: No such abbreviation".to_owned()));
        }
    }
}

/// The view of a list of mappings has its length.
proof fn lemma_maps_view_len(m: Seq<(Vec<Key>, Vec<Key>)>)
    ensures
        maps_view(m).len() == m.len(),
    decreases m.len(),
{
    if m.len() > 0 {
        lemma_maps_view_len(m.drop_last());
    }
}

/// The view of a list of abbreviations has its length.
proof fn lemma_abbrevs_view_len(a: Seq<(String, String)>)
    ensures
        abbrevs_view(a).len() == a.len(),
    decreases a.len(),
{
    if a.len() > 0 {
        lemma_abbrevs_view_len(a.drop_last());
    }
}

/// Law: after mapping `lhs` to `rhs`, `lhs` maps to `rhs`.
pub proof fn law_map_then_lookup(m: Seq<(Seq<Key>, Seq<Key>)>, lhs: Seq<Key>, rhs: Seq<Key>)
    ensures
        lookup(without_lhs(m, lhs).push((lhs, rhs)), lhs) == Some(rhs),
{
    assert(without_lhs(m, lhs).push((lhs, rhs)).drop_last() =~= without_lhs(m, lhs));
}

/// Law: after unmapping `lhs`, nothing maps it.
pub proof fn law_unmap_then_lookup<V>(m: Seq<(Seq<Key>, V)>, lhs: Seq<Key>)
    ensures
        lookup(without_lhs(m, lhs), lhs) is None,
    decreases m.len(),
{
    if m.len() > 0 {
        law_unmap_then_lookup(m.drop_last(), lhs);
        let p = without_lhs(m.drop_last(), lhs);
        if m.last().0 != lhs {
            assert(p.push(m.last()).drop_last() =~= p);
        }
    }
}

/// Law: mapping `lhs` and then unmapping it leaves the other mappings as
/// they were, and no mapping of `lhs`.
pub proof fn law_unmap_undoes_map(m: Seq<(Seq<Key>, Seq<Key>)>, lhs: Seq<Key>, rhs: Seq<Key>)
    ensures
        without_lhs(without_lhs(m, lhs).push((lhs, rhs)), lhs) == without_lhs(m, lhs),
{
    lemma_without_idempotent(m, lhs);
    assert(without_lhs(m, lhs).push((lhs, rhs)).drop_last() =~= without_lhs(m, lhs));
}

/// Removing the entries of `lhs` twice removes nothing more.
proof fn lemma_without_idempotent<V>(m: Seq<(Seq<Key>, V)>, lhs: Seq<Key>)
    ensures
        without_lhs(without_lhs(m, lhs), lhs) == without_lhs(m, lhs),
    decreases m.len(),
{
    if m.len() > 0 {
        lemma_without_idempotent(m.drop_last(), lhs);
        let p = without_lhs(m.drop_last(), lhs);
        if m.last().0 != lhs {
            assert(p.push(m.last()).drop_last() =~= p);
        }
    }
}

/// `a -> b`.
pub open spec fn arrow(a: Seq<char>, b: Seq<char>) -> Seq<char> {
    a + seq![' ', '-', '>', ' '] + b
}

/// Entries `a -> b`, two spaces between entries.
pub open spec fn listing(entries: Seq<(Seq<char>, Seq<char>)>) -> Seq<char>
    decreases entries.len(),
{
    if entries.len() == 0 {
        Seq::empty()
    } else if entries.len() == 1 {
        arrow(entries[0].0, entries[0].1)
    } else {
        listing(entries.drop_last()) + seq![' ', ' '] + arrow(entries.last().0, entries.last().1)
    }
}

/// Mappings written in notation.
pub open spec fn maps_notation(m: Seq<(Seq<Key>, Seq<Key>)>) -> Seq<(Seq<char>, Seq<char>)>
    decreases m.len(),
{
    if m.len() == 0 {
        Seq::empty()
    } else {
        maps_notation(m.drop_last()).push((keys_notation(m.last().0), keys_notation(m.last().1)))
    }
}

/// Append `a -> b` to `s`, after two spaces unless `first`.
fn push_entry(s: &mut String, first: bool, a: &str, b: &str)
    ensures
        final(s)@ == old(s)@ + (if first {
            Seq::<char>::empty()
        } else {
            seq![' ', ' ']
        }) + arrow(a@, b@),
{
    let ghost start = s@;
    if !first {
        crate::text::push_char(s, ' ');
        crate::text::push_char(s, ' ');
    }
    crate::text::append_str(s, a);
    crate::text::push_char(s, ' ');
    crate::text::push_char(s, '-');
    crate::text::push_char(s, '>');
    crate::text::push_char(s, ' ');
    crate::text::append_str(s, b);
    assert(s@ =~= start + (if first {
        Seq::<char>::empty()
    } else {
        seq![' ', ' ']
    }) + arrow(a@, b@));
}

impl Editor {
    /// Bare `:map` (`:map!` for insert mode): list the mappings, or an
    /// error message when there are none.
    pub fn execute_show_maps(&mut self, insert_mode: bool)
        ensures
            maps_shown(*old(self), *final(self), insert_mode),

    {
        let maps = if insert_mode {
            &self.state.mappings.insert_maps
        } else {
            &self.state.mappings.normal_maps
        };
        proof {
            lemma_maps_view_len(maps@);
        }
        if maps.len() == 0 {
            self.state.status_message = Some(StatusMessage::Error("No mappings".to_owned()));
            return;
        }
        let mut s = String::new();
        let mut i: usize = 0;
        while i < maps.len()
            invariant
                i <= maps@.len(),
                s@ == listing(maps_notation(maps_view(maps@.take(i as int)))),
            decreases maps.len() - i,
        {
            let l = keys_to_notation(maps[i].0.as_slice());
            let r = keys_to_notation(maps[i].1.as_slice());
            proof {
                lemma_maps_view_len(maps@.take(i as int));
                lemma_maps_notation_len(maps_view(maps@.take(i as int)));
                assert(maps@.take(i + 1).drop_last() =~= maps@.take(i as int));
                let mv = maps_view(maps@.take(i + 1));
                assert(mv == maps_view(maps@.take(i as int)).push(pair_view(maps@[i as int])));
                assert(mv.drop_last() =~= maps_view(maps@.take(i as int)));
                let mn = maps_notation(mv);
                assert(mn.drop_last() =~= maps_notation(maps_view(maps@.take(i as int))));
                assert(mn.len() == i + 1);
                if i == 0 {
                    assert(mn[0] == mn.last());
                }
            }
            push_entry(&mut s, i == 0, l.as_str(), r.as_str());
            proof {
                if i == 0 {
                    assert(s@ =~= listing(maps_notation(maps_view(maps@.take(1)))));
                }
            }
            i = i + 1;
        }
        assert(maps@.take(maps@.len() as int) =~= maps@);
        self.state.status_message = Some(StatusMessage::Info(s));
    }

    /// Bare `:abbreviate`: list the abbreviations, or an error message when
    /// there are none.
    pub fn execute_show_abbreviations(&mut self)
        ensures
            abbreviations_shown(*old(self), *final(self)),

    {
        let a = &self.state.mappings.abbreviations;
        proof {
            lemma_abbrevs_view_len(a@);
        }
        if a.len() == 0 {
            self.state.status_message = Some(StatusMessage::Error("No abbreviations".to_owned()));
            return;
        }
        let mut s = String::new();
        let mut i: usize = 0;
        while i < a.len()
            invariant
                i <= a@.len(),
                s@ == listing(abbrevs_view(a@.take(i as int))),
            decreases a.len() - i,
        {
            proof {
                lemma_abbrevs_view_len(a@.take(i as int));
                assert(a@.take(i + 1).drop_last() =~= a@.take(i as int));
                let av = abbrevs_view(a@.take(i + 1));
                assert(av.drop_last() =~= abbrevs_view(a@.take(i as int)));
                if i == 0 {
                    assert(av[0] == av.last());
                }
            }
            push_entry(&mut s, i == 0, a[i].0.as_str(), a[i].1.as_str());
            i = i + 1;
        }
        assert(a@.take(a@.len() as int) =~= a@);
        self.state.status_message = Some(StatusMessage::Info(s));
    }
}

/// Writing mappings in notation keeps their number.
proof fn lemma_maps_notation_len(m: Seq<(Seq<Key>, Seq<Key>)>)
    ensures
        maps_notation(m).len() == m.len(),
    decreases m.len(),
{
    if m.len() > 0 {
        lemma_maps_notation_len(m.drop_last());
    }
}

} // verus!

verus! {

/// What `:map` (or `:map!`) of `lhs` to `rhs` leaves in `e2`, starting from `e`.
pub open spec fn mapped(e: Editor, e2: Editor, insert_mode: bool, lhs: Seq<char>, rhs: Seq<char>) -> bool {
    &&& (({
        let l = notation_keys(lhs);
        let r = notation_keys(rhs);
        &&& maps_set(e, e2, insert_mode, without_lhs(mode_maps(e, insert_mode), l).push((l, r)))
        &&& e2.state.status_message == e.state.status_message
    }))
}

} // verus!

verus! {

/// What `:unmap` (or `:unmap!`) of `lhs` leaves in `e2`, starting from `e`.
pub open spec fn unmapped(e: Editor, e2: Editor, insert_mode: bool, lhs: Seq<char>) -> bool {
    &&& (({
        let l = notation_keys(lhs);
        let m = mode_maps(e, insert_mode);
        &&& maps_set(e, e2, insert_mode, without_lhs(m, l))
        &&& if without_lhs(m, l).len() == m.len() {
            e2.state.status_message matches Some(StatusMessage::Error(s)) && s@
                == "E31: No such mapping"@
        } else {
            e2.state.status_message == e.state.status_message
        }
    }))
}

} // verus!

verus! {

/// What listing the mappings leaves in `e2`, starting from `e`.
pub open spec fn maps_shown(e: Editor, e2: Editor, insert_mode: bool) -> bool {
    &&& (e2.document == e.document)
    &&& (e2.state == (EditorState { status_message: e2.state.status_message, ..e.state }))
    &&& (({
        let m = mode_maps(e, insert_mode);
        if m.len() == 0 {
            e2.state.status_message matches Some(StatusMessage::Error(s)) && s@ == "No mappings"@
        } else {
            e2.state.status_message matches Some(StatusMessage::Info(s)) && s@ == listing(maps_notation(m))
        }
    }))
}

} // verus!

verus! {

/// What `:ab lhs rhs` leaves in `e2`, starting from `e`.
pub open spec fn abbreviated(e: Editor, e2: Editor, lhs: Seq<char>, rhs: Seq<char>) -> bool {
    &&& (e2.document == e.document)
    &&& (abbrevs_view(e2.state.mappings.abbreviations@) == abbrevs_without(
        abbrevs_view(e.state.mappings.abbreviations@),
        lhs,
    ).push((lhs, rhs)))
    &&& (e2.state == (EditorState {
        mappings: e2.state.mappings,
        ..e.state
    }))
    &&& (e2.state.mappings.normal_maps == e.state.mappings.normal_maps)
    &&& (e2.state.mappings.insert_maps == e.state.mappings.insert_maps)
    &&& (e2.state.mappings.map_pending == e.state.mappings.map_pending)
    &&& (e2.state.mappings.map_depth == e.state.mappings.map_depth)
}

} // verus!

verus! {

/// What `:una lhs` leaves in `e2`, starting from `e`.
pub open spec fn unabbreviated(e: Editor, e2: Editor, lhs: Seq<char>) -> bool {
    &&& (({
        let a = abbrevs_view(e.state.mappings.abbreviations@);
        &&& e2.document == e.document
        &&& abbrevs_view(e2.state.mappings.abbreviations@) == abbrevs_without(a, lhs)
        &&& e2.state == (EditorState {
            mappings: e2.state.mappings,
            status_message: e2.state.status_message,
            ..e.state
        })
        &&& e2.state.mappings.normal_maps == e.state.mappings.normal_maps
        &&& e2.state.mappings.insert_maps == e.state.mappings.insert_maps
        &&& e2.state.mappings.map_pending == e.state.mappings.map_pending
        &&& e2.state.mappings.map_depth == e.state.mappings.map_depth
        &&& if abbrevs_without(a, lhs).len() == a.len() {
            e2.state.status_message matches Some(StatusMessage::Error(s)) && s@
                == "E31: No such abbreviation"@
        } else {
            e2.state.status_message == e.state.status_message
        }
    }))
}

} // verus!

verus! {

/// What listing the abbreviations leaves in `e2`, starting from `e`.
pub open spec fn abbreviations_shown(e: Editor, e2: Editor) -> bool {
    &&& (e2.document == e.document)
    &&& (e2.state == (EditorState { status_message: e2.state.status_message, ..e.state }))
    &&& (({
        let a = abbrevs_view(e.state.mappings.abbreviations@);
        if a.len() == 0 {
            e2.state.status_message matches Some(StatusMessage::Error(s)) && s@ == "No abbreviations"@
        } else {
            e2.state.status_message matches Some(StatusMessage::Info(s)) && s@ == listing(a)
        }
    }))
}

} // verus!

verus! {

/// `char_keys` types each character as itself.
proof fn lemma_char_keys_each(s: Seq<char>)
    ensures
        char_keys(s).len() == s.len(),
        forall|i: int| 0 <= i < s.len() ==> #[trigger] char_keys(s)[i] == Key::Char(s[i]),
    decreases s.len(),
{
    if s.len() > 0 {
        lemma_char_keys_each(s.drop_last());
    }
}

/// A name without `>` runs to the `>` that follows it.
proof fn lemma_tag_len_name(name: Seq<char>, rest: Seq<char>)
    requires
        forall|i: int| 0 <= i < name.len() ==> #[trigger] name[i] != '>',
    ensures
        tag_len(name + seq!['>'] + rest) == name.len(),
    decreases name.len(),
{
    let s = name + seq!['>'] + rest;
    if name.len() == 0 {
        assert(s[0] == '>');
    } else {
        assert(s[0] == name[0]);
        assert(s.skip(1) =~= name.skip(1) + seq!['>'] + rest);
        assert forall|i: int| 0 <= i < name.skip(1).len() implies #[trigger] name.skip(1)[i] != '>' by {
            assert(name.skip(1)[i] == name[i + 1]);
        }
        lemma_tag_len_name(name.skip(1), rest);
    }
}

/// A `<name>` tag in key notation, followed by `rest`, is read as the key
/// the name stands for (in any case: `upper_text` is the name in capitals),
/// then the keys of `rest`: `<Space>` is the space key, `<CR>`, `<Enter>`
/// and `<Return>` are Enter, `<Esc>` and `<Escape>` are Esc, `<BS>` and
/// `<Backspace>` are Backspace, `<Tab>` is Tab; any other tag is typed as
/// its characters, `<` and `>` included.
pub proof fn law_named_key_notation(name: Seq<char>, rest: Seq<char>)
    requires
        forall|i: int| 0 <= i < name.len() ==> #[trigger] name[i] != '>',
    ensures
        ({
            let u = upper_text(name);
            let ks = notation_keys(seq!['<'] + name + seq!['>'] + rest);
            let tail = notation_keys(rest);
            &&& u == seq!['S', 'P', 'A', 'C', 'E'] ==> ks == seq![Key::Char(' ')] + tail
            &&& (u == seq!['C', 'R'] || u == seq!['E', 'N', 'T', 'E', 'R'] || u == seq!['R', 'E', 'T', 'U', 'R', 'N'])
                ==> ks == seq![Key::Enter] + tail
            &&& (u == seq!['E', 'S', 'C'] || u == seq!['E', 'S', 'C', 'A', 'P', 'E']) ==> ks == seq![Key::Esc]
                + tail
            &&& (u == seq!['B', 'S'] || u == seq!['B', 'A', 'C', 'K', 'S', 'P', 'A', 'C', 'E']) ==> ks == seq![
                Key::Backspace,
            ] + tail
            &&& u == seq!['T', 'A', 'B'] ==> ks == seq![Key::Tab] + tail
            &&& !(u == seq!['S', 'P', 'A', 'C', 'E'] || u == seq!['C', 'R'] || u == seq!['E', 'N', 'T', 'E', 'R']
                || u == seq!['R', 'E', 'T', 'U', 'R', 'N'] || u == seq!['E', 'S', 'C'] || u == seq![
                'E',
                'S',
                'C',
                'A',
                'P',
                'E',
            ] || u == seq!['B', 'S'] || u == seq!['B', 'A', 'C', 'K', 'S', 'P', 'A', 'C', 'E'] || u == seq![
                'T',
                'A',
                'B',
            ]) ==> {
                &&& ks.len() == name.len() + 2 + tail.len()
                &&& ks[0] == Key::Char('<')
                &&& forall|i: int| 0 <= i < name.len() ==> #[trigger] ks[i + 1] == Key::Char(name[i])
                &&& ks[name.len() + 1int] == Key::Char('>')
                &&& ks.skip(name.len() + 2int) == tail
            }
        }),
{
    lemma_char_keys_each(name);
    let s = seq!['<'] + name + seq!['>'] + rest;
    let r = s.skip(1);
    assert(r =~= name + seq!['>'] + rest);
    lemma_tag_len_name(name, rest);
    let t = name.len() as int;
    assert(r.take(t) =~= name);
    assert(r.skip(t + 1) =~= rest);
    let ck = char_keys(name);
    let lit = seq![typed('<')] + ck + seq![typed('>')];
    assert(lit.len() == name.len() + 2);
    assert forall|i: int| 0 <= i < name.len() implies #[trigger] lit[i + 1] == Key::Char(name[i]) by {
        assert(lit[i + 1] == ck[i]);
    }
    assert((lit + notation_keys(rest)).skip(name.len() + 2int) =~= notation_keys(rest));
    assert forall|i: int| 0 <= i < lit.len() implies #[trigger] (lit + notation_keys(rest))[i] == lit[i] by {}
}

} // verus!
