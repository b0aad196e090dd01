//! Vi registers: the unnamed register, named registers `a`–`z` (upper case
//! appends), the yank register `0`, numbered delete registers `1`–`9`, the
//! small-delete register `-` and the black hole `_`.

use vstd::prelude::*;
use crate::text::append_str;

verus! {

/// How register text is to be put back.
#[derive(Debug, Clone, Copy, PartialEq, Eq, Structural)]
pub enum ContentType {
    /// Part of a line.
    Characterwise,
    /// Whole lines.
    Linewise,
    /// A rectangular block.
    Blockwise,
}

/// The content of a register.
#[derive(Debug)]
pub struct RegisterContent {
    text: String,
    content_type: ContentType,
}

impl RegisterContent {
    /// The stored text.
    pub closed spec fn spec_text(&self) -> Seq<char> {
        self.text@
    }

    /// The stored kind.
    pub closed spec fn spec_kind(&self) -> ContentType {
        self.content_type
    }

    /// Content with the given text and kind.
    pub fn new(text: String, content_type: ContentType) -> (r: RegisterContent)
        ensures
            r.spec_text() == text@,
            r.spec_kind() == content_type,
    {
        RegisterContent { text, content_type }
    }

    /// Characterwise content.
    pub fn characterwise(text: String) -> (r: RegisterContent)
        ensures
            r.spec_text() == text@,
            r.spec_kind() == ContentType::Characterwise,
    {
        RegisterContent { text, content_type: ContentType::Characterwise }
    }

    /// Linewise content.
    pub fn linewise(text: String) -> (r: RegisterContent)
        ensures
            r.spec_text() == text@,
            r.spec_kind() == ContentType::Linewise,
    {
        RegisterContent { text, content_type: ContentType::Linewise }
    }

    /// The stored text.
    pub fn text(&self) -> (s: &str)
        ensures
            s@ == self.spec_text(),
    {
        self.text.as_str()
    }

    /// The stored kind.
    pub fn content_type(&self) -> (k: ContentType)
        ensures
            k == self.spec_kind(),
    {
        self.content_type
    }

    /// Whether the content is linewise.
    pub fn is_linewise(&self) -> (b: bool)
        ensures
            b == (self.spec_kind() is Linewise),
    {
        matches!(self.content_type, ContentType::Linewise)
    }

    /// Whether the content is characterwise.
    pub fn is_characterwise(&self) -> (b: bool)
        ensures
            b == (self.spec_kind() is Characterwise),
    {
        matches!(self.content_type, ContentType::Characterwise)
    }

    /// An equal copy.
    pub fn duplicate(&self) -> (r: RegisterContent)
        ensures
            r.spec_text() == self.spec_text(),
            r.spec_kind() == self.spec_kind(),
    {
        RegisterContent { text: self.text.clone(), content_type: self.content_type }
    }
}

/// A register name.
#[derive(Debug, Clone, Copy, PartialEq, Eq, Structural)]
pub enum RegisterId {
    /// `"`: the unnamed register.
    Unnamed,
    /// `a`–`z`.
    Named(char),
    /// `A`–`Z`: append to the lower-case register.
    Append(char),
    /// `0`: the last yank.
    Yank,
    /// `1`–`9`: the last deletes, newest first.
    Numbered(u8),
    /// `-`: the last delete within a line.
    SmallDelete,
    /// `_`: discards what is written.
    BlackHole,
}

/// The register a character names, if any.
pub open spec fn parse_register(c: char) -> Option<RegisterId> {
    if c == '"' {
        Some(RegisterId::Unnamed)
    } else if 'a' <= c <= 'z' {
        Some(RegisterId::Named(c))
    } else if 'A' <= c <= 'Z' {
        Some(RegisterId::Append(((c as u32) + 32) as char))
    } else if c == '0' {
        Some(RegisterId::Yank)
    } else if '1' <= c <= '9' {
        Some(RegisterId::Numbered(((c as u32) - ('0' as u32)) as u8))
    } else if c == '-' {
        Some(RegisterId::SmallDelete)
    } else if c == '_' {
        Some(RegisterId::BlackHole)
    } else {
        None
    }
}

/// The register an optional register character names.
pub open spec fn register_target(register: Option<char>) -> Option<RegisterId> {
    match register {
        Some(c) => parse_register(c),
        None => None,
    }
}

impl RegisterId {
    /// The register named by `c`, if any.
    pub fn parse(c: char) -> (r: Option<RegisterId>)
        ensures
            r == parse_register(c),
    {
        if c == '"' {
            Some(RegisterId::Unnamed)
        } else if 'a' <= c && c <= 'z' {
            Some(RegisterId::Named(c))
        } else if 'A' <= c && c <= 'Z' {
            let u: u32 = (c as u32) + 32;
            Some(RegisterId::Append(lower_of(u)))
        } else if c == '0' {
            Some(RegisterId::Yank)
        } else if '1' <= c && c <= '9' {
            let d: u32 = (c as u32) - ('0' as u32);
            Some(RegisterId::Numbered(d as u8))
        } else if c == '-' {
            Some(RegisterId::SmallDelete)
        } else if c == '_' {
            Some(RegisterId::BlackHole)
        } else {
            None
        }
    }
}

/// The character with code `u`, a lower-case ASCII letter.
fn lower_of(u: u32) -> (c: char)
    requires
        ('a' as u32) <= u <= ('z' as u32),
    ensures
        c == u as char,
{
    let b: u8 = u as u8;
    b as char
}

/// The slot index of a named register letter.
pub open spec fn letter_slot(c: char) -> int {
    (c as u32) - ('a' as u32)
}

/// The content a named register holds after storing text `t` of kind `k`
/// when it held `prev`: replaced, or for an append the text added to what
/// it held (keeping its kind).
pub open spec fn stored_named(
    prev: Option<(Seq<char>, ContentType)>,
    append: bool,
    t: Seq<char>,
    k: ContentType,
) -> Option<(Seq<char>, ContentType)> {
    if append {
        match prev {
            Some((pt, pk)) => Some((pt + t, pk)),
            None => Some((t, k)),
        }
    } else {
        Some((t, k))
    }
}

/// `id` writes named register `c` (lower case), replacing or appending.
pub open spec fn writes_letter(id: Option<RegisterId>, c: char) -> bool {
    'a' <= c <= 'z' && (id == Some(RegisterId::Named(c)) || id == Some(RegisterId::Append(c)))
}

/// `q` reads named register `c`.
pub open spec fn reads_letter(q: Option<RegisterId>, c: char) -> bool {
    q == Some(RegisterId::Named(c)) || q == Some(RegisterId::Append(c))
}

/// `q` reads the unnamed register.
pub open spec fn reads_unnamed(q: Option<RegisterId>) -> bool {
    q is None || q == Some(RegisterId::Unnamed)
}

/// The named register `id` writes, if it writes one.
pub open spec fn written_letter(id: Option<RegisterId>) -> Option<char> {
    match id {
        Some(RegisterId::Named(c)) => if 'a' <= c <= 'z' { Some(c) } else { None },
        Some(RegisterId::Append(c)) => if 'a' <= c <= 'z' { Some(c) } else { None },
        _ => None,
    }
}

/// What reading `q` gives after a named-register write by `id` of `t`
/// (kind `k`) on `r`, or `other` when `q` is not that register.
pub open spec fn named_or(
    r: Registers,
    id: Option<RegisterId>,
    t: Seq<char>,
    k: ContentType,
    q: Option<RegisterId>,
    other: Option<(Seq<char>, ContentType)>,
) -> Option<(Seq<char>, ContentType)> {
    match written_letter(id) {
        Some(c) => if reads_letter(q, c) {
            stored_named(r.spec_get(q), id == Some(RegisterId::Append(c)), t, k)
        } else {
            other
        },
        None => other,
    }
}

/// What reading `q` gives after yanking text `t` of kind `k` into `id` on
/// `r`: the black hole keeps everything; otherwise the unnamed register
/// gets the text, and so does register `0` (with no register given) or the
/// named register (replaced or appended to).
pub open spec fn get_after_yank(
    r: Registers,
    id: Option<RegisterId>,
    t: Seq<char>,
    k: ContentType,
    q: Option<RegisterId>,
) -> Option<(Seq<char>, ContentType)> {
    if id == Some(RegisterId::BlackHole) {
        r.spec_get(q)
    } else if reads_unnamed(q) {
        Some((t, k))
    } else if id is None && q == Some(RegisterId::Yank) {
        Some((t, k))
    } else {
        named_or(r, id, t, k, q, r.spec_get(q))
    }
}

/// The delete is small: characterwise text without a line break.
pub open spec fn small_delete(t: Seq<char>, k: ContentType) -> bool {
    k == ContentType::Characterwise && !t.contains('\n')
}

/// What reading `q` gives after deleting text `t` of kind `k` into `id` on
/// `r`: the black hole keeps everything; otherwise the unnamed register
/// gets the text; with no register given, a small delete goes to `-` and
/// any other shifts `1`-`8` to `2`-`9` and goes to `1`; a named register is
/// replaced or appended to.
pub open spec fn get_after_delete(
    r: Registers,
    id: Option<RegisterId>,
    t: Seq<char>,
    k: ContentType,
    q: Option<RegisterId>,
) -> Option<(Seq<char>, ContentType)> {
    if id == Some(RegisterId::BlackHole) {
        r.spec_get(q)
    } else if reads_unnamed(q) {
        Some((t, k))
    } else if id is None {
        if small_delete(t, k) {
            if q == Some(RegisterId::SmallDelete) {
                Some((t, k))
            } else {
                r.spec_get(q)
            }
        } else {
            match q {
                Some(RegisterId::Numbered(n)) => if n == 1 {
                    Some((t, k))
                } else if 2 <= n <= 9 {
                    r.spec_get(Some(RegisterId::Numbered((n - 1) as u8)))
                } else {
                    r.spec_get(q)
                },
                _ => r.spec_get(q),
            }
        }
    } else {
        named_or(r, id, t, k, q, r.spec_get(q))
    }
}

/// All registers.
#[derive(Debug)]
pub struct Registers {
    unnamed: Option<RegisterContent>,
    named: Vec<Option<RegisterContent>>,
    numbered: Vec<Option<RegisterContent>>,
    yanked: Option<RegisterContent>,
    small_delete: Option<RegisterContent>,
}

/// The text and kind of optional register content.
pub open spec fn content_view(c: Option<RegisterContent>) -> Option<(Seq<char>, ContentType)> {
    match c {
        Some(r) => Some((r.spec_text(), r.spec_kind())),
        None => None,
    }
}

impl Registers {
    /// The register slots have their fixed sizes.
    pub closed spec fn wf(&self) -> bool {
        self.named@.len() == 26 && self.numbered@.len() == 9
    }

    /// What reading `id` (or the unnamed register for `None`) gives.
    pub closed spec fn spec_get(&self, id: Option<RegisterId>) -> Option<(Seq<char>, ContentType)> {
        match id {
            None | Some(RegisterId::Unnamed) => content_view(self.unnamed),
            Some(RegisterId::Named(c)) | Some(RegisterId::Append(c)) => if 'a' <= c <= 'z' {
                content_view(self.named@[letter_slot(c)])
            } else {
                None
            },
            Some(RegisterId::Yank) => content_view(self.yanked),
            Some(RegisterId::Numbered(n)) => if 1 <= n <= 9 {
                content_view(self.numbered@[n - 1])
            } else {
                None
            },
            Some(RegisterId::SmallDelete) => content_view(self.small_delete),
            Some(RegisterId::BlackHole) => None,
        }
    }

    /// All registers empty.
    pub fn new() -> (r: Registers)
        ensures
            r.wf(),
            forall|id: Option<RegisterId>| r.spec_get(id) is None,
    {
        let mut named: Vec<Option<RegisterContent>> = Vec::new();
        let mut i: usize = 0;
        while i < 26
            invariant
                i <= 26,
                named@.len() == i,
                forall|j: int| 0 <= j < i ==> named@[j] is None,
            decreases 26 - i,
        {
            named.push(None);
            i = i + 1;
        }
        let mut numbered: Vec<Option<RegisterContent>> = Vec::new();
        let mut k: usize = 0;
        while k < 9
            invariant
                k <= 9,
                numbered@.len() == k,
                forall|j: int| 0 <= j < k ==> numbered@[j] is None,
            decreases 9 - k,
        {
            numbered.push(None);
            k = k + 1;
        }
        Registers { unnamed: None, named, numbered, yanked: None, small_delete: None }
    }

    /// Read register `id` (the unnamed register for `None`).
    pub fn get(&self, id: Option<RegisterId>) -> (r: Option<&RegisterContent>)
        requires
            self.wf(),
        ensures
            content_view(match r {
                Some(c) => Some(*c),
                None => None,
            }) == self.spec_get(id),
    {
        match id {
            None | Some(RegisterId::Unnamed) => self.unnamed.as_ref(),
            Some(RegisterId::Named(c)) | Some(RegisterId::Append(c)) => {
                if 'a' <= c && c <= 'z' {
                    let idx: usize = ((c as u32) - ('a' as u32)) as usize;
                    self.named[idx].as_ref()
                } else {
                    None
                }
            },
            Some(RegisterId::Yank) => self.yanked.as_ref(),
            Some(RegisterId::Numbered(n)) => {
                if 1 <= n && n <= 9 {
                    let idx: usize = (n - 1) as usize;
                    self.numbered[idx].as_ref()
                } else {
                    None
                }
            },
            Some(RegisterId::SmallDelete) => self.small_delete.as_ref(),
            Some(RegisterId::BlackHole) => None,
        }
    }

    /// Store `content` in named register `c` (appending for `Append`).
    fn store_named(&mut self, c: char, append: bool, content: &RegisterContent)
        requires
            old(self).wf(),
            'a' <= c <= 'z',
        ensures
            final(self).wf(),
            final(self).unnamed == old(self).unnamed,
            final(self).yanked == old(self).yanked,
            final(self).small_delete == old(self).small_delete,
            final(self).numbered == old(self).numbered,
            forall|j: int| 0 <= j < 26 && j != letter_slot(c) ==> final(self).named@[j] == old(self).named@[j],
            content_view(final(self).named@[letter_slot(c)]) == stored_named(
                content_view(old(self).named@[letter_slot(c)]),
                append,
                content.spec_text(),
                content.spec_kind(),
            ),
    {
        let idx: usize = ((c as u32) - ('a' as u32)) as usize;
        let new_content = if append {
            match &self.named[idx] {
                Some(prev) => {
                    let mut t = prev.text.clone();
                    append_str(&mut t, content.text.as_str());
                    RegisterContent { text: t, content_type: prev.content_type }
                },
                None => content.duplicate(),
            }
        } else {
            content.duplicate()
        };
        self.named.set(idx, Some(new_content));
    }

    /// Record a yank: into the named register if one is given, otherwise into
    /// register `0`; the unnamed register always receives the text (except
    /// for the black hole register, which discards it).
    pub fn yank(&mut self, id: Option<RegisterId>, content: RegisterContent)
        requires
            old(self).wf(),
        ensures
            final(self).wf(),
            forall|q: Option<RegisterId>| #[trigger] final(self).spec_get(q) == get_after_yank(
                *old(self),
                id,
                content.spec_text(),
                content.spec_kind(),
                q,
            ),
    {
        match id {
            Some(RegisterId::BlackHole) => {
                return ;
            },
            None => {
                self.yanked = Some(content.duplicate());
            },
            Some(RegisterId::Named(c)) => {
                if 'a' <= c && c <= 'z' {
                    self.store_named(c, false, &content);
                }
            },
            Some(RegisterId::Append(c)) => {
                if 'a' <= c && c <= 'z' {
                    self.store_named(c, true, &content);
                }
            },
            _ => {},
        }
        self.unnamed = Some(content);
    }

    /// Record a delete: into the named register if one is given; otherwise a
    /// characterwise delete without a line break goes to `-`, and any other
    /// delete shifts `1`–`8` into `2`–`9` and goes to `1`. The unnamed
    /// register always receives the text (except for the black hole
    /// register). `_name` is the register character as typed.
    pub fn delete(&mut self, id: Option<RegisterId>, _name: Option<char>, content: RegisterContent)
        requires
            old(self).wf(),
        ensures
            final(self).wf(),
            forall|q: Option<RegisterId>| #[trigger] final(self).spec_get(q) == get_after_delete(
                *old(self),
                id,
                content.spec_text(),
                content.spec_kind(),
                q,
            ),
    {
        match id {
            Some(RegisterId::BlackHole) => {
                return ;
            },
            None => {
                let small = content.is_characterwise() && !has_newline(content.text.as_str());
                if small {
                    self.small_delete = Some(content.duplicate());
                } else {
                    let mut i: usize = 8;
                    while i > 0
                        invariant
                            i <= 8,
                            self.numbered@.len() == 9,
                            self.named == old(self).named,
                            self.unnamed == old(self).unnamed,
                            self.yanked == old(self).yanked,
                            self.small_delete == old(self).small_delete,
                            old(self).wf(),
                            forall|j: int| 0 <= j <= i ==> self.numbered@[j] == old(self).numbered@[j],
                            forall|j: int|
                                i < j < 9 ==> content_view(#[trigger] self.numbered@[j]) == content_view(
                                    old(self).numbered@[j - 1],
                                ),
                        decreases i,
                    {
                        let moved = match &self.numbered[i - 1] {
                            Some(c) => Some(c.duplicate()),
                            None => None,
                        };
                        self.numbered.set(i, moved);
                        i = i - 1;
                    }
                    self.numbered.set(0, Some(content.duplicate()));
                }
            },
            Some(RegisterId::Named(c)) => {
                if 'a' <= c && c <= 'z' {
                    self.store_named(c, false, &content);
                }
            },
            Some(RegisterId::Append(c)) => {
                if 'a' <= c && c <= 'z' {
                    self.store_named(c, true, &content);
                }
            },
            _ => {},
        }
        self.unnamed = Some(content);
    }
}

/// Whether `s` contains a line feed.
fn has_newline(s: &str) -> (b: bool)
    ensures
        b == s@.contains('\n'),
{
    let cs = crate::text::chars_of(s);
    let mut i: usize = 0;
    while i < cs.len()
        invariant
            i <= cs@.len(),
            cs@ == s@,
            forall|j: int| 0 <= j < i ==> cs@[j] != '\n',
        decreases cs.len() - i,
    {
        if cs[i] == '\n' {
            return true;
        }
        i = i + 1;
    }
    false
}

} // verus!
