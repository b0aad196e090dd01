//! Preserve files (`:pre`, `-r`): recognising their names in a directory
//! listing, and choosing and ordering them by modification time.

use vstd::prelude::*;
use crate::error::{Error, FileError};
use crate::text::{append_str, chars_of, push_char, string_from_chars};

verus! {

/// `s` is a non-empty run of ASCII digits (a process id).
pub open spec fn all_digits(s: Seq<char>) -> bool {
    s.len() > 0 && forall|i: int| 0 <= i < s.len() ==> '0' <= #[trigger] s[i] <= '9'
}

/// `name` is a preserve file of the file named `base`:
/// `rvi.{base}.{digits}`.
pub open spec fn preserves(name: Seq<char>, base: Seq<char>) -> bool {
    let prefix = "rvi."@ + base + seq!['.'];
    name.len() >= prefix.len() && name.take(prefix.len() as int) == prefix && all_digits(
        name.skip(prefix.len() as int),
    )
}

/// The index of the last `'.'` in `s`, if any.
pub open spec fn last_dot(s: Seq<char>) -> Option<int>
    decreases s.len(),
{
    if s.len() == 0 {
        None
    } else if s.last() == '.' {
        Some(s.len() - 1)
    } else {
        last_dot(s.drop_last())
    }
}

/// The original file name a preserve file `name` was written for: `name`
/// is `rvi.{basename}.{digits}`, split at its last dot.
pub open spec fn preserved_base(name: Seq<char>) -> Option<Seq<char>> {
    if name.len() >= 4 && name.take(4) == "rvi."@ {
        let rest = name.skip(4);
        match last_dot(rest) {
            Some(d) => if all_digits(rest.skip(d + 1)) {
                Some(rest.take(d))
            } else {
                None
            },
            None => None,
        }
    } else {
        None
    }
}

/// The index of the largest time in `ts`, the last one among equals.
pub open spec fn newest_spec(ts: Seq<u128>) -> Option<int>
    decreases ts.len(),
{
    if ts.len() == 0 {
        None
    } else {
        match newest_spec(ts.drop_last()) {
            Some(i) => if ts[i] > ts.last() {
                Some(i)
            } else {
                Some(ts.len() - 1)
            },
            None => Some(ts.len() - 1),
        }
    }
}

fn is_digit(c: char) -> (b: bool)
    ensures
        b == ('0' <= c <= '9'),
{
    '0' <= c && c <= '9'
}

/// Whether `cs[from..]` is a non-empty run of ASCII digits.
fn digits_from(cs: &[char], from: usize) -> (b: bool)
    requires
        from <= cs@.len(),
    ensures
        b == all_digits(cs@.skip(from as int)),
{
    if from >= cs.len() {
        return false;
    }
    let mut i = from;
    while i < cs.len()
        invariant
            from <= i <= cs@.len(),
            forall|j: int| from <= j < i ==> '0' <= #[trigger] cs@[j] <= '9',
        decreases cs.len() - i,
    {
        if !is_digit(cs[i]) {
            assert(cs@.skip(from as int)[i - from] == cs@[i as int]);
            return false;
        }
        i = i + 1;
    }
    assert forall|j: int| 0 <= j < cs@.skip(from as int).len() implies '0' <= #[trigger] cs@.skip(
        from as int,
    )[j] <= '9' by {
        assert(cs@.skip(from as int)[j] == cs@[from + j]);
    }
    true
}

/// Whether `name` is a preserve file of the file named `base`
/// (`rvi.{base}.{digits}`).
pub fn is_preserve_file_for(name: &str, base: &str) -> (b: bool)
    ensures
        b == preserves(name@, base@),
{
    let mut prefix = String::new();
    append_str(&mut prefix, "rvi.");
    append_str(&mut prefix, base);
    push_char(&mut prefix, '.');
    let pc = chars_of(prefix.as_str());
    let nc = chars_of(name);
    assert(pc@ =~= "rvi."@ + base@ + seq!['.']);
    if nc.len() < pc.len() {
        return false;
    }
    let mut i: usize = 0;
    while i < pc.len()
        invariant
            i <= pc@.len() <= nc@.len(),
            pc@ == "rvi."@ + base@ + seq!['.'],
            nc@ == name@,
            forall|j: int| 0 <= j < i ==> nc@[j] == pc@[j],
        decreases pc.len() - i,
    {
        if nc[i] != pc[i] {
            assert(nc@.take(pc@.len() as int)[i as int] != pc@[i as int]);
            return false;
        }
        i = i + 1;
    }
    assert(nc@.take(pc@.len() as int) =~= pc@);
    digits_from(nc.as_slice(), pc.len())
}

/// The original file name a preserve file `name` was written for, if
/// `name` is `rvi.{basename}.{digits}`.
pub fn preserve_file_basename(name: &str) -> (r: Option<String>)
    ensures
        r matches Some(b) ==> preserved_base(name@) == Some(b@),
        r is None ==> preserved_base(name@) is None,
{
    let nc = chars_of(name);
    proof {
        reveal_strlit("rvi.");
        assert("rvi."@ =~= seq!['r', 'v', 'i', '.']);
    }
    if nc.len() < 4 || nc[0] != 'r' || nc[1] != 'v' || nc[2] != 'i' || nc[3] != '.' {
        proof {
            if nc@.len() >= 4 {
                assert(nc@.take(4)[0] == nc@[0]);
                assert(nc@.take(4)[1] == nc@[1]);
                assert(nc@.take(4)[2] == nc@[2]);
                assert(nc@.take(4)[3] == nc@[3]);
            }
        }
        return None;
    }
    assert(nc@.take(4) =~= "rvi."@);
    let ghost rest = nc@.skip(4);
    let mut d = nc.len();
    assert(rest.take(d - 4) =~= rest);
    while d > 4 && nc[d - 1] != '.'
        invariant
            4 <= d <= nc@.len(),
            rest == nc@.skip(4),
            last_dot(rest) == last_dot(rest.take(d - 4)),
        decreases d,
    {
        assert(rest.take(d - 4).drop_last() =~= rest.take(d - 5));
        assert(rest.take(d - 4).last() == nc@[d - 1]);
        d = d - 1;
    }
    if d == 4 {
        assert(rest.take(0) =~= Seq::<char>::empty());
        return None;
    }
    proof {
        assert(rest.take(d - 4).last() == nc@[d - 1]);
        assert(last_dot(rest) == Some(d - 5));
        assert(rest.skip(d - 4) =~= nc@.skip(d as int));
    }
    if !digits_from(nc.as_slice(), d) {
        return None;
    }
    let mut b: Vec<char> = Vec::new();
    crate::text::extend_range(&mut b, nc.as_slice(), 4, d - 1);
    assert(nc@.subrange(4, d - 1) =~= rest.take(d - 5));
    Some(string_from_chars(b.as_slice()))
}

/// How `-r` lists a preserve file: its path and the original file name.
pub fn preserve_listing_line(path: &str, basename: &str) -> (s: String)
    ensures
        s@ == "  "@ + path@ + "   (original file: "@ + basename@ + ")"@,
{
    let mut s = String::new();
    append_str(&mut s, "  ");
    append_str(&mut s, path);
    append_str(&mut s, "   (original file: ");
    append_str(&mut s, basename);
    append_str(&mut s, ")");
    s
}

/// The error when no preserve file of `base` is found in `dir`.
pub fn preserve_not_found(base: &str, dir: &str) -> (e: Error)
    ensures
        e matches Error::File(FileError::NotFound(m)) && m@ == "No preserve file found for \""@ + base@
            + "\" in "@ + dir@,
{
    let mut m = String::new();
    append_str(&mut m, "No preserve file found for \"");
    append_str(&mut m, base);
    append_str(&mut m, "\" in ");
    append_str(&mut m, dir);
    Error::File(FileError::NotFound(m))
}

/// The index of the newest of the modification times `ts` (the last one
/// among equals), if any.
pub fn newest(ts: &Vec<u128>) -> (r: Option<usize>)
    ensures
        match r {
            Some(i) => newest_spec(ts@) == Some(i as int),
            None => newest_spec(ts@) is None,
        },
{
    let mut best: Option<usize> = None;
    let mut i: usize = 0;
    assert(ts@.take(0) =~= Seq::<u128>::empty());
    while i < ts.len()
        invariant
            i <= ts@.len(),
            match best {
                Some(b) => newest_spec(ts@.take(i as int)) == Some(b as int) && b < i,
                None => newest_spec(ts@.take(i as int)) is None && i == 0,
            },
        decreases ts.len() - i,
    {
        assert(ts@.take(i + 1).drop_last() =~= ts@.take(i as int));
        best = match best {
            Some(b) => if ts[b] > ts[i] {
                Some(b)
            } else {
                Some(i)
            },
            None => Some(i),
        };
        i = i + 1;
    }
    assert(ts@.take(i as int) =~= ts@);
    best
}

/// The indices of the modification times `ts`, newest first; equal times
/// keep their order.
pub fn newest_first(ts: &Vec<u128>) -> (order: Vec<usize>)
    ensures
        order@.len() == ts@.len(),
        forall|i: int, j: int| 0 <= i < j < order@.len() ==> order@[i] != order@[j],
        forall|i: int| 0 <= i < order@.len() ==> #[trigger] order@[i] < ts@.len(),
        forall|i: int, j: int|
            0 <= i < j < order@.len() ==> ts@[order@[i] as int] > ts@[order@[j] as int] || (ts@[order@[i] as int]
                == ts@[order@[j] as int] && order@[i] < order@[j]),
{
    let mut order: Vec<usize> = Vec::new();
    let mut k: usize = 0;
    while k < ts.len()
        invariant
            k <= ts@.len(),
            order@.len() == k,
            forall|i: int| 0 <= i < order@.len() ==> #[trigger] order@[i] < k,
            forall|i: int, j: int| 0 <= i < j < order@.len() ==> order@[i] != order@[j],
            forall|i: int, j: int|
                0 <= i < j < order@.len() ==> ts@[order@[i] as int] > ts@[order@[j] as int] || (
                ts@[order@[i] as int] == ts@[order@[j] as int] && order@[i] < order@[j]),
        decreases ts.len() - k,
    {
        let mut p: usize = order.len();
        while p > 0 && ts[order[p - 1]] < ts[k]
            invariant
                p <= order@.len() == k,
                k < ts@.len(),
                forall|i: int| 0 <= i < order@.len() ==> #[trigger] order@[i] < k,
                forall|i: int| p <= i < order@.len() ==> ts@[order@[i] as int] < ts@[k as int],
            decreases p,
        {
            p = p - 1;
        }
        let ghost before = order@;
        order.insert(p, k);
        proof {
            assert(order@ == before.insert(p as int, k));
            assert forall|i: int| 0 <= i < order@.len() implies #[trigger] order@[i] < k + 1 by {
                if i < p {
                    assert(order@[i] == before[i]);
                } else if i > p {
                    assert(order@[i] == before[i - 1]);
                }
            }
            assert forall|i: int, j: int| 0 <= i < j < order@.len() implies order@[i] != order@[j] by {
                if i < p {
                    assert(order@[i] == before[i]);
                } else if i > p {
                    assert(order@[i] == before[i - 1]);
                }
                if j < p {
                    assert(order@[j] == before[j]);
                } else if j > p {
                    assert(order@[j] == before[j - 1]);
                }
            }
            assert forall|i: int, j: int| 0 <= i < j < order@.len() implies ts@[order@[i] as int]
                > ts@[order@[j] as int] || (ts@[order@[i] as int] == ts@[order@[j] as int] && order@[i]
                < order@[j]) by {
                if i < p {
                    assert(order@[i] == before[i]);
                } else if i > p {
                    assert(order@[i] == before[i - 1]);
                }
                if j < p {
                    assert(order@[j] == before[j]);
                } else if j > p {
                    assert(order@[j] == before[j - 1]);
                }
                if i < p && j == p {
                    assert(!(ts@[before[p - 1] as int] < ts@[k as int]));
                    if i < p - 1 {
                        assert(ts@[before[i] as int] > ts@[before[p - 1] as int] || (ts@[before[i] as int]
                            == ts@[before[p - 1] as int] && before[i] < before[p - 1]));
                    }
                }
            }
        }
        k = k + 1;
    }
    order
}

} // verus!
