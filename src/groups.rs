use vstd::prelude::*;
use vstd::string::*;

use crate::text::{parse_unsigned, same_text, unsigned_value};

verus! {

/// The index of the first `sep` in `s` at or after `i`, or `s.len()` when
/// there is none.
pub open spec fn find_from(s: Seq<char>, sep: char, i: int) -> int
    decreases s.len() - i,
{
    if i >= s.len() {
        s.len() as int
    } else if s[i] == sep {
        i
    } else {
        find_from(s, sep, i + 1)
    }
}

/// The group id that one line of a group database gives for the group
/// `name`: the line reads `name:password:gid[:members]` and its gid is an
/// unsigned decimal that fits in 32 bits.
pub open spec fn line_gid(line: Seq<char>, name: Seq<char>) -> Option<u32> {
    let p0 = find_from(line, ':', 0);
    let p1 = find_from(line, ':', p0 + 1);
    let p2 = find_from(line, ':', p1 + 1);
    if p1 < line.len() && line.subrange(0, p0) == name {
        match unsigned_value(line.subrange(p1 + 1, p2)) {
            Some(v) => if v <= u32::MAX {
                Some(v as u32)
            } else {
                None
            },
            None => None,
        }
    } else {
        None
    }
}

/// The gid of group `name` in the lines of `s` from index `start` on: that of
/// the first line that gives one.
pub open spec fn group_gid(s: Seq<char>, name: Seq<char>, start: int) -> Option<u32>
    decreases s.len() - start,
{
    if start < 0 || start >= s.len() {
        None
    } else {
        let end = find_from(s, '\n', start);
        match line_gid(s.subrange(start, end), name) {
            Some(g) => Some(g),
            None => if start <= end && end + 1 < s.len() {
                group_gid(s, name, end + 1)
            } else {
                None
            },
        }
    }
}

proof fn lemma_find_from_bounds(s: Seq<char>, sep: char, i: int)
    requires
        0 <= i,
    ensures
        i <= s.len() ==> i <= find_from(s, sep, i) <= s.len(),
        i > s.len() ==> find_from(s, sep, i) == s.len(),
    decreases s.len() - i,
{
    if i < s.len() && s[i] != sep {
        lemma_find_from_bounds(s, sep, i + 1);
    }
}

fn find_char(s: &str, n: usize, sep: char, from: usize) -> (r: usize)
    requires
        n == s@.len(),
        from <= n,
    ensures
        r == find_from(s@, sep, from as int),
        from <= r <= n,
{
    let mut j = from;
    while j < n && s.get_char(j) != sep
        invariant
            from <= j <= n,
            n == s@.len(),
            find_from(s@, sep, from as int) == find_from(s@, sep, j as int),
        decreases n - j,
    {
        j = j + 1;
    }
    j
}

/// The gid that the single line `line` gives for the group `name`.
pub fn line_id(line: &str, name: &str) -> (r: Option<u32>)
    ensures
        r == line_gid(line@, name@),
{
    let n = line.unicode_len();
    let p0 = find_char(line, n, ':', 0);
    if p0 >= n {
        proof {
            lemma_find_from_bounds(line@, ':', p0 + 1);
            lemma_find_from_bounds(line@, ':', n + 1);
        }
        return None;
    }
    let p1 = find_char(line, n, ':', p0 + 1);
    if p1 >= n {
        return None;
    }
    let p2 = find_char(line, n, ':', p1 + 1);
    if !same_text(line.substring_char(0, p0), name) {
        return None;
    }
    match parse_unsigned(line.substring_char(p1 + 1, p2)) {
        Some(v) => if v <= u32::MAX as usize {
            Some(v as u32)
        } else {
            None
        },
        None => None,
    }
}

/// The id of the group `name` in a group database holding `groups`, one
/// group per line: the gid of the first line that gives one for `name`.
pub fn group_id(groups: &str, name: &str) -> (r: Option<u32>)
    ensures
        r == group_gid(groups@, name@, 0),
{
    let n = groups.unicode_len();
    let mut start: usize = 0;
    while start < n
        invariant
            start <= n,
            n == groups@.len(),
            group_gid(groups@, name@, 0) == group_gid(groups@, name@, start as int),
        decreases n - start,
    {
        let end = find_char(groups, n, '\n', start);
        match line_id(groups.substring_char(start, end), name) {
            Some(g) => return Some(g),
            None => {},
        }
        if end >= n {
            return None;
        }
        start = end + 1;
    }
    None
}

} // verus!
