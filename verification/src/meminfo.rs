//! System memory as Linux reports it in `/proc/meminfo`: the total and the
//! memory still available, in bytes.

use vstd::prelude::*;

use crate::text::{
    char_is_whitespace, char_vecs_view, chars_eq, is_white, lines_spec, parse_u64, parse_u64_spec,
    split_lines, to_chars, trimmed_start,
};

verus! {

/// Number of leading chars of `s` that are not whitespace.
pub open spec fn word_len(s: Seq<char>) -> nat
    decreases s.len(),
{
    if s.len() == 0 || is_white(s[0]) {
        0
    } else {
        1 + word_len(s.skip(1))
    }
}

/// The first whitespace-separated word of `s` and what follows it; `None`
/// when `s` is blank.
pub open spec fn next_word(s: Seq<char>) -> Option<(Seq<char>, Seq<char>)> {
    let t = trimmed_start(s);
    if t.len() == 0 {
        None
    } else {
        Some((t.take(word_len(t) as int), t.skip(word_len(t) as int)))
    }
}

/// The value of the field `name` on one line, in bytes: when the line's
/// first word is `name` and its second word is a number of kilobytes whose
/// count of bytes fits in `u64`.
pub open spec fn line_value(line: Seq<char>, name: Seq<char>) -> Option<u64> {
    match next_word(line) {
        None => None,
        Some((first, rest)) => if first != name {
            None
        } else {
            match next_word(rest) {
                None => None,
                Some((second, _)) => match parse_u64_spec(second) {
                    None => None,
                    Some(kb) => if kb * 1024 <= u64::MAX {
                        Some((kb * 1024) as u64)
                    } else {
                        None
                    },
                },
            }
        },
    }
}

/// The value of the field `name`: from the first line that gives one.
pub open spec fn field_value(lines: Seq<Seq<char>>, name: Seq<char>) -> Option<u64>
    decreases lines.len(),
{
    if lines.len() == 0 {
        None
    } else {
        match line_value(lines[0], name) {
            Some(v) => Some(v),
            None => field_value(lines.skip(1), name),
        }
    }
}

/// Total and available memory in bytes (`MemTotal:` and `MemAvailable:`),
/// `None` when either is missing.
pub open spec fn meminfo_spec(text: Seq<char>) -> Option<(u64, u64)> {
    match (field_value(lines_spec(text), "MemTotal:"@), field_value(lines_spec(text), "MemAvailable:"@)) {
        (Some(total), Some(available)) => Some((total, available)),
        _ => None,
    }
}

/// Start and end of the next word of `s` at or after `from`.
fn word_at(s: &[char], from: usize) -> (r: Option<(usize, usize)>)
    requires
        from <= s@.len(),
    ensures
        match next_word(s@.skip(from as int)) {
            None => r is None,
            Some((w, rest)) => r matches Some((a, b)) && from <= a < b <= s@.len() && s@.subrange(
                a as int,
                b as int,
            ) == w && s@.skip(b as int) == rest,
        },
{
    let mut a = from;
    while a < s.len() && char_is_whitespace(s[a])
        invariant
            from <= a <= s@.len(),
            trimmed_start(s@.skip(from as int)) == trimmed_start(s@.skip(a as int)),
        decreases s@.len() - a,
    {
        assert(s@.skip(a as int)[0] == s@[a as int]);
        assert(s@.skip(a as int).skip(1) =~= s@.skip(a + 1));
        a += 1;
    }
    let ghost t = s@.skip(a as int);
    if a == s.len() {
        assert(t.len() == 0);
        return None;
    }
    assert(t[0] == s@[a as int]);
    assert(trimmed_start(t) == t);
    let mut b = a;
    while b < s.len() && !char_is_whitespace(s[b])
        invariant
            a <= b <= s@.len(),
            t == s@.skip(a as int),
            word_len(t) == (b - a) + word_len(s@.skip(b as int)),
        decreases s@.len() - b,
    {
        assert(s@.skip(b as int)[0] == s@[b as int]);
        assert(s@.skip(b as int).skip(1) =~= s@.skip(b + 1));
        b += 1;
    }
    assert(word_len(s@.skip(b as int)) == 0);
    assert(b > a);
    assert(t.take(word_len(t) as int) =~= s@.subrange(a as int, b as int));
    assert(t.skip(word_len(t) as int) =~= s@.skip(b as int));
    Some((a, b))
}

/// The value of the field `name` on one line (see [`line_value`]).
fn value_on_line(line: &[char], name: &[char]) -> (r: Option<u64>)
    ensures
        r == line_value(line@, name@),
{
    assert(line@.skip(0) =~= line@);
    let (a, b) = match word_at(line, 0) {
        Some(ab) => ab,
        None => return None,
    };
    let first = vstd::slice::slice_subrange(line, a, b);
    if !chars_eq(first, name) {
        return None;
    }
    let (c, d) = match word_at(line, b) {
        Some(cd) => cd,
        None => return None,
    };
    let second = vstd::slice::slice_subrange(line, c, d);
    match parse_u64(second) {
        None => None,
        Some(kb) => kb.checked_mul(1024),
    }
}

/// Total and available memory in bytes from the text of `/proc/meminfo`
/// (see [`meminfo_spec`]).
pub fn parse_meminfo(text: &str) -> (r: Option<(u64, u64)>)
    ensures
        r == meminfo_spec(text@),
{
    let lines = split_lines(&to_chars(text));
    let total = field_in(&lines, &to_chars("MemTotal:"));
    let available = field_in(&lines, &to_chars("MemAvailable:"));
    match (total, available) {
        (Some(t), Some(a)) => Some((t, a)),
        _ => None,
    }
}

/// The value of the field `name` among the lines (see [`field_value`]).
fn field_in(lines: &Vec<Vec<char>>, name: &[char]) -> (r: Option<u64>)
    ensures
        r == field_value(char_vecs_view(lines@), name@),
{
    let ghost ls = char_vecs_view(lines@);
    let mut i: usize = 0;
    assert(ls.skip(0) =~= ls);
    while i < lines.len()
        invariant
            i <= lines@.len(),
            ls == char_vecs_view(lines@),
            field_value(ls, name@) == field_value(ls.skip(i as int), name@),
        decreases lines@.len() - i,
    {
        assert(ls.skip(i as int)[0] == lines@[i as int]@);
        assert(ls.skip(i as int).skip(1) =~= ls.skip(i + 1));
        match value_on_line(&lines[i], name) {
            Some(v) => return Some(v),
            None => {},
        }
        i += 1;
    }
    None
}

} // verus!
