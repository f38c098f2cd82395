//! Lines of the constraint code that is written for a circuit: how a block
//! of lines is indented, and how assignments are made to depend on a
//! condition.

use vstd::prelude::*;
use vstd::string::*;

verus! {

/// `String::push_str` appends the characters of the string slice to the
/// string.
pub assume_specification[ String::push_str ](s: &mut String, string: &str)
    ensures
        final(s)@ == old(s)@ + string@,
;

/// The character is white space: what the end of a piece of a line is
/// trimmed of.
pub open spec fn is_space(c: char) -> bool {
    let n = c as u32;
    ||| 0x09 <= n <= 0x0d
    ||| n == 0x20
    ||| n == 0x85
    ||| n == 0xa0
    ||| n == 0x1680
    ||| 0x2000 <= n <= 0x200a
    ||| n == 0x2028
    ||| n == 0x2029
    ||| n == 0x202f
    ||| n == 0x205f
    ||| n == 0x3000
}

/// Whether the character is white space.
pub fn space(c: char) -> (r: bool)
    ensures
        r == is_space(c),
{
    let n = c as u32;
    (0x09 <= n && n <= 0x0d) || n == 0x20 || n == 0x85 || n == 0xa0 || n == 0x1680 || (0x2000 <= n
        && n <= 0x200a) || n == 0x2028 || n == 0x2029 || n == 0x202f || n == 0x205f || n == 0x3000
}

/// The characters without the white space at their end.
pub open spec fn trimmed(s: Seq<char>) -> Seq<char>
    decreases s.len(),
{
    if s.len() > 0 && is_space(s.last()) {
        trimmed(s.drop_last())
    } else {
        s
    }
}

/// The place of the first `c` from `from` on, or the length where there
/// is none.
pub open spec fn place_of(s: Seq<char>, c: char, from: int) -> int
    decreases s.len() - from,
{
    if from >= s.len() {
        s.len() as int
    } else if s[from] == c {
        from
    } else {
        place_of(s, c, from + 1)
    }
}

/// The characters `pat` stand in `s` from place `i` on.
pub open spec fn stands_at(s: Seq<char>, pat: Seq<char>, i: int) -> bool {
    0 <= i && i + pat.len() <= s.len() && s.subrange(i, i + pat.len()) == pat
}

/// The characters `pat` stand somewhere in `s`.
pub open spec fn holds(s: Seq<char>, pat: Seq<char>) -> bool {
    exists|i: int| stands_at(s, pat, i)
}

/// The line with its assignment made to depend on the condition `cond`.
/// The line assigns the expression between its first and its second `=`
/// to the destination before the first; the destination is a variable, a
/// field element or an element of the extension, as its name says. `None`
/// for a line without `=` and for a destination of no such name.
pub open spec fn masked(cond: Seq<char>, line: Seq<char>) -> Option<Seq<char>> {
    let first = place_of(line, '=', 0);
    if first >= line.len() {
        None
    } else {
        let second = place_of(line, '=', first + 1);
        let dst = trimmed(line.subrange(0, first));
        let expr = trimmed(line.subrange(first + 1, second));
        if holds(dst, "var"@) {
            Some(dst + " = api.Select("@ + cond + ", "@ + expr + ", "@ + dst)
        } else if holds(dst, "felt"@) {
            Some(dst + " = fieldChip.Select("@ + cond + ", "@ + expr + ", "@ + dst + ")"@)
        } else if holds(dst, "ext"@) {
            Some(dst + " = fieldChip.SelectExtension("@ + cond + ", "@ + expr + ", "@ + dst)
        } else {
            None
        }
    }
}

/// The place of the first `c` from `from` on, or the length where there
/// is none.
fn find(s: &str, c: char, from: usize) -> (r: usize)
    requires
        from <= s@.len(),
    ensures
        r == place_of(s@, c, from as int),
        from <= r <= s@.len(),
{
    let n = s.unicode_len();
    let mut i = from;
    while i < n
        invariant
            from <= i <= n,
            n == s@.len(),
            place_of(s@, c, from as int) == place_of(s@, c, i as int),
        decreases n - i,
    {
        if s.get_char(i) == c {
            return i;
        }
        i = i + 1;
    }
    i
}

/// The piece of `s` from `from` to `to`, without the white space at its
/// end.
fn trimmed_piece<'a>(s: &'a str, from: usize, to: usize) -> (r: &'a str)
    requires
        from <= to <= s@.len(),
    ensures
        r@ == trimmed(s@.subrange(from as int, to as int)),
{
    let mut end = to;
    while end > from && space(s.get_char(end - 1))
        invariant
            from <= end <= to,
            to <= s@.len(),
            trimmed(s@.subrange(from as int, to as int)) == trimmed(
                s@.subrange(from as int, end as int),
            ),
        decreases end,
    {
        proof {
            let piece = s@.subrange(from as int, end as int);
            assert(piece.last() == s@[end - 1]);
            assert(piece.drop_last() =~= s@.subrange(from as int, end - 1));
        }
        end = end - 1;
    }
    proof {
        let piece = s@.subrange(from as int, end as int);
        if end > from {
            assert(piece.last() == s@[end - 1]);
        }
    }
    s.substring_char(from, end)
}

/// Whether the characters `pat` stand in `s` from place `i` on.
fn stands(s: &str, pat: &str, i: usize) -> (r: bool)
    requires
        i + pat@.len() <= s@.len(),
    ensures
        r == stands_at(s@, pat@, i as int),
{
    let n = s.unicode_len();
    let m = pat.unicode_len();
    let mut k: usize = 0;
    while k < m
        invariant
            k <= m,
            m == pat@.len(),
            n == s@.len(),
            i + m <= n,
            forall|j: int| 0 <= j < k ==> s@[i + j] == pat@[j],
        decreases m - k,
    {
        if s.get_char(i + k) != pat.get_char(k) {
            proof {
                assert(s@.subrange(i as int, i + m)[k as int] != pat@[k as int]);
            }
            return false;
        }
        k = k + 1;
    }
    assert(s@.subrange(i as int, i + m) =~= pat@);
    true
}

/// Whether the characters `pat` stand somewhere in `s`.
fn contains(s: &str, pat: &str) -> (r: bool)
    ensures
        r == holds(s@, pat@),
{
    let n = s.unicode_len();
    let m = pat.unicode_len();
    if m > n {
        return false;
    }
    let mut i: usize = 0;
    while i <= n - m
        invariant
            i <= n - m,
            m <= n,
            n == s@.len(),
            m == pat@.len(),
            forall|j: int| 0 <= j < i ==> !stands_at(s@, pat@, j),
        decreases n - m - i,
    {
        if stands(s, pat, i) {
            return true;
        }
        if i == n - m {
            return false;
        }
        i = i + 1;
    }
    false
}

/// Indents a block of lines by one tab.
pub fn indent(lines: Vec<String>) -> (r: Vec<String>)
    ensures
        r@.len() == lines@.len(),
        forall|i: int| 0 <= i < r@.len() ==> (#[trigger] r@[i])@ == "\t"@ + lines@[i]@,
{
    let mut r: Vec<String> = Vec::new();
    let mut i: usize = 0;
    while i < lines.len()
        invariant
            i <= lines@.len(),
            r@.len() == i,
            forall|k: int| 0 <= k < i ==> (#[trigger] r@[k])@ == "\t"@ + lines@[k]@,
        decreases lines@.len() - i,
    {
        let mut line = String::new();
        line.push_str("\t");
        line.push_str(lines[i].as_str());
        r.push(line);
        i = i + 1;
    }
    r
}

/// Masks the evaluation of a line based on a condition; `None` for a line
/// that is no assignment to a variable, a field element or an element of
/// the extension.
pub fn mask_line(cond: &str, line: &str) -> (r: Option<String>)
    ensures
        match r {
            Some(s) => masked(cond@, line@) == Some(s@),
            None => masked(cond@, line@) is None,
        },
{
    let n = line.unicode_len();
    let first = find(line, '=', 0);
    if first >= n {
        return None;
    }
    let second = find(line, '=', first + 1);
    let dst = trimmed_piece(line, 0, first);
    let expr = trimmed_piece(line, first + 1, second);
    let (open, close) = if contains(dst, "var") {
        (" = api.Select(", "")
    } else if contains(dst, "felt") {
        (" = fieldChip.Select(", ")")
    } else if contains(dst, "ext") {
        (" = fieldChip.SelectExtension(", "")
    } else {
        return None;
    };
    let mut s = String::new();
    s.push_str(dst);
    s.push_str(open);
    s.push_str(cond);
    s.push_str(", ");
    s.push_str(expr);
    s.push_str(", ");
    s.push_str(dst);
    s.push_str(close);
    proof {
        reveal_strlit("");
        if close@ =~= ""@ {
            assert(s@ =~= dst@ + open@ + cond@ + ", "@ + expr@ + ", "@ + dst@);
        }
    }
    Some(s)
}

/// Masks the evaluation of lines based on a condition. Every line is an
/// assignment to a variable, a field element or an element of the
/// extension.
pub fn mask(cond: &str, lines: &[String]) -> (r: Vec<String>)
    requires
        forall|i: int| 0 <= i < lines@.len() ==> masked(cond@, (#[trigger] lines@[i])@) is Some,
    ensures
        r@.len() == lines@.len(),
        forall|i: int|
            0 <= i < r@.len() ==> masked(cond@, lines@[i]@) == Some((#[trigger] r@[i])@),
{
    let mut r: Vec<String> = Vec::new();
    let mut i: usize = 0;
    while i < lines.len()
        invariant
            i <= lines@.len(),
            r@.len() == i,
            forall|k: int| 0 <= k < lines@.len() ==> masked(cond@, (#[trigger] lines@[k])@) is Some,
            forall|k: int|
                0 <= k < i ==> masked(cond@, lines@[k]@) == Some((#[trigger] r@[k])@),
        decreases lines@.len() - i,
    {
        match mask_line(cond, lines[i].as_str()) {
            Some(s) => {
                r.push(s);
            },
            None => {
                assert(masked(cond@, lines@[i as int]@) is Some);
                r.push(String::new());
            },
        }
        i = i + 1;
    }
    r
}

} // verus!
