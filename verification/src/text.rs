//! Character-level text predicates and helpers shared by the validators.
//!
//! Strings are reasoned about through their views, sequences of Unicode
//! scalar values. Each predicate below states, over those sequences, the
//! behaviour of the standard-library method that the configuration rules
//! are written in terms of (`char::is_whitespace`, `char::is_control`,
//! `u8::is_ascii_hexdigit`, `str::eq_ignore_ascii_case`, `str::trim`, ...).

use vstd::prelude::*;
use vstd::std_specs::iter::IteratorSpec;

verus! {

/// Unicode `White_Space` property, as used by `char::is_whitespace` and `str::trim`.
pub open spec fn is_white_space(c: char) -> bool {
    let u = c as u32;
    ||| 0x09 <= u <= 0x0d
    ||| u == 0x20
    ||| u == 0x85
    ||| u == 0xa0
    ||| u == 0x1680
    ||| 0x2000 <= u <= 0x200a
    ||| u == 0x2028
    ||| u == 0x2029
    ||| u == 0x202f
    ||| u == 0x205f
    ||| u == 0x3000
}

/// Unicode general category `Cc`, as used by `char::is_control`.
pub open spec fn is_control(c: char) -> bool {
    let u = c as u32;
    u <= 0x1f || (0x7f <= u && u <= 0x9f)
}

/// An ASCII hexadecimal digit: `0-9`, `a-f` or `A-F`.
pub open spec fn is_ascii_hex_digit(c: char) -> bool {
    let u = c as u32;
    (0x30 <= u && u <= 0x39) || (0x41 <= u && u <= 0x46) || (0x61 <= u && u <= 0x66)
}

/// The code of `c` after ASCII lower-casing; other characters keep their code.
pub open spec fn ascii_folded(c: char) -> u32 {
    let u = c as u32;
    if 0x41 <= u && u <= 0x5a {
        (u + 0x20) as u32
    } else {
        u
    }
}

/// `a` and `b` are equal up to ASCII case (`str::eq_ignore_ascii_case`).
pub open spec fn eq_ignore_ascii_case(a: Seq<char>, b: Seq<char>) -> bool {
    &&& a.len() == b.len()
    &&& forall|i: int| 0 <= i < a.len() ==> #[trigger] ascii_folded(a[i]) == ascii_folded(b[i])
}

/// Every character of `s` is white space, i.e. `s.trim().is_empty()`.
pub open spec fn is_blank(s: Seq<char>) -> bool {
    forall|i: int| 0 <= i < s.len() ==> is_white_space(#[trigger] s[i])
}

/// `s` holds the character `c`.
pub open spec fn has_char(s: Seq<char>, c: char) -> bool {
    exists|i: int| 0 <= i < s.len() && s[i] == c
}

/// `s` holds two consecutive dots, i.e. `s.contains("..")`.
pub open spec fn has_double_dot(s: Seq<char>) -> bool {
    exists|i: int| 0 <= i && i + 1 < s.len() && #[trigger] s[i] == '.' && s[i + 1] == '.'
}

/// `s` holds a control character.
pub open spec fn has_control(s: Seq<char>) -> bool {
    exists|i: int| 0 <= i < s.len() && is_control(#[trigger] s[i])
}

/// `s` ends with `suffix`.
pub open spec fn ends_with(s: Seq<char>, suffix: Seq<char>) -> bool {
    suffix.len() <= s.len() && s.subrange(s.len() - suffix.len(), s.len() as int) == suffix
}

/// `s` holds `part` as a contiguous piece (`str::contains`).
pub open spec fn contains_text(s: Seq<char>, part: Seq<char>) -> bool {
    exists|i: int|
        0 <= i && i + part.len() <= s.len() && #[trigger] s.subrange(i, i + part.len()) == part
}

/// `s` with its leading white space removed (`str::trim_start`).
pub open spec fn trim_start(s: Seq<char>) -> Seq<char>
    decreases s.len(),
{
    if s.len() > 0 && is_white_space(s[0]) {
        trim_start(s.drop_first())
    } else {
        s
    }
}

/// `s` with its trailing white space removed (`str::trim_end`).
pub open spec fn trim_end(s: Seq<char>) -> Seq<char>
    decreases s.len(),
{
    if s.len() > 0 && is_white_space(s.last()) {
        trim_end(s.drop_last())
    } else {
        s
    }
}

/// `s` with leading and trailing white space removed (`str::trim`).
pub open spec fn trimmed(s: Seq<char>) -> Seq<char> {
    trim_end(trim_start(s))
}

/// The decimal digit character for `d < 10`.
pub open spec fn digit_char(d: nat) -> char {
    if d == 0 {
        '0'
    } else if d == 1 {
        '1'
    } else if d == 2 {
        '2'
    } else if d == 3 {
        '3'
    } else if d == 4 {
        '4'
    } else if d == 5 {
        '5'
    } else if d == 6 {
        '6'
    } else if d == 7 {
        '7'
    } else if d == 8 {
        '8'
    } else {
        '9'
    }
}

/// The decimal rendering of `n`, without sign or leading zeros (`u64::to_string`).
pub open spec fn decimal(n: nat) -> Seq<char>
    decreases n,
{
    if n < 10 {
        seq![digit_char(n)]
    } else {
        decimal(n / 10).push(digit_char(n % 10))
    }
}

/// The index of the first `c` in `s`, or `s.len()` when there is none.
pub open spec fn char_index(s: Seq<char>, c: char) -> int
    decreases s.len(),
{
    if s.len() == 0 {
        0
    } else if s[0] == c {
        0
    } else {
        1 + char_index(s.drop_first(), c)
    }
}

/// The first index of `c` lies within `s`, or is its length.
pub proof fn lemma_char_index_range(s: Seq<char>, c: char)
    ensures
        0 <= char_index(s, c) <= s.len(),
    decreases s.len(),
{
    if s.len() > 0 && s[0] != c {
        lemma_char_index_range(s.drop_first(), c);
    }
}

/// The pieces of `s` between occurrences of `sep` (`str::split` with a character).
pub open spec fn split_on(s: Seq<char>, sep: char) -> Seq<Seq<char>>
    decreases s.len(),
{
    let i = char_index(s, sep);
    if i >= s.len() {
        seq![s]
    } else {
        proof {
            lemma_char_index_range(s, sep);
        }
        seq![s.take(i)] + split_on(s.skip(i + 1), sep)
    }
}

/// `k` is the index of the first `c` in `s` (or its length) when no earlier character is `c`.
pub proof fn lemma_char_index(s: Seq<char>, c: char, k: int)
    requires
        0 <= k <= s.len(),
        k == s.len() || s[k] == c,
        forall|j: int| 0 <= j < k ==> s[j] != c,
    ensures
        char_index(s, c) == k,
    decreases s.len(),
{
    if s.len() > 0 && s[0] != c {
        lemma_char_index(s.drop_first(), c, k - 1);
    }
}

/// The first index at or after `from` where `cs` holds `c`, or `cs.len()`.
fn find_char(cs: &Vec<char>, from: usize, c: char) -> (i: usize)
    requires
        from <= cs@.len(),
    ensures
        i == from + char_index(cs@.skip(from as int), c),
        from <= i <= cs@.len(),
{
    let mut i = from;
    while i < cs.len() && cs[i] != c
        invariant
            from <= i <= cs@.len(),
            forall|j: int| from <= j < i ==> cs@[j] != c,
        decreases cs.len() - i,
    {
        i = i + 1;
    }
    proof {
        lemma_char_index(cs@.skip(from as int), c, i - from);
    }
    i
}

/// Splits `s` at each `sep`, as `s.split(sep)` does.
pub fn split_text(s: &str, sep: char) -> (parts: Vec<String>)
    ensures
        parts@.map_values(|p: String| p@) == split_on(s@, sep),
{
    let cs = chars_of(s);
    let mut parts: Vec<String> = Vec::new();
    let mut start: usize = 0;
    assert(s@.skip(0) =~= s@);
    assert(parts@.map_values(|p: String| p@) + split_on(s@, sep) =~= split_on(s@, sep));
    loop
        invariant
            cs@ == s@,
            start <= cs@.len(),
            parts@.map_values(|p: String| p@) + split_on(s@.skip(start as int), sep) == split_on(
                s@,
                sep,
            ),
        decreases cs.len() - start,
    {
        let ghost rest = s@.skip(start as int);
        let ghost before = parts@.map_values(|p: String| p@);
        let end = find_char(&cs, start, sep);
        let piece = s.substring_char(start, end).to_owned();
        assert(piece@ =~= rest.take(end - start));
        parts.push(piece);
        assert(parts@.map_values(|p: String| p@) =~= before.push(piece@));
        if end >= cs.len() {
            assert(split_on(rest, sep) == seq![rest]);
            assert(rest.take(end - start) =~= rest);
            assert(before + seq![rest] =~= before.push(piece@));
            return parts;
        }
        assert(rest.skip(end - start + 1) =~= s@.skip(end + 1));
        assert(split_on(rest, sep) == seq![rest.take(end - start)] + split_on(
            rest.skip(end - start + 1),
            sep,
        ));
        assert(before + split_on(rest, sep) =~= before.push(piece@) + split_on(
            s@.skip(end + 1),
            sep,
        ));
        start = end + 1;
    }
}

/// Copies the characters of `s` into a vector.
pub fn chars_of(s: &str) -> (out: Vec<char>)
    ensures
        out@ == s@,
{
    let mut out: Vec<char> = Vec::new();
    for c in it: s.chars()
        invariant
            out@ == it.seq().take(it.index() as int),
    {
        out.push(c);
    }
    out
}

/// Decides `char::is_whitespace`.
pub fn char_is_white_space(c: char) -> (b: bool)
    ensures
        b == is_white_space(c),
{
    let u = c as u32;
    (0x09 <= u && u <= 0x0d) || u == 0x20 || u == 0x85 || u == 0xa0 || u == 0x1680 || (0x2000
        <= u && u <= 0x200a) || u == 0x2028 || u == 0x2029 || u == 0x202f || u == 0x205f || u
        == 0x3000
}

/// Decides `char::is_control`.
pub fn char_is_control(c: char) -> (b: bool)
    ensures
        b == is_control(c),
{
    let u = c as u32;
    u <= 0x1f || (0x7f <= u && u <= 0x9f)
}

/// Decides whether `s.trim().is_empty()`.
pub fn text_is_blank(s: &str) -> (b: bool)
    ensures
        b == is_blank(s@),
{
    let cs = chars_of(s);
    let mut i: usize = 0;
    while i < cs.len()
        invariant
            cs@ == s@,
            i <= cs.len(),
            forall|j: int| 0 <= j < i ==> is_white_space(#[trigger] cs@[j]),
        decreases cs.len() - i,
    {
        if !char_is_white_space(cs[i]) {
            return false;
        }
        i = i + 1;
    }
    true
}

/// Decides whether `a` and `b` hold the same characters.
pub fn text_equals(a: &str, b: &str) -> (r: bool)
    ensures
        r == (a@ == b@),
{
    let ca = chars_of(a);
    let cb = chars_of(b);
    if ca.len() != cb.len() {
        return false;
    }
    let mut i: usize = 0;
    while i < ca.len()
        invariant
            ca@ == a@,
            cb@ == b@,
            ca.len() == cb.len(),
            i <= ca.len(),
            forall|j: int| 0 <= j < i ==> ca@[j] == cb@[j],
        decreases ca.len() - i,
    {
        if ca[i] != cb[i] {
            return false;
        }
        i = i + 1;
    }
    assert(ca@ =~= cb@);
    true
}

/// Decides `str::eq_ignore_ascii_case` on the characters `cs[from..to]` against `b`.
pub fn range_eq_ignore_ascii_case(cs: &Vec<char>, from: usize, to: usize, b: &str) -> (r: bool)
    requires
        from <= to <= cs@.len(),
    ensures
        r == eq_ignore_ascii_case(cs@.subrange(from as int, to as int), b@),
{
    let cb = chars_of(b);
    if to - from != cb.len() {
        return false;
    }
    let mut i: usize = 0;
    while i < cb.len()
        invariant
            cb@ == b@,
            from <= to <= cs@.len(),
            to - from == cb.len(),
            i <= cb.len(),
            forall|j: int|
                0 <= j < i ==> #[trigger] ascii_folded(cs@[from + j]) == ascii_folded(cb@[j]),
        decreases cb.len() - i,
    {
        let x = cs[from + i] as u32;
        let y = cb[i] as u32;
        let fx = if 0x41 <= x && x <= 0x5a {
            x + 0x20
        } else {
            x
        };
        let fy = if 0x41 <= y && y <= 0x5a {
            y + 0x20
        } else {
            y
        };
        if fx != fy {
            assert(ascii_folded(cs@.subrange(from as int, to as int)[i as int]) != ascii_folded(
                b@[i as int],
            ));
            return false;
        }
        i = i + 1;
    }
    assert forall|j: int| 0 <= j < cb@.len() implies #[trigger] ascii_folded(
        cs@.subrange(from as int, to as int)[j],
    ) == ascii_folded(b@[j]) by {
        assert(cs@.subrange(from as int, to as int)[j] == cs@[from + j]);
    }
    true
}

/// Decides `str::eq_ignore_ascii_case`.
pub fn text_eq_ignore_ascii_case(a: &str, b: &str) -> (r: bool)
    ensures
        r == eq_ignore_ascii_case(a@, b@),
{
    let ca = chars_of(a);
    let r = range_eq_ignore_ascii_case(&ca, 0, ca.len(), b);
    assert(ca@.subrange(0, ca@.len() as int) =~= a@);
    r
}

/// Decides whether `cs[from..from + part.len()]` holds exactly the characters of `part`.
fn matches_at(cs: &Vec<char>, from: usize, part: &Vec<char>) -> (r: bool)
    requires
        from + part@.len() <= cs@.len(),
    ensures
        r == (cs@.subrange(from as int, from + part@.len()) == part@),
{
    let n: usize = cs.len();
    let mut j: usize = 0;
    while j < part.len()
        invariant
            n == cs@.len(),
            from + part@.len() <= cs@.len(),
            j <= part.len(),
            forall|t: int| 0 <= t < j ==> cs@[from + t] == part@[t],
        decreases part.len() - j,
    {
        assert(from + j < n);
        if cs[from + j] != part[j] {
            assert(cs@.subrange(from as int, from + part@.len())[j as int] != part@[j as int]);
            return false;
        }
        j = j + 1;
    }
    assert(cs@.subrange(from as int, from + part@.len()) =~= part@);
    true
}

/// Decides `str::contains` for a string pattern.
pub fn text_contains(s: &str, part: &str) -> (b: bool)
    ensures
        b == contains_text(s@, part@),
{
    let cs = chars_of(s);
    let cp = chars_of(part);
    if cp.len() > cs.len() {
        return false;
    }
    if cp.len() == 0 {
        assert(s@.subrange(0, 0int + part@.len()) =~= part@);
        return true;
    }
    let mut i: usize = 0;
    while i <= cs.len() - cp.len()
        invariant
            cs@ == s@,
            cp@ == part@,
            1 <= cp.len() <= cs.len(),
            i <= cs.len() - cp.len() + 1,
            forall|k: int|
                0 <= k < i ==> #[trigger] cs@.subrange(k, k + cp@.len()) != cp@,
        decreases cs.len() - cp.len() + 1 - i,
    {
        if matches_at(&cs, i, &cp) {
            return true;
        }
        i = i + 1;
    }
    false
}

/// The one-character string for the decimal digit `d`.
fn digit_text(d: u64) -> (s: &'static str)
    requires
        d < 10,
    ensures
        s@ == seq![digit_char(d as nat)],
{
    proof {
        reveal_strlit("0");
        reveal_strlit("1");
        reveal_strlit("2");
        reveal_strlit("3");
        reveal_strlit("4");
        reveal_strlit("5");
        reveal_strlit("6");
        reveal_strlit("7");
        reveal_strlit("8");
        reveal_strlit("9");
    }
    match d {
        0 => "0",
        1 => "1",
        2 => "2",
        3 => "3",
        4 => "4",
        5 => "5",
        6 => "6",
        7 => "7",
        8 => "8",
        _ => "9",
    }
}

/// Renders `n` in decimal, as `n.to_string()` does.
pub fn decimal_text(n: u64) -> (s: String)
    ensures
        s@ == decimal(n as nat),
    decreases n,
{
    if n < 10 {
        String::from_str(digit_text(n))
    } else {
        let mut s = decimal_text(n / 10);
        s.append(digit_text(n % 10));
        s
    }
}

/// Copies `s` with leading and trailing white space removed, as `s.trim().to_string()` does.
pub fn trimmed_text(s: &str) -> (t: String)
    ensures
        t@ == trimmed(s@),
{
    let cs = chars_of(s);
    let mut start: usize = 0;
    assert(s@.subrange(0, s@.len() as int) =~= s@);
    while start < cs.len() && char_is_white_space(cs[start])
        invariant
            cs@ == s@,
            start <= cs.len(),
            trim_start(s@) == trim_start(s@.subrange(start as int, s@.len() as int)),
        decreases cs.len() - start,
    {
        proof {
            let rest = s@.subrange(start as int, s@.len() as int);
            assert(rest.drop_first() =~= s@.subrange(start + 1, s@.len() as int));
        }
        start = start + 1;
    }
    proof {
        let rest = s@.subrange(start as int, s@.len() as int);
        assert(start == cs.len() || !is_white_space(rest[0]));
        assert(trim_start(rest) == rest);
    }
    let mut end: usize = cs.len();
    while end > start && char_is_white_space(cs[end - 1])
        invariant
            cs@ == s@,
            start <= end <= cs.len(),
            trim_start(s@) == s@.subrange(start as int, cs.len() as int),
            trimmed(s@) == trim_end(s@.subrange(start as int, end as int)),
        decreases end - start,
    {
        proof {
            let mid = s@.subrange(start as int, end as int);
            assert(mid.drop_last() =~= s@.subrange(start as int, end - 1));
        }
        end = end - 1;
    }
    proof {
        assert(start == end || !is_white_space(s@[end - 1]));
        let mid = s@.subrange(start as int, end as int);
        assert(trim_end(mid) == mid);
    }
    let part = s.substring_char(start, end);
    part.to_owned()
}

} // verus!
