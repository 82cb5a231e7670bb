//! Helpers on text: character classes, comparison, splitting into lines and
//! reading small decimal numbers.

use vstd::prelude::*;

verus! {

/// Whether `c` is white space: the code points U+0009 to U+000D, U+0020,
/// U+0085, U+00A0, U+1680, U+2000 to U+200A, U+2028, U+2029, U+202F, U+205F
/// and U+3000.
pub open spec fn is_space(c: char) -> bool {
    let n = c as u32;
    ||| 0x09 <= n <= 0x0D
    ||| n == 0x20
    ||| n == 0x85
    ||| n == 0xA0
    ||| n == 0x1680
    ||| 0x2000 <= n <= 0x200A
    ||| n == 0x2028
    ||| n == 0x2029
    ||| n == 0x202F
    ||| n == 0x205F
    ||| n == 0x3000
}

/// Tests whether `c` is white space.
pub fn is_whitespace(c: char) -> (b: bool)
    ensures
        b == is_space(c),
{
    let n: u32 = c as u32;
    (0x09 <= n && n <= 0x0D) || n == 0x20 || n == 0x85 || n == 0xA0 || n == 0x1680 || (0x2000 <= n
        && n <= 0x200A) || n == 0x2028 || n == 0x2029 || n == 0x202F || n == 0x205F || n == 0x3000
}

/// The characters of `s`, in order.
pub fn chars_of(s: &str) -> (v: Vec<char>)
    ensures
        v@ == s@,
{
    let mut v: Vec<char> = Vec::new();
    for c in it: s.chars()
        invariant
            it.seq() == s@,
            v@ == s@.take(it.index() as int),
    {
        v.push(c);
    }
    v
}

/// Whether two pieces of text hold the same characters.
pub fn str_eq(a: &str, b: &str) -> (r: bool)
    ensures
        r == (a@ == b@),
{
    let x = a.as_bytes();
    let y = b.as_bytes();
    proof {
        vstd::utf8::encode_utf8_decode_utf8(a@);
        vstd::utf8::encode_utf8_decode_utf8(b@);
    }
    if x.len() != y.len() {
        return false;
    }
    let n: usize = x.len();
    let mut i: usize = 0;
    while i < n
        invariant
            i <= n,
            n == x@.len(),
            n == y@.len(),
            x@ == vstd::utf8::encode_utf8(a@),
            y@ == vstd::utf8::encode_utf8(b@),
            forall|k: int| 0 <= k < i ==> x@[k] == y@[k],
        decreases n - i,
    {
        if x[i] != y[i] {
            return false;
        }
        i += 1;
    }
    assert(x@ =~= y@);
    true
}

/// Whether `p` is a prefix of `s`.
pub open spec fn is_prefix(p: Seq<char>, s: Seq<char>) -> bool {
    p.len() <= s.len() && s.take(p.len() as int) == p
}

/// Tests whether `s` starts with `p`.
pub fn starts_with(s: &[char], p: &[char]) -> (r: bool)
    ensures
        r == is_prefix(p@, s@),
{
    if p.len() > s.len() {
        return false;
    }
    let n: usize = p.len();
    let mut i: usize = 0;
    while i < n
        invariant
            i <= n,
            n == p@.len(),
            n <= s@.len(),
            forall|k: int| 0 <= k < i ==> s@[k] == p@[k],
        decreases n - i,
    {
        if s[i] != p[i] {
            assert(s@.take(n as int)[i as int] != p@[i as int]);
            return false;
        }
        i += 1;
    }
    assert(s@.take(n as int) =~= p@);
    true
}

/// The first index at or after `from` that holds a line feed, or the length
/// of `s` if there is none.
pub open spec fn line_end(s: Seq<char>, from: int) -> int
    decreases s.len() - from,
{
    if from >= s.len() {
        s.len() as int
    } else if s[from] == '\n' {
        from
    } else {
        line_end(s, from + 1)
    }
}

/// `line` without the carriage return that a line ending of two characters
/// leaves at its end.
pub open spec fn strip_cr(line: Seq<char>) -> Seq<char> {
    if line.len() > 0 && line.last() == '\r' {
        line.drop_last()
    } else {
        line
    }
}

/// The lines of `s` from index `from` on. A line ends at a line feed, or at a
/// carriage return followed by a line feed; the ending is not part of the
/// line, and the last line needs none.
pub open spec fn lines_from(s: Seq<char>, from: int) -> Seq<Seq<char>>
    decreases s.len() - from,
{
    if from < 0 || from >= s.len() {
        Seq::empty()
    } else {
        let e = line_end(s, from);
        if e >= s.len() {
            seq![s.subrange(from, s.len() as int)]
        } else if e < from {
            Seq::empty()
        } else {
            seq![strip_cr(s.subrange(from, e))] + lines_from(s, e + 1)
        }
    }
}

/// The lines of `s`.
pub open spec fn lines(s: Seq<char>) -> Seq<Seq<char>> {
    lines_from(s, 0)
}

/// `line_end` lies between `from` and the end, on a line feed if inside, and
/// no line feed comes before it.
pub proof fn lemma_line_end(s: Seq<char>, from: int)
    requires
        0 <= from <= s.len(),
    ensures
        from <= line_end(s, from) <= s.len(),
        line_end(s, from) < s.len() ==> s[line_end(s, from)] == '\n',
        forall|k: int| from <= k < line_end(s, from) ==> s[k] != '\n',
    decreases s.len() - from,
{
    if from < s.len() && s[from] != '\n' {
        lemma_line_end(s, from + 1);
    }
}

/// A text without a line feed that is not empty is one line: itself.
pub proof fn lemma_single_line(s: Seq<char>)
    requires
        s.len() > 0,
        forall|i: int| 0 <= i < s.len() ==> s[i] != '\n',
    ensures
        lines(s) == seq![s],
{
    lemma_line_end(s, 0);
    assert(s.subrange(0, s.len() as int) =~= s);
}

/// The views of a vector of string slices.
pub open spec fn views(v: Seq<&str>) -> Seq<Seq<char>> {
    v.map_values(|s: &str| s@)
}

/// Splits `input` into its lines.
pub fn split_lines<'a>(input: &'a str) -> (v: Vec<&'a str>)
    ensures
        views(v@) == lines(input@),
{
    let cs = chars_of(input);
    let n: usize = cs.len();
    let mut v: Vec<&'a str> = Vec::new();
    let mut start: usize = 0;
    let mut i: usize = 0;
    while i < n
        invariant
            cs@ == input@,
            n == cs@.len(),
            start <= i <= n,
            forall|k: int| start <= k < i ==> cs@[k] != '\n',
            lines(input@) == views(v@) + lines_from(input@, start as int),
        decreases n - i,
    {
        if cs[i] == '\n' {
            let mut end: usize = i;
            if end > start && cs[end - 1] == '\r' {
                end = end - 1;
            }
            let line = input.substring_char(start, end);
            proof {
                lemma_line_end(input@, start as int);
                assert(line_end(input@, start as int) == i);
                let whole = input@.subrange(start as int, i as int);
                assert(line@ == strip_cr(whole)) by {
                    if end < i {
                        assert(whole.last() == '\r');
                        assert(whole.drop_last() =~= line@);
                    } else {
                        assert(whole =~= line@);
                    }
                }
                assert(views(v@.push(line)) =~= views(v@) + seq![line@]);
            }
            v.push(line);
            start = i + 1;
        }
        i += 1;
    }
    if start < n {
        let line = input.substring_char(start, n);
        proof {
            lemma_line_end(input@, start as int);
            assert(line_end(input@, start as int) == n);
            assert(views(v@.push(line)) =~= views(v@) + seq![line@]);
        }
        v.push(line);
    } else {
        assert(lines_from(input@, start as int) =~= Seq::empty());
    }
    v
}

/// Whether `c` is one of the ten decimal digits.
pub open spec fn is_digit(c: char) -> bool {
    '0' <= c <= '9'
}

/// The value of a decimal digit.
pub open spec fn digit_value(c: char) -> nat {
    (c as u32 - '0' as u32) as nat
}

/// Whether `s` holds decimal digits only.
pub open spec fn all_digits(s: Seq<char>) -> bool {
    forall|i: int| 0 <= i < s.len() ==> is_digit(#[trigger] s[i])
}

/// The number that the digits of `s` write in base ten.
pub open spec fn decimal_value(s: Seq<char>) -> nat
    decreases s.len(),
{
    if s.len() == 0 {
        0
    } else {
        decimal_value(s.drop_last()) * 10 + digit_value(s.last())
    }
}

/// The digits of `s`, after an optional plus sign.
pub open spec fn unsigned_digits(s: Seq<char>) -> Seq<char> {
    if s.len() > 0 && s[0] == '+' {
        s.skip(1)
    } else {
        s
    }
}

/// The number below 256 that `s` writes: an optional plus sign, then one or
/// more decimal digits and nothing else. `None` for any other text and for a
/// number that is too large.
pub open spec fn u8_of_text(s: Seq<char>) -> Option<u8> {
    let d = unsigned_digits(s);
    if d.len() > 0 && all_digits(d) && decimal_value(d) <= 255 {
        Some(decimal_value(d) as u8)
    } else {
        None
    }
}

/// A longer run of digits writes no smaller number than its beginning.
pub proof fn lemma_decimal_value_grows(s: Seq<char>, k: int)
    requires
        0 <= k <= s.len(),
    ensures
        decimal_value(s.take(k)) <= decimal_value(s),
    decreases s.len() - k,
{
    if k < s.len() {
        lemma_decimal_value_grows(s, k + 1);
        assert(s.take(k + 1).drop_last() =~= s.take(k));
    } else {
        assert(s.take(k) =~= s);
    }
}

/// Reads a number below 256 from `s`.
pub fn parse_u8(s: &str) -> (r: Option<u8>)
    ensures
        r == u8_of_text(s@),
{
    let cs = chars_of(s);
    let n: usize = cs.len();
    let first: usize = if n > 0 && cs[0] == '+' {
        1
    } else {
        0
    };
    if first == n {
        return None;
    }
    let ghost d = unsigned_digits(s@);
    assert(d =~= s@.skip(first as int));
    let mut acc: u32 = 0;
    let mut i: usize = first;
    while i < n
        invariant
            cs@ == s@,
            n == cs@.len(),
            first <= i <= n,
            d == unsigned_digits(s@),
            d == s@.skip(first as int),
            all_digits(d.take(i - first)),
            acc == decimal_value(d.take(i - first)),
            acc <= 255,
        decreases n - i,
    {
        let c = cs[i];
        if !('0' <= c && c <= '9') {
            assert(!is_digit(d[i - first]));
            return None;
        }
        let digit: u32 = c as u32 - '0' as u32;
        let next: u32 = acc * 10 + digit;
        proof {
            assert(d.take(i + 1 - first).drop_last() =~= d.take(i - first));
            assert(d.take(i + 1 - first).last() == c);
            assert(all_digits(d.take(i + 1 - first))) by {
                assert forall|k: int| 0 <= k < i + 1 - first implies is_digit(
                    #[trigger] d.take(i + 1 - first)[k],
                ) by {
                    if k < i - first {
                        assert(d.take(i - first)[k] == d[k]);
                    }
                }
            }
        }
        if next > 255 {
            proof {
                lemma_decimal_value_grows(d, i + 1 - first);
            }
            return None;
        }
        acc = next;
        i += 1;
    }
    assert(d.take(n - first) =~= d);
    Some(acc as u8)
}

} // verus!
