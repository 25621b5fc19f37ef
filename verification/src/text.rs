//! Text helpers: decimal numerals, joining, trimming, substring search and
//! upper-casing.

use vstd::prelude::*;
use vstd::string::*;

verus! {

/// The decimal digit that writes `d`.
pub open spec fn digit_char(d: int) -> char {
    if d == 0 {
        '0'
    } else if d == 1 {
        '1'
    } else if d == 2 {
        '2'
    } else if d == 3 {
        '3'
    } else if d == 4 {
        '4'
    } else if d == 5 {
        '5'
    } else if d == 6 {
        '6'
    } else if d == 7 {
        '7'
    } else if d == 8 {
        '8'
    } else {
        '9'
    }
}

/// The decimal numeral of a natural number, without leading zeros.
pub open spec fn decimal_digits(n: nat) -> Seq<char>
    decreases n,
{
    if n < 10 {
        seq![digit_char(n as int)]
    } else {
        decimal_digits(n / 10).push(digit_char((n % 10) as int))
    }
}

/// The decimal numeral of an integer, with a leading `-` when it is negative.
pub open spec fn decimal(n: int) -> Seq<char> {
    if n < 0 {
        seq!['-'] + decimal_digits((-n) as nat)
    } else {
        decimal_digits(n as nat)
    }
}

fn digit_text(d: u64) -> (r: &'static str)
    requires
        d < 10,
    ensures
        r@ == seq![digit_char(d as int)],
{
    proof {
        reveal_strlit("0");
        reveal_strlit("1");
        reveal_strlit("2");
        reveal_strlit("3");
        reveal_strlit("4");
        reveal_strlit("5");
        reveal_strlit("6");
        reveal_strlit("7");
        reveal_strlit("8");
        reveal_strlit("9");
    }
    let r = if d == 0 {
        "0"
    } else if d == 1 {
        "1"
    } else if d == 2 {
        "2"
    } else if d == 3 {
        "3"
    } else if d == 4 {
        "4"
    } else if d == 5 {
        "5"
    } else if d == 6 {
        "6"
    } else if d == 7 {
        "7"
    } else if d == 8 {
        "8"
    } else {
        "9"
    };
    assert(r@ =~= seq![digit_char(d as int)]);
    r
}

/// Appends the decimal numeral of `n` to `out`.
pub fn append_decimal(out: &mut String, n: u64)
    ensures
        final(out)@ == old(out)@ + decimal_digits(n as nat),
    decreases n,
{
    if n >= 10 {
        append_decimal(out, n / 10);
    }
    out.append(digit_text(n % 10));
    assert(out@ =~= old(out)@ + decimal_digits(n as nat));
}

/// The decimal numeral of a signed integer.
pub fn i32_text(n: i32) -> (r: String)
    ensures
        r@ == decimal(n as int),
{
    let mut out = String::new();
    if n < 0 {
        proof {
            reveal_strlit("-");
        }
        out.append("-");
        let magnitude: u64 = (-(n as i64)) as u64;
        append_decimal(&mut out, magnitude);
        assert(out@ =~= decimal(n as int));
    } else {
        append_decimal(&mut out, n as u64);
        assert(out@ =~= decimal(n as int));
    }
    out
}

/// The decimal numeral of an unsigned 16-bit integer.
pub fn u16_text(n: u16) -> (r: String)
    ensures
        r@ == decimal(n as int),
{
    let mut out = String::new();
    append_decimal(&mut out, n as u64);
    assert(out@ =~= decimal(n as int));
    out
}

/// Whether two texts hold the same characters.
pub fn same_text(a: &str, b: &str) -> (r: bool)
    ensures
        r == (a@ == b@),
{
    let x: String = a.to_owned();
    let y: String = b.to_owned();
    x == y
}

/// The two texts, one after the other.
pub fn concat2(a: &str, b: &str) -> (r: String)
    ensures
        r@ == a@ + b@,
{
    let mut out: String = a.to_owned();
    out.append(b);
    out
}

/// The three texts, one after the other.
pub fn concat3(a: &str, b: &str, c: &str) -> (r: String)
    ensures
        r@ == a@ + b@ + c@,
{
    let mut out: String = a.to_owned();
    out.append(b);
    out.append(c);
    out
}

/// What `str::to_uppercase` gives for a text: its upper-case equivalent in
/// the sense of Unicode.
pub uninterp spec fn uppercase(s: Seq<char>) -> Seq<char>;

/// `str::to_uppercase`: the upper-case equivalent of the text, which depends
/// on the text alone.
#[verifier::external_body]
pub(crate) fn to_uppercase(s: &str) -> (r: String)
    ensures
        r@ == uppercase(s@),
{
    s.to_uppercase()
}

/// The first text occurs somewhere inside the second.
pub open spec fn is_substring(needle: Seq<char>, hay: Seq<char>) -> bool {
    exists|i: int|
        0 <= i && i + needle.len() <= hay.len() && #[trigger] hay.subrange(i, i + needle.len())
            == needle
}

/// Whether the second text occurs somewhere inside the first.
pub fn contains(hay: &str, needle: &str) -> (b: bool)
    ensures
        b == is_substring(needle@, hay@),
{
    let hay_len = hay.unicode_len();
    let needle_len = needle.unicode_len();
    if needle_len > hay_len {
        return false;
    }
    let last: usize = hay_len - needle_len;
    let mut i: usize = 0;
    loop
        invariant
            0 <= i <= last,
            hay_len == hay@.len(),
            needle_len == needle@.len(),
            last == hay_len - needle_len,
            forall|j: int| 0 <= j < i ==> #[trigger] hay@.subrange(j, j + needle_len) != needle@,
        decreases last - i,
    {
        if same_text(hay.substring_char(i, i + needle_len), needle) {
            return true;
        }
        if i == last {
            return false;
        }
        i += 1;
    }
}

/// Whether a character is white space in the sense of Unicode: a character
/// with the property `White_Space`.
pub open spec fn is_whitespace(c: char) -> bool {
    let n = c as u32;
    ||| 0x09 <= n <= 0x0d
    ||| n == 0x20
    ||| n == 0x85
    ||| n == 0xa0
    ||| n == 0x1680
    ||| 0x2000 <= n <= 0x200a
    ||| n == 0x2028
    ||| n == 0x2029
    ||| n == 0x202f
    ||| n == 0x205f
    ||| n == 0x3000
}

/// Whether a character is white space in the sense of Unicode.
pub fn char_is_whitespace(c: char) -> (b: bool)
    ensures
        b == is_whitespace(c),
{
    let n: u32 = c as u32;
    (0x09 <= n && n <= 0x0d) || n == 0x20 || n == 0x85 || n == 0xa0 || n == 0x1680 || (0x2000 <= n
        && n <= 0x200a) || n == 0x2028 || n == 0x2029 || n == 0x202f || n == 0x205f || n == 0x3000
}

/// The first position at or after `from` that holds no white space.
pub open spec fn whitespace_end(s: Seq<char>, from: int) -> int
    decreases s.len() - from,
{
    if 0 <= from < s.len() && is_whitespace(s[from]) {
        whitespace_end(s, from + 1)
    } else {
        from
    }
}

/// The position after the last character before `to` that is no white
/// space, and `floor` where all of them down to `floor` are white space.
pub open spec fn whitespace_start(s: Seq<char>, to: int, floor: int) -> int
    decreases to - floor,
{
    if floor < to <= s.len() && is_whitespace(s[to - 1]) {
        whitespace_start(s, to - 1, floor)
    } else {
        to
    }
}

/// The text without the white space at its start and at its end.
pub open spec fn trimmed(s: Seq<char>) -> Seq<char> {
    let start = whitespace_end(s, 0);
    s.subrange(start, whitespace_start(s, s.len() as int, start))
}

/// The text without the white space at its start and at its end.
pub fn trim(s: &str) -> (r: String)
    ensures
        r@ == trimmed(s@),
{
    let len = s.unicode_len();
    let mut start: usize = 0;
    while start < len && char_is_whitespace(s.get_char(start))
        invariant
            0 <= start <= len,
            len == s@.len(),
            whitespace_end(s@, 0) == whitespace_end(s@, start as int),
        decreases len - start,
    {
        start += 1;
    }
    let mut end: usize = len;
    while end > start && char_is_whitespace(s.get_char(end - 1))
        invariant
            start <= end <= len,
            len == s@.len(),
            whitespace_start(s@, len as int, start as int) == whitespace_start(
                s@,
                end as int,
                start as int,
            ),
        decreases end - start,
    {
        end -= 1;
    }
    s.substring_char(start, end).to_owned()
}

/// From inside a run of white space, the white space ends where the run
/// ends.
proof fn lemma_whitespace_ends_at(s: Seq<char>, from: int, end: int)
    requires
        0 <= from <= end < s.len(),
        forall|i: int| from <= i < end ==> is_whitespace(#[trigger] s[i]),
        !is_whitespace(s[end]),
    ensures
        whitespace_end(s, from) == end,
    decreases end - from,
{
    if from < end {
        assert(is_whitespace(s[from]));
        lemma_whitespace_ends_at(s, from + 1, end);
    }
}

/// Backwards from inside a run of white space, the white space begins where
/// the run begins.
proof fn lemma_whitespace_starts_at(s: Seq<char>, to: int, floor: int, start: int)
    requires
        0 <= floor < start <= to <= s.len(),
        forall|i: int| start <= i < to ==> is_whitespace(#[trigger] s[i]),
        !is_whitespace(s[start - 1]),
    ensures
        whitespace_start(s, to, floor) == start,
    decreases to - start,
{
    if start < to {
        assert(is_whitespace(s[to - 1]));
        lemma_whitespace_starts_at(s, to - 1, floor, start);
    }
}

/// Trimming takes away the white space around a text and nothing else: a
/// text that begins and ends with characters that are no white space is what
/// is left of it with white space before and after it.
pub proof fn lemma_trim_removes_padding(before: Seq<char>, core: Seq<char>, after: Seq<char>)
    requires
        core.len() > 0,
        !is_whitespace(core[0]),
        !is_whitespace(core.last()),
        forall|i: int| 0 <= i < before.len() ==> is_whitespace(#[trigger] before[i]),
        forall|i: int| 0 <= i < after.len() ==> is_whitespace(#[trigger] after[i]),
    ensures
        trimmed(before + core + after) == core,
{
    let s = before + core + after;
    let start = before.len() as int;
    let end = start + core.len();
    assert(s[start] == core[0]);
    assert(s[end - 1] == core.last());
    assert forall|i: int| 0 <= i < start implies is_whitespace(#[trigger] s[i]) by {
        assert(s[i] == before[i]);
    }
    assert forall|i: int| end <= i < s.len() implies is_whitespace(#[trigger] s[i]) by {
        assert(s[i] == after[i - end]);
    }
    lemma_whitespace_ends_at(s, 0, start);
    lemma_whitespace_starts_at(s, s.len() as int, start, end);
    assert(s.subrange(start, end) =~= core);
}

} // verus!
