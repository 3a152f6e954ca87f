//! Scanning and number conversion on sequences of characters.

use vstd::prelude::*;
use vstd::string::*;

verus! {

/// The characters of `s`, one `char` each.
pub fn to_chars(s: &str) -> (chars: Vec<char>)
    ensures
        chars@ == s@,
{
    let mut chars: Vec<char> = Vec::new();
    for c in it: s.chars()
        invariant
            chars@ == it.seq().take(it.index() as int),
            it.seq() == s@,
    {
        chars.push(c);
    }
    chars
}

/// The characters of a text that may be absent.
pub open spec fn text_of(text: Option<String>) -> Option<Seq<char>> {
    match text {
        Some(t) => Some(t@),
        None => None,
    }
}

/// An index of `s.subrange(from, to)` as an index of `s`.
pub open spec fn shifted(found: Option<int>, from: int) -> Option<usize> {
    match found {
        Some(i) => Some((from + i) as usize),
        None => None,
    }
}

/// Where `c` first occurs in `chars[from..to]`, as an index of `chars`.
pub fn find_char(chars: &Vec<char>, from: usize, to: usize, c: char) -> (found: Option<usize>)
    requires
        from <= to <= chars.len(),
    ensures
        found == shifted(chars@.subrange(from as int, to as int).index_of_first(c), from as int),
{
    let ghost part = chars@.subrange(from as int, to as int);
    let mut i = from;
    while i < to
        invariant
            from <= i <= to <= chars.len(),
            part == chars@.subrange(from as int, to as int),
            forall|j: int| 0 <= j < i - from ==> part[j] != c,
        decreases to - i,
    {
        if chars[i] == c {
            proof {
                part.index_of_first_ensures(c);
                assert(part[i - from] == c);
            }
            return Some(i);
        }
        i += 1;
    }
    proof {
        part.index_of_first_ensures(c);
    }
    None
}

/// Where `c` last occurs in `chars[from..to]`, as an index of `chars`.
pub fn rfind_char(chars: &Vec<char>, from: usize, to: usize, c: char) -> (found: Option<usize>)
    requires
        from <= to <= chars.len(),
    ensures
        found == shifted(chars@.subrange(from as int, to as int).index_of_last(c), from as int),
{
    let ghost part = chars@.subrange(from as int, to as int);
    let mut i = to;
    while i > from
        invariant
            from <= i <= to <= chars.len(),
            part == chars@.subrange(from as int, to as int),
            forall|j: int| i - from <= j < part.len() ==> part[j] != c,
        decreases i,
    {
        i -= 1;
        if chars[i] == c {
            proof {
                part.index_of_last_ensures(c);
                assert(part[i - from] == c);
            }
            return Some(i);
        }
    }
    proof {
        part.index_of_last_ensures(c);
    }
    None
}

/// Whether `c` is white space, as Unicode has it.
pub open spec fn is_space(c: char) -> bool {
    let code = c as u32;
    ||| 0x09 <= code <= 0x0D
    ||| code == 0x20
    ||| code == 0x85
    ||| code == 0xA0
    ||| code == 0x1680
    ||| 0x2000 <= code <= 0x200A
    ||| code == 0x2028
    ||| code == 0x2029
    ||| code == 0x202F
    ||| code == 0x205F
    ||| code == 0x3000
}

/// The number of characters of white space that `s` starts with.
pub open spec fn leading_spaces(s: Seq<char>) -> nat
    decreases s.len(),
{
    if s.len() > 0 && is_space(s[0]) {
        1 + leading_spaces(s.drop_first())
    } else {
        0
    }
}

/// `s` without the white space that it starts with.
pub open spec fn trimmed_start(s: Seq<char>) -> Seq<char> {
    s.skip(leading_spaces(s) as int)
}

/// Whether `c` is white space.
pub fn space(c: char) -> (white: bool)
    ensures
        white == is_space(c),
{
    let code = c as u32;
    (0x09 <= code && code <= 0x0D) || code == 0x20 || code == 0x85 || code == 0xA0 || code
        == 0x1680 || (0x2000 <= code && code <= 0x200A) || code == 0x2028 || code == 0x2029
        || code == 0x202F || code == 0x205F || code == 0x3000
}

/// Where `chars[from..]` starts once its leading white space is left out.
pub fn skip_spaces(chars: &Vec<char>, from: usize) -> (start: usize)
    requires
        from <= chars.len(),
    ensures
        from <= start <= chars.len(),
        start - from == leading_spaces(chars@.skip(from as int)),
        chars@.skip(start as int) == trimmed_start(chars@.skip(from as int)),
{
    let mut i: usize = from;
    while i < chars.len() && space(chars[i])
        invariant
            from <= i <= chars.len(),
            leading_spaces(chars@.skip(from as int)) == (i - from) + leading_spaces(
                chars@.skip(i as int),
            ),
        decreases chars.len() - i,
    {
        assert(chars@.skip(i as int).drop_first() =~= chars@.skip(i + 1));
        i += 1;
    }
    assert(chars@.skip(from as int).skip(i - from) =~= chars@.skip(i as int));
    i
}

/// What the character `c` is worth as a digit: `0` to `9`, then the letters of
/// either case from 10 on; 36 for any other character.
pub open spec fn digit_of(c: char) -> int {
    if '0' <= c <= '9' {
        c as int - '0' as int
    } else if 'a' <= c <= 'z' {
        c as int - 'a' as int + 10
    } else if 'A' <= c <= 'Z' {
        c as int - 'A' as int + 10
    } else {
        36
    }
}

/// Every character of `s` is a digit in the given radix.
pub open spec fn all_digits(s: Seq<char>, radix: int) -> bool {
    forall|i: int| 0 <= i < s.len() ==> digit_of(#[trigger] s[i]) < radix
}

/// The number that the digits of `s` write in the given radix, first digit
/// most significant.
pub open spec fn digits_value(s: Seq<char>, radix: int) -> int
    decreases s.len(),
{
    if s.len() == 0 {
        0
    } else {
        digits_value(s.drop_last(), radix) * radix + digit_of(s.last())
    }
}

/// `s` without one leading plus sign.
pub open spec fn unsigned_text(s: Seq<char>) -> Seq<char> {
    if s.len() > 0 && s[0] == '+' {
        s.drop_first()
    } else {
        s
    }
}

/// The number that `s` writes: an optional plus sign, then one digit or more
/// and nothing else, worth `max` at most. `None` for any other text.
pub open spec fn number_of(s: Seq<char>, radix: int, max: int) -> Option<int> {
    let digits = unsigned_text(s);
    if digits.len() > 0 && all_digits(digits, radix) && digits_value(digits, radix) <= max {
        Some(digits_value(digits, radix))
    } else {
        None
    }
}

/// A longer run of digits is worth no less than what it starts with.
pub proof fn lemma_digits_value_grows(s: Seq<char>, k: int, radix: int)
    requires
        0 <= k <= s.len(),
        radix >= 1,
        all_digits(s, radix),
    ensures
        0 <= digits_value(s.take(k), radix) <= digits_value(s, radix),
    decreases s.len() - k,
{
    lemma_digits_value_nonneg(s.take(k), radix);
    if k == s.len() {
        assert(s.take(k) =~= s);
    } else {
        lemma_digits_value_grows(s, k + 1, radix);
        let longer = s.take(k + 1);
        assert(longer.drop_last() =~= s.take(k));
        assert(longer.last() == s[k]);
        let v = digits_value(s.take(k), radix);
        assert(v * radix >= v) by (nonlinear_arith)
            requires
                v >= 0,
                radix >= 1,
        ;
    }
}

/// Digits write a number that is not negative.
pub proof fn lemma_digits_value_nonneg(s: Seq<char>, radix: int)
    requires
        radix >= 1,
    ensures
        digits_value(s, radix) >= 0,
    decreases s.len(),
{
    if s.len() > 0 {
        lemma_digits_value_nonneg(s.drop_last(), radix);
        let v = digits_value(s.drop_last(), radix);
        assert(v * radix >= 0) by (nonlinear_arith)
            requires
                v >= 0,
                radix >= 1,
        ;
    }
}

/// What `c` is worth as a digit, as `digit_of` has it.
pub fn digit_value(c: char) -> (d: u64)
    ensures
        d == digit_of(c),
{
    let code: u32 = c as u32;
    if '0' <= c && c <= '9' {
        (code - '0' as u32) as u64
    } else if 'a' <= c && c <= 'z' {
        (code - 'a' as u32) as u64 + 10
    } else if 'A' <= c && c <= 'Z' {
        (code - 'A' as u32) as u64 + 10
    } else {
        36
    }
}

/// Reads `chars[from..to]` as a number in radix 10 or 16, as `number_of` has it.
pub fn parse_number(chars: &Vec<char>, from: usize, to: usize, radix: u64, max: u64) -> (number:
    Option<u64>)
    requires
        from <= to <= chars.len(),
        radix == 10 || radix == 16,
    ensures
        number.is_some() == number_of(
            chars@.subrange(from as int, to as int),
            radix as int,
            max as int,
        ).is_some(),
        number matches Some(n) ==> number_of(
            chars@.subrange(from as int, to as int),
            radix as int,
            max as int,
        ) == Some(n as int),
{
    let ghost text = chars@.subrange(from as int, to as int);
    let start: usize = if from < to && chars[from] == '+' {
        from + 1
    } else {
        from
    };
    let ghost digits = unsigned_text(text);
    assert(digits =~= chars@.subrange(start as int, to as int));
    if start == to {
        return None;
    }
    let mut value: u64 = 0;
    let mut i: usize = start;
    while i < to
        invariant
            from <= start <= i <= to <= chars.len(),
            start < to,
            radix == 10 || radix == 16,
            digits == chars@.subrange(start as int, to as int),
            digits == unsigned_text(chars@.subrange(from as int, to as int)),
            all_digits(digits.take(i - start), radix as int),
            value == digits_value(digits.take(i - start), radix as int),
            value <= max,
        decreases to - i,
    {
        let d = digit_value(chars[i]);
        let ghost shorter = digits.take(i - start);
        let ghost longer = digits.take(i - start + 1);
        proof {
            assert(longer.drop_last() =~= shorter);
            assert(longer.last() == chars@[i as int]);
        }
        if d >= radix {
            assert(!all_digits(digits, radix as int)) by {
                assert(digits[i - start] == chars@[i as int]);
            }
            return None;
        }
        assert(all_digits(longer, radix as int)) by {
            assert forall|j: int| 0 <= j < longer.len() implies digit_of(#[trigger] longer[j])
                < radix by {
                if j < shorter.len() {
                    assert(longer[j] == shorter[j]);
                }
            }
        }
        let limit: u64 = if d > max {
            0
        } else {
            (max - d) / radix
        };
        let ghost (v, r, m, dd, l) = (value as int, radix as int, max as int, d as int, limit as int);
        if d > max || value > limit {
            proof {
                assert(v * r + dd > m) by (nonlinear_arith)
                    requires
                        dd > m || (l == (m - dd) / r && v > l),
                        r == 10 || r == 16,
                        dd >= 0,
                        v >= 0,
                        m >= 0,
                ;
                if all_digits(digits, r) {
                    lemma_digits_value_grows(digits, i - start + 1, r);
                }
            }
            return None;
        }
        assert(v * r + dd <= m) by (nonlinear_arith)
            requires
                dd <= m,
                l == (m - dd) / r,
                v <= l,
                r == 10 || r == 16,
                v >= 0,
                dd >= 0,
        ;
        value = value * radix + d;
        i += 1;
    }
    assert(digits.take(i - start) =~= digits);
    Some(value)
}

/// The unsigned decimal number that `s` writes, where it fits in 64 bits.
pub open spec fn u64_of(s: Seq<char>) -> Option<u64> {
    match number_of(s, 10, u64::MAX as int) {
        Some(n) => Some(n as u64),
        None => None,
    }
}

/// The unsigned decimal number that `s` writes, where it fits in 32 bits.
pub open spec fn u32_of(s: Seq<char>) -> Option<u32> {
    match number_of(s, 10, u32::MAX as int) {
        Some(n) => Some(n as u32),
        None => None,
    }
}

/// The unsigned decimal number that `s` writes, where it fits in 8 bits.
pub open spec fn u8_of(s: Seq<char>) -> Option<u8> {
    match number_of(s, 10, u8::MAX as int) {
        Some(n) => Some(n as u8),
        None => None,
    }
}

/// Reads `chars[from..to]` as an unsigned decimal number of 64 bits.
pub fn parse_u64(chars: &Vec<char>, from: usize, to: usize) -> (number: Option<u64>)
    requires
        from <= to <= chars.len(),
    ensures
        number == u64_of(chars@.subrange(from as int, to as int)),
{
    parse_number(chars, from, to, 10, u64::MAX)
}

/// Reads `chars[from..to]` as an unsigned decimal number of 32 bits.
pub fn parse_u32(chars: &Vec<char>, from: usize, to: usize) -> (number: Option<u32>)
    requires
        from <= to <= chars.len(),
    ensures
        number == u32_of(chars@.subrange(from as int, to as int)),
{
    match parse_number(chars, from, to, 10, u32::MAX as u64) {
        Some(n) => Some(n as u32),
        None => None,
    }
}

/// Reads `chars[from..to]` as an unsigned decimal number of 8 bits.
pub fn parse_u8(chars: &Vec<char>, from: usize, to: usize) -> (number: Option<u8>)
    requires
        from <= to <= chars.len(),
    ensures
        number == u8_of(chars@.subrange(from as int, to as int)),
{
    match parse_number(chars, from, to, 10, u8::MAX as u64) {
        Some(n) => Some(n as u8),
        None => None,
    }
}

/// The character that writes the digit `d`: `0` to `9`, then `A` to `F`.
pub open spec fn digit_char(d: int) -> char {
    if d < 10 {
        ('0' as int + d) as char
    } else {
        ('A' as int + d - 10) as char
    }
}

/// `n` written in decimal digits, without leading zeros.
pub open spec fn decimal_text(n: nat) -> Seq<char>
    decreases n,
{
    if n < 10 {
        seq![digit_char(n as int)]
    } else {
        decimal_text(n / 10).push(digit_char((n % 10) as int))
    }
}

/// `byte` written as two hexadecimal digits, letters in upper case.
pub open spec fn hex_text(byte: u8) -> Seq<char> {
    seq![digit_char(byte as int / 16), digit_char(byte as int % 16)]
}

/// The text of one digit.
pub fn digit_str(d: u64) -> (s: &'static str)
    requires
        d < 16,
    ensures
        s@ == seq![digit_char(d as int)],
{
    proof {
        reveal_strlit("0");
        reveal_strlit("1");
        reveal_strlit("2");
        reveal_strlit("3");
        reveal_strlit("4");
        reveal_strlit("5");
        reveal_strlit("6");
        reveal_strlit("7");
        reveal_strlit("8");
        reveal_strlit("9");
        reveal_strlit("A");
        reveal_strlit("B");
        reveal_strlit("C");
        reveal_strlit("D");
        reveal_strlit("E");
        reveal_strlit("F");
    }
    let s = match d {
        0 => "0",
        1 => "1",
        2 => "2",
        3 => "3",
        4 => "4",
        5 => "5",
        6 => "6",
        7 => "7",
        8 => "8",
        9 => "9",
        10 => "A",
        11 => "B",
        12 => "C",
        13 => "D",
        14 => "E",
        _ => "F",
    };
    assert(s@ =~= seq![digit_char(d as int)]);
    s
}

/// `n` in decimal digits.
pub fn decimal(n: u64) -> (s: String)
    ensures
        s@ == decimal_text(n as nat),
    decreases n,
{
    if n < 10 {
        String::from_str(digit_str(n))
    } else {
        let s = decimal(n / 10).concat(digit_str(n % 10));
        assert(s@ =~= decimal_text(n as nat));
        s
    }
}

/// `byte` in two hexadecimal digits, letters in upper case.
pub fn hex(byte: u8) -> (s: String)
    ensures
        s@ == hex_text(byte),
{
    let s = String::from_str(digit_str((byte / 16) as u64)).concat(digit_str((byte % 16) as u64));
    assert(s@ =~= hex_text(byte));
    s
}

/// The parts of `s` between the occurrences of `sep`, in their order: one
/// more than there are occurrences, some of them empty where separators stand
/// side by side or at an end.
pub open spec fn split(s: Seq<char>, sep: char) -> Seq<Seq<char>>
    decreases s.len(),
{
    match s.index_of_first(sep) {
        Some(i) => if 0 <= i < s.len() {
            seq![s.take(i)] + split(s.skip(i + 1), sep)
        } else {
            seq![s]
        },
        None => seq![s],
    }
}

/// Each pair of `ranges` holds the bounds of a part of `chars`.
pub open spec fn ranges_within(ranges: Seq<(usize, usize)>, from: int, to: int) -> bool {
    forall|k: int|
        0 <= k < ranges.len() ==> from <= (#[trigger] ranges[k]).0 <= ranges[k].1 <= to
}

/// The parts of `chars` that `ranges` bound.
pub open spec fn parts_of(chars: Seq<char>, ranges: Seq<(usize, usize)>) -> Seq<Seq<char>> {
    Seq::new(ranges.len(), |k: int| chars.subrange(ranges[k].0 as int, ranges[k].1 as int))
}

/// Splits `chars[from..to]` at each `sep`, and returns the bounds of the parts
/// as indices of `chars`.
pub fn split_ranges(chars: &Vec<char>, from: usize, to: usize, sep: char) -> (ranges: Vec<
    (usize, usize),
>)
    requires
        from <= to <= chars.len(),
    ensures
        ranges_within(ranges@, from as int, to as int),
        parts_of(chars@, ranges@) == split(chars@.subrange(from as int, to as int), sep),
        ranges.len() >= 1,
{
    let mut ranges: Vec<(usize, usize)> = Vec::new();
    let mut start: usize = from;
    let ghost whole = split(chars@.subrange(from as int, to as int), sep);
    loop
        invariant_except_break
            whole == parts_of(chars@, ranges@) + split(
                chars@.subrange(start as int, to as int),
                sep,
            ),
        invariant
            from <= start <= to <= chars.len(),
            ranges_within(ranges@, from as int, to as int),
            whole == split(chars@.subrange(from as int, to as int), sep),
        ensures
            ranges_within(ranges@, from as int, to as int),
            whole == parts_of(chars@, ranges@),
            ranges.len() >= 1,
        decreases to - start,
    {
        let ghost rest = chars@.subrange(start as int, to as int);
        let ghost done = parts_of(chars@, ranges@);
        proof {
            rest.index_of_first_ensures(sep);
        }
        match find_char(chars, start, to, sep) {
            None => {
                ranges.push((start, to));
                assert(parts_of(chars@, ranges@) =~= done + seq![rest]);
                break ;
            },
            Some(at) => {
                ranges.push((start, at));
                proof {
                    assert(rest.take(at - start) =~= chars@.subrange(start as int, at as int));
                    assert(rest.skip(at - start + 1) =~= chars@.subrange(at + 1, to as int));
                    assert(parts_of(chars@, ranges@) =~= done + seq![rest.take(at - start)]);
                    assert(whole =~= parts_of(chars@, ranges@) + split(
                        chars@.subrange(at + 1, to as int),
                        sep,
                    ));
                }
                start = at + 1;
            },
        }
    }
    ranges
}

} // verus!
