//! Small verified text utilities shared by the mirrors: decimal parsing for
//! attribute values and identifiers, whitespace trimming for file contents,
//! and decimal formatting for provider commands.

use vstd::prelude::*;

verus! {

/// Whether `c` is one of the whitespace characters that surround values read
/// from attribute files.
pub open spec fn is_space(c: char) -> bool {
    c == ' ' || c == '\n' || c == '\t' || c == '\r'
}

/// Whether `c` is a decimal digit.
pub open spec fn is_digit(c: char) -> bool {
    '0' <= c && c <= '9'
}

/// The numeric value of a digit character.
pub open spec fn digit_value(c: char) -> int {
    c as int - '0' as int
}

/// Whether every character of `s` is a decimal digit.
pub open spec fn all_digits(s: Seq<char>) -> bool {
    forall|i: int| 0 <= i < s.len() ==> is_digit(#[trigger] s[i])
}

/// The number denoted by the digit string `s`, most significant digit first.
pub open spec fn digits_value(s: Seq<char>) -> int
    decreases s.len(),
{
    if s.len() == 0 {
        0
    } else {
        digits_value(s.drop_last()) * 10 + digit_value(s.last())
    }
}

/// Whether `s` is a well-formed unsigned decimal numeral: non-empty and all
/// digits.
pub open spec fn is_numeral(s: Seq<char>) -> bool {
    s.len() > 0 && all_digits(s)
}

/// A digit string denotes a non-negative number.
pub proof fn lemma_digits_value_non_negative(s: Seq<char>)
    requires
        all_digits(s),
    ensures
        digits_value(s) >= 0,
    decreases s.len(),
{
    if s.len() > 0 {
        lemma_digits_value_non_negative(s.drop_last());
    }
}

/// Parses `s` as an unsigned decimal number, accepting exactly the non-empty
/// all-digit strings whose value fits in a `u64`.
pub fn parse_u64(s: &str) -> (r: Option<u64>)
    ensures
        match r {
            Some(v) => is_numeral(s@) && v == digits_value(s@),
            None => !is_numeral(s@) || digits_value(s@) > u64::MAX,
        },
{
    let len = s.unicode_len();
    if len == 0 {
        return None;
    }
    let mut value: u64 = 0;
    let mut i: usize = 0;
    while i < len
        invariant
            0 < len == s@.len(),
            0 <= i <= len,
            all_digits(s@.subrange(0, i as int)),
            value == digits_value(s@.subrange(0, i as int)),
        decreases len - i,
    {
        let c = s.get_char(i);
        if c < '0' || c > '9' {
            assert(!all_digits(s@)) by {
                assert(s@[i as int] == c);
            }
            return None;
        }
        let d: u32 = c as u32 - '0' as u32;
        proof {
            lemma_digits_value_non_negative(s@.subrange(0, i as int));
        }
        if value > (u64::MAX - d as u64) / 10 {
            proof {
                lemma_digits_prefix_bound(s@, i as int);
            }
            return None;
        }
        value = value * 10 + d as u64;
        proof {
            assert(s@.subrange(0, i + 1 as int).drop_last() =~= s@.subrange(0, i as int));
            assert(s@.subrange(0, i + 1 as int).last() == c);
        }
        i = i + 1;
    }
    proof {
        assert(s@.subrange(0, len as int) =~= s@);
    }
    Some(value)
}

/// If a prefix of a digit string already exceeds `u64::MAX / 10` (so that one
/// more digit cannot fit), the whole string's value exceeds `u64::MAX`.
proof fn lemma_digits_prefix_bound(s: Seq<char>, i: int)
    requires
        0 <= i < s.len(),
        all_digits(s.subrange(0, i)),
        is_digit(s[i]),
        digits_value(s.subrange(0, i)) * 10 + digit_value(s[i]) > u64::MAX,
    ensures
        all_digits(s) ==> digits_value(s) > u64::MAX,
    decreases s.len() - i,
{
    if all_digits(s) {
        assert(s.subrange(0, i + 1).drop_last() =~= s.subrange(0, i));
        assert(s.subrange(0, i + 1).last() == s[i]);
        assert(digits_value(s.subrange(0, i + 1)) > u64::MAX);
        lemma_digits_value_monotone(s, i + 1);
    }
}

/// Extending a digit string with further digits can only increase its value.
proof fn lemma_digits_value_monotone(s: Seq<char>, i: int)
    requires
        0 <= i <= s.len(),
        all_digits(s),
    ensures
        digits_value(s) >= digits_value(s.subrange(0, i)),
    decreases s.len() - i,
{
    if i < s.len() {
        lemma_digits_value_monotone(s, i + 1);
        assert(s.subrange(0, i + 1).drop_last() =~= s.subrange(0, i));
        assert(s.subrange(0, i + 1).last() == s[i]);
        lemma_digits_value_non_negative(s.subrange(0, i));
    } else {
        assert(s.subrange(0, i) =~= s);
    }
}

/// Compares two string slices by their character contents.
pub fn str_eq(a: &str, b: &str) -> (r: bool)
    ensures
        r == (a@ == b@),
{
    let x: String = a.to_owned();
    let y: String = b.to_owned();
    x == y
}

/// Parses `s` as an unsigned decimal number that fits in a `u32`.
pub fn parse_u32(s: &str) -> (r: Option<u32>)
    ensures
        match r {
            Some(v) => is_numeral(s@) && v == digits_value(s@),
            None => !is_numeral(s@) || digits_value(s@) > u32::MAX,
        },
{
    match parse_u64(s) {
        Some(v) => {
            if v <= u32::MAX as u64 {
                Some(v as u32)
            } else {
                None
            }
        },
        None => None,
    }
}

/// The value trimming whitespace from both ends of `s` leaves.
pub open spec fn trimmed(s: Seq<char>) -> Seq<char>
    decreases s.len(),
{
    if s.len() == 0 {
        s
    } else if is_space(s[0]) {
        trimmed(s.skip(1))
    } else if is_space(s.last()) {
        trimmed(s.drop_last())
    } else {
        s
    }
}

/// Trims the surrounding whitespace a value read from a file or a message
/// carries.
pub fn trim(s: &str) -> (r: &str)
    ensures
        r@ == trimmed(s@),
{
    let len = s.unicode_len();
    let mut a: usize = 0;
    proof {
        assert(s@.subrange(0, len as int) =~= s@);
    }
    while a < len && is_space_char(s.get_char(a))
        invariant
            0 <= a <= len,
            len == s@.len(),
            trimmed(s@) == trimmed(s@.subrange(a as int, len as int)),
        decreases len - a,
    {
        proof {
            assert(s@.subrange(a as int, len as int).skip(1) =~= s@.subrange(
                a + 1 as int,
                len as int,
            ));
        }
        a = a + 1;
    }
    let mut b: usize = len;
    while b > a && is_space_char(s.get_char(b - 1))
        invariant
            a <= b <= len,
            len == s@.len(),
            trimmed(s@) == trimmed(s@.subrange(a as int, b as int)),
            a < len ==> !is_space(s@[a as int]),
        decreases b,
    {
        proof {
            assert(s@.subrange(a as int, b as int).drop_last() =~= s@.subrange(
                a as int,
                b - 1 as int,
            ));
            assert(s@.subrange(a as int, b as int).last() == s@[b - 1]);
        }
        b = b - 1;
    }
    let r = s.substring_char(a, b);
    proof {
        if a < b {
            assert(s@.subrange(a as int, b as int)[0] == s@[a as int]);
            assert(s@.subrange(a as int, b as int).last() == s@[b - 1]);
        }
    }
    r
}

/// Tests a character for whitespace.
pub fn is_space_char(c: char) -> (r: bool)
    ensures
        r == is_space(c),
{
    c == ' ' || c == '\n' || c == '\t' || c == '\r'
}

/// Whether `s` is a well-formed signed decimal numeral: an optional leading
/// minus sign followed by digits.
pub open spec fn is_signed_numeral(s: Seq<char>) -> bool {
    if s.len() > 0 && s[0] == '-' {
        is_numeral(s.skip(1))
    } else {
        is_numeral(s)
    }
}

/// The number a signed decimal numeral denotes.
pub open spec fn signed_value(s: Seq<char>) -> int {
    if s.len() > 0 && s[0] == '-' {
        -digits_value(s.skip(1))
    } else {
        digits_value(s)
    }
}

/// Parses `s` as a signed decimal number that fits in an `i64`.
pub fn parse_i64(s: &str) -> (r: Option<i64>)
    ensures
        match r {
            Some(v) => is_signed_numeral(s@) && v == signed_value(s@),
            None => !is_signed_numeral(s@) || signed_value(s@) > i64::MAX || signed_value(s@)
                < i64::MIN,
        },
{
    let len = s.unicode_len();
    if len > 0 && s.get_char(0) == '-' {
        let rest = s.substring_char(1, len);
        proof {
            assert(rest@ =~= s@.skip(1));
        }
        match parse_u64(rest) {
            Some(v) => {
                if v <= i64::MAX as u64 {
                    Some(-(v as i64))
                } else if v == i64::MAX as u64 + 1 {
                    Some(i64::MIN)
                } else {
                    None
                }
            },
            None => None,
        }
    } else {
        match parse_u64(s) {
            Some(v) => {
                if v <= i64::MAX as u64 {
                    Some(v as i64)
                } else {
                    None
                }
            },
            None => None,
        }
    }
}

/// The digit character denoting `d`.
pub open spec fn digit_char(d: int) -> char {
    if d == 0 {
        '0'
    } else if d == 1 {
        '1'
    } else if d == 2 {
        '2'
    } else if d == 3 {
        '3'
    } else if d == 4 {
        '4'
    } else if d == 5 {
        '5'
    } else if d == 6 {
        '6'
    } else if d == 7 {
        '7'
    } else if d == 8 {
        '8'
    } else {
        '9'
    }
}

/// The decimal numeral denoting `n`, most significant digit first.
pub open spec fn decimal(n: int) -> Seq<char>
    decreases n,
{
    if n < 10 {
        seq![digit_char(n)]
    } else {
        decimal(n / 10).push(digit_char(n % 10))
    }
}

/// The decimal numeral denoting the signed number `n`.
pub open spec fn decimal_signed(n: int) -> Seq<char> {
    if n < 0 {
        seq!['-'].add(decimal(-n))
    } else {
        decimal(n)
    }
}

/// The one-character string denoting the digit `d`.
fn digit_str(d: u64) -> (r: &'static str)
    requires
        d < 10,
    ensures
        r@ =~= seq![digit_char(d as int)],
{
    proof {
        reveal_strlit("0");
        reveal_strlit("1");
        reveal_strlit("2");
        reveal_strlit("3");
        reveal_strlit("4");
        reveal_strlit("5");
        reveal_strlit("6");
        reveal_strlit("7");
        reveal_strlit("8");
        reveal_strlit("9");
    }
    match d {
        0 => "0",
        1 => "1",
        2 => "2",
        3 => "3",
        4 => "4",
        5 => "5",
        6 => "6",
        7 => "7",
        8 => "8",
        _ => "9",
    }
}

/// Appends the decimal numeral of `n` to `out`.
fn push_decimal(out: &mut String, n: u64)
    ensures
        final(out)@ == old(out)@ + decimal(n as int),
    decreases n,
{
    if n >= 10 {
        push_decimal(out, n / 10);
    }
    out.append(digit_str(n % 10));
    proof {
        if n >= 10 {
            assert(old(out)@ + decimal(n as int) =~= (old(out)@ + decimal(n as int / 10)) + seq![
                digit_char(n as int % 10),
            ]);
        } else {
            assert(old(out)@ + decimal(n as int) =~= old(out)@ + seq![digit_char(n as int)]);
        }
    }
}

/// Formats an unsigned number as its decimal numeral.
pub fn format_u64(n: u64) -> (r: String)
    ensures
        r@ == decimal(n as int),
{
    let mut out = String::new();
    push_decimal(&mut out, n);
    proof {
        assert(Seq::<char>::empty() + decimal(n as int) =~= decimal(n as int));
    }
    out
}

/// Formats a signed number as its decimal numeral.
pub fn format_i64(n: i64) -> (r: String)
    ensures
        r@ == decimal_signed(n as int),
{
    proof {
        reveal_strlit("-");
    }
    if n < 0 {
        let mut out = String::from_str("-");
        let magnitude: u64 = if n == i64::MIN {
            i64::MAX as u64 + 1
        } else {
            (-n) as u64
        };
        push_decimal(&mut out, magnitude);
        proof {
            assert("-"@ =~= seq!['-']);
            assert(out@ =~= decimal_signed(n as int));
        }
        out
    } else {
        format_u64(n as u64)
    }
}

/// The position of the first occurrence of `c` in `s`, or the length when
/// `s` has none.
pub open spec fn first_at(s: Seq<char>, c: char) -> nat
    decreases s.len(),
{
    if s.len() == 0 {
        0
    } else if s[0] == c {
        0
    } else {
        1 + first_at(s.skip(1), c)
    }
}

/// What characterizes the first occurrence: no earlier position holds `c`,
/// and the position itself does unless `s` has none at all.
pub proof fn lemma_first_at_is(s: Seq<char>, c: char, k: int)
    requires
        0 <= k <= s.len(),
        forall|m: int| 0 <= m < k ==> s[m] != c,
        k < s.len() ==> s[k] == c,
    ensures
        first_at(s, c) == k,
    decreases k,
{
    if s.len() > 0 {
        if k == 0 {
        } else {
            assert(s[0] != c);
            assert forall|m: int| 0 <= m < k - 1 implies s.skip(1)[m] != c by {
                assert(s.skip(1)[m] == s[m + 1]);
            }
            assert(k - 1 < s.skip(1).len() ==> s.skip(1)[k - 1] == c);
            lemma_first_at_is(s.skip(1), c, k - 1);
        }
    }
}

/// The segments splitting `s` at every occurrence of `c` yields, in order;
/// splitting keeps empty segments, and a string with no separator is one
/// segment.
pub open spec fn split_at(s: Seq<char>, c: char) -> Seq<Seq<char>>
    decreases s.len(),
{
    let k = first_at(s, c);
    if k >= s.len() {
        seq![s]
    } else {
        seq![s.subrange(0, k as int)].add(split_at(s.subrange(k as int + 1, s.len() as int), c))
    }
}

/// Splits `s` at every occurrence of `c`.
pub fn split_char(s: &str, c: char) -> (parts: Vec<String>)
    ensures
        parts@.map_values(|p: String| p@) == split_at(s@, c),
{
    let len = s.unicode_len();
    let mut parts: Vec<String> = Vec::new();
    let mut start: usize = 0;
    let mut i: usize = 0;
    proof {
        assert(s@.subrange(0, len as int) =~= s@);
        assert(parts@.map_values(|p: String| p@) =~= Seq::<Seq<char>>::empty());
        assert(Seq::<Seq<char>>::empty() + split_at(s@, c) =~= split_at(s@, c));
    }
    while i < len
        invariant
            0 <= start <= i <= len,
            len == s@.len(),
            split_at(s@, c) == parts@.map_values(|p: String| p@) + split_at(
                s@.subrange(start as int, len as int),
                c,
            ),
            forall|m: int| start <= m < i ==> s@[m] != c,
        decreases len - i,
    {
        if s.get_char(i) == c {
            let segment = s.substring_char(start, i);
            parts.push(segment.to_owned());
            proof {
                let sub = s@.subrange(start as int, len as int);
                assert forall|m: int| 0 <= m < i - start implies sub[m] != c by {
                    assert(sub[m] == s@[start + m]);
                }
                assert(sub[i - start] == c);
                lemma_first_at_is(sub, c, i - start);
                assert(sub.subrange(0, i - start) =~= s@.subrange(start as int, i as int));
                assert(sub.subrange(i - start + 1, sub.len() as int) =~= s@.subrange(
                    i + 1 as int,
                    len as int,
                ));
                assert(split_at(s@, c) =~= parts@.map_values(|p: String| p@) + split_at(
                    s@.subrange(i + 1 as int, len as int),
                    c,
                ));
            }
            start = i + 1;
        }
        i = i + 1;
    }
    let segment = s.substring_char(start, len);
    parts.push(segment.to_owned());
    proof {
        let sub = s@.subrange(start as int, len as int);
        assert forall|m: int| 0 <= m < sub.len() implies sub[m] != c by {
            assert(sub[m] == s@[start + m]);
        }
        lemma_first_at_is(sub, c, sub.len() as int);
        assert(split_at(sub, c) =~= seq![sub]);
        assert(parts@.map_values(|p: String| p@) =~= split_at(s@, c));
    }
    parts
}

/// The numeral of `n` padded to two digits with a leading zero, as a clock
/// face shows hours, minutes and seconds.
pub fn format_two_digits(n: u64) -> (r: String)
    ensures
        n < 10 ==> r@ == seq!['0'] + decimal(n as int),
        n >= 10 ==> r@ == decimal(n as int),
{
    if n < 10 {
        proof {
            reveal_strlit("0");
        }
        let mut out = String::from_str("0");
        push_decimal(&mut out, n);
        proof {
            assert("0"@ =~= seq!['0']);
        }
        out
    } else {
        format_u64(n)
    }
}
} // verus!
