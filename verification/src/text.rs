//! Text handling for the shell: trimming, splitting a line into command and
//! argument, reading and writing decimal numbers.

use vstd::prelude::*;
use vstd::slice::slice_subrange;
use vstd::string::StrSliceExecFns;

verus! {

/// The number of bytes that a character takes in UTF-8.
pub open spec fn utf8_len(c: char) -> nat {
    let u = c as u32;
    if u < 0x80 {
        1
    } else if u < 0x800 {
        2
    } else if u < 0x10000 {
        3
    } else {
        4
    }
}

/// The number of bytes that a text takes in UTF-8.
pub open spec fn utf8_size(s: Seq<char>) -> nat
    decreases s.len(),
{
    if s.len() == 0 {
        0
    } else {
        utf8_size(s.drop_last()) + utf8_len(s.last())
    }
}

/// The number of bytes that a character takes in UTF-8.
pub fn char_len(c: char) -> (len: usize)
    ensures
        len == utf8_len(c),
        1 <= len <= 4,
{
    let u = c as u32;
    if u < 0x80 {
        1
    } else if u < 0x800 {
        2
    } else if u < 0x10000 {
        3
    } else {
        4
    }
}

/// White space as Unicode defines it: what trimming removes.
pub open spec fn is_space(c: char) -> bool {
    let u = c as u32;
    ||| 0x09 <= u <= 0x0d
    ||| u == 0x20
    ||| u == 0x85
    ||| u == 0xa0
    ||| u == 0x1680
    ||| 0x2000 <= u <= 0x200a
    ||| u == 0x2028
    ||| u == 0x2029
    ||| u == 0x202f
    ||| u == 0x205f
    ||| u == 0x3000
}

/// Tells whether a character is white space.
pub fn char_is_space(c: char) -> (space: bool)
    ensures
        space == is_space(c),
{
    let u = c as u32;
    (0x09 <= u && u <= 0x0d) || u == 0x20 || u == 0x85 || u == 0xa0 || u == 0x1680 || (0x2000 <= u
        && u <= 0x200a) || u == 0x2028 || u == 0x2029 || u == 0x202f || u == 0x205f || u
        == 0x3000
}

/// The number of white space characters at the start of a text.
pub open spec fn leading_spaces(s: Seq<char>) -> nat
    decreases s.len(),
{
    if s.len() > 0 && is_space(s.first()) {
        1 + leading_spaces(s.drop_first())
    } else {
        0
    }
}

/// The number of white space characters at the end of a text.
pub open spec fn trailing_spaces(s: Seq<char>) -> nat
    decreases s.len(),
{
    if s.len() > 0 && is_space(s.last()) {
        1 + trailing_spaces(s.drop_last())
    } else {
        0
    }
}

/// A text without the white space at its start.
pub open spec fn trim_start(s: Seq<char>) -> Seq<char> {
    s.skip(leading_spaces(s) as int)
}

/// A text without the white space at its two ends.
pub open spec fn trim(s: Seq<char>) -> Seq<char> {
    let t = trim_start(s);
    t.take(t.len() - trailing_spaces(t))
}

/// Removes the white space at the two ends of a text.
pub fn trimmed(s: &[char]) -> (t: &[char])
    ensures
        t@ == trim(s@),
{
    let mut start: usize = 0;
    assert(s@.skip(0) =~= s@);
    while start < s.len() && char_is_space(s[start])
        invariant
            start <= s.len(),
            leading_spaces(s@) == start + leading_spaces(s@.skip(start as int)),
        decreases s.len() - start,
    {
        proof {
            let rest = s@.skip(start as int);
            assert(rest.first() == s@[start as int]);
            assert(rest.drop_first() =~= s@.skip(start + 1));
        }
        start = start + 1;
    }
    proof {
        let rest = s@.skip(start as int);
        if start < s.len() {
            assert(rest.first() == s@[start as int]);
        }
        assert(leading_spaces(rest) == 0);
    }
    let ghost body = s@.skip(start as int);
    let mut end: usize = s.len();
    while end > start && char_is_space(s[end - 1])
        invariant
            start <= end <= s.len(),
            body == s@.skip(start as int),
            trailing_spaces(body) == (s.len() - end) + trailing_spaces(
                s@.subrange(start as int, end as int),
            ),
        decreases end,
    {
        proof {
            let part = s@.subrange(start as int, end as int);
            assert(part.last() == s@[end - 1]);
            assert(part.drop_last() =~= s@.subrange(start as int, end - 1));
        }
        end = end - 1;
    }
    proof {
        let part = s@.subrange(start as int, end as int);
        if end > start {
            assert(part.last() == s@[end - 1]);
        }
        assert(trailing_spaces(part) == 0);
        assert(body.take(body.len() - trailing_spaces(body)) =~= part);
    }
    slice_subrange(s, start, end)
}

/// The place of the first space character in a text, or the text's length
/// if it has none.
pub open spec fn first_space(s: Seq<char>) -> nat
    decreases s.len(),
{
    if s.len() == 0 || s.first() == ' ' {
        0
    } else {
        1 + first_space(s.drop_first())
    }
}

/// The first word of a line: what stands before its first space.
pub open spec fn command_of(s: Seq<char>) -> Seq<char> {
    s.take(first_space(s) as int)
}

/// What follows the first space of a line; nothing if it has no space.
pub open spec fn args_of(s: Seq<char>) -> Seq<char> {
    if first_space(s) < s.len() {
        s.skip(first_space(s) as int + 1)
    } else {
        Seq::empty()
    }
}

/// Splits a line at its first space into the command and its argument.
pub fn split_command(s: &[char]) -> (parts: (&[char], &[char]))
    ensures
        parts.0@ == command_of(s@),
        parts.1@ == args_of(s@),
{
    let mut i: usize = 0;
    assert(s@.skip(0) =~= s@);
    while i < s.len() && s[i] != ' '
        invariant
            i <= s.len(),
            first_space(s@) == i + first_space(s@.skip(i as int)),
        decreases s.len() - i,
    {
        proof {
            let rest = s@.skip(i as int);
            assert(rest.first() == s@[i as int]);
            assert(rest.drop_first() =~= s@.skip(i + 1));
        }
        i = i + 1;
    }
    proof {
        let rest = s@.skip(i as int);
        if i < s.len() {
            assert(rest.first() == s@[i as int]);
        }
        assert(first_space(rest) == 0);
    }
    let command = slice_subrange(s, 0, i);
    let args = if i < s.len() {
        slice_subrange(s, i + 1, s.len())
    } else {
        slice_subrange(s, i, i)
    };
    assert(command@ =~= command_of(s@));
    assert(args@ =~= args_of(s@));
    (command, args)
}

/// Tells whether a character is one of the ten ASCII digits.
pub open spec fn is_digit(c: char) -> bool {
    '0' <= c <= '9'
}

/// The number that a run of decimal digits stands for; none for the empty
/// text and for one that holds anything but digits.
pub open spec fn digits_value(s: Seq<char>) -> Option<nat>
    decreases s.len(),
{
    if s.len() == 0 || !is_digit(s.last()) {
        None
    } else if s.len() == 1 {
        Some((s.last() as u32 - 0x30) as nat)
    } else {
        match digits_value(s.drop_last()) {
            Some(v) => Some((v * 10 + (s.last() as u32 - 0x30)) as nat),
            None => None,
        }
    }
}

/// The number that a text stands for: an optional plus sign and then only
/// decimal digits, at least one, whose value fits in 64 bits. Any other text
/// stands for none.
pub open spec fn parse_u64(s: Seq<char>) -> Option<u64> {
    let digits = if s.len() > 0 && s.first() == '+' {
        s.drop_first()
    } else {
        s
    };
    match digits_value(digits) {
        Some(v) => if v <= u64::MAX {
            Some(v as u64)
        } else {
            None
        },
        None => None,
    }
}

/// Where a text is a number, each of its nonempty starts is a number too,
/// and no larger.
proof fn lemma_digits_prefix(s: Seq<char>, k: int)
    requires
        1 <= k <= s.len(),
        digits_value(s) is Some,
    ensures
        digits_value(s.take(k)) is Some,
        digits_value(s.take(k))->0 <= digits_value(s)->0,
    decreases s.len(),
{
    if k == s.len() {
        assert(s.take(k) =~= s);
    } else {
        assert(s.drop_last().take(k) =~= s.take(k));
        lemma_digits_prefix(s.drop_last(), k);
    }
}

/// A text with a character that is no digit is no number.
proof fn lemma_digits_all(s: Seq<char>, k: int)
    requires
        0 <= k < s.len(),
        !is_digit(s[k]),
    ensures
        digits_value(s) is None,
    decreases s.len(),
{
    if k < s.len() - 1 {
        lemma_digits_all(s.drop_last(), k);
    }
}

/// Reads an unsigned decimal number: an optional plus sign and then only
/// digits. Returns `None` for any other text and for a number that does not
/// fit in 64 bits.
pub fn parse_number(s: &[char]) -> (number: Option<u64>)
    ensures
        number == parse_u64(s@),
{
    let start: usize = if s.len() > 0 && s[0] == '+' {
        1
    } else {
        0
    };
    let ghost digits = s@.skip(start as int);
    assert(digits =~= if s@.len() > 0 && s@.first() == '+' {
        s@.drop_first()
    } else {
        s@
    });
    if start == s.len() {
        return None;
    }
    let mut value: u64 = 0;
    let mut i: usize = start;
    while i < s.len()
        invariant
            start <= i <= s.len(),
            start < s.len(),
            digits == s@.skip(start as int),
            parse_u64(s@) == match digits_value(digits) {
                Some(v) => if v <= u64::MAX {
                    Some(v as u64)
                } else {
                    None
                },
                None => None,
            },
            i > start ==> digits_value(digits.take(i - start)) == Some(value as nat),
            i == start ==> value == 0,
        decreases s.len() - i,
    {
        let c = s[i];
        let ghost next = digits.take(i - start + 1);
        proof {
            assert(next.last() == c);
            assert(next.drop_last() =~= digits.take(i - start));
        }
        if !('0' <= c && c <= '9') {
            proof {
                lemma_digits_all(digits, i - start);
            }
            return None;
        }
        let d: u64 = (c as u32 - 0x30) as u64;
        if value > (u64::MAX - d) / 10 {
            proof {
                assert(value * 10 + d > u64::MAX);
                assert(digits_value(next) == Some((value * 10 + d) as nat));
                if digits_value(digits) is Some {
                    lemma_digits_prefix(digits, i - start + 1);
                }
            }
            return None;
        }
        value = value * 10 + d;
        i = i + 1;
    }
    assert(digits.take(i - start) =~= digits);
    Some(value)
}

/// The decimal digits of a number, as ASCII bytes, without leading zeros.
pub open spec fn decimal(n: nat) -> Seq<u8>
    decreases n,
{
    if n < 10 {
        seq![(0x30 + n) as u8]
    } else {
        decimal(n / 10).push((0x30 + n % 10) as u8)
    }
}

/// Writes a number in decimal.
pub fn to_decimal(n: u64) -> (digits: Vec<u8>)
    ensures
        digits@ == decimal(n as nat),
{
    let mut reversed: Vec<u8> = Vec::new();
    let mut rest: u64 = n;
    while rest >= 10
        invariant
            decimal(n as nat) == decimal(rest as nat) + reversed@.reverse(),
        decreases rest,
    {
        let ghost before = reversed@;
        let byte: u8 = (0x30 + rest % 10) as u8;
        reversed.push(byte);
        proof {
            assert(reversed@.reverse() =~= seq![byte] + before.reverse());
            assert(decimal(rest as nat) == decimal((rest / 10) as nat).push(byte));
            assert(decimal((rest / 10) as nat).push(byte) + before.reverse() =~= decimal(
                (rest / 10) as nat,
            ) + (seq![byte] + before.reverse()));
        }
        rest = rest / 10;
    }
    let ghost before = reversed@;
    let byte: u8 = (0x30 + rest) as u8;
    reversed.push(byte);
    proof {
        assert(reversed@.reverse() =~= seq![byte] + before.reverse());
        assert(decimal(rest as nat) =~= seq![byte]);
    }
    let mut digits: Vec<u8> = Vec::new();
    let mut k: usize = reversed.len();
    while k > 0
        invariant
            k <= reversed.len(),
            digits.len() == reversed.len() - k,
            forall|j: int| 0 <= j < digits.len() ==> digits[j] == reversed@.reverse()[j],
        decreases k,
    {
        k = k - 1;
        digits.push(reversed[k]);
    }
    assert(digits@ =~= reversed@.reverse());
    digits
}

/// The sum of the numbers from one to `n`, as far as 64 bits hold it: the
/// sum modulo two to the power of 64.
pub open spec fn sum_to(n: u64) -> u64 {
    ((n as int * (n as int + 1) / 2) % 0x1_0000_0000_0000_0000) as u64
}

/// Adds up the numbers from one to `n` in 64-bit arithmetic that wraps.
pub fn sum_up_to(n: u64) -> (total: u64)
    ensures
        total == sum_to(n),
{
    let wide: u128 = n as u128;
    assert(wide * (wide + 1) <= 0xffff_ffff_ffff_ffff * 0x1_0000_0000_0000_0000) by (nonlinear_arith)
        requires
            wide <= 0xffff_ffff_ffff_ffff,
    ;
    let product: u128 = wide * (wide + 1);
    ((product / 2) % 0x1_0000_0000_0000_0000) as u64
}

/// Tells whether a word is the given name, character for character.
pub fn word_is(word: &[char], name: &str) -> (same: bool)
    ensures
        same == (word@ == name@),
{
    let len = name.unicode_len();
    if word.len() != len {
        return false;
    }
    let mut i: usize = 0;
    while i < len
        invariant
            i <= len,
            len == word.len(),
            len == name@.len(),
            forall|k: int| 0 <= k < i ==> word@[k] == name@[k],
        decreases len - i,
    {
        if word[i] != name.get_char(i) {
            return false;
        }
        i = i + 1;
    }
    assert(word@ =~= name@);
    true
}

} // verus!
