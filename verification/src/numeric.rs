//! Decimal rendering and parsing of numeric user IDs.
//!
//! The directory carries a user's numeric ID as a string-valued attribute;
//! this module fixes that wire syntax: a non-empty run of decimal digits
//! whose value fits in `u32`.

use vstd::prelude::*;

verus! {

/// The character for one decimal digit.
pub open spec fn digit_char(d: nat) -> char {
    if d == 0 {
        '0'
    } else if d == 1 {
        '1'
    } else if d == 2 {
        '2'
    } else if d == 3 {
        '3'
    } else if d == 4 {
        '4'
    } else if d == 5 {
        '5'
    } else if d == 6 {
        '6'
    } else if d == 7 {
        '7'
    } else if d == 8 {
        '8'
    } else {
        '9'
    }
}

/// The numeric value of one decimal digit character, or 10 for any other
/// character.
pub open spec fn digit_val(c: char) -> nat {
    if c == '0' {
        0
    } else if c == '1' {
        1
    } else if c == '2' {
        2
    } else if c == '3' {
        3
    } else if c == '4' {
        4
    } else if c == '5' {
        5
    } else if c == '6' {
        6
    } else if c == '7' {
        7
    } else if c == '8' {
        8
    } else if c == '9' {
        9
    } else {
        10
    }
}

pub open spec fn is_digit(c: char) -> bool {
    digit_val(c) < 10
}

/// The canonical decimal rendering of a number: no sign, no leading zeros
/// (except for the number zero itself).
pub open spec fn dec_string_of(n: nat) -> Seq<char>
    decreases n,
{
    if n < 10 {
        seq![digit_char(n)]
    } else {
        dec_string_of(n / 10) + seq![digit_char(n % 10)]
    }
}

pub open spec fn all_digits(s: Seq<char>) -> bool {
    forall|i: int| 0 <= i < s.len() ==> is_digit(#[trigger] s[i])
}

/// The value of a run of decimal digits, most significant first.
pub open spec fn dec_value_of(s: Seq<char>) -> nat
    decreases s.len(),
{
    if s.len() == 0 {
        0
    } else {
        dec_value_of(s.drop_last()) * 10 + digit_val(s.last())
    }
}

/// What parsing a numeric-ID attribute value yields: the digits' value when
/// the text is a non-empty run of decimal digits whose value fits in `u32`,
/// and nothing otherwise.
pub open spec fn parse_u32_of(s: Seq<char>) -> Option<u32> {
    if s.len() > 0 && all_digits(s) && dec_value_of(s) <= u32::MAX {
        Some(dec_value_of(s) as u32)
    } else {
        None
    }
}

/// A one-character string for one decimal digit.
fn digit_str(d: u32) -> (s: &'static str)
    requires
        d < 10,
    ensures
        s@ =~= seq![digit_char(d as nat)],
{
    let s: &'static str = if d == 0 {
        "0"
    } else if d == 1 {
        "1"
    } else if d == 2 {
        "2"
    } else if d == 3 {
        "3"
    } else if d == 4 {
        "4"
    } else if d == 5 {
        "5"
    } else if d == 6 {
        "6"
    } else if d == 7 {
        "7"
    } else if d == 8 {
        "8"
    } else {
        "9"
    };
    proof {
        reveal_strlit("0");
        reveal_strlit("1");
        reveal_strlit("2");
        reveal_strlit("3");
        reveal_strlit("4");
        reveal_strlit("5");
        reveal_strlit("6");
        reveal_strlit("7");
        reveal_strlit("8");
        reveal_strlit("9");
    }
    s
}

/// Renders a numeric ID in its canonical decimal form.
pub fn u32_to_string(n: u32) -> (s: String)
    ensures
        s@ == dec_string_of(n as nat),
    decreases n,
{
    let d = digit_str(n % 10);
    if n < 10 {
        let s = d.to_owned();
        assert(s@ == dec_string_of(n as nat));
        s
    } else {
        let mut s = u32_to_string(n / 10);
        s.append(d);
        assert(s@ == dec_string_of(n as nat));
        s
    }
}

/// The value of a digit prefix never exceeds the value of the whole run.
proof fn lemma_dec_value_prefix(s: Seq<char>, i: int)
    requires
        0 <= i <= s.len(),
    ensures
        dec_value_of(s.subrange(0, i)) <= dec_value_of(s),
    decreases s.len() - i,
{
    if i < s.len() {
        lemma_dec_value_prefix(s, i + 1);
        assert(s.subrange(0, i + 1).drop_last() =~= s.subrange(0, i));
        assert(dec_value_of(s.subrange(0, i + 1)) == dec_value_of(s.subrange(0, i)) * 10
            + digit_val(s.subrange(0, i + 1).last()));
    } else {
        assert(s.subrange(0, i) =~= s);
    }
}

/// The numeric value of one decimal digit character, or 10 for any other
/// character.
fn digit_of(c: char) -> (d: u32)
    ensures
        d == digit_val(c),
{
    if c == '0' {
        0
    } else if c == '1' {
        1
    } else if c == '2' {
        2
    } else if c == '3' {
        3
    } else if c == '4' {
        4
    } else if c == '5' {
        5
    } else if c == '6' {
        6
    } else if c == '7' {
        7
    } else if c == '8' {
        8
    } else if c == '9' {
        9
    } else {
        10
    }
}

/// Parses a numeric-ID attribute value: a non-empty run of decimal digits
/// whose value fits in `u32`. Anything else yields `None`.
pub fn parse_u32(s: &str) -> (r: Option<u32>)
    ensures
        r == parse_u32_of(s@),
{
    let len = s.unicode_len();
    if len == 0 {
        return None;
    }
    let mut acc: u32 = 0;
    let mut i: usize = 0;
    while i < len
        invariant
            0 < len == s@.len(),
            0 <= i <= len,
            all_digits(s@.subrange(0, i as int)),
            acc == dec_value_of(s@.subrange(0, i as int)),
        decreases len - i,
    {
        let c = s.get_char(i);
        let d = digit_of(c);
        if d >= 10 {
            assert(!all_digits(s@));
            return None;
        }
        if acc > (u32::MAX - d) / 10 {
            proof {
                assert(s@.subrange(0, i + 1).drop_last() =~= s@.subrange(0, i as int));
                assert(dec_value_of(s@.subrange(0, i + 1)) > u32::MAX);
                lemma_dec_value_prefix(s@, i + 1);
            }
            return None;
        }
        proof {
            assert(s@.subrange(0, i + 1).drop_last() =~= s@.subrange(0, i as int));
        }
        acc = acc * 10 + d;
        i = i + 1;
    }
    proof {
        assert(s@.subrange(0, len as int) =~= s@);
    }
    Some(acc)
}

/// The canonical rendering consists of digits alone.
proof fn lemma_dec_string_all_digits(n: nat)
    ensures
        all_digits(dec_string_of(n)),
        dec_string_of(n).len() > 0,
    decreases n,
{
    if n >= 10 {
        lemma_dec_string_all_digits(n / 10);
    }
}

/// Reading back the character of a digit yields that digit.
proof fn lemma_digit_round(d: nat)
    requires
        d < 10,
    ensures
        digit_val(digit_char(d)) == d,
{
}

/// The digits of a number read back as that number.
proof fn lemma_dec_string_value(n: nat)
    ensures
        dec_value_of(dec_string_of(n)) == n,
    decreases n,
{
    if n < 10 {
        lemma_digit_round(n);
        let s = dec_string_of(n);
        assert(s.len() == 1);
        assert(s.last() == digit_char(n));
        assert(s.drop_last() =~= Seq::<char>::empty());
        assert(dec_value_of(Seq::<char>::empty()) == 0);
        assert(dec_value_of(s) == dec_value_of(s.drop_last()) * 10 + digit_val(s.last()));
        assert(dec_value_of(dec_string_of(n)) == n);
    } else {
        lemma_digit_round((n % 10) as nat);
        lemma_dec_string_value(n / 10);
        assert(dec_string_of(n).drop_last() =~= dec_string_of(n / 10));
        assert(dec_string_of(n).last() == digit_char(n % 10));
        assert(dec_value_of(dec_string_of(n)) == (n / 10) * 10 + n % 10);
        vstd::arithmetic::div_mod::lemma_fundamental_div_mod(n as int, 10);
    }
}

/// Rendering a numeric ID and parsing the text back yields the same ID:
/// an ID written into a directory attribute is read back unchanged.
pub proof fn lemma_dec_round_trip(n: u32)
    ensures
        parse_u32_of(dec_string_of(n as nat)) == Some(n),
{
    lemma_dec_string_all_digits(n as nat);
    lemma_dec_string_value(n as nat);
}

} // verus!
