//! Decimal rendering and parsing of pin indices, and character search in
//! strings: the small text facilities the request pipeline is built on.
use vstd::prelude::*;

verus! {

/// The one-character text of a decimal digit.
pub open spec fn digit_lit(d: int) -> Seq<char> {
    if d == 0 {
        "0"@
    } else if d == 1 {
        "1"@
    } else if d == 2 {
        "2"@
    } else if d == 3 {
        "3"@
    } else if d == 4 {
        "4"@
    } else if d == 5 {
        "5"@
    } else if d == 6 {
        "6"@
    } else if d == 7 {
        "7"@
    } else if d == 8 {
        "8"@
    } else {
        "9"@
    }
}

/// The decimal text of a natural number, most significant digit first.
pub open spec fn dec_str(n: nat) -> Seq<char>
    decreases n,
{
    if n < 10 {
        digit_lit(n as int)
    } else {
        dec_str(n / 10) + digit_lit((n % 10) as int)
    }
}

fn digit_str(d: u8) -> (r: &'static str)
    requires
        d < 10,
    ensures
        r@ == digit_lit(d as int),
{
    if d == 0 {
        "0"
    } else if d == 1 {
        "1"
    } else if d == 2 {
        "2"
    } else if d == 3 {
        "3"
    } else if d == 4 {
        "4"
    } else if d == 5 {
        "5"
    } else if d == 6 {
        "6"
    } else if d == 7 {
        "7"
    } else if d == 8 {
        "8"
    } else {
        "9"
    }
}

/// Renders a pin index as decimal text.
pub fn u8_to_string(n: u8) -> (r: String)
    ensures
        r@ == dec_str(n as nat),
{
    proof {
        reveal_with_fuel(dec_str, 4);
    }
    if n < 10 {
        String::from_str(digit_str(n))
    } else if n < 100 {
        let mut s = String::from_str(digit_str(n / 10));
        s.append(digit_str(n % 10));
        s
    } else {
        proof {
            assert((n as int) / 10 / 10 == (n as int) / 100) by (nonlinear_arith);
        }
        let mut s = String::from_str(digit_str(n / 100));
        s.append(digit_str((n / 10) % 10));
        s.append(digit_str(n % 10));
        s
    }
}

/// The numeric value of a decimal digit character, or -1 for any other character.
pub open spec fn digit_val(c: char) -> int {
    if c == '0' {
        0
    } else if c == '1' {
        1
    } else if c == '2' {
        2
    } else if c == '3' {
        3
    } else if c == '4' {
        4
    } else if c == '5' {
        5
    } else if c == '6' {
        6
    } else if c == '7' {
        7
    } else if c == '8' {
        8
    } else if c == '9' {
        9
    } else {
        -1
    }
}

pub open spec fn is_digit(c: char) -> bool {
    digit_val(c) >= 0
}

pub open spec fn all_digits(s: Seq<char>) -> bool {
    forall|i: int| 0 <= i < s.len() ==> is_digit(#[trigger] s[i])
}

/// The value of a sequence of decimal digits, most significant first.
pub open spec fn num_val(s: Seq<char>) -> int
    decreases s.len(),
{
    if s.len() == 0 {
        0
    } else {
        num_val(s.drop_last()) * 10 + digit_val(s.last())
    }
}

/// What it means for text to parse as a pin index: one or more decimal
/// digits whose value fits in a u8. Anything else is rejected.
pub open spec fn spec_parse_u8(s: Seq<char>) -> Option<u8> {
    if s.len() > 0 && all_digits(s) && num_val(s) <= 255 {
        Some(num_val(s) as u8)
    } else {
        None
    }
}

fn digit_of(c: char) -> (d: i32)
    ensures
        d == digit_val(c),
{
    if c == '0' {
        0
    } else if c == '1' {
        1
    } else if c == '2' {
        2
    } else if c == '3' {
        3
    } else if c == '4' {
        4
    } else if c == '5' {
        5
    } else if c == '6' {
        6
    } else if c == '7' {
        7
    } else if c == '8' {
        8
    } else if c == '9' {
        9
    } else {
        -1
    }
}

/// Parses text as a pin index, exactly as `spec_parse_u8` describes.
pub fn parse_u8_str(s: &str) -> (r: Option<u8>)
    ensures
        r == spec_parse_u8(s@),
{
    let len = s.unicode_len();
    if len == 0 {
        return None;
    }
    let mut acc: u32 = 0;
    let mut i: usize = 0;
    while i < len
        invariant
            0 < len == s@.len(),
            0 <= i <= len,
            all_digits(s@.take(i as int)),
            acc <= 256,
            (acc <= 255 && acc == num_val(s@.take(i as int))) || (acc == 256 && num_val(
                s@.take(i as int),
            ) > 255),
        decreases len - i,
    {
        let c = s.get_char(i);
        let d = digit_of(c);
        proof {
            assert(s@.take(i + 1).drop_last() =~= s@.take(i as int));
            assert(s@.take(i + 1).last() == s@[i as int]);
        }
        if d < 0 {
            proof {
                assert(!is_digit(s@[i as int]));
                assert(!all_digits(s@));
            }
            return None;
        }
        proof {
            assert(num_val(s@.take(i + 1)) == num_val(s@.take(i as int)) * 10 + digit_val(
                s@[i as int],
            ));
        }
        let step: u32 = acc * 10 + (d as u32);
        if step > 255 {
            acc = 256;
        } else {
            acc = step;
        }
        i = i + 1;
    }
    proof {
        assert(s@.take(len as int) =~= s@);
    }
    if acc <= 255 {
        Some(acc as u8)
    } else {
        None
    }
}

/// The position of the first occurrence of `c` in `s` at or after `p`,
/// or -1 when there is none.
pub open spec fn find_char_from(s: Seq<char>, c: char, p: int) -> int
    decreases s.len() - p,
{
    if p < 0 || p >= s.len() {
        -1
    } else if s[p] == c {
        p
    } else {
        find_char_from(s, c, p + 1)
    }
}

pub proof fn lemma_find_char_from(s: Seq<char>, c: char, p: int)
    requires
        0 <= p <= s.len(),
    ensures
        find_char_from(s, c, p) == -1 || p <= find_char_from(s, c, p) < s.len(),
        find_char_from(s, c, p) == -1 ==> forall|k: int| p <= k < s.len() ==> s[k] != c,
        find_char_from(s, c, p) >= 0 ==> p <= find_char_from(s, c, p) < s.len() && s[find_char_from(
            s,
            c,
            p,
        )] == c && forall|k: int| p <= k < find_char_from(s, c, p) ==> s[k] != c,
    decreases s.len() - p,
{
    if p < s.len() && s[p] != c {
        lemma_find_char_from(s, c, p + 1);
    }
}

/// Scans `s` for `c`, starting at index `from`.
pub fn find_char_str(s: &str, from: usize, c: char) -> (r: Option<usize>)
    requires
        from <= s@.len(),
    ensures
        match r {
            Some(j) => from <= j < s@.len() && s@[j as int] == c && find_char_from(
                s@,
                c,
                from as int,
            ) == j,
            None => find_char_from(s@, c, from as int) == -1,
        },
{
    let len = s.unicode_len();
    let mut i: usize = from;
    while i < len
        invariant
            from <= i <= len == s@.len(),
            forall|k: int| from <= k < i ==> s@[k] != c,
        decreases len - i,
    {
        if s.get_char(i) == c {
            proof {
                lemma_find_char_from(s@, c, from as int);
                let j = find_char_from(s@, c, from as int);
                if j == -1 {
                    assert(s@[i as int] == c);
                    assert(false);
                } else if j < i {
                    assert(s@[j] != c);
                    assert(false);
                } else if j > i {
                    assert(s@[i as int] != c);
                    assert(false);
                }
            }
            return Some(i);
        }
        i = i + 1;
    }
    proof {
        lemma_find_char_from(s@, c, from as int);
    }
    None
}

} // verus!
