//! Decimal numbers in text: reading an unsigned 32-bit number, reading an
//! `x,y` position, and writing a number out.
use vstd::prelude::*;

verus! {

/// Why a position could not be read.
#[derive(Debug)]
pub enum PosError {
    /// The text does not hold exactly one comma.
    WrongPartCount,
    /// The part before the comma is not a number; it is carried here.
    InvalidX(String),
    /// The part after the comma is not a number; it is carried here.
    InvalidY(String),
}

pub open spec fn is_digit(c: char) -> bool {
    '0' <= c <= '9'
}

pub open spec fn all_digits(s: Seq<char>) -> bool {
    forall|i: int| 0 <= i < s.len() ==> is_digit(#[trigger] s[i])
}

pub open spec fn digit_value(c: char) -> nat {
    (c as int - '0' as int) as nat
}

/// The number that a run of decimal digits denotes.
pub open spec fn digits_value(s: Seq<char>) -> nat
    decreases s.len(),
{
    if s.len() == 0 {
        0
    } else {
        digits_value(s.drop_last()) * 10 + digit_value(s.last())
    }
}

/// The digits of an unsigned number's text: all but a leading `+`.
pub open spec fn unsigned_digits(s: Seq<char>) -> Seq<char> {
    if s.len() > 0 && s[0] == '+' {
        s.drop_first()
    } else {
        s
    }
}

/// The unsigned 32-bit number that `s` denotes, if any: an optional `+`,
/// then one or more decimal digits, of value at most `u32::MAX`.
pub open spec fn u32_of_text(s: Seq<char>) -> Option<u32> {
    let d = unsigned_digits(s);
    if d.len() > 0 && all_digits(d) && digits_value(d) <= u32::MAX {
        Some(digits_value(d) as u32)
    } else {
        None
    }
}

/// `s` holds a comma at `i` and no other.
pub open spec fn single_comma_at(s: Seq<char>, i: int) -> bool {
    &&& 0 <= i < s.len()
    &&& s[i] == ','
    &&& forall|j: int| 0 <= j < s.len() && j != i ==> s[j] != ','
}

/// The character that writes the decimal digit `d`.
pub open spec fn digit_char(d: nat) -> char {
    if d == 0 {
        '0'
    } else if d == 1 {
        '1'
    } else if d == 2 {
        '2'
    } else if d == 3 {
        '3'
    } else if d == 4 {
        '4'
    } else if d == 5 {
        '5'
    } else if d == 6 {
        '6'
    } else if d == 7 {
        '7'
    } else if d == 8 {
        '8'
    } else {
        '9'
    }
}

/// The decimal text of `n`, without leading zeros.
pub open spec fn decimal_text(n: nat) -> Seq<char>
    decreases n,
{
    if n < 10 {
        seq![digit_char(n)]
    } else {
        decimal_text(n / 10).push(digit_char(n % 10))
    }
}

/// Reads an unsigned 32-bit decimal number: an optional `+`, then digits
/// only, of value at most `u32::MAX`.
pub fn parse_u32(s: &str) -> (r: Option<u32>)
    ensures
        r == u32_of_text(s@),
{
    let n = s.unicode_len();
    let start: usize = if n > 0 && s.get_char(0) == '+' {
        1
    } else {
        0
    };
    let ghost d = unsigned_digits(s@);
    assert(d =~= s@.subrange(start as int, n as int));
    if start == n {
        return None;
    }
    let mut acc: u64 = 0;
    let mut over = false;
    let mut i: usize = start;
    while i < n
        invariant
            start <= i <= n,
            n == s@.len(),
            d == s@.subrange(start as int, n as int),
            d == unsigned_digits(s@),
            all_digits(s@.subrange(start as int, i as int)),
            !over ==> acc == digits_value(s@.subrange(start as int, i as int)) && acc <= u32::MAX,
            over ==> digits_value(s@.subrange(start as int, i as int)) > u32::MAX,
        decreases n - i,
    {
        let c = s.get_char(i);
        if !('0' <= c && c <= '9') {
            assert(!all_digits(d)) by {
                assert(d[i - start] == c);
            }
            return None;
        }
        let ghost prev = s@.subrange(start as int, i as int);
        let ghost next = s@.subrange(start as int, i + 1);
        assert(next.drop_last() =~= prev);
        assert(next.last() == c);
        assert(all_digits(next)) by {
            assert forall|k: int| 0 <= k < next.len() implies is_digit(#[trigger] next[k]) by {
                if k < prev.len() {
                    assert(next[k] == prev[k]);
                }
            }
        }
        if !over {
            let v: u64 = acc * 10 + (c as u64 - '0' as u64);
            if v > 0xffff_ffffu64 {
                over = true;
            } else {
                acc = v;
            }
        }
        i = i + 1;
    }
    assert(s@.subrange(start as int, n as int) == d);
    if over {
        None
    } else {
        Some(acc as u32)
    }
}

/// Reads a position written `x,y`, each part an unsigned 32-bit number.
pub fn parse_pos(s: &str) -> (r: Result<(u32, u32), PosError>)
    ensures
        r matches Err(PosError::WrongPartCount) <==> !exists|i: int| single_comma_at(s@, i),
        forall|i: int|
            single_comma_at(s@, i) ==> {
                let left = s@.subrange(0, i);
                let right = s@.subrange(i + 1, s@.len() as int);
                match (u32_of_text(left), u32_of_text(right)) {
                    (Some(x), Some(y)) => r matches Ok(p) && p == (x, y),
                    (None, _) => r matches Err(PosError::InvalidX(part)) && part@ == left,
                    (Some(_), None) => r matches Err(PosError::InvalidY(part)) && part@ == right,
                }
            },
{
    let n = s.unicode_len();
    let mut comma: Option<usize> = None;
    let mut i: usize = 0;
    while i < n
        invariant
            i <= n,
            n == s@.len(),
            comma is None ==> forall|j: int| 0 <= j < i ==> s@[j] != ',',
            comma matches Some(p) ==> p < i && s@[p as int] == ',' && forall|j: int|
                0 <= j < i && j != p ==> s@[j] != ',',
        decreases n - i,
    {
        if s.get_char(i) == ',' {
            if let Some(p) = comma {
                assert(!exists|c: int| single_comma_at(s@, c)) by {
                    assert forall|c: int| !single_comma_at(s@, c) by {
                        if single_comma_at(s@, c) {
                            if c == p {
                                assert(s@[i as int] == ',');
                            } else {
                                assert(s@[p as int] == ',');
                            }
                        }
                    }
                }
                return Err(PosError::WrongPartCount);
            }
            comma = Some(i);
        }
        i = i + 1;
    }
    match comma {
        None => {
            assert(!exists|c: int| single_comma_at(s@, c)) by {
                assert forall|c: int| !single_comma_at(s@, c) by {
                    if single_comma_at(s@, c) {
                        assert(s@[c] == ',');
                    }
                }
            }
            Err(PosError::WrongPartCount)
        },
        Some(p) => {
            assert(single_comma_at(s@, p as int));
            assert forall|c: int| single_comma_at(s@, c) implies c == p by {
                if c != p {
                    assert(s@[p as int] == ',');
                }
            }
            let left = s.substring_char(0, p);
            let right = s.substring_char(p + 1, n);
            match parse_u32(left) {
                None => Err(PosError::InvalidX(String::from_str(left))),
                Some(x) => match parse_u32(right) {
                    None => Err(PosError::InvalidY(String::from_str(right))),
                    Some(y) => Ok((x, y)),
                },
            }
        },
    }
}

/// Appends the character of decimal digit `d`.
fn push_digit(text: &mut String, d: u64)
    requires
        d < 10,
    ensures
        final(text)@ == old(text)@.push(digit_char(d as nat)),
{
    let piece: &str = if d == 0 {
        "0"
    } else if d == 1 {
        "1"
    } else if d == 2 {
        "2"
    } else if d == 3 {
        "3"
    } else if d == 4 {
        "4"
    } else if d == 5 {
        "5"
    } else if d == 6 {
        "6"
    } else if d == 7 {
        "7"
    } else if d == 8 {
        "8"
    } else {
        "9"
    };
    proof {
        reveal_strlit("0");
        reveal_strlit("1");
        reveal_strlit("2");
        reveal_strlit("3");
        reveal_strlit("4");
        reveal_strlit("5");
        reveal_strlit("6");
        reveal_strlit("7");
        reveal_strlit("8");
        reveal_strlit("9");
    }
    assert(piece@ =~= seq![digit_char(d as nat)]);
    text.append(piece);
}

/// Appends the decimal text of `n`.
pub fn push_decimal(text: &mut String, n: u64)
    ensures
        final(text)@ == old(text)@ + decimal_text(n as nat),
    decreases n,
{
    if n >= 10 {
        push_decimal(text, n / 10);
    }
    push_digit(text, n % 10);
    proof {
        if n >= 10 {
            assert(old(text)@ + decimal_text(n as nat) =~= old(text)@ + decimal_text((n / 10) as nat)
                + seq![digit_char((n % 10) as nat)]);
        } else {
            assert(old(text)@ + decimal_text(n as nat) =~= old(text)@.push(digit_char(n as nat)));
        }
    }
}

} // verus!
