//! Decimal rendering and parsing of user identifiers.
//!
//! The session cookie carries a user identifier as its decimal string.
//! This module renders an `i32` to that canonical string and parses a
//! decimal string back, with exact contracts over the sequence of
//! characters.

use vstd::prelude::*;

verus! {

/// The decimal digit character for a value in `0..10`.
pub open spec fn digit_char(d: int) -> char {
    if d == 0 {
        '0'
    } else if d == 1 {
        '1'
    } else if d == 2 {
        '2'
    } else if d == 3 {
        '3'
    } else if d == 4 {
        '4'
    } else if d == 5 {
        '5'
    } else if d == 6 {
        '6'
    } else if d == 7 {
        '7'
    } else if d == 8 {
        '8'
    } else {
        '9'
    }
}

/// Whether `c` is a decimal digit character.
pub open spec fn is_digit(c: char) -> bool {
    ||| c == '0'
    ||| c == '1'
    ||| c == '2'
    ||| c == '3'
    ||| c == '4'
    ||| c == '5'
    ||| c == '6'
    ||| c == '7'
    ||| c == '8'
    ||| c == '9'
}

/// The numeric value of a digit character (unspecified for non-digits).
pub open spec fn digit_val(c: char) -> int {
    if c == '0' {
        0
    } else if c == '1' {
        1
    } else if c == '2' {
        2
    } else if c == '3' {
        3
    } else if c == '4' {
        4
    } else if c == '5' {
        5
    } else if c == '6' {
        6
    } else if c == '7' {
        7
    } else if c == '8' {
        8
    } else {
        9
    }
}

/// The canonical digit string of a nonnegative integer: no sign, no
/// leading zero except for zero itself.
pub open spec fn dec_digits(n: int) -> Seq<char>
    decreases n,
{
    if n < 10 {
        seq![digit_char(n)]
    } else {
        dec_digits(n / 10).push(digit_char(n % 10))
    }
}

/// The canonical decimal string of an integer: a minus sign for
/// negative values, then the magnitude's digits.
pub open spec fn int_repr(n: int) -> Seq<char> {
    if n < 0 {
        seq!['-'] + dec_digits(-n)
    } else {
        dec_digits(n)
    }
}

/// Every character of `s` is a decimal digit.
pub open spec fn all_digits(s: Seq<char>) -> bool {
    forall|i: int| 0 <= i < s.len() ==> is_digit(#[trigger] s[i])
}

/// The value of a digit string, most significant digit first.
pub open spec fn digits_val(s: Seq<char>) -> int
    decreases s.len(),
{
    if s.len() == 0 {
        0
    } else {
        10 * digits_val(s.drop_last()) + digit_val(s.last())
    }
}

/// A well-formed decimal integer string: an optional minus sign
/// followed by at least one digit.
pub open spec fn wf_int_str(s: Seq<char>) -> bool {
    if s.len() >= 1 && s[0] == '-' {
        s.len() >= 2 && all_digits(s.skip(1))
    } else {
        s.len() >= 1 && all_digits(s)
    }
}

/// The integer value of a well-formed decimal integer string.
pub open spec fn int_str_val(s: Seq<char>) -> int {
    if s.len() >= 1 && s[0] == '-' {
        -digits_val(s.skip(1))
    } else {
        digits_val(s)
    }
}

/// The digit value of `c`, or `None` for any other character.
pub fn digit_of(c: char) -> (r: Option<u8>)
    ensures
        r is Some <==> is_digit(c),
        r matches Some(d) ==> d == digit_val(c),
{
    match c {
        '0' => Some(0u8),
        '1' => Some(1u8),
        '2' => Some(2u8),
        '3' => Some(3u8),
        '4' => Some(4u8),
        '5' => Some(5u8),
        '6' => Some(6u8),
        '7' => Some(7u8),
        '8' => Some(8u8),
        '9' => Some(9u8),
        _ => None,
    }
}

/// The one-character string for a digit value.
fn digit_str(d: u8) -> (r: &'static str)
    requires
        d < 10,
    ensures
        r@ == seq![digit_char(d as int)],
{
    proof {
        reveal_strlit("0");
        reveal_strlit("1");
        reveal_strlit("2");
        reveal_strlit("3");
        reveal_strlit("4");
        reveal_strlit("5");
        reveal_strlit("6");
        reveal_strlit("7");
        reveal_strlit("8");
        reveal_strlit("9");
        assert("0"@ =~= seq!['0']);
        assert("1"@ =~= seq!['1']);
        assert("2"@ =~= seq!['2']);
        assert("3"@ =~= seq!['3']);
        assert("4"@ =~= seq!['4']);
        assert("5"@ =~= seq!['5']);
        assert("6"@ =~= seq!['6']);
        assert("7"@ =~= seq!['7']);
        assert("8"@ =~= seq!['8']);
        assert("9"@ =~= seq!['9']);
    }
    match d {
        0 => "0",
        1 => "1",
        2 => "2",
        3 => "3",
        4 => "4",
        5 => "5",
        6 => "6",
        7 => "7",
        8 => "8",
        _ => "9",
    }
}

/// Render a nonnegative integer as its canonical digit string.
pub fn render_u32(n: u32) -> (r: String)
    ensures
        r@ == dec_digits(n as int),
    decreases n,
{
    if n < 10 {
        String::from_str(digit_str(n as u8))
    } else {
        let prefix = render_u32(n / 10);
        let last = digit_str((n % 10) as u8);
        proof {
            assert(dec_digits(n as int) =~= dec_digits(n as int / 10) + seq![
                digit_char(n as int % 10),
            ]);
        }
        prefix.concat(last)
    }
}

/// Render an integer as its canonical decimal string.
pub fn render_i32(n: i32) -> (r: String)
    ensures
        r@ == int_repr(n as int),
{
    if n >= 0 {
        render_u32(n as u32)
    } else {
        let mag: u64 = (-(n as i64)) as u64;
        let body = render_u32(mag as u32);
        proof {
            reveal_strlit("-");
            assert("-"@ =~= seq!['-']);
        }
        String::from_str("-").concat(body.as_str())
    }
}

/// The value of a digit string is nonnegative.
proof fn lemma_digits_val_nonneg(s: Seq<char>)
    requires
        all_digits(s),
    ensures
        digits_val(s) >= 0,
    decreases s.len(),
{
    if s.len() > 0 {
        lemma_digits_val_nonneg(s.drop_last());
    }
}

/// Parse a decimal integer string: an optional minus sign, then one or
/// more digits. Returns the value exactly when the string is well
/// formed and the value fits in an `i32`.
pub fn parse_i32(s: &str) -> (r: Option<i32>)
    ensures
        r is Some <==> wf_int_str(s@) && i32::MIN <= int_str_val(s@) <= i32::MAX,
        r matches Some(v) ==> v as int == int_str_val(s@),
{
    let len: usize = s.unicode_len();
    if len == 0 {
        return None;
    }
    let neg = s.get_char(0) == '-';
    let start: usize = if neg {
        1
    } else {
        0
    };
    if start >= len {
        return None;
    }
    let ghost tail: Seq<char> = if neg {
        s@.skip(1)
    } else {
        s@
    };
    let cap: u64 = 0x8000_0000;
    let mut acc: u64 = 0;
    let mut overflowed = false;
    let mut i: usize = start;
    while i < len
        invariant
            start <= i <= len,
            len == s@.len(),
            start == if neg {
                1int
            } else {
                0int
            },
            neg ==> s@.len() >= 1 && s@[0] == '-',
            !neg ==> (s@.len() == 0 || s@[0] != '-'),
            tail == if neg {
                s@.skip(1)
            } else {
                s@
            },
            all_digits(tail.subrange(0, i - start)),
            !overflowed ==> acc == digits_val(tail.subrange(0, i - start)) && acc <= cap,
            overflowed ==> digits_val(tail.subrange(0, i - start)) > cap,
            cap == 0x8000_0000u64,
        decreases len - i,
    {
        let c = s.get_char(i);
        proof {
            assert(tail[i - start] == s@[i as int]);
        }
        match digit_of(c) {
            None => {
                proof {
                    assert(!all_digits(tail) && !wf_int_str(s@)) by {
                        assert(tail[i - start] == s@[i as int]);
                        assert(!is_digit(tail[i - start]));
                    }
                }
                return None;
            },
            Some(d) => {
                proof {
                    assert(tail.subrange(0, i - start + 1).drop_last() =~= tail.subrange(
                        0,
                        i - start,
                    ));
                    assert(tail.subrange(0, i - start + 1).last() == tail[i - start]);
                }
                if overflowed {
                    proof {
                        lemma_digits_val_nonneg(tail.subrange(0, i - start));
                    }
                } else {
                    let next: u64 = acc * 10 + (d as u64);
                    if next > cap {
                        overflowed = true;
                    } else {
                        acc = next;
                    }
                }
                i += 1;
            },
        }
    }
    proof {
        assert(tail.subrange(0, i - start) =~= tail);
    }
    if overflowed {
        proof {
            if wf_int_str(s@) {
                assert(digits_val(tail) > cap);
            }
        }
        return None;
    }
    if neg {
        let v: i64 = -(acc as i64);
        Some(v as i32)
    } else {
        if acc == cap {
            return None;
        }
        Some(acc as i32)
    }
}

/// The canonical decimal string of any integer is well formed and
/// parses back to that integer.
pub proof fn lemma_digits_val_of_dec_digits(n: int)
    requires
        n >= 0,
    ensures
        all_digits(dec_digits(n)),
        dec_digits(n).len() >= 1,
        digits_val(dec_digits(n)) == n,
    decreases n,
{
    if n < 10 {
        assert(dec_digits(n) =~= seq![digit_char(n)]);
        assert(dec_digits(n).drop_last() =~= Seq::<char>::empty());
        assert(digits_val(Seq::<char>::empty()) == 0);
        assert(digit_val(digit_char(n)) == n);
        assert(digits_val(dec_digits(n)) == 10 * digits_val(dec_digits(n).drop_last()) + digit_val(
            dec_digits(n).last(),
        ));
    } else {
        lemma_digits_val_of_dec_digits(n / 10);
        assert(dec_digits(n).drop_last() =~= dec_digits(n / 10));
        assert(dec_digits(n).last() == digit_char(n % 10));
    }
}

/// Rendering is left inverse to parsing: the canonical decimal string
/// of `n` is well formed and its value is `n`.
pub proof fn lemma_int_repr_parses(n: int)
    ensures
        wf_int_str(int_repr(n)),
        int_str_val(int_repr(n)) == n,
{
    if n < 0 {
        lemma_digits_val_of_dec_digits(-n);
        assert(int_repr(n)[0] == '-');
        assert(int_repr(n).skip(1) =~= dec_digits(-n));
    } else {
        lemma_digits_val_of_dec_digits(n);
        assert(is_digit(int_repr(n)[0]));
        assert(int_repr(n)[0] != '-');
    }
}

} // verus!
