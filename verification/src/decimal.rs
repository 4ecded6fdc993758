//! Natural numbers as decimal text, the form in which a position in a data
//! source travels as a cursor.
//!
//! A number has exactly one text: its digits, most significant first,
//! without sign, blanks or leading zeros (zero is `0`). Reading accepts that
//! text and nothing else.

use crate::text::push_char;
use vstd::prelude::*;
use vstd::string::*;

verus! {

/// The character for the digit `d`.
pub open spec fn digit(d: nat) -> char {
    if d == 0 {
        '0'
    } else if d == 1 {
        '1'
    } else if d == 2 {
        '2'
    } else if d == 3 {
        '3'
    } else if d == 4 {
        '4'
    } else if d == 5 {
        '5'
    } else if d == 6 {
        '6'
    } else if d == 7 {
        '7'
    } else if d == 8 {
        '8'
    } else {
        '9'
    }
}

/// The decimal text of `n`.
pub open spec fn decimal(n: nat) -> Seq<char>
    decreases n,
{
    if n < 10 {
        seq![digit(n)]
    } else {
        decimal(n / 10).push(digit(n % 10))
    }
}

/// Whether `c` is one of the ten digits.
pub open spec fn is_digit(c: char) -> bool {
    '0' <= c <= '9'
}

/// A decimal text is not empty, holds digits only, and begins with `0` only
/// if it is the text of zero.
pub proof fn decimal_shape(n: nat)
    ensures
        decimal(n).len() >= 1,
        forall|i: int| 0 <= i < decimal(n).len() ==> is_digit(#[trigger] decimal(n)[i]),
        decimal(n)[0] == '0' <==> n == 0,
    decreases n,
{
    if n >= 10 {
        decimal_shape(n / 10);
    }
}

/// Two numbers with the same decimal text are the same number.
pub proof fn decimal_is_injective(a: nat, b: nat)
    requires
        decimal(a) == decimal(b),
    ensures
        a == b,
    decreases a,
{
    decimal_shape(a);
    decimal_shape(b);
    if a >= 10 && b >= 10 {
        assert(decimal(a).drop_last() =~= decimal(a / 10));
        assert(decimal(b).drop_last() =~= decimal(b / 10));
        decimal_is_injective(a / 10, b / 10);
        assert(decimal(a).last() == digit(a % 10));
        assert(decimal(b).last() == digit(b % 10));
    } else if a >= 10 {
        decimal_shape(a / 10);
        assert(decimal(a).len() >= 2);
    } else if b >= 10 {
        decimal_shape(b / 10);
        assert(decimal(b).len() >= 2);
    }
}

/// Writes `n` as decimal text.
pub fn to_decimal(n: u64) -> (text: String)
    ensures
        text@ == decimal(n as nat),
{
    let mut digits: Vec<u8> = Vec::new();
    let mut rest: u64 = n;
    while rest >= 10
        invariant
            forall|i: int| 0 <= i < digits@.len() ==> (#[trigger] digits@[i]) < 10,
            decimal(n as nat) == decimal(rest as nat) + Seq::new(
                digits@.len(),
                |i: int| digit(digits@[digits@.len() - 1 - i] as nat),
            ),
        decreases rest,
    {
        let ghost before = digits@;
        digits.push((rest % 10) as u8);
        proof {
            let low = Seq::new(
                before.len(),
                |i: int| digit(before[before.len() - 1 - i] as nat),
            );
            let now = Seq::new(
                digits@.len(),
                |i: int| digit(digits@[digits@.len() - 1 - i] as nat),
            );
            assert(now =~= seq![digit((rest % 10) as nat)] + low);
            assert(decimal(rest as nat) =~= decimal((rest / 10) as nat) + seq![
                digit((rest % 10) as nat),
            ]);
            assert(decimal((rest / 10) as nat) + now =~= decimal(rest as nat) + low);
        }
        rest = rest / 10;
    }
    digits.push(rest as u8);
    let mut text = String::new();
    let mut left: usize = digits.len();
    proof {
        assert(decimal(n as nat) =~= Seq::new(
            digits@.len(),
            |i: int| digit(digits@[digits@.len() - 1 - i] as nat),
        ));
    }
    while left > 0
        invariant
            left <= digits@.len(),
            forall|i: int| 0 <= i < digits@.len() ==> (#[trigger] digits@[i]) < 10,
            text@ == Seq::new(
                (digits@.len() - left) as nat,
                |i: int| digit(digits@[digits@.len() - 1 - i] as nat),
            ),
        decreases left,
    {
        left -= 1;
        let ghost before = text@;
        push_char(&mut text, digit_char(digits[left]));
        proof {
            assert(text@ =~= Seq::new(
                (digits@.len() - left) as nat,
                |i: int| digit(digits@[digits@.len() - 1 - i] as nat),
            ));
        }
    }
    text
}

/// The character for the digit `d`.
fn digit_char(d: u8) -> (c: char)
    requires
        d < 10,
    ensures
        c == digit(d as nat),
{
    if d == 0 {
        '0'
    } else if d == 1 {
        '1'
    } else if d == 2 {
        '2'
    } else if d == 3 {
        '3'
    } else if d == 4 {
        '4'
    } else if d == 5 {
        '5'
    } else if d == 6 {
        '6'
    } else if d == 7 {
        '7'
    } else if d == 8 {
        '8'
    } else {
        '9'
    }
}

/// Appending a digit to the text of a number other than zero gives the text
/// of ten times the number plus the digit.
pub proof fn decimal_grows(n: nat, d: nat)
    requires
        n > 0,
        d < 10,
    ensures
        decimal(n).push(digit(d)) == decimal(10 * n + d),
{
    assert((10 * n + d) / 10 == n && (10 * n + d) % 10 == d);
}

/// Reads decimal text. Gives the number whose text this is, and `None` for
/// every other text and for the text of a number above `u64::MAX`.
pub fn from_decimal(text: &str) -> (number: Option<u64>)
    ensures
        match number {
            Some(n) => text@ == decimal(n as nat),
            None => forall|n: nat| n <= u64::MAX ==> text@ != #[trigger] decimal(n),
        },
{
    broadcast use is_ascii_spec_bytes;

    let bytes = text.as_bytes();
    let len = bytes.len();
    if !text.is_ascii() || len == 0 {
        proof {
            assert forall|n: nat| text@ != #[trigger] decimal(n) by {
                decimal_shape(n);
                if text@ == decimal(n) {
                    assert(forall|i: int| 0 <= i < text@.len() ==> is_digit(#[trigger] text@[i]));
                }
            }
        }
        return None;
    }
    assert(bytes@ =~= Seq::new(text@.len(), |i: int| text@[i] as u8));
    if bytes[0] == 48 && len > 1 {
        proof {
            assert(text@[0] == '0');
            assert forall|n: nat| text@ != #[trigger] decimal(n) by {
                decimal_shape(n);
            }
        }
        return None;
    }
    let mut value: u64 = 0;
    let mut at: usize = 0;
    while at < len
        invariant
            at <= len,
            len == text@.len(),
            len > 0,
            bytes@ == Seq::new(text@.len(), |i: int| text@[i] as u8),
            is_ascii(text),
            text@[0] == '0' ==> len == 1,
            at > 0 ==> text@.take(at as int) == decimal(value as nat),
            at == 0 ==> value == 0,
        decreases len - at,
    {
        let byte = bytes[at];
        if byte < 48 || byte > 57 {
            proof {
                assert(!is_digit(text@[at as int]));
                assert forall|n: nat| text@ != #[trigger] decimal(n) by {
                    decimal_shape(n);
                }
            }
            return None;
        }
        let d: u64 = (byte - 48) as u64;
        proof {
            assert(text@[at as int] == digit(d as nat));
            assert(text@.take(at + 1) =~= text@.take(at as int).push(text@[at as int]));
            if at > 0 {
                decimal_shape(value as nat);
                assert(text@.take(at as int)[0] == text@[0]);
                decimal_grows(value as nat, d as nat);
            } else {
                assert(text@.take(1) =~= seq![digit(d as nat)]);
            }
        }
        let next = match value.checked_mul(10) {
            Some(tenfold) => tenfold.checked_add(d),
            None => None,
        };
        match next {
            Some(grown) => {
                value = grown;
            },
            None => {
                proof {
                    let prefix = (10 * value + d) as nat;
                    assert(text@.take(at + 1) == decimal(prefix));
                    assert forall|n: nat| n <= u64::MAX implies text@ != #[trigger] decimal(n) by {
                        if text@ == decimal(n) {
                            prefix_of_decimal(n, text@, at + 1, prefix);
                        }
                    }
                }
                return None;
            },
        }
        at += 1;
    }
    proof {
        assert(text@.take(len as int) =~= text@);
    }
    Some(value)
}

/// A number is at least as large as any number whose text is the beginning
/// of its text.
pub proof fn prefix_of_decimal(n: nat, text: Seq<char>, k: int, prefix: nat)
    requires
        text == decimal(n),
        0 < k <= text.len(),
        text.take(k) == decimal(prefix),
    ensures
        prefix <= n,
    decreases n,
{
    decimal_shape(n);
    decimal_shape(prefix);
    if k == text.len() {
        assert(text.take(k) =~= text);
        decimal_is_injective(n, prefix);
    } else {
        assert(n >= 10) by {
            if n < 10 {
                assert(text.len() == 1);
            }
        }
        assert(text.drop_last() =~= decimal(n / 10));
        assert(text.drop_last().take(k) =~= text.take(k));
        prefix_of_decimal(n / 10, text.drop_last(), k, prefix);
    }
}

} // verus!
