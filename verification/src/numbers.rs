//! Decimal reading and writing of integers: parsing header values and
//! printing path segments, both pinned to the usual decimal form.

use vstd::prelude::*;

verus! {

/// A decimal digit.
pub open spec fn spec_is_digit(c: char) -> bool {
    '0' <= c && c <= '9'
}

/// The value of one decimal digit.
pub open spec fn spec_digit_val(c: char) -> int {
    c as int - '0' as int
}

/// The value of a digit string, most significant first.
pub open spec fn spec_digits_val(s: Seq<char>) -> int
    decreases s.len(),
{
    if s.len() == 0 {
        0
    } else {
        spec_digits_val(s.drop_last()) * 10 + spec_digit_val(s.last())
    }
}

/// A non-empty string of decimal digits.
pub open spec fn spec_all_digits(s: Seq<char>) -> bool {
    s.len() > 0 && forall|i: int| 0 <= i < s.len() ==> spec_is_digit(#[trigger] s[i])
}

/// The digits of a decimal integer, the optional sign stripped.
pub open spec fn spec_int_body(s: Seq<char>) -> Seq<char> {
    if s.len() > 0 && (s[0] == '+' || s[0] == '-') {
        s.drop_first()
    } else {
        s
    }
}

/// Whether a decimal integer carries a minus sign.
pub open spec fn spec_int_negative(s: Seq<char>) -> bool {
    s.len() > 0 && s[0] == '-'
}

/// The signed value of a decimal integer string.
pub open spec fn spec_int_value(s: Seq<char>) -> int {
    if spec_int_negative(s) {
        -spec_digits_val(spec_int_body(s))
    } else {
        spec_digits_val(spec_int_body(s))
    }
}

/// Whether a string reads as an `i64`: an optional sign, then digits only,
/// with the value in range.
pub open spec fn spec_parses_as_i64(s: Seq<char>) -> bool {
    spec_all_digits(spec_int_body(s)) && i64::MIN <= spec_int_value(s) <= i64::MAX
}

/// The value of a digit string is never negative.
proof fn lemma_digits_val_nonneg(s: Seq<char>)
    requires
        forall|i: int| 0 <= i < s.len() ==> spec_is_digit(#[trigger] s[i]),
    ensures
        spec_digits_val(s) >= 0,
    decreases s.len(),
{
    if s.len() > 0 {
        assert forall|i: int| 0 <= i < s.drop_last().len() implies spec_is_digit(
            #[trigger] s.drop_last()[i],
        ) by {
            assert(s.drop_last()[i] == s[i]);
        }
        lemma_digits_val_nonneg(s.drop_last());
        assert(spec_is_digit(s.last()));
    }
}

/// Appending digits never shrinks the value of a digit string.
proof fn lemma_digits_val_prefix(s: Seq<char>, j: int)
    requires
        forall|i: int| 0 <= i < s.len() ==> spec_is_digit(#[trigger] s[i]),
        0 <= j <= s.len(),
    ensures
        spec_digits_val(s) >= spec_digits_val(s.take(j)),
    decreases s.len(),
{
    lemma_digits_val_nonneg(s.take(j));
    if j < s.len() {
        let rest = s.drop_last();
        assert forall|i: int| 0 <= i < rest.len() implies spec_is_digit(#[trigger] rest[i]) by {
            assert(rest[i] == s[i]);
        }
        lemma_digits_val_prefix(rest, j);
        assert(rest.take(j) =~= s.take(j));
        lemma_digits_val_nonneg(rest);
        assert(spec_is_digit(s.last()));
        assert(spec_digits_val(s) == spec_digits_val(rest) * 10 + spec_digit_val(s.last()));
        assert(spec_digits_val(rest) * 10 >= spec_digits_val(rest)) by {
            lemma_digits_val_nonneg(rest);
        }
    } else {
        assert(s.take(j) =~= s);
    }
}

/// Reads a decimal `i64` the way the standard library does: an optional
/// leading `+` or `-`, then at least one digit and nothing else, rejected
/// exactly when the form is wrong or the value does not fit.
pub fn parse_i64(s: &str) -> (r: Option<i64>)
    ensures
        r is Some <==> spec_parses_as_i64(s@),
        r matches Some(v) ==> v == spec_int_value(s@),
{
    let len = s.unicode_len();
    if len == 0 {
        return None;
    }
    let c0 = s.get_char(0);
    let neg = c0 == '-';
    let start: usize = if c0 == '-' || c0 == '+' {
        1
    } else {
        0
    };
    let ghost body = spec_int_body(s@);
    proof {
        assert(body =~= s@.subrange(start as int, len as int));
    }
    if start == len {
        return None;
    }
    let mut acc: i64 = 0;
    let mut i: usize = start;
    while i < len
        invariant
            start <= i <= len,
            len == s@.len(),
            start == 0 || start == 1,
            start == 1 ==> (s@[0] == '+' || s@[0] == '-'),
            start == 0 ==> !(s@[0] == '+' || s@[0] == '-'),
            neg == spec_int_negative(s@),
            body == spec_int_body(s@),
            body =~= s@.subrange(start as int, len as int),
            forall|t: int| start <= t < i ==> spec_is_digit(#[trigger] s@[t]),
            acc == -spec_digits_val(s@.subrange(start as int, i as int)),
            acc <= 0,
        decreases len - i,
    {
        let c = s.get_char(i);
        if !('0' <= c && c <= '9') {
            proof {
                assert(body[i - start] == s@[i as int]);
                assert(!spec_all_digits(body));
            }
            return None;
        }
        let d: i64 = (c as u32 as i64) - 48;
        let ghost prefix = s@.subrange(start as int, i as int);
        let ghost prefix1 = s@.subrange(start as int, i + 1);
        proof {
            assert(prefix1.drop_last() =~= prefix);
            assert(prefix1.last() == s@[i as int]);
            assert(spec_digits_val(prefix1) == spec_digits_val(prefix) * 10 + spec_digit_val(
                s@[i as int],
            ));
        }
        let step = match acc.checked_mul(10) {
            Some(a) => a.checked_sub(d),
            None => None,
        };
        match step {
            Some(next) => {
                acc = next;
            },
            None => {
                proof {
                    // The value read so far is already beyond every i64, and
                    // appending digits can only grow it.
                    assert(spec_digits_val(prefix1) > 9223372036854775808int);
                    if spec_all_digits(body) {
                        lemma_digits_val_prefix(body, i + 1 - start);
                        assert(body.take(i + 1 - start) =~= prefix1);
                        assert(spec_digits_val(body) > 9223372036854775808int);
                        assert(!(i64::MIN <= spec_int_value(s@) <= i64::MAX));
                    }
                }
                return None;
            },
        }
        i += 1;
    }
    proof {
        assert(s@.subrange(start as int, len as int) == body);
        assert(acc == -spec_digits_val(body));
        assert(spec_all_digits(body));
    }
    if neg {
        Some(acc)
    } else if acc == i64::MIN {
        proof {
            assert(spec_digits_val(body) == 9223372036854775808int);
            assert(spec_int_value(s@) > i64::MAX);
        }
        None
    } else {
        Some(-acc)
    }
}

/// The sixteen digits, decimal first.
pub open spec fn spec_hex_digit(d: int) -> char {
    seq!['0', '1', '2', '3', '4', '5', '6', '7', '8', '9', 'A', 'B', 'C', 'D', 'E', 'F'][d]
}

/// The canonical decimal form of a nonnegative value.
pub open spec fn spec_u64_dec(n: nat) -> Seq<char>
    decreases n,
{
    if n < 10 {
        seq![spec_hex_digit(n as int)]
    } else {
        spec_u64_dec(n / 10) + seq![spec_hex_digit((n % 10) as int)]
    }
}

/// The canonical decimal form of a signed value.
pub open spec fn spec_i64_dec(n: int) -> Seq<char> {
    if n < 0 {
        seq!['-'] + spec_u64_dec((-n) as nat)
    } else {
        spec_u64_dec(n as nat)
    }
}

fn digit_str(d: u64) -> (r: &'static str)
    requires
        d < 10,
    ensures
        r@.len() == 1,
        r@[0] == spec_hex_digit(d as int),
        spec_is_digit(r@[0]),
        spec_digit_val(r@[0]) == d,
{
    if d == 0 {
        proof {
            reveal_strlit("0");
        }
        "0"
    } else if d == 1 {
        proof {
            reveal_strlit("1");
        }
        "1"
    } else if d == 2 {
        proof {
            reveal_strlit("2");
        }
        "2"
    } else if d == 3 {
        proof {
            reveal_strlit("3");
        }
        "3"
    } else if d == 4 {
        proof {
            reveal_strlit("4");
        }
        "4"
    } else if d == 5 {
        proof {
            reveal_strlit("5");
        }
        "5"
    } else if d == 6 {
        proof {
            reveal_strlit("6");
        }
        "6"
    } else if d == 7 {
        proof {
            reveal_strlit("7");
        }
        "7"
    } else if d == 8 {
        proof {
            reveal_strlit("8");
        }
        "8"
    } else {
        proof {
            reveal_strlit("9");
        }
        "9"
    }
}

/// Writes a nonnegative value in decimal: digits only, no leading zero
/// except for zero itself.
pub fn u64_to_string(n: u64) -> (r: String)
    ensures
        r@ == spec_u64_dec(n as nat),
        spec_all_digits(r@),
        spec_digits_val(r@) == n,
        n > 0 ==> r@[0] != '0',
        n == 0 ==> r@.len() == 1,
    decreases n,
{
    if n < 10 {
        let s = String::from_str(digit_str(n));
        proof {
            assert(s@.drop_last() =~= Seq::<char>::empty());
            assert(spec_digits_val(s@.drop_last()) == 0);
            assert(spec_digits_val(s@) == spec_digit_val(s@[0]));
        }
        s
    } else {
        proof {
            assert(n / 10 < n && n / 10 >= 1) by (nonlinear_arith)
                requires
                    n >= 10,
            ;
        }
        let mut s = u64_to_string(n / 10);
        let ghost head = s@;
        s.append(digit_str(n % 10));
        proof {
            assert(s@.drop_last() =~= head);
            assert(s@.last() == spec_hex_digit((n % 10) as int));
            assert(spec_digits_val(s@) == spec_digits_val(head) * 10 + (n % 10));
            assert(n as int == (n as int / 10) * 10 + (n as int % 10)) by (nonlinear_arith);
            assert(s@[0] == head[0]);
            assert forall|i: int| 0 <= i < s@.len() implies spec_is_digit(#[trigger] s@[i]) by {
                if i < s@.len() - 1 {
                    assert(s@[i] == head[i]);
                }
            }
        }
        s
    }
}

/// Writes a signed value in decimal: a minus sign exactly when negative,
/// then the digits with no leading zero.
pub fn i64_to_string(n: i64) -> (r: String)
    ensures
        r@ == spec_i64_dec(n as int),
        spec_parses_as_i64(r@),
        spec_int_value(r@) == n,
        spec_int_negative(r@) <==> n < 0,
        spec_int_body(r@)[0] == '0' ==> spec_int_body(r@).len() == 1,
{
    if n >= 0 {
        let r = u64_to_string(n as u64);
        proof {
            assert(spec_int_body(r@) == r@);
            assert(r@[0] != '+' && r@[0] != '-');
        }
        r
    } else {
        let magnitude: u64 = ((-(n + 1)) as u64) + 1;
        proof {
            assert(magnitude == -(n as int));
        }
        let digits = u64_to_string(magnitude);
        let mut r = String::from_str("-");
        proof {
            reveal_strlit("-");
        }
        r.append(digits.as_str());
        proof {
            assert(r@[0] == '-');
            assert(r@.drop_first() =~= digits@);
            assert(spec_int_body(r@) == r@.drop_first());
            assert(spec_int_negative(r@));
        }
        r
    }
}

} // verus!
