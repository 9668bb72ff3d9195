//! Decimal rendering of integers and decimal parsing of signed 64-bit
//! values, both specified exactly over sequences of characters.

use vstd::prelude::*;
use vstd::string::*;
use vstd::arithmetic::div_mod::lemma_fundamental_div_mod;
use vstd::arithmetic::mul::lemma_mul_inequality;

verus! {

/// The character for one decimal digit value.
pub open spec fn dec_digit(d: int) -> char {
    if d == 0 {
        '0'
    } else if d == 1 {
        '1'
    } else if d == 2 {
        '2'
    } else if d == 3 {
        '3'
    } else if d == 4 {
        '4'
    } else if d == 5 {
        '5'
    } else if d == 6 {
        '6'
    } else if d == 7 {
        '7'
    } else if d == 8 {
        '8'
    } else {
        '9'
    }
}

/// Decimal digits of `n`, most significant first, without leading
/// zeros (zero itself is the single character `'0'`).
pub open spec fn spec_u64_digits(n: nat) -> Seq<char>
    decreases n,
{
    if n < 10 {
        seq![dec_digit(n as int)]
    } else {
        spec_u64_digits(n / 10) + seq![dec_digit((n % 10) as int)]
    }
}

/// Decimal rendering of a signed value: a leading minus sign for
/// negatives, then the digits of the magnitude.
pub open spec fn spec_i64_str(n: int) -> Seq<char> {
    if n < 0 {
        seq!['-'] + spec_u64_digits((-n) as nat)
    } else {
        spec_u64_digits(n as nat)
    }
}

/// The digit characters of `digits` read back to front.
pub open spec fn rev_digit_chars(digits: Seq<u64>) -> Seq<char> {
    Seq::new(digits.len(), |i: int| dec_digit(digits[digits.len() - 1 - i] as int))
}

fn digit_str(d: u64) -> (r: &'static str)
    requires
        d < 10,
    ensures
        r@ == seq![dec_digit(d as int)],
{
    let r: &'static str = if d == 0 {
        "0"
    } else if d == 1 {
        "1"
    } else if d == 2 {
        "2"
    } else if d == 3 {
        "3"
    } else if d == 4 {
        "4"
    } else if d == 5 {
        "5"
    } else if d == 6 {
        "6"
    } else if d == 7 {
        "7"
    } else if d == 8 {
        "8"
    } else {
        "9"
    };
    proof {
        reveal_strlit("0");
        reveal_strlit("1");
        reveal_strlit("2");
        reveal_strlit("3");
        reveal_strlit("4");
        reveal_strlit("5");
        reveal_strlit("6");
        reveal_strlit("7");
        reveal_strlit("8");
        reveal_strlit("9");
        assert(r@ =~= seq![dec_digit(d as int)]);
    }
    r
}

proof fn lemma_rev_push(digits: Seq<u64>, d: u64)
    ensures
        rev_digit_chars(digits.push(d)) =~= seq![dec_digit(d as int)] + rev_digit_chars(digits),
{
}

/// Renders an unsigned value in decimal.
pub fn u64_to_string(n: u64) -> (r: String)
    ensures
        r@ == spec_u64_digits(n as nat),
{
    let mut digits: Vec<u64> = Vec::new();
    let mut m: u64 = n;
    proof {
        assert(spec_u64_digits(n as nat) =~= spec_u64_digits(m as nat) + rev_digit_chars(
            digits@,
        ));
    }
    while m >= 10
        invariant
            spec_u64_digits(n as nat) == spec_u64_digits(m as nat) + rev_digit_chars(digits@),
            forall|i: int| 0 <= i < digits@.len() ==> digits@[i] < 10,
        decreases m,
    {
        let d: u64 = m % 10;
        proof {
            lemma_rev_push(digits@, d);
            assert(spec_u64_digits(m as nat) == spec_u64_digits((m / 10) as nat) + seq![
                dec_digit((m % 10) as int),
            ]);
            assert(spec_u64_digits((m / 10) as nat) + rev_digit_chars(digits@.push(d))
                =~= (spec_u64_digits((m / 10) as nat) + seq![dec_digit(d as int)])
                + rev_digit_chars(digits@));
        }
        digits.push(d);
        m = m / 10;
    }
    proof {
        lemma_rev_push(digits@, m);
        assert(spec_u64_digits(m as nat) == seq![dec_digit(m as int)]);
    }
    digits.push(m);
    let ghost all: Seq<char> = rev_digit_chars(digits@);
    proof {
        assert(spec_u64_digits(n as nat) =~= all);
    }
    let mut out: String = String::new();
    let len: usize = digits.len();
    let mut j: usize = 0;
    while j < len
        invariant
            len == digits@.len(),
            0 <= j <= len,
            forall|i: int| 0 <= i < digits@.len() ==> digits@[i] < 10,
            all == rev_digit_chars(digits@),
            out@ == all.subrange(0, j as int),
        decreases len - j,
    {
        let piece = digit_str(digits[len - 1 - j]);
        out.append(piece);
        proof {
            assert(out@ =~= all.subrange(0, j + 1 as int));
        }
        j = j + 1;
    }
    proof {
        assert(out@ =~= all);
    }
    out
}

/// Renders a signed value in decimal.
pub fn i64_to_string(n: i64) -> (r: String)
    ensures
        r@ == spec_i64_str(n as int),
{
    if n >= 0 {
        u64_to_string(n as u64)
    } else {
        let mag: u64 = if n == i64::MIN {
            9223372036854775808u64
        } else {
            (-n) as u64
        };
        proof {
            assert(mag as nat == (-(n as int)) as nat);
        }
        let mut out = String::from_str("-");
        let digits = u64_to_string(mag);
        out.append(digits.as_str());
        proof {
            reveal_strlit("-");
            assert(out@ =~= spec_i64_str(n as int));
        }
        out
    }
}

/// Whether `c` is an ASCII decimal digit.
pub open spec fn is_dec_digit(c: char) -> bool {
    48 <= c as int <= 57
}

/// The numeric value of an ASCII decimal digit character.
pub open spec fn digit_val(c: char) -> int {
    c as int - 48
}

/// Whether every character of `s` is an ASCII decimal digit.
pub open spec fn all_dec_digits(s: Seq<char>) -> bool {
    forall|i: int| 0 <= i < s.len() ==> is_dec_digit(s[i])
}

/// The value of a sequence of decimal digit characters, most
/// significant first.
pub open spec fn dec_value(s: Seq<char>) -> int
    decreases s.len(),
{
    if s.len() == 0 {
        0
    } else {
        dec_value(s.drop_last()) * 10 + digit_val(s.last())
    }
}

/// What parsing a signed 64-bit decimal integer accepts and yields: an
/// optional sign, then one or more digits, with the value within the
/// 64-bit signed range.
pub open spec fn spec_parse_i64(s: Seq<char>) -> Option<int> {
    let signed = s.len() > 0 && (s[0] == '-' || s[0] == '+');
    let body = if signed {
        s.subrange(1, s.len() as int)
    } else {
        s
    };
    let neg = s.len() > 0 && s[0] == '-';
    if body.len() > 0 && all_dec_digits(body) {
        let v = if neg {
            -dec_value(body)
        } else {
            dec_value(body)
        };
        if -9223372036854775808 <= v <= 9223372036854775807 {
            Some(v)
        } else {
            None
        }
    } else {
        None
    }
}

proof fn lemma_dec_value_nonneg(s: Seq<char>)
    requires
        all_dec_digits(s),
    ensures
        dec_value(s) >= 0,
    decreases s.len(),
{
    if s.len() > 0 {
        assert(all_dec_digits(s.drop_last()));
        lemma_dec_value_nonneg(s.drop_last());
        lemma_mul_inequality(0, dec_value(s.drop_last()), 10);
    }
}

proof fn lemma_dec_value_prefix(s: Seq<char>, i: int, j: int)
    requires
        all_dec_digits(s),
        0 <= i <= j <= s.len(),
    ensures
        dec_value(s.subrange(0, i)) <= dec_value(s.subrange(0, j)),
    decreases j - i,
{
    if i < j {
        lemma_dec_value_prefix(s, i, j - 1);
        let p = s.subrange(0, j - 1);
        let q = s.subrange(0, j);
        assert(q.drop_last() =~= p);
        assert(all_dec_digits(p));
        lemma_dec_value_nonneg(p);
        assert(dec_value(p) * 10 >= dec_value(p)) by (nonlinear_arith)
            requires
                dec_value(p) >= 0,
        ;
        assert(dec_value(q) == dec_value(p) * 10 + digit_val(s[j - 1]));
    }
}

/// Parses a signed 64-bit integer from decimal text, exactly when the
/// text is an optional sign followed by digits whose value fits.
pub fn parse_i64(s: &str) -> (r: Option<i64>)
    ensures
        match r {
            Some(v) => spec_parse_i64(s@) == Some(v as int),
            None => spec_parse_i64(s@) is None,
        },
{
    let len: usize = s.unicode_len();
    if len == 0 {
        return None;
    }
    let c0: char = s.get_char(0);
    let neg: bool = c0 == '-';
    let start: usize = if c0 == '-' || c0 == '+' {
        1
    } else {
        0
    };
    if start == len {
        proof {
            assert(s@.subrange(1, s@.len() as int).len() == 0);
        }
        return None;
    }
    let ghost body: Seq<char> = if start == 1 {
        s@.subrange(1, s@.len() as int)
    } else {
        s@
    };
    let limit: u64 = if neg {
        9223372036854775808u64
    } else {
        9223372036854775807u64
    };
    let mut acc: u64 = 0;
    let mut i: usize = start;
    proof {
        assert(body.subrange(0, 0) =~= Seq::<char>::empty());
    }
    while i < len
        invariant
            start <= i <= len,
            len == s@.len(),
            start == 0 || start == 1,
            start == 1 ==> (s@[0] == '-' || s@[0] == '+'),
            start == 0 ==> !(s@[0] == '-' || s@[0] == '+'),
            neg == (s@[0] == '-'),
            body == (if start == 1 {
                s@.subrange(1, s@.len() as int)
            } else {
                s@
            }),
            body.len() == len - start,
            limit == (if neg {
                9223372036854775808u64
            } else {
                9223372036854775807u64
            }),
            forall|j: int| 0 <= j < i - start ==> is_dec_digit(body[j]),
            acc as int == dec_value(body.subrange(0, i - start)),
            acc <= limit,
        decreases len - i,
    {
        let c: char = s.get_char(i);
        proof {
            assert(body[i - start] == s@[i as int]);
        }
        let code: u32 = c as u32;
        if code < 48 || code > 57 {
            proof {
                assert(!is_dec_digit(body[i - start]));
                assert(!all_dec_digits(body));
            }
            return None;
        }
        let dv: u64 = (code - 48) as u64;
        let ghost prefix = body.subrange(0, i - start);
        let ghost prefix1 = body.subrange(0, i + 1 - start);
        proof {
            assert(prefix1.drop_last() =~= prefix);
            assert(dec_value(prefix1) == dec_value(prefix) * 10 + digit_val(body[i - start]));
        }
        if acc > (limit - dv) / 10 {
            // The digits seen so far already overflow the 64-bit range,
            // and further digits can only increase the magnitude.
            proof {
                let q = (limit - dv) as int / 10;
                lemma_fundamental_div_mod((limit - dv) as int, 10);
                lemma_mul_inequality(q + 1, acc as int, 10);
                assert((acc as int) * 10 + dv as int > limit as int);
                assert(dec_value(prefix1) > limit as int);
                if all_dec_digits(body) {
                    lemma_dec_value_prefix(body, i + 1 - start, body.len() as int);
                    assert(body.subrange(0, body.len() as int) =~= body);
                    assert(dec_value(body) > limit as int);
                }
            }
            return None;
        }
        proof {
            let q = (limit - dv) as int / 10;
            lemma_fundamental_div_mod((limit - dv) as int, 10);
            lemma_mul_inequality(acc as int, q, 10);
            assert((acc as int) * 10 + dv as int <= limit as int);
        }
        acc = acc * 10 + dv;
        i = i + 1;
    }
    proof {
        assert(body.subrange(0, i - start) =~= body);
        assert(all_dec_digits(body));
        assert(acc as int == dec_value(body));
    }
    if neg {
        if acc == 9223372036854775808u64 {
            Some(i64::MIN)
        } else {
            Some(-(acc as i64))
        }
    } else {
        Some(acc as i64)
    }
}

} // verus!
