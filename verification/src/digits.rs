//! Decimal numerals: parsing unsigned integers from text (for configuration
//! overrides) and rendering lengths as ASCII digit bytes (for HTTP headers).

use vstd::prelude::*;

verus! {

/// ASCII decimal digit.
pub open spec fn is_dec_digit(c: char) -> bool {
    48 <= c as int && c as int <= 57
}

/// Numeric value of one decimal digit character.
pub open spec fn digit_val(c: char) -> int {
    c as int - 48
}

/// Every character of the sequence is a decimal digit.
pub open spec fn all_dec_digits(s: Seq<char>) -> bool {
    forall|i: int| 0 <= i < s.len() ==> is_dec_digit(#[trigger] s[i])
}

/// Value of a digit sequence read as a base-ten numeral.
pub open spec fn dec_value(s: Seq<char>) -> int
    decreases s.len(),
{
    if s.len() == 0 {
        0
    } else {
        dec_value(s.drop_last()) * 10 + digit_val(s.last())
    }
}

/// What parsing an unsigned decimal numeral yields: after an optional leading
/// `+`, at least one character, all of them digits; anything else is rejected.
pub open spec fn spec_parse_decimal(s: Seq<char>) -> Option<int> {
    let digits = if s.len() > 0 && s[0] == '+' {
        s.drop_first()
    } else {
        s
    };
    if digits.len() > 0 && all_dec_digits(digits) {
        Some(dec_value(digits))
    } else {
        None
    }
}

/// Decimal parse into `u32`: a well-formed numeral whose value fits.
pub open spec fn spec_parse_u32(s: Seq<char>) -> Option<u32> {
    match spec_parse_decimal(s) {
        Some(v) => if v <= u32::MAX {
            Some(v as u32)
        } else {
            None
        },
        None => None,
    }
}

/// Decimal parse into `u16`: a well-formed numeral whose value fits.
pub open spec fn spec_parse_u16(s: Seq<char>) -> Option<u16> {
    match spec_parse_decimal(s) {
        Some(v) => if v <= u16::MAX {
            Some(v as u16)
        } else {
            None
        },
        None => None,
    }
}

/// A digit sequence's value is never negative.
pub proof fn lemma_dec_value_nonneg(s: Seq<char>)
    requires
        all_dec_digits(s),
    ensures
        dec_value(s) >= 0,
    decreases s.len(),
{
    if s.len() > 0 {
        assert(all_dec_digits(s.drop_last()));
        lemma_dec_value_nonneg(s.drop_last());
    }
}

/// A prefix of a digit sequence never has a larger value than the whole.
pub proof fn lemma_dec_value_prefix_le(s: Seq<char>, i: int)
    requires
        all_dec_digits(s),
        0 <= i <= s.len(),
    ensures
        dec_value(s.take(i)) <= dec_value(s),
    decreases s.len() - i,
{
    if i < s.len() {
        assert(s.take(i + 1).drop_last() =~= s.take(i));
        assert(s.take(i + 1).last() == s[i]);
        assert(all_dec_digits(s.take(i)));
        lemma_dec_value_nonneg(s.take(i));
        assert(dec_value(s.take(i + 1)) == dec_value(s.take(i)) * 10 + digit_val(s[i]));
        assert(dec_value(s.take(i)) * 10 >= dec_value(s.take(i))) by (nonlinear_arith)
            requires
                dec_value(s.take(i)) >= 0,
        ;
        lemma_dec_value_prefix_le(s, i + 1);
        assert(s.take(s.len() as int) =~= s);
    } else {
        assert(s.take(i) =~= s);
    }
}

/// Parse an unsigned decimal numeral into `u32`, exactly as the specification
/// says: optional `+`, then digits only, value within range.
pub fn parse_u32(s: &str) -> (r: Option<u32>)
    ensures
        r == spec_parse_u32(s@),
{
    let len = s.unicode_len();
    if len == 0 {
        return None;
    }
    let first = s.get_char(0);
    let start: usize = if first == '+' {
        1
    } else {
        0
    };
    let ghost digits = if s@[0] == '+' {
        s@.drop_first()
    } else {
        s@
    };
    proof {
        assert(digits.len() == len - start);
        assert(forall|k: int| 0 <= k < digits.len() ==> #[trigger] digits[k] == s@[k + start]);
    }
    if start >= len {
        // A lone sign has no digits.
        return None;
    }
    let mut acc: u32 = 0;
    let mut i: usize = start;
    proof {
        assert(digits.take(0) =~= Seq::<char>::empty());
    }
    while i < len
        invariant
            start <= i <= len,
            len == s@.len(),
            start == 1 ==> s@.len() > 0 && s@[0] == '+',
            start == 0 ==> !(s@.len() > 0 && s@[0] == '+'),
            start == 0 || start == 1,
            digits == (if s@.len() > 0 && s@[0] == '+' {
                s@.drop_first()
            } else {
                s@
            }),
            digits.len() == len - start,
            forall|k: int| 0 <= k < digits.len() ==> #[trigger] digits[k] == s@[k + start],
            all_dec_digits(digits.take(i - start)),
            acc as int == dec_value(digits.take(i - start)),
        decreases len - i,
    {
        let c = s.get_char(i);
        let cv = c as u32;
        if cv < 48 || cv > 57 {
            proof {
                assert(digits[i - start] == s@[i as int]);
                assert(!is_dec_digit(digits[i - start]));
            }
            return None;
        }
        let d: u32 = cv - 48;
        proof {
            assert(digits.take(i - start + 1).drop_last() =~= digits.take(i - start));
            assert(digits.take(i - start + 1).last() == digits[i - start]);
            assert(digits[i - start] == s@[i as int]);
            assert(is_dec_digit(digits[i - start]));
            assert(all_dec_digits(digits.take(i - start + 1)));
            assert(dec_value(digits.take(i - start + 1)) == acc as int * 10 + d as int);
        }
        if acc > (u32::MAX - d) / 10 {
            proof {
                assert(acc as int * 10 + d as int > u32::MAX) by (nonlinear_arith)
                    requires
                        acc as int > (u32::MAX as int - d as int) / 10,
                        0 <= d as int <= 9,
                        acc as int >= 0,
                ;
                if all_dec_digits(digits) {
                    lemma_dec_value_prefix_le(digits, i - start + 1);
                    assert(dec_value(digits) > u32::MAX);
                }
            }
            return None;
        }
        proof {
            assert(acc as int * 10 + d as int <= u32::MAX) by (nonlinear_arith)
                requires
                    acc as int <= (u32::MAX as int - d as int) / 10,
                    0 <= d as int <= 9,
                    acc as int >= 0,
            ;
        }
        acc = acc * 10 + d;
        i += 1;
    }
    proof {
        assert(digits.take(len - start) =~= digits);
        assert(digits.len() > 0);
    }
    Some(acc)
}

/// Parse an unsigned decimal numeral into `u16`.
pub fn parse_u16(s: &str) -> (r: Option<u16>)
    ensures
        r == spec_parse_u16(s@),
{
    proof {
        let digits = if s@.len() > 0 && s@[0] == '+' {
            s@.drop_first()
        } else {
            s@
        };
        if digits.len() > 0 && all_dec_digits(digits) {
            lemma_dec_value_nonneg(digits);
        }
    }
    match parse_u32(s) {
        Some(v) => {
            if v <= 65535 {
                Some(v as u16)
            } else {
                None
            }
        },
        None => {
            proof {
                match spec_parse_decimal(s@) {
                    Some(w) => {
                        assert(w > u32::MAX);
                    },
                    None => {},
                }
            }
            None
        },
    }
}

/// The ASCII digit bytes of `n` written in base ten, most significant first,
/// without leading zeros.
pub open spec fn spec_dec_bytes(n: nat) -> Seq<u8>
    decreases n,
{
    if n < 10 {
        seq![(48 + n) as u8]
    } else {
        spec_dec_bytes(n / 10).push((48 + n % 10) as u8)
    }
}

/// Render `n` as ASCII decimal digit bytes.
pub fn dec_bytes(n: usize) -> (v: Vec<u8>)
    ensures
        v@ == spec_dec_bytes(n as nat),
    decreases n,
{
    if n < 10 {
        let mut v: Vec<u8> = Vec::new();
        v.push(48 + n as u8);
        proof {
            assert(v@ =~= spec_dec_bytes(n as nat));
        }
        v
    } else {
        let mut v = dec_bytes(n / 10);
        v.push(48 + (n % 10) as u8);
        v
    }
}

} // verus!
