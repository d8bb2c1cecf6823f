//! Parsing the externally supplied guild identifier.
//!
//! The identifier arrives as text; a malformed one is a fatal startup
//! condition, so the parse is exact: it succeeds precisely on non-empty
//! all-digit input whose value fits the identifier type.

use vstd::prelude::*;

verus! {

/// ASCII code of `0`.
pub const DIGIT_ZERO: u8 = 48;

/// ASCII code of `9`.
pub const DIGIT_NINE: u8 = 57;

/// Whether `b` is an ASCII decimal digit.
pub open spec fn is_digit(b: u8) -> bool {
    DIGIT_ZERO <= b <= DIGIT_NINE
}

/// Whether every byte of `s` is an ASCII decimal digit.
pub open spec fn all_digits(s: Seq<u8>) -> bool {
    forall|i: int| 0 <= i < s.len() ==> is_digit(#[trigger] s[i])
}

/// The number a digit string denotes, most significant digit first.
pub open spec fn decimal_value(s: Seq<u8>) -> int
    decreases s.len(),
{
    if s.len() == 0 {
        0
    } else {
        decimal_value(s.drop_last()) * 10 + (s.last() - DIGIT_ZERO)
    }
}

/// A digit string denotes a non-negative number.
proof fn lemma_decimal_value_nonneg(s: Seq<u8>)
    requires
        all_digits(s),
    ensures
        decimal_value(s) >= 0,
    decreases s.len(),
{
    if s.len() > 0 {
        assert(all_digits(s.drop_last()));
        lemma_decimal_value_nonneg(s.drop_last());
    }
}

/// Extending a digit string never shrinks its value: every prefix
/// denotes at most what the whole string denotes.
proof fn lemma_decimal_value_prefix_le(s: Seq<u8>, i: int)
    requires
        all_digits(s),
        0 <= i <= s.len(),
    ensures
        decimal_value(s.take(i)) <= decimal_value(s),
    decreases s.len() - i,
{
    if i < s.len() {
        let t = s.take(i + 1);
        assert(t.drop_last() =~= s.take(i));
        assert(all_digits(s.take(i)));
        lemma_decimal_value_nonneg(s.take(i));
        assert(decimal_value(t) == decimal_value(s.take(i)) * 10 + (s[i] - DIGIT_ZERO));
        assert(decimal_value(s.take(i)) * 10 >= decimal_value(s.take(i))) by {
            lemma_decimal_value_nonneg(s.take(i));
            assert(decimal_value(s.take(i)) * 10 == decimal_value(s.take(i)) + decimal_value(
                s.take(i),
            ) * 9);
            assert(decimal_value(s.take(i)) * 9 >= 0) by (nonlinear_arith)
                requires
                    decimal_value(s.take(i)) >= 0,
            ;
        }
        lemma_decimal_value_prefix_le(s, i + 1);
    } else {
        assert(s.take(i) =~= s);
    }
}

/// Parse a decimal identifier.  Returns the denoted value exactly when
/// the input is non-empty, holds only decimal digits, and denotes a
/// value that fits in the identifier type; returns nothing otherwise.
pub fn parse_decimal_id(s: &[u8]) -> (r: Option<u64>)
    ensures
        match r {
            Some(v) => {
                &&& s@.len() > 0
                &&& all_digits(s@)
                &&& decimal_value(s@) == v
            },
            None => {
                s@.len() > 0 && all_digits(s@) ==> decimal_value(s@) > u64::MAX
            },
        },
{
    let n = s.len();
    if n == 0 {
        return None;
    }
    let mut acc: u64 = 0;
    let mut i: usize = 0;
    while i < n
        invariant
            0 <= i <= n,
            n == s@.len(),
            all_digits(s@.take(i as int)),
            acc == decimal_value(s@.take(i as int)),
        decreases n - i,
    {
        let b = s[i];
        if b < DIGIT_ZERO || b > DIGIT_NINE {
            return None;
        }
        let d = b - DIGIT_ZERO;
        proof {
            assert(s@.take(i + 1).drop_last() =~= s@.take(i as int));
            assert(all_digits(s@.take(i + 1)));
        }
        // The largest value the accumulator may reach is u64::MAX, which
        // is 10 * 1844674407370955161 + 5.
        if acc > 1844674407370955161u64 || (acc == 1844674407370955161u64 && d > 5) {
            proof {
                assert(decimal_value(s@.take(i + 1)) > u64::MAX);
                if all_digits(s@) {
                    lemma_decimal_value_prefix_le(s@, i + 1);
                }
            }
            return None;
        }
        acc = acc * 10 + (d as u64);
        i = i + 1;
    }
    proof {
        assert(s@.take(n as int) =~= s@);
    }
    Some(acc)
}

} // verus!
