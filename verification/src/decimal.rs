//! Decimal text: the number fields of a structural dump line (key length,
//! algorithm id, expiration epoch) as strings of ASCII digits.

use vstd::prelude::*;
use vstd::arithmetic::div_mod::lemma_fundamental_div_mod;

verus! {

/// Every byte of `s` is an ASCII digit.
pub open spec fn is_digits(s: Seq<u8>) -> bool {
    forall|i: int| 0 <= i < s.len() ==> 48 <= #[trigger] s[i] <= 57
}

/// The integer a digit string denotes, most significant digit first.
pub open spec fn dec_value(s: Seq<u8>) -> int
    decreases s.len(),
{
    if s.len() == 0 {
        0
    } else {
        dec_value(s.drop_last()) * 10 + (s.last() - 48)
    }
}

/// The digit string of `n`, without leading zeros.
pub open spec fn dec_digits(n: nat) -> Seq<u8>
    decreases n,
{
    if n < 10 {
        seq![(48 + n) as u8]
    } else {
        dec_digits(n / 10).push((48 + n % 10) as u8)
    }
}

/// What a number field of a dump line means: a nonempty all-digit field
/// denoting a value that fits in 64 bits, or nothing.
pub open spec fn dec_opt(s: Seq<u8>) -> Option<u64> {
    if s.len() > 0 && is_digits(s) && dec_value(s) <= u64::MAX {
        Some(dec_value(s) as u64)
    } else {
        None
    }
}

/// A digit string denotes a nonnegative value.
pub proof fn lemma_dec_value_nonneg(s: Seq<u8>)
    requires
        is_digits(s),
    ensures
        dec_value(s) >= 0,
    decreases s.len(),
{
    if s.len() > 0 {
        assert(is_digits(s.drop_last()));
        lemma_dec_value_nonneg(s.drop_last());
    }
}

/// A prefix of a digit string denotes no more than the whole string.
pub proof fn lemma_dec_value_prefix(s: Seq<u8>, i: int)
    requires
        is_digits(s),
        0 <= i <= s.len(),
    ensures
        dec_value(s.take(i)) <= dec_value(s),
    decreases s.len() - i,
{
    if i < s.len() {
        assert(s.take(i + 1).drop_last() =~= s.take(i));
        assert(s.take(i + 1).last() == s[i]);
        assert(is_digits(s.take(i)));
        lemma_dec_value_nonneg(s.take(i));
        assert(dec_value(s.take(i + 1)) == dec_value(s.take(i)) * 10 + (s[i] - 48));
        assert(dec_value(s.take(i)) * 10 >= dec_value(s.take(i)));
        lemma_dec_value_prefix(s, i + 1);
    } else {
        assert(s.take(i) =~= s);
    }
}

/// The digits of `n` are digits, and there is at least one of them.
pub proof fn lemma_dec_digits_are_digits(n: nat)
    ensures
        is_digits(dec_digits(n)),
        dec_digits(n).len() >= 1,
    decreases n,
{
    if n < 10 {
    } else {
        assert(0 <= n % 10 < 10) by (nonlinear_arith);
        lemma_dec_digits_are_digits(n / 10);
    }
}

/// Reading back the digit string of `n` yields `n`.
pub proof fn lemma_dec_round_trip(n: nat)
    ensures
        dec_value(dec_digits(n)) == n,
    decreases n,
{
    if n < 10 {
        let dd = dec_digits(n);
        assert(dd == seq![(48 + n) as u8]);
        assert(dd.drop_last() =~= Seq::<u8>::empty());
        assert((48 + n) as u8 == 48 + n);
        assert(dec_value(dd) == dec_value(Seq::<u8>::empty()) * 10 + (dd.last() - 48));
    } else {
        assert(0 <= n % 10 < 10) by (nonlinear_arith);
        let d = dec_digits(n / 10);
        let x = (48 + n % 10) as u8;
        let dd = dec_digits(n);
        assert(dd == d.push(x));
        assert(dd.drop_last() =~= d);
        assert(dd.last() == x);
        assert(x == 48 + n % 10);
        assert(dec_value(dd) == dec_value(d) * 10 + (x - 48));
        lemma_dec_round_trip(n / 10);
        lemma_fundamental_div_mod(n as int, 10);
    }
}

/// A 64-bit value round-trips through its number field.
pub proof fn lemma_dec_opt_round_trip(n: u64)
    ensures
        dec_opt(dec_digits(n as nat)) == Some(n),
{
    lemma_dec_digits_are_digits(n as nat);
    lemma_dec_round_trip(n as nat);
}

/// Parse a number field: `Some` exactly when the field is nonempty, all
/// digits, and denotes a value that fits in 64 bits.
pub fn parse_u64(s: &[u8]) -> (r: Option<u64>)
    ensures
        r == dec_opt(s@),
{
    let n = s.len();
    if n == 0 {
        return None;
    }
    let mut acc: u64 = 0;
    let mut i: usize = 0;
    proof {
        assert(s@.take(0) =~= Seq::<u8>::empty());
    }
    while i < n
        invariant
            0 <= i <= n,
            n == s@.len(),
            is_digits(s@.take(i as int)),
            acc == dec_value(s@.take(i as int)),
        decreases n - i,
    {
        let b = s[i];
        proof {
            assert(s@.take(i as int + 1).drop_last() =~= s@.take(i as int));
            assert(s@.take(i as int + 1).last() == s@[i as int]);
        }
        if b < 48 || b > 57 {
            proof {
                assert(!is_digits(s@));
            }
            return None;
        }
        let d: u64 = (b - 48) as u64;
        if acc > (u64::MAX - d) / 10 {
            proof {
                lemma_fundamental_div_mod((u64::MAX - d) as int, 10);
                assert(acc * 10 >= ((u64::MAX - d) / 10 + 1) * 10);
                assert(dec_value(s@.take(i as int + 1)) > u64::MAX);
                assert(is_digits(s@.take(i as int + 1)));
                if is_digits(s@) {
                    lemma_dec_value_prefix(s@, i as int + 1);
                }
            }
            return None;
        }
        proof {
            assert(acc * 10 + d <= u64::MAX) by {
                lemma_fundamental_div_mod((u64::MAX - d) as int, 10);
                assert(acc <= (u64::MAX - d) / 10);
                assert(acc * 10 <= ((u64::MAX - d) / 10) * 10);
            }
        }
        acc = acc * 10 + d;
        i = i + 1;
    }
    proof {
        assert(s@.take(n as int) =~= s@);
        lemma_dec_value_nonneg(s@);
    }
    Some(acc)
}

/// The digit string of `n`, most significant digit first.
pub fn format_u64(n: u64) -> (r: Vec<u8>)
    ensures
        r@ == dec_digits(n as nat),
    decreases n,
{
    if n < 10 {
        let mut v: Vec<u8> = Vec::new();
        v.push(48 + n as u8);
        proof {
            assert(v@ =~= dec_digits(n as nat));
        }
        v
    } else {
        proof {
            assert(n / 10 < n) by (nonlinear_arith)
                requires
                    n >= 10,
            ;
            assert(0 <= n % 10 < 10) by (nonlinear_arith);
        }
        let mut v = format_u64(n / 10);
        v.push(48 + (n % 10) as u8);
        proof {
            assert(v@ =~= dec_digits(n as nat));
        }
        v
    }
}

} // verus!
