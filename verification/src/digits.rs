//! Decimal encoding and parsing of counters.
//!
//! The state store keeps the per-key harvest sequence as a decimal digit
//! string, and unit labels and job identifiers embed sequence numbers and
//! timestamps the same way.  Both directions are verified against the spec
//! functions `dec_digits` and `dec_value`, together with the round-trip
//! lemma that saving and re-reading a counter preserves its value.

use vstd::prelude::*;

verus! {

/// Whether `b` is an ASCII decimal digit.
pub open spec fn is_ascii_digit(b: u8) -> bool {
    48 <= b <= 57
}

/// Whether every byte of `s` is an ASCII decimal digit.
pub open spec fn all_digits(s: Seq<u8>) -> bool {
    forall|i: int| 0 <= i < s.len() ==> is_ascii_digit(#[trigger] s[i])
}

/// The decimal digit string of `n`, most significant digit first, with no
/// leading zeros (`0` itself is written as the single digit `0`).
pub open spec fn dec_digits(n: nat) -> Seq<u8>
    decreases n,
{
    if n < 10 {
        seq![(48 + n) as u8]
    } else {
        dec_digits(n / 10).push((48 + n % 10) as u8)
    }
}

/// The numeric value of a digit string, read most significant digit first.
pub open spec fn dec_value(s: Seq<u8>) -> nat
    decreases s.len(),
{
    if s.len() == 0 {
        0
    } else {
        (dec_value(s.drop_last()) * 10 + (s.last() - 48)) as nat
    }
}

/// Writing a counter as digits and reading the digits back yields the
/// counter: `dec_digits` produces a nonempty all-digit string whose
/// `dec_value` is the counter itself.
pub proof fn lemma_dec_digits_value(n: nat)
    ensures
        dec_digits(n).len() >= 1,
        all_digits(dec_digits(n)),
        dec_value(dec_digits(n)) == n,
    decreases n,
{
    if n < 10 {
        let s = dec_digits(n);
        assert(s =~= seq![(48 + n) as u8]);
        assert(s.drop_last() =~= Seq::<u8>::empty());
        assert(dec_value(s.drop_last()) == 0);
        assert(dec_value(s) == (0 * 10 + (s.last() - 48)) as nat);
        assert(s.last() == (48 + n) as u8);
    } else {
        lemma_dec_digits_value(n / 10);
        let s = dec_digits(n);
        assert(s.drop_last() =~= dec_digits(n / 10));
        assert(s.last() == (48 + n % 10) as u8);
        assert(dec_value(s) == (dec_value(dec_digits(n / 10)) * 10 + (s.last() - 48)) as nat);
        assert(n == (n / 10) * 10 + n % 10) by (nonlinear_arith);
    }
}

/// Renders `n` as its decimal digit string.
pub fn u64_to_dec(n: u64) -> (r: Vec<u8>)
    ensures
        r@ == dec_digits(n as nat),
    decreases n,
{
    if n < 10 {
        let mut v: Vec<u8> = Vec::new();
        v.push(48 + (n as u8));
        proof {
            assert(v@ =~= dec_digits(n as nat));
        }
        v
    } else {
        let mut v = u64_to_dec(n / 10);
        v.push(48 + ((n % 10) as u8));
        proof {
            assert(v@ =~= dec_digits(n as nat));
        }
        v
    }
}

/// The value of an all-digit string never shrinks when more digits follow.
proof fn lemma_dec_value_prefix(s: Seq<u8>, i: int)
    requires
        0 <= i <= s.len(),
        all_digits(s),
    ensures
        dec_value(s.subrange(0, i)) <= dec_value(s),
    decreases s.len() - i,
{
    if i < s.len() {
        let t = s.subrange(0, i + 1);
        assert(t.drop_last() =~= s.subrange(0, i));
        assert(is_ascii_digit(s[i]));
        assert(t.last() == s[i]);
        assert(dec_value(t) == (dec_value(s.subrange(0, i)) * 10 + (t.last() - 48)) as nat);
        assert(dec_value(s.subrange(0, i)) <= dec_value(s.subrange(0, i)) * 10) by (nonlinear_arith);
        lemma_dec_value_prefix(s, i + 1);
        assert(s.subrange(0, s.len() as int) =~= s);
    } else {
        assert(s.subrange(0, i) =~= s);
    }
}

/// Parses a decimal digit string into a counter.  Returns `None` exactly
/// when the string is empty, holds a non-digit byte, or denotes a value
/// over `u64::MAX`.
pub fn parse_u64(s: &Vec<u8>) -> (r: Option<u64>)
    ensures
        r is Some <==> (s@.len() > 0 && all_digits(s@) && dec_value(s@) <= u64::MAX),
        r matches Some(v) ==> v == dec_value(s@),
{
    if s.len() == 0 {
        return None;
    }
    let mut acc: u64 = 0;
    let mut i: usize = 0;
    while i < s.len()
        invariant
            0 <= i <= s@.len(),
            s@.len() > 0,
            all_digits(s@.subrange(0, i as int)),
            acc == dec_value(s@.subrange(0, i as int)),
        decreases s@.len() - i,
    {
        let b = s[i];
        if b < 48 || b > 57 {
            assert(!is_ascii_digit(s@[i as int]));
            return None;
        }
        let d = b - 48;
        if acc > (u64::MAX - (d as u64)) / 10 {
            proof {
                let p = s@.subrange(0, i as int);
                let q = s@.subrange(0, i as int + 1);
                assert(q.drop_last() =~= p);
                assert(q.last() == b);
                assert(dec_value(q) == dec_value(p) * 10 + (b - 48));
                assert(dec_value(p) * 10 + (d as nat) > u64::MAX) by (nonlinear_arith)
                    requires
                        dec_value(p) > (u64::MAX - (d as u64)) / 10,
                        d < 10,
                {}
                if all_digits(s@) {
                    lemma_dec_value_prefix(s@, i as int + 1);
                    assert(dec_value(s@) > u64::MAX);
                }
            }
            return None;
        }
        proof {
            let p = s@.subrange(0, i as int);
            let q = s@.subrange(0, i as int + 1);
            assert(q.drop_last() =~= p);
            assert(q.last() == b);
            assert(acc * 10 + (d as u64) <= u64::MAX) by (nonlinear_arith)
                requires
                    acc <= (u64::MAX - (d as u64)) / 10,
                    d < 10,
            {}
        }
        acc = acc * 10 + (d as u64);
        i = i + 1;
    }
    proof {
        assert(s@.subrange(0, i as int) =~= s@);
    }
    Some(acc)
}

} // verus!
