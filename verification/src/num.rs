//! Decimal number text: writing a machine integer as digits and reading
//! digits back as a machine integer.

use vstd::prelude::*;

verus! {

/// The decimal digits of `n`, most significant first.
pub open spec fn dec_of(n: nat) -> Seq<u8>
    decreases n,
{
    if n < 10 {
        seq![(48 + n) as u8]
    } else {
        dec_of(n / 10).push((48 + n % 10) as u8)
    }
}

/// Writes `n` as decimal digit bytes.
pub fn u64_to_dec(n: u64) -> (r: Vec<u8>)
    ensures
        r@ == dec_of(n as nat),
    decreases n,
{
    if n < 10 {
        let mut out: Vec<u8> = Vec::new();
        out.push(48 + (n as u8));
        assert(out@ =~= dec_of(n as nat));
        out
    } else {
        let mut out = u64_to_dec(n / 10);
        out.push(48 + ((n % 10) as u8));
        assert(out@ =~= dec_of(n as nat));
        out
    }
}

/// True when `s` is a non-empty run of decimal digits.
pub open spec fn is_digits(s: Seq<u8>) -> bool {
    s.len() > 0 && forall|i: int| 0 <= i < s.len() ==> 48 <= #[trigger] s[i] <= 57
}

/// The value of a digit run.
pub open spec fn dec_val(s: Seq<u8>) -> nat
    decreases s.len(),
{
    if s.len() == 0 {
        0
    } else {
        dec_val(s.drop_last()) * 10 + (if s.last() >= 48 {
            (s.last() - 48) as nat
        } else {
            0
        })
    }
}

/// A longer digit run never has a smaller value.
proof fn lemma_dec_val_prefix(s: Seq<u8>, j: int)
    requires
        0 <= j <= s.len(),
    ensures
        dec_val(s.take(j)) <= dec_val(s),
    decreases s.len() - j,
{
    if j < s.len() {
        lemma_dec_val_prefix(s, j + 1);
        assert(s.take(j + 1).drop_last() =~= s.take(j));
        assert(s.take(j + 1).last() == s[j]);
        assert(dec_val(s.take(j)) <= dec_val(s.take(j + 1)));
    } else {
        assert(s.take(j) =~= s);
    }
}

/// Reads a digit run as a `u64`. Succeeds exactly on non-empty all-digit
/// texts whose value fits.
pub fn parse_u64(s: &Vec<u8>) -> (r: Option<u64>)
    ensures
        match r {
            Some(n) => is_digits(s@) && n == dec_val(s@),
            None => !is_digits(s@) || dec_val(s@) > u64::MAX,
        },
{
    if s.len() == 0 {
        return None;
    }
    let mut n: u64 = 0;
    let mut i: usize = 0;
    let len = s.len();
    while i < len
        invariant
            0 <= i <= len == s@.len(),
            n == dec_val(s@.take(i as int)),
            forall|j: int| 0 <= j < i ==> 48 <= #[trigger] s@[j] <= 57,
        decreases len - i,
    {
        let c = s[i];
        if c < 48 || c > 57 {
            assert(!is_digits(s@));
            return None;
        }
        let d = (c - 48) as u64;
        if n > (u64::MAX - d) / 10 {
            proof {
                assert(s@.take(i + 1).drop_last() =~= s@.take(i as int));
                assert(s@.take(i + 1).last() == s@[i as int]);
                assert(dec_val(s@.take(i + 1)) == n * 10 + d);
                assert(n * 10 + d > u64::MAX) by (nonlinear_arith)
                    requires
                        n > (u64::MAX - d) / 10,
                        d <= 9,
                ;
                lemma_dec_val_prefix(s@, i + 1);
            }
            return None;
        }
        proof {
            assert(s@.take(i + 1).drop_last() =~= s@.take(i as int));
            assert(s@.take(i + 1).last() == s@[i as int]);
            assert(n * 10 + d <= u64::MAX) by (nonlinear_arith)
                requires
                    n <= (u64::MAX - d) / 10,
                    d <= 9,
            ;
        }
        n = n * 10 + d;
        i += 1;
    }
    assert(s@.take(len as int) =~= s@);
    Some(n)
}

} // verus!
