//! Decimal numerals: rendering a number as ASCII digits and reading digit
//! runs back, with the facts that make the two inverse to each other.

use crate::textlex::is_digit;
use vstd::prelude::*;

verus! {

/// The decimal digits of `n`, most significant first, without leading zeros
/// (`0` itself is the single digit `0`).
pub open spec fn dec_digits(n: nat) -> Seq<u8>
    decreases n,
{
    if n < 10 {
        seq![(48 + n) as u8]
    } else {
        dec_digits(n / 10) + seq![(48 + n % 10) as u8]
    }
}

/// The numeric value of a digit run (most significant first).
pub open spec fn dec_value(s: Seq<u8>) -> int
    decreases s.len(),
{
    if s.len() == 0 {
        0
    } else {
        dec_value(s.drop_last()) * 10 + (s.last() - 48)
    }
}

/// Every byte of `s` is an ASCII digit.
pub open spec fn all_digits(s: Seq<u8>) -> bool {
    forall|i: int| 0 <= i < s.len() ==> is_digit(#[trigger] s[i])
}

/// The shape of a rendered numeral: non-empty, all digits, no leading zero
/// unless it is `0` itself, and its value is the number it was made from.
pub proof fn lemma_dec_digits_facts(n: nat)
    ensures
        dec_digits(n).len() >= 1,
        all_digits(dec_digits(n)),
        dec_digits(n).len() > 1 ==> dec_digits(n)[0] != 48,
        dec_value(dec_digits(n)) == n,
        n > 0 ==> dec_digits(n)[0] != 48,
    decreases n,
{
    if n < 10 {
        assert(dec_digits(n) =~= seq![(48 + n) as u8]);
        assert(dec_digits(n).drop_last() =~= Seq::<u8>::empty());
        assert(dec_digits(n).last() == (48 + n) as u8);
        assert(dec_value(dec_digits(n)) == dec_value(Seq::<u8>::empty()) * 10 + ((48 + n) as u8
            - 48));
        assert(dec_value(dec_digits(n)) == n);
    } else {
        lemma_dec_digits_facts(n / 10);
        let a = dec_digits(n / 10);
        let d = (48 + n % 10) as u8;
        assert(dec_digits(n) == a + seq![d]);
        assert((a + seq![d]).drop_last() =~= a);
        assert((a + seq![d]).last() == d);
        assert(dec_value(dec_digits(n)) == dec_value(a) * 10 + (d - 48));
        assert(dec_value(a) == n / 10);
        assert((n / 10) * 10 + n % 10 == n);
        assert(all_digits(a + seq![d])) by {
            assert(forall|i: int|
                0 <= i < a.len() ==> is_digit(#[trigger] (a + seq![d])[i]) == is_digit(a[i]));
        }
        assert(n / 10 > 0);
        assert((a + seq![d])[0] == a[0]);
    }
}

/// A digit run is at least as large as any of its prefixes.
pub proof fn lemma_dec_value_prefix_le(s: Seq<u8>, i: int)
    requires
        0 <= i <= s.len(),
        all_digits(s),
    ensures
        dec_value(s.subrange(0, i)) <= dec_value(s),
        dec_value(s) >= 0,
    decreases s.len() - i,
{
    if i == s.len() {
        assert(s.subrange(0, i) =~= s);
        lemma_dec_value_nonneg(s);
    } else {
        lemma_dec_value_prefix_le(s, i + 1);
        let a = s.subrange(0, i);
        let b = s.subrange(0, i + 1);
        assert(b.drop_last() =~= a);
        assert(b.last() == s[i]);
        assert(is_digit(s[i]));
        lemma_dec_value_nonneg(a);
        assert(dec_value(b) == dec_value(a) * 10 + (s[i] - 48));
        assert(dec_value(a) * 10 >= dec_value(a));
    }
}

/// The value of a digit run is non-negative.
pub proof fn lemma_dec_value_nonneg(s: Seq<u8>)
    requires
        all_digits(s),
    ensures
        dec_value(s) >= 0,
    decreases s.len(),
{
    if s.len() > 0 {
        assert(all_digits(s.drop_last())) by {
            assert(forall|i: int|
                0 <= i < s.len() - 1 ==> is_digit(#[trigger] s.drop_last()[i]) == is_digit(
                    s[i],
                ));
        }
        lemma_dec_value_nonneg(s.drop_last());
        assert(is_digit(s.last()));
    }
}

/// Renders `n` as its decimal digits.
pub fn render_dec_u32(n: u32) -> (r: Vec<u8>)
    ensures
        r@ == dec_digits(n as nat),
    decreases n,
{
    if n < 10 {
        let mut v: Vec<u8> = Vec::new();
        v.push(48 + (n as u8));
        proof {
            assert(v@ =~= dec_digits(n as nat));
        }
        v
    } else {
        let mut v = render_dec_u32(n / 10);
        v.push(48 + ((n % 10) as u8));
        proof {
            assert(v@ =~= dec_digits((n as nat) / 10) + seq![(48 + (n as nat) % 10) as u8]);
        }
        v
    }
}

/// Reads a digit run as a number of at most `max`. `Some` exactly when the
/// run is non-empty, all digits, and its value is within bound.
pub fn parse_dec_bounded(s: &[u8], max: u32) -> (r: Option<u32>)
    ensures
        match r {
            Some(v) => s@.len() > 0 && all_digits(s@) && dec_value(s@) == v && v <= max,
            None => !(s@.len() > 0 && all_digits(s@) && dec_value(s@) <= max),
        },
{
    if s.len() == 0 {
        return None;
    }
    let mut acc: u64 = 0;
    let mut i: usize = 0;
    loop
        invariant
            0 <= i <= s@.len(),
            max <= u32::MAX,
            acc == dec_value(s@.subrange(0, i as int)),
            acc <= max,
            forall|j: int| 0 <= j < i ==> is_digit(#[trigger] s@[j]),
        ensures
            i == s@.len(),
            acc == dec_value(s@),
            acc <= max,
            all_digits(s@),
        decreases s@.len() - i,
    {
        if i == s.len() {
            proof {
                assert(s@.subrange(0, s@.len() as int) =~= s@);
            }
            break;
        }
        let b = s[i];
        if !(48 <= b && b <= 57) {
            proof {
                assert(!all_digits(s@));
            }
            return None;
        }
        let d = (b - 48) as u64;
        let next = acc * 10 + d;
        proof {
            assert(s@.subrange(0, i + 1).drop_last() =~= s@.subrange(0, i as int));
            assert(s@.subrange(0, i + 1).last() == s@[i as int]);
            assert(next == dec_value(s@.subrange(0, i + 1)));
        }
        if next > max as u64 {
            proof {
                if all_digits(s@) {
                    lemma_dec_value_prefix_le(s@, i + 1);
                }
            }
            return None;
        }
        acc = next;
        i = i + 1;
    }
    Some(acc as u32)
}

} // verus!
