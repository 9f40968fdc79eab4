//! Byte-level value encodings the protocol uses: decimal numerals (the
//! handoff token, descriptor-table entry names) and big-endian 32-bit values
//! (the early-error report, frame length fields).

use vstd::prelude::*;

verus! {

pub open spec fn is_digit(b: u8) -> bool {
    0x30 <= b <= 0x39
}

pub open spec fn digit_value(b: u8) -> nat {
    (b - 0x30) as nat
}

pub open spec fn all_digits(s: Seq<u8>) -> bool {
    forall|i: int| 0 <= i < s.len() ==> is_digit(#[trigger] s[i])
}

/// The numeric value of a digit string, most significant digit first.
pub open spec fn dec_value(s: Seq<u8>) -> nat
    decreases s.len(),
{
    if s.len() == 0 {
        0
    } else {
        dec_value(s.drop_last()) * 10 + digit_value(s.last())
    }
}

/// The canonical decimal numeral of a number: no sign, no leading zero except
/// for zero itself.
pub open spec fn spec_decimal_digits(n: nat) -> Seq<u8>
    decreases n,
{
    if n < 10 {
        seq![(n + 0x30) as u8]
    } else {
        spec_decimal_digits(n / 10).push((n % 10 + 0x30) as u8)
    }
}

/// What parsing a decimal numeral yields: the value of a nonempty digit
/// string within the bound; anything else is rejected. Leading zeroes are
/// accepted and do not change the value.
pub open spec fn spec_parse_decimal(s: Seq<u8>, bound: nat) -> Option<nat> {
    if s.len() > 0 && all_digits(s) && dec_value(s) <= bound {
        Some(dec_value(s))
    } else {
        None
    }
}

/// A digit string's value only grows as digits are appended.
proof fn lemma_dec_value_prefix_le(s: Seq<u8>, i: int)
    requires
        0 <= i <= s.len(),
    ensures
        dec_value(s.subrange(0, i)) <= dec_value(s),
    decreases s.len() - i,
{
    if i < s.len() {
        lemma_dec_value_prefix_le(s, i + 1);
        let shorter = s.subrange(0, i);
        let longer = s.subrange(0, i + 1);
        assert(longer.drop_last() =~= shorter);
        assert(dec_value(longer) == dec_value(shorter) * 10 + digit_value(longer.last()));
        assert(dec_value(shorter) <= dec_value(shorter) * 10) by (nonlinear_arith);
    } else {
        assert(s.subrange(0, i) =~= s);
    }
}

/// The canonical numeral of a number is made of digits and evaluates back to
/// that number.
pub proof fn lemma_decimal_digits_value(n: nat)
    ensures
        spec_decimal_digits(n).len() > 0,
        all_digits(spec_decimal_digits(n)),
        dec_value(spec_decimal_digits(n)) == n,
    decreases n,
{
    if n < 10 {
        let s = spec_decimal_digits(n);
        assert(s.drop_last() =~= Seq::<u8>::empty());
        assert(dec_value(Seq::<u8>::empty()) == 0);
        assert(s.last() == (n + 0x30) as u8);
        assert(digit_value((n + 0x30) as u8) == n);
    } else {
        lemma_decimal_digits_value(n / 10);
        let s = spec_decimal_digits(n);
        assert(s.drop_last() =~= spec_decimal_digits(n / 10));
        assert(s.last() == (n % 10 + 0x30) as u8);
        assert(digit_value((n % 10 + 0x30) as u8) == n % 10);
        assert(dec_value(s) == (n / 10) * 10 + n % 10);
        assert((n / 10) * 10 + n % 10 == n) by (nonlinear_arith);
    }
}

/// Decimal numerals round-trip: parsing the rendered numeral of any value
/// within the bound recovers exactly that value. In particular a handoff
/// token always decodes back to the descriptor it was made from.
pub proof fn lemma_decimal_round_trip(n: nat, bound: nat)
    requires
        n <= bound,
    ensures
        spec_parse_decimal(spec_decimal_digits(n), bound) == Some(n),
{
    lemma_decimal_digits_value(n);
}

/// Renders a number as its canonical decimal numeral.
pub fn format_decimal(n: u64) -> (r: Vec<u8>)
    ensures
        r@ == spec_decimal_digits(n as nat),
{
    let mut rev: Vec<u8> = Vec::new();
    let mut m: u64 = n;
    loop
        invariant_except_break
            m == 0 ==> rev@.len() == 0,
        invariant
            spec_decimal_digits(n as nat) =~= (if m > 0 || rev@.len() == 0 {
                spec_decimal_digits(m as nat)
            } else {
                Seq::<u8>::empty()
            }) + rev@.reverse(),
        ensures
            m == 0,
            rev@.len() > 0,
            spec_decimal_digits(n as nat) =~= rev@.reverse(),
        decreases m,
    {
        let d: u8 = (m % 10) as u8 + 0x30;
        let ghost old_m = m as nat;
        let ghost old_rev = rev@;
        rev.push(d);
        m = m / 10;
        proof {
            assert(rev@.reverse() =~= seq![d] + old_rev.reverse());
            if old_m >= 10 {
                assert(spec_decimal_digits(old_m) == spec_decimal_digits(old_m / 10).push(
                    (old_m % 10 + 0x30) as u8,
                ));
                assert(spec_decimal_digits(old_m / 10).push((old_m % 10 + 0x30) as u8)
                    =~= spec_decimal_digits(old_m / 10) + seq![d]);
                assert(spec_decimal_digits(n as nat) =~= spec_decimal_digits(m as nat)
                    + rev@.reverse());
            } else {
                assert(spec_decimal_digits(old_m) =~= seq![d]);
                assert(spec_decimal_digits(n as nat) =~= Seq::<u8>::empty() + rev@.reverse());
            }
        }
        if m == 0 {
            break;
        }
    }
    proof {
        assert(rev@.reverse().len() == rev@.len());
    }
    let mut r: Vec<u8> = Vec::new();
    let mut k: usize = 0;
    while k < rev.len()
        invariant
            k <= rev@.len(),
            r@ =~= rev@.reverse().subrange(0, k as int),
        decreases rev@.len() - k,
    {
        r.push(rev[rev.len() - 1 - k]);
        k = k + 1;
        proof {
            assert(r@ =~= rev@.reverse().subrange(0, k as int));
        }
    }
    proof {
        assert(r@ =~= rev@.reverse());
        assert(spec_decimal_digits(n as nat) =~= Seq::<u8>::empty() + rev@.reverse());
    }
    r
}

/// Parses a decimal numeral: the value of a nonempty all-digit string, if it
/// does not exceed `bound`; `None` otherwise. Never blocks, never panics.
pub fn parse_decimal(s: &Vec<u8>, bound: u64) -> (r: Option<u64>)
    ensures
        r is Some <==> spec_parse_decimal(s@, bound as nat) is Some,
        r matches Some(v) ==> Some(v as nat) == spec_parse_decimal(s@, bound as nat),
{
    if s.len() == 0 {
        return None;
    }
    let mut acc: u64 = 0;
    let mut i: usize = 0;
    while i < s.len()
        invariant
            0 < s@.len(),
            i <= s@.len(),
            acc <= bound,
            acc as nat == dec_value(s@.subrange(0, i as int)),
            all_digits(s@.subrange(0, i as int)),
        decreases s@.len() - i,
    {
        let b = s[i];
        if b < 0x30 || b > 0x39 {
            assert(!is_digit(s@[i as int]));
            return None;
        }
        let d: u64 = (b - 0x30) as u64;
        let wide: u128 = acc as u128 * 10 + d as u128;
        proof {
            let prefix = s@.subrange(0, i as int);
            let next = s@.subrange(0, i as int + 1);
            assert(next.drop_last() =~= prefix);
            assert(dec_value(next) == dec_value(prefix) * 10 + digit_value(next.last()));
        }
        if wide > bound as u128 {
            proof {
                lemma_dec_value_prefix_le(s@, i as int + 1);
            }
            return None;
        }
        acc = wide as u64;
        i = i + 1;
    }
    proof {
        assert(s@.subrange(0, s@.len() as int) =~= s@);
    }
    Some(acc)
}

/// The four big-endian bytes of a 32-bit value.
pub open spec fn spec_be32(n: u32) -> Seq<u8> {
    seq![(n >> 24) as u8, (n >> 16) as u8, (n >> 8) as u8, n as u8]
}

/// The 32-bit value four big-endian bytes carry.
pub open spec fn be32_value(s: Seq<u8>) -> u32
    recommends
        s.len() == 4,
{
    (((s[0] as u32) << 24) | ((s[1] as u32) << 16) | ((s[2] as u32) << 8) | (s[3] as u32)) as u32
}

/// Reading back the four big-endian bytes of a value yields the value.
pub proof fn lemma_be32_round_trip(n: u32)
    ensures
        be32_value(spec_be32(n)) == n,
{
    assert((((((n >> 24) as u8) as u32) << 24) | ((((n >> 16) as u8) as u32) << 16) | ((((n >> 8)
        as u8) as u32) << 8) | ((n as u8) as u32)) as u32 == n) by (bit_vector);
}

/// Four bytes are the big-endian encoding of the value they carry.
pub proof fn lemma_be32_extensional(s: Seq<u8>)
    requires
        s.len() == 4,
    ensures
        spec_be32(be32_value(s)) =~= s,
{
    let b0 = s[0];
    let b1 = s[1];
    let b2 = s[2];
    let b3 = s[3];
    let n = be32_value(s);
    assert({
        let m = (((b0 as u32) << 24) | ((b1 as u32) << 16) | ((b2 as u32) << 8) | (b3 as u32))
            as u32;
        (m >> 24) as u8 == b0 && (m >> 16) as u8 == b1 && (m >> 8) as u8 == b2 && m as u8 == b3
    }) by (bit_vector);
}

/// Emits the four big-endian bytes of a value.
pub fn encode_be32(n: u32, out: &mut Vec<u8>)
    ensures
        final(out)@ == old(out)@ + spec_be32(n),
{
    out.push((n >> 24) as u8);
    out.push((n >> 16) as u8);
    out.push((n >> 8) as u8);
    out.push(n as u8);
    proof {
        assert(out@ =~= old(out)@ + spec_be32(n));
    }
}

/// Reads a 32-bit big-endian value at `pos`.
pub fn decode_be32(s: &Vec<u8>, pos: usize) -> (r: u32)
    requires
        pos + 4 <= s@.len(),
    ensures
        r == be32_value(s@.subrange(pos as int, pos as int + 4)),
{
    let len = s.len();
    proof {
        assert(pos + 4 <= len);
    }
    let b0 = s[pos];
    let b1 = s[pos + 1];
    let b2 = s[pos + 2];
    let b3 = s[pos + 3];
    (((b0 as u32) << 24) | ((b1 as u32) << 16) | ((b2 as u32) << 8) | (b3 as u32))
}

} // verus!
