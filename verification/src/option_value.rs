//! Unsigned integers as option values: big-endian, without leading zero
//! bytes.

use crate::error::IncompatibleOptionValueFormat;
use vstd::arithmetic::power2::{lemma2_to64, lemma_pow2_adds, pow2};
use vstd::prelude::*;
use vstd::std_specs::convert::{FromSpecImpl, TryFromSpecImpl};

verus! {

/// The number that `bytes` spell, most significant byte first.
pub open spec fn be_value(bytes: Seq<u8>) -> nat
    decreases bytes.len(),
{
    if bytes.len() == 0 {
        0
    } else {
        be_value(bytes.drop_last()) * 256 + bytes.last() as nat
    }
}

/// The shortest byte string that spells `n`, most significant byte first.
/// Zero is the empty string.
pub open spec fn minimal_be(n: nat) -> Seq<u8>
    decreases n,
{
    if n == 0 {
        Seq::empty()
    } else {
        minimal_be(n / 256).push((n % 256) as u8)
    }
}

/// A string of `bytes.len()` bytes spells a number below `2^(8 * len)`.
pub proof fn lemma_be_value_bound(bytes: Seq<u8>)
    ensures
        be_value(bytes) < pow2(8 * bytes.len()),
    decreases bytes.len(),
{
    lemma2_to64();
    if bytes.len() > 0 {
        let front = bytes.drop_last();
        lemma_be_value_bound(front);
        lemma_pow2_adds(8 * front.len(), 8);
        assert(be_value(front) * 256 + 255 < pow2(8 * front.len()) * 256) by (nonlinear_arith)
            requires
                be_value(front) < pow2(8 * front.len()),
        ;
    }
}

/// Reading the shortest string of a number gives the number back.
pub proof fn lemma_minimal_be_value(n: nat)
    ensures
        be_value(minimal_be(n)) == n,
    decreases n,
{
    if n > 0 {
        lemma_minimal_be_value(n / 256);
        let bytes = minimal_be(n);
        assert(bytes.drop_last() =~= minimal_be(n / 256));
    }
}

/// The shortest string of a number below `2^(8 * k)` has at most `k` bytes.
pub proof fn lemma_minimal_be_len(n: nat, k: nat)
    requires
        n < pow2(8 * k),
    ensures
        minimal_be(n).len() <= k,
    decreases n,
{
    lemma2_to64();
    if n > 0 {
        assert(k > 0);
        lemma_pow2_adds(8 * (k - 1) as nat, 8);
        assert(n / 256 < pow2(8 * (k - 1) as nat)) by (nonlinear_arith)
            requires
                n < pow2(8 * (k - 1) as nat) * 256,
        ;
        lemma_minimal_be_len(n / 256, (k - 1) as nat);
    }
}

/// The shortest string of a number other than zero is not empty and does
/// not begin with a zero byte.
pub proof fn lemma_minimal_be_leading_byte(n: nat)
    requires
        n > 0,
    ensures
        minimal_be(n).len() > 0,
        minimal_be(n)[0] != 0,
    decreases n,
{
    if n >= 256 {
        lemma_minimal_be_leading_byte(n / 256);
    } else {
        assert(minimal_be(n / 256) =~= Seq::<u8>::empty());
    }
}

/// No string that spells a number is shorter than the shortest string of
/// that number.
pub proof fn lemma_minimal_be_is_shortest(bytes: Seq<u8>)
    ensures
        minimal_be(be_value(bytes)).len() <= bytes.len(),
    decreases bytes.len(),
{
    if bytes.len() > 0 && be_value(bytes) > 0 {
        let front = bytes.drop_last();
        lemma_minimal_be_is_shortest(front);
        assert(be_value(bytes) / 256 == be_value(front));
    }
}

/// An option value that is an unsigned integer of at most 32 bits.
#[derive(Debug, Clone, Copy, PartialEq, Eq, Structural)]
pub struct OptionValueU32(pub u32);

/// The bytes are described by the `ensures` of `from`, over the view of the
/// result, and not by `from_spec`.
impl FromSpecImpl<OptionValueU32> for Vec<u8> {
    open spec fn obeys_from_spec() -> bool {
        false
    }

    open spec fn from_spec(value: OptionValueU32) -> Vec<u8> {
        arbitrary()
    }
}

impl From<OptionValueU32> for Vec<u8> {
    /// Writes the integer with as few bytes as it needs.
    fn from(value: OptionValueU32) -> (bytes: Vec<u8>)
        ensures
            bytes@ == minimal_be(value.0 as nat),
    {
        let v: u64 = value.0 as u64;
        let mut bytes: Vec<u8> = Vec::new();
        let mut shift: u64 = 32;
        assert(v >> 32 == 0) by (bit_vector)
            requires
                v < 0x1_0000_0000,
        ;
        while shift > 0
            invariant
                shift == 0 || shift == 8 || shift == 16 || shift == 24 || shift == 32,
                bytes@ == minimal_be((v >> shift) as nat),
            decreases shift,
        {
            let ghost above = v >> shift;
            shift -= 8;
            let part: u64 = v >> shift;
            assert(part / 256 == above && part % 256 == part & 0xff) by (bit_vector)
                requires
                    shift <= 24,
                    part == v >> shift,
                    above == v >> ((shift + 8) as u64),
            ;
            if part != 0 {
                bytes.push((part & 0xff) as u8);
            }
        }
        assert(v >> 0 == v) by (bit_vector);
        bytes
    }
}

impl TryFromSpecImpl<Vec<u8>> for OptionValueU32 {
    open spec fn obeys_try_from_spec() -> bool {
        true
    }

    open spec fn try_from_spec(value: Vec<u8>) -> Result<Self, Self::Error> {
        if value@.len() > 4 {
            Err(IncompatibleOptionValueFormat)
        } else {
            Ok(OptionValueU32(be_value(value@) as u32))
        }
    }
}

impl TryFrom<Vec<u8>> for OptionValueU32 {
    type Error = IncompatibleOptionValueFormat;

    /// Reads up to four bytes as an integer, most significant byte first.
    /// Leading zero bytes are accepted.
    fn try_from(value: Vec<u8>) -> (r: Result<Self, Self::Error>)
        ensures
            r is Ok <==> value@.len() <= 4,
            r matches Ok(v) ==> v.0 == be_value(value@),
    {
        proof {
            lemma_be_value_bound(value@);
            lemma2_to64();
        }
        if value.len() > 4 {
            return Err(IncompatibleOptionValueFormat);
        }
        let mut acc: u32 = 0;
        let mut i: usize = 0;
        while i < value.len()
            invariant
                value@.len() <= 4,
                i <= value@.len(),
                acc == be_value(value@.take(i as int)),
            decreases value@.len() - i,
        {
            proof {
                let next = value@.take(i + 1);
                assert(next.drop_last() =~= value@.take(i as int));
                lemma_be_value_bound(next);
                lemma2_to64();
            }
            acc = acc * 256 + value[i] as u32;
            i += 1;
        }
        assert(value@.take(i as int) =~= value@);
        Ok(OptionValueU32(acc))
    }
}

} // verus!
