//! The value of a Block option.

use crate::error::{IncompatibleOptionValueFormat, InvalidBlockValue};
use crate::log2::{
    floor_log2, lemma_floor_log2_bounds, lemma_floor_log2_compare, lemma_floor_log2_unique,
};
use crate::option_value::{
    be_value, lemma_minimal_be_len, lemma_minimal_be_value, minimal_be, OptionValueU32,
};
use vstd::arithmetic::power2::{lemma2_to64, lemma_pow2_strictly_increases, pow2};
use vstd::bits::{lemma_usize_pow2_no_overflow, lemma_usize_shl_is_mul};
use vstd::prelude::*;
use vstd::std_specs::convert::{FromSpecImpl, TryFromSpecImpl};

verus! {

/// The largest block number that fits the twenty bits of the option.
pub const MAX_BLOCK_NUMBER: u32 = 1048575;

/// The value of a Block option: which block, whether more follow, and the
/// block size as an exponent.
#[derive(Debug, Clone, Copy, PartialEq, Eq, Structural)]
pub struct BlockValue {
    /// The index of the block in the sequence of blocks.
    pub num: u32,
    /// Whether further blocks follow this one.
    pub more: bool,
    /// The block size is `16 << size_exponent` bytes.
    pub size_exponent: u8,
}

impl BlockValue {
    /// A value that `new` can return: the number fits twenty bits and the
    /// exponent three.
    pub open spec fn wf(self) -> bool {
        self.num <= MAX_BLOCK_NUMBER && self.size_exponent <= 7
    }

    /// The block size in bytes.
    pub open spec fn spec_size(self) -> nat {
        16 * pow2(self.size_exponent as nat)
    }

    /// What `largest_power_of_2_not_in_excess` returns: nothing for zero,
    /// the bit width where no power of two that fits the platform word
    /// exceeds `target`, and otherwise the exponent of the largest power of
    /// two that is at most `target`.
    pub open spec fn spec_largest_power_of_2_not_in_excess(target: usize) -> Option<usize> {
        if target == 0 {
            None
        } else if floor_log2(target as nat) + 1 >= usize::BITS {
            Some(usize::BITS as usize)
        } else {
            Some(floor_log2(target as nat) as usize)
        }
    }

    /// The exponent that is stored for a block size whose largest power of
    /// two has the exponent `true_size_exponent`: four less, and zero below
    /// sixteen bytes.
    pub open spec fn stored_exponent(true_size_exponent: usize) -> nat {
        if true_size_exponent < 4 {
            0
        } else {
            (true_size_exponent - 4) as nat
        }
    }

    /// What `new` returns. The size is looked at first, then the number.
    pub open spec fn spec_new(num: usize, more: bool, size: usize) -> Result<
        BlockValue,
        InvalidBlockValue,
    > {
        match Self::spec_largest_power_of_2_not_in_excess(size) {
            None => Err(InvalidBlockValue::SizeExponentEncodingError(size)),
            Some(true_size_exponent) => if Self::stored_exponent(true_size_exponent) > 7 {
                Err(InvalidBlockValue::SizeExponentEncodingError(size))
            } else if num > u32::MAX {
                Err(InvalidBlockValue::TypeBoundsError)
            } else if num > MAX_BLOCK_NUMBER {
                Err(InvalidBlockValue::MaximumNumberExceeded(num as u32))
            } else {
                Ok(
                    BlockValue {
                        num: num as u32,
                        more,
                        size_exponent: Self::stored_exponent(true_size_exponent) as u8,
                    },
                )
            },
        }
    }

    /// The option value as one integer: the number above the lowest four
    /// bits, then the flag, then the exponent in the lowest three bits.
    pub open spec fn spec_scalar(self) -> u32 {
        (self.num << 4) | ((if self.more {
            1u32
        } else {
            0u32
        }) << 3) | ((self.size_exponent & 0x7) as u32)
    }

    /// The block value that the bits of `scalar` spell.
    pub open spec fn spec_from_scalar(scalar: u32) -> BlockValue {
        BlockValue {
            num: scalar >> 4,
            more: (scalar >> 3) & 0x1 == 0x1,
            size_exponent: (scalar & 0x7) as u8,
        }
    }

    /// The bytes of the option on the wire.
    pub open spec fn spec_bytes(self) -> Seq<u8> {
        minimal_be(self.spec_scalar() as nat)
    }

    /// What reading `bytes` as a block value gives. Only a string of more
    /// than four bytes is refused: the number and the exponent are taken as
    /// the bits say, whether or not `new` would have built them.
    pub open spec fn spec_decode(bytes: Seq<u8>) -> Result<
        BlockValue,
        IncompatibleOptionValueFormat,
    > {
        if bytes.len() > 4 {
            Err(IncompatibleOptionValueFormat)
        } else {
            Ok(Self::spec_from_scalar(be_value(bytes) as u32))
        }
    }

    /// Builds the value for block `num` with blocks of the largest size that
    /// the option can express and that does not exceed `size` bytes (sixteen
    /// bytes where `size` is less).
    pub fn new(num: usize, more: bool, size: usize) -> (r: Result<BlockValue, InvalidBlockValue>)
        ensures
            r == Self::spec_new(num, more, size),
            r is Ok <==> 0 < size < 4096 && num <= MAX_BLOCK_NUMBER,
            r == Err::<BlockValue, _>(InvalidBlockValue::SizeExponentEncodingError(size)) <==> size
                == 0 || size >= 4096,
            0 < size < 4096 && num > u32::MAX ==> r == Err::<BlockValue, _>(
                InvalidBlockValue::TypeBoundsError,
            ),
            0 < size < 4096 && MAX_BLOCK_NUMBER < num <= u32::MAX ==> r == Err::<BlockValue, _>(
                InvalidBlockValue::MaximumNumberExceeded(num as u32),
            ),
            r matches Ok(v) ==> v.wf() && v.num == num && v.more == more,
            r matches Ok(v) ==> size >= 16 ==> v.size_exponent == floor_log2(size as nat) - 4
                && v.spec_size() <= size < 2 * v.spec_size(),
            r matches Ok(v) ==> size < 16 ==> v.size_exponent == 0 && v.spec_size() == 16,
    {
        proof {
            Self::lemma_new_cases(num, more, size);
        }
        let true_size_exponent = match Self::largest_power_of_2_not_in_excess(size) {
            Some(e) => e,
            None => {
                return Err(InvalidBlockValue::SizeExponentEncodingError(size));
            },
        };
        let size_exponent = match u8::try_from(true_size_exponent.saturating_sub(4)) {
            Ok(e) => e,
            // An exponent is at most the bit width of the platform word, so
            // this arm is never taken.
            Err(_) => {
                return Err(InvalidBlockValue::TypeBoundsError);
            },
        };
        if size_exponent > 0x7 {
            return Err(InvalidBlockValue::SizeExponentEncodingError(size));
        }
        let num = match u32::try_from(num) {
            Ok(n) => n,
            Err(_) => {
                return Err(InvalidBlockValue::TypeBoundsError);
            },
        };
        if num > MAX_BLOCK_NUMBER {
            return Err(InvalidBlockValue::MaximumNumberExceeded(num));
        }
        Ok(BlockValue { num, more, size_exponent })
    }

    /// Finds the exponent of the largest power of two that does not exceed
    /// `target`. Where even the highest power of two of the platform word
    /// does not exceed it, the result is the bit width.
    pub fn largest_power_of_2_not_in_excess(target: usize) -> (r: Option<usize>)
        ensures
            r == Self::spec_largest_power_of_2_not_in_excess(target),
            r is None <==> target == 0,
            r matches Some(e) ==> {
                &&& e <= usize::BITS
                &&& e < usize::BITS ==> pow2(e as nat) <= target < pow2((e + 1) as nat)
                &&& e == usize::BITS <==> target >= pow2((usize::BITS - 1) as nat)
            },
    {
        if target == 0 {
            return None;
        }
        let max_power: usize = usize::BITS as usize;
        let mut i: usize = 0;
        while i < max_power
            invariant
                target > 0,
                max_power == usize::BITS,
                i <= max_power,
                i > 0 ==> pow2((i - 1) as nat) <= target,
            decreases max_power - i,
        {
            proof {
                lemma_usize_pow2_no_overflow(i as nat);
                lemma_usize_shl_is_mul(1, i);
            }
            if (1usize << i) > target {
                proof {
                    lemma2_to64();
                    lemma_floor_log2_unique(target as nat, (i - 1) as nat);
                    Self::lemma_largest_power_cases(target);
                }
                return Some(i - 1);
            }
            i += 1;
        }
        proof {
            Self::lemma_largest_power_cases(target);
        }
        Some(max_power)
    }

    /// The block size in bytes.
    pub fn size(&self) -> (r: usize)
        requires
            self.size_exponent <= 7,
        ensures
            r == self.spec_size(),
            r == 16usize << self.size_exponent,
            r == pow2((self.size_exponent + 4) as nat),
            16 <= r <= 2048,
    {
        let shift: usize = (self.size_exponent + 4) as usize;
        proof {
            lemma2_to64();
            lemma_usize_shl_is_mul(1, shift);
            lemma_usize_shl_is_mul(16, self.size_exponent as usize);
        }
        1usize << shift
    }

    /// What the search finds on each kind of target: nothing exactly for
    /// zero; below the highest power of two of the platform word, the one
    /// exponent whose power of two is at most `target` while the next is
    /// larger; and the bit width from that highest power on.
    pub proof fn lemma_largest_power_cases(target: usize)
        ensures
            Self::spec_largest_power_of_2_not_in_excess(target) is None <==> target == 0,
            Self::spec_largest_power_of_2_not_in_excess(target) matches Some(e) ==> {
                &&& e <= usize::BITS
                &&& e < usize::BITS ==> e == floor_log2(target as nat) && pow2(e as nat) <= target
                    < pow2((e + 1) as nat)
                &&& e == usize::BITS <==> target >= pow2((usize::BITS - 1) as nat)
            },
    {
        if target > 0 {
            lemma_floor_log2_bounds(target as nat);
            lemma_floor_log2_compare(target as nat, (usize::BITS - 1) as nat);
        }
    }

    /// What the result of `new` is on each kind of input: the sizes that are
    /// refused are zero and those from 4096 on; then the numbers above
    /// twenty bits are refused; the block size of a value that is returned
    /// is the largest power of two that is at most `size`, and sixteen where
    /// `size` is less.
    pub proof fn lemma_new_cases(num: usize, more: bool, size: usize)
        ensures
            Self::spec_new(num, more, size) is Ok <==> 0 < size < 4096 && num <= MAX_BLOCK_NUMBER,
            Self::spec_new(num, more, size) == Err::<BlockValue, _>(
                InvalidBlockValue::SizeExponentEncodingError(size),
            ) <==> size == 0 || size >= 4096,
            0 < size < 4096 && num > u32::MAX ==> Self::spec_new(num, more, size) == Err::<
                BlockValue,
                _,
            >(InvalidBlockValue::TypeBoundsError),
            0 < size < 4096 && MAX_BLOCK_NUMBER < num <= u32::MAX ==> Self::spec_new(
                num,
                more,
                size,
            ) == Err::<BlockValue, _>(InvalidBlockValue::MaximumNumberExceeded(num as u32)),
            Self::spec_new(num, more, size) matches Ok(v) ==> {
                &&& v.wf()
                &&& v.num == num
                &&& v.more == more
                &&& size >= 16 ==> v.size_exponent == floor_log2(size as nat) - 4
                &&& size >= 16 ==> v.spec_size() <= size < 2 * v.spec_size()
                &&& size < 16 ==> v.size_exponent == 0 && v.spec_size() == 16
            },
    {
        lemma2_to64();
        if size > 0 {
            let n = size as nat;
            lemma_floor_log2_bounds(n);
            lemma_floor_log2_compare(n, 12);
        }
    }

    /// The block size of a value that `new` returns for a `size` of sixteen
    /// or more is a power of two that is at most `size`, and no smaller than
    /// any other power of two that is at most `size`.
    pub proof fn lemma_size_is_largest_power_of_two(num: usize, more: bool, size: usize, k: nat)
        requires
            Self::spec_new(num, more, size) is Ok,
            size >= 16,
            pow2(k) <= size,
        ensures
            Self::spec_new(num, more, size).unwrap().spec_size() == pow2(
                (Self::spec_new(num, more, size).unwrap().size_exponent + 4) as nat,
            ),
            Self::spec_new(num, more, size).unwrap().spec_size() <= size,
            pow2(k) <= Self::spec_new(num, more, size).unwrap().spec_size(),
    {
        Self::lemma_new_cases(num, more, size);
        lemma2_to64();
        lemma_floor_log2_compare(size as nat, k);
        if k < floor_log2(size as nat) {
            lemma_pow2_strictly_increases(k, floor_log2(size as nat));
        }
    }

    /// For a number below `2^28` and an exponent of three bits the fields
    /// lie side by side in the integer: sixteen times the number, plus
    /// eight for the flag, plus the exponent.
    pub proof fn lemma_scalar_layout(self)
        requires
            self.num < 0x1000_0000,
            self.size_exponent <= 7,
        ensures
            self.spec_scalar() == 16 * self.num + (if self.more {
                8int
            } else {
                0int
            }) + self.size_exponent,
    {
        let num = self.num;
        let exp = self.size_exponent;
        assert((num << 4) | (1u32 << 3) | ((exp & 0x7) as u32) == 16 * num + 8 + exp) by (bit_vector)
            requires
                num < 0x1000_0000,
                exp <= 7,
        ;
        assert((num << 4) | (0u32 << 3) | ((exp & 0x7) as u32) == 16 * num + exp) by (bit_vector)
            requires
                num < 0x1000_0000,
                exp <= 7,
        ;
    }

    /// Unpacking the integer of a value gives the value back, as long as
    /// its number is below `2^28` and its exponent has three bits.
    pub proof fn lemma_from_scalar_of_scalar(self)
        requires
            self.num < 0x1000_0000,
            self.size_exponent <= 7,
        ensures
            Self::spec_from_scalar(self.spec_scalar()) == self,
    {
        let num = self.num;
        let exp = self.size_exponent;
        let flag = if self.more {
            1u32
        } else {
            0u32
        };
        let scalar = self.spec_scalar();
        assert(scalar >> 4 == num && (scalar >> 3) & 0x1 == flag && (scalar & 0x7) as u8 == exp)
            by (bit_vector)
            requires
                num < 0x1000_0000,
                exp <= 7,
                flag <= 1,
                scalar == (num << 4) | (flag << 3) | ((exp & 0x7) as u32),
        ;
    }

    /// Every integer of 32 bits is the packed form of the value that its
    /// bits spell, and that value's exponent has three bits.
    pub proof fn lemma_scalar_of_from_scalar(scalar: u32)
        ensures
            Self::spec_from_scalar(scalar).spec_scalar() == scalar,
            Self::spec_from_scalar(scalar).size_exponent <= 7,
            Self::spec_from_scalar(scalar).num < 0x1000_0000,
    {
        let v = Self::spec_from_scalar(scalar);
        let num = v.num;
        let exp = v.size_exponent;
        let flag = if v.more {
            1u32
        } else {
            0u32
        };
        assert(flag == (scalar >> 3) & 0x1) by (bit_vector)
            requires
                flag == (if (scalar >> 3) & 0x1 == 0x1 {
                    1u32
                } else {
                    0u32
                }),
        ;
        assert((num << 4) | (flag << 3) | ((exp & 0x7) as u32) == scalar && exp <= 7 && num
            < 0x1000_0000) by (bit_vector)
            requires
                num == scalar >> 4,
                flag == (scalar >> 3) & 0x1,
                exp == (scalar & 0x7) as u8,
        ;
    }

    /// Reading the bytes that a valid value is written as gives the value
    /// back.
    pub proof fn lemma_decode_of_bytes(self)
        requires
            self.wf(),
        ensures
            Self::spec_decode(self.spec_bytes()) == Ok::<_, IncompatibleOptionValueFormat>(self),
            self.spec_bytes().len() <= 3,
    {
        let scalar = self.spec_scalar();
        self.lemma_scalar_layout();
        self.lemma_from_scalar_of_scalar();
        lemma2_to64();
        lemma_minimal_be_len(scalar as nat, 3);
        lemma_minimal_be_value(scalar as nat);
    }
}

/// The bytes are described by the `ensures` of `from`, over the view of the
/// result, and not by `from_spec`.
impl FromSpecImpl<BlockValue> for Vec<u8> {
    open spec fn obeys_from_spec() -> bool {
        false
    }

    open spec fn from_spec(block_value: BlockValue) -> Vec<u8> {
        arbitrary()
    }
}

impl From<BlockValue> for Vec<u8> {
    /// Packs the three fields into one integer and writes it with as few
    /// bytes as it needs.
    fn from(block_value: BlockValue) -> (bytes: Vec<u8>)
        ensures
            bytes@ == block_value.spec_bytes(),
    {
        let flag: u32 = if block_value.more {
            1
        } else {
            0
        };
        let scalar: u32 = (block_value.num << 4) | (flag << 3) | ((block_value.size_exponent
            & 0x7) as u32);
        Vec::from(OptionValueU32(scalar))
    }
}

impl TryFromSpecImpl<Vec<u8>> for BlockValue {
    open spec fn obeys_try_from_spec() -> bool {
        true
    }

    open spec fn try_from_spec(value: Vec<u8>) -> Result<Self, Self::Error> {
        BlockValue::spec_decode(value@)
    }
}

impl TryFrom<Vec<u8>> for BlockValue {
    type Error = IncompatibleOptionValueFormat;

    /// Reads the bytes as one integer and takes the three fields from its
    /// bits.
    fn try_from(value: Vec<u8>) -> (r: Result<Self, Self::Error>)
        ensures
            r == BlockValue::spec_decode(value@),
            r is Ok <==> value@.len() <= 4,
            r matches Ok(v) ==> v.size_exponent <= 7 && v.num < 0x1000_0000 && v.spec_scalar()
                == be_value(value@),
    {
        proof {
            if value@.len() <= 4 {
                BlockValue::lemma_scalar_of_from_scalar(be_value(value@) as u32);
            }
        }
        let scalar: u32 = match OptionValueU32::try_from(value) {
            Ok(v) => v.0,
            Err(e) => {
                return Err(e);
            },
        };
        let num: u32 = scalar >> 4;
        let more = (scalar >> 3) & 0x1 == 0x1;
        let size_exponent: u8 = (scalar & 0x7) as u8;
        Ok(BlockValue { num, more, size_exponent })
    }
}

} // verus!
