use coap_block::block_handler::block_value::{BlockValue, MAX_BLOCK_NUMBER};
use coap_block::error::{IncompatibleOptionValueFormat, InvalidBlockValue};

#[test]
fn test_highest_containing_power_of_2() {
    assert_eq!(BlockValue::largest_power_of_2_not_in_excess(0), None);
    assert_eq!(BlockValue::largest_power_of_2_not_in_excess(256), Some(8));
    assert_eq!(BlockValue::largest_power_of_2_not_in_excess(257), Some(8));
    assert_eq!(
        BlockValue::largest_power_of_2_not_in_excess(usize::MAX),
        Some(usize::try_from(usize::BITS).unwrap())
    );
}

#[test]
fn test_block_value_exponent() {
    assert!(BlockValue::new(0, false, 0).is_err());
    assert!(BlockValue::new(0, false, usize::MAX).is_err());
    assert_eq!(
        BlockValue::new(0, false, 1158).unwrap(),
        BlockValue {
            num: 0,
            more: false,
            size_exponent: 6
        }
    );
    assert_eq!(
        BlockValue::new(0, false, 256).unwrap(),
        BlockValue {
            num: 0,
            more: false,
            size_exponent: 4
        }
    );
}

#[test]
fn encode_block_opt_4096() {
    let opt = BlockValue::new(4096, false, 1024).unwrap();
    let bytes = Vec::<u8>::from(opt);
    assert_eq!(bytes, vec![0x01, 0x00, 0x06]);
}

#[test]
fn encode_block_opt_4095() {
    let opt = BlockValue::new(4095, false, 1024).unwrap();
    let bytes = Vec::<u8>::from(opt);
    assert_eq!(bytes, vec![0xff, 0xf6]);
}

#[test]
fn power_search_small_targets() {
    assert_eq!(BlockValue::largest_power_of_2_not_in_excess(1), Some(0));
    assert_eq!(BlockValue::largest_power_of_2_not_in_excess(2), Some(1));
    assert_eq!(BlockValue::largest_power_of_2_not_in_excess(3), Some(1));
    assert_eq!(BlockValue::largest_power_of_2_not_in_excess(4), Some(2));
    assert_eq!(BlockValue::largest_power_of_2_not_in_excess(4095), Some(11));
    assert_eq!(BlockValue::largest_power_of_2_not_in_excess(4096), Some(12));
}

#[test]
fn power_search_brackets_every_target() {
    let mut target: usize = 1;
    while target < 70000 {
        let e: usize = BlockValue::largest_power_of_2_not_in_excess(target).unwrap();
        assert!((1usize << e) <= target);
        assert!(target < (1usize << (e + 1)));
        target += 1;
    }
}

#[test]
fn power_search_top_of_the_word() {
    let bits: usize = usize::try_from(usize::BITS).unwrap();
    let top: usize = 1usize << (bits - 1);
    assert_eq!(
        BlockValue::largest_power_of_2_not_in_excess(top - 1),
        Some(bits - 2)
    );
    assert_eq!(BlockValue::largest_power_of_2_not_in_excess(top), Some(bits));
    assert_eq!(
        BlockValue::largest_power_of_2_not_in_excess(top + 1),
        Some(bits)
    );
}

#[test]
fn new_refuses_size_zero_with_the_size() {
    assert_eq!(
        BlockValue::new(0, false, 0),
        Err(InvalidBlockValue::SizeExponentEncodingError(0))
    );
    assert_eq!(
        BlockValue::new(5, true, 0),
        Err(InvalidBlockValue::SizeExponentEncodingError(0))
    );
}

#[test]
fn new_refuses_sizes_from_4096() {
    assert_eq!(
        BlockValue::new(0, false, 4095).unwrap().size_exponent,
        7
    );
    assert_eq!(
        BlockValue::new(0, false, 4096),
        Err(InvalidBlockValue::SizeExponentEncodingError(4096))
    );
    assert_eq!(
        BlockValue::new(0, false, usize::MAX),
        Err(InvalidBlockValue::SizeExponentEncodingError(usize::MAX))
    );
}

#[test]
fn new_looks_at_the_size_before_the_number() {
    assert_eq!(
        BlockValue::new(1048576, false, 0),
        Err(InvalidBlockValue::SizeExponentEncodingError(0))
    );
    assert_eq!(
        BlockValue::new(usize::MAX, false, 8192),
        Err(InvalidBlockValue::SizeExponentEncodingError(8192))
    );
}

#[test]
fn new_clamps_small_sizes_to_sixteen_bytes() {
    let mut size: usize = 1;
    while size < 16 {
        let v = BlockValue::new(0, false, size).unwrap();
        assert_eq!(v.size_exponent, 0);
        assert_eq!(v.size(), 16);
        size += 1;
    }
}

#[test]
fn new_boundary_on_num() {
    assert_eq!(
        BlockValue::new(1048575, false, 16),
        Ok(BlockValue {
            num: 1048575,
            more: false,
            size_exponent: 0
        })
    );
    assert_eq!(
        BlockValue::new(1048575, true, 16),
        Ok(BlockValue {
            num: 1048575,
            more: true,
            size_exponent: 0
        })
    );
    assert_eq!(
        BlockValue::new(1048576, false, 16),
        Err(InvalidBlockValue::MaximumNumberExceeded(1048576))
    );
    assert_eq!(
        BlockValue::new(1048576, true, 16),
        Err(InvalidBlockValue::MaximumNumberExceeded(1048576))
    );
    assert_eq!(MAX_BLOCK_NUMBER, 1048575);
}

#[test]
fn new_refuses_a_number_wider_than_the_wire() {
    let wide: usize = usize::MAX;
    assert_eq!(
        BlockValue::new(wide, false, 16),
        Err(InvalidBlockValue::TypeBoundsError)
    );
    assert_eq!(
        BlockValue::new(u32::MAX as usize, false, 16),
        Err(InvalidBlockValue::MaximumNumberExceeded(u32::MAX))
    );
}

#[test]
fn size_is_sixteen_shifted_by_the_exponent() {
    let mut e: u8 = 0;
    while e <= 7 {
        let v = BlockValue {
            num: 0,
            more: false,
            size_exponent: e,
        };
        assert_eq!(v.size(), 16usize << e);
        e += 1;
    }
    let v = BlockValue::new(0, false, 1158).unwrap();
    assert_eq!(v.size(), 1024);
    let v = BlockValue::new(0, false, 256).unwrap();
    assert_eq!(v.size(), 256);
}

#[test]
fn size_is_the_largest_power_of_two_within_the_request() {
    let mut size: usize = 16;
    while size < 4096 {
        let v = BlockValue::new(7, true, size).unwrap();
        let got: usize = v.size();
        assert!(got.is_power_of_two());
        assert!(got <= size);
        assert!(size < 2 * got);
        assert_eq!(got, 16usize << v.size_exponent);
        size += 1;
    }
}

#[test]
fn round_trip_of_constructed_values() {
    let nums: [usize; 8] = [0, 1, 15, 16, 4095, 4096, 65536, 1048575];
    let sizes: [usize; 9] = [1, 16, 31, 32, 64, 128, 600, 1024, 2048];
    for num in nums {
        for size in sizes {
            for more in [false, true] {
                let v = BlockValue::new(num, more, size).unwrap();
                let bytes = Vec::<u8>::from(v);
                assert!(bytes.len() <= 3);
                assert_eq!(BlockValue::try_from(bytes), Ok(v));
            }
        }
    }
}

#[test]
fn encode_flag_and_exponent_bits() {
    let v = BlockValue::new(0, true, 16).unwrap();
    assert_eq!(Vec::<u8>::from(v), vec![0x08]);
    let v = BlockValue::new(1, false, 16).unwrap();
    assert_eq!(Vec::<u8>::from(v), vec![0x10]);
    let v = BlockValue::new(1048575, true, 2048).unwrap();
    assert_eq!(Vec::<u8>::from(v), vec![0xff, 0xff, 0xff]);
    let v = BlockValue::new(0, false, 32).unwrap();
    assert_eq!(Vec::<u8>::from(v), vec![0x01]);
}

#[test]
fn encode_of_the_zero_value_is_empty() {
    let v = BlockValue::new(0, false, 16).unwrap();
    assert_eq!(Vec::<u8>::from(v), Vec::<u8>::new());
    assert_eq!(BlockValue::try_from(Vec::<u8>::new()), Ok(v));
}

#[test]
fn decode_takes_the_bits_as_they_are() {
    assert_eq!(
        BlockValue::try_from(vec![0xff, 0xff, 0xff, 0xff]),
        Ok(BlockValue {
            num: 0x0fff_ffff,
            more: true,
            size_exponent: 7
        })
    );
    assert_eq!(
        BlockValue::try_from(vec![0x01, 0x00, 0x00, 0x00]),
        Ok(BlockValue {
            num: 1048576,
            more: false,
            size_exponent: 0
        })
    );
}

#[test]
fn decode_accepts_leading_zero_bytes() {
    assert_eq!(
        BlockValue::try_from(vec![0x00, 0x01, 0x00, 0x06]),
        Ok(BlockValue {
            num: 4096,
            more: false,
            size_exponent: 6
        })
    );
    assert_eq!(
        BlockValue::try_from(vec![0xff, 0xf6]),
        Ok(BlockValue {
            num: 4095,
            more: false,
            size_exponent: 6
        })
    );
}

#[test]
fn decode_refuses_more_than_four_bytes() {
    assert_eq!(
        BlockValue::try_from(vec![0x00, 0x00, 0x00, 0x00, 0x06]),
        Err(IncompatibleOptionValueFormat)
    );
    assert_eq!(
        BlockValue::try_from(vec![1, 2, 3, 4, 5, 6]),
        Err(IncompatibleOptionValueFormat)
    );
}
