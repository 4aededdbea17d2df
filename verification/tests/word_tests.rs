use evm_in_rust::hash::keccak_word;
use evm_in_rust::rlp::{
    create2_address, create2_preimage, create_address, create_preimage, rlp_bytes, rlp_u64,
};
use evm_in_rust::{Address, Word};

fn word(bytes: &[u8]) -> Word {
    Word::from_be_bytes(bytes)
}

const MAX: Word = Word { w0: u64::MAX, w1: u64::MAX, w2: u64::MAX, w3: u64::MAX };

#[test]
fn add_carries_across_limbs_and_wraps() {
    let a = Word { w0: u64::MAX, w1: 0, w2: 0, w3: 0 };
    assert_eq!(a.wrapping_add(Word::from_u64(1)), Word { w0: 0, w1: 1, w2: 0, w3: 0 });
    assert_eq!(MAX.wrapping_add(Word::from_u64(1)), Word::zero());
    assert_eq!(MAX.wrapping_add(Word::from_u64(3)), Word::from_u64(2));
}

#[test]
fn sub_borrows_and_wraps() {
    let a = Word { w0: 0, w1: 1, w2: 0, w3: 0 };
    assert_eq!(a.wrapping_sub(Word::from_u64(1)), Word { w0: u64::MAX, w1: 0, w2: 0, w3: 0 });
    assert_eq!(Word::from_u64(3).wrapping_sub(Word::from_u64(5)), Word {
        w0: u64::MAX - 1,
        w1: u64::MAX,
        w2: u64::MAX,
        w3: u64::MAX
    });
}

#[test]
fn mul_wraps() {
    assert_eq!(Word::from_u64(6).wrapping_mul(Word::from_u64(7)), Word::from_u64(42));
    let two_64 = Word { w0: 0, w1: 1, w2: 0, w3: 0 };
    assert_eq!(two_64.wrapping_mul(two_64), Word { w0: 0, w1: 0, w2: 1, w3: 0 });
    let two_128 = Word { w0: 0, w1: 0, w2: 1, w3: 0 };
    assert_eq!(two_128.wrapping_mul(two_128), Word::zero());
    assert_eq!(MAX.wrapping_mul(MAX), Word::from_u64(1));
}

#[test]
fn div_rounds_down_and_gives_zero_for_zero() {
    assert_eq!(Word::from_u64(17).div_or_zero(Word::from_u64(5)), Word::from_u64(3));
    assert_eq!(Word::from_u64(17).div_or_zero(Word::zero()), Word::zero());
    let two_64 = Word { w0: 0, w1: 1, w2: 0, w3: 0 };
    assert_eq!(MAX.div_or_zero(two_64), Word { w0: u64::MAX, w1: u64::MAX, w2: u64::MAX, w3: 0 });
}

#[test]
fn order_goes_by_the_high_limbs_first() {
    let high = Word { w0: 0, w1: 0, w2: 0, w3: 1 };
    let low = Word { w0: u64::MAX, w1: u64::MAX, w2: u64::MAX, w3: 0 };
    assert!(low.lt(&high));
    assert!(!high.lt(&low));
    assert!(!high.lt(&high));
    assert!(high.gt(&low));
    assert!(!low.gt(&high));
    assert!(!low.gt(&low));
}

#[test]
fn bit_operations_work_limb_by_limb() {
    let a = Word { w0: 0b1100, w1: 0xff, w2: 0, w3: u64::MAX };
    let b = Word { w0: 0b1010, w1: 0x0f, w2: 7, w3: 1 };
    assert_eq!(a.bitand(b), Word { w0: 0b1000, w1: 0x0f, w2: 0, w3: 1 });
    assert_eq!(a.bitor(b), Word { w0: 0b1110, w1: 0xff, w2: 7, w3: u64::MAX });
    assert_eq!(a.bitxor(b), Word { w0: 0b0110, w1: 0xf0, w2: 7, w3: u64::MAX - 1 });
    assert_eq!(a.not(), Word { w0: !0b1100, w1: !0xff, w2: u64::MAX, w3: 0 });
}

#[test]
fn big_endian_bytes_round_trip() {
    let mut bytes = [0u8; 32];
    for (i, b) in bytes.iter_mut().enumerate() {
        *b = i as u8 + 1;
    }
    let w = word(&bytes);
    assert_eq!(w, Word {
        w0: 0x191a1b1c1d1e1f20,
        w1: 0x1112131415161718,
        w2: 0x090a0b0c0d0e0f10,
        w3: 0x0102030405060708
    });
    assert_eq!(w.to_be_bytes(), bytes.to_vec());
    assert_eq!(word(&[0x01, 0x02]), Word::from_u64(0x0102));
    assert_eq!(word(&[]), Word::zero());
    let mut expected = vec![0u8; 32];
    expected[31] = 7;
    assert_eq!(Word::from_u64(7).to_be_bytes(), expected);
}

#[test]
fn small_conversions() {
    assert_eq!(Word::from_u128(u128::MAX), Word { w0: u64::MAX, w1: u64::MAX, w2: 0, w3: 0 });
    assert_eq!(Word::from_usize(5), Word::from_u64(5));
    assert_eq!(Word::from_bool(true), Word::one());
    assert_eq!(Word::from_bool(false), Word::zero());
    assert!(Word::zero().is_zero());
    assert!(!Word { w0: 0, w1: 0, w2: 0, w3: 1 }.is_zero());
    assert_eq!(Word::from_u64(9).to_usize(), Some(9));
    assert_eq!(Word { w0: 9, w1: 1, w2: 0, w3: 0 }.to_usize(), None);
    assert_eq!(Word { w0: 9, w1: 1, w2: 0, w3: 0 }.low_usize(), 9);
    assert_eq!(Word { w0: 9, w1: 1, w2: 0, w3: 0 }.saturating_u128(), 9 + (1u128 << 64));
    assert_eq!(Word { w0: 9, w1: 1, w2: 1, w3: 0 }.saturating_u128(), u128::MAX);
    assert_eq!(Word::from_u64(0x1234).low_byte(), 0x34);
}

#[test]
fn address_conversions() {
    let mut bytes = [0u8; 20];
    for (i, b) in bytes.iter_mut().enumerate() {
        *b = 0xa0 + i as u8;
    }
    let a = Address::from_be_bytes(&bytes);
    assert_eq!(a, Address { a0: 0xacadaeafb0b1b2b3, a1: 0xa4a5a6a7a8a9aaab, a2: 0xa0a1a2a3 });
    assert_eq!(a.to_be_bytes(), bytes.to_vec());
    assert_eq!(a.to_word(), Word { w0: a.a0, w1: a.a1, w2: 0xa0a1a2a3, w3: 0 });
    let w = Word { w0: 1, w1: 2, w2: 0xffff_ffff_0000_0003, w3: 9 };
    assert_eq!(Address::from_word(&w), Address { a0: 1, a1: 2, a2: 3 });
    assert_eq!(Address::from_low_u64_be(4).to_be_bytes()[19], 4);
    assert_eq!(Address::zero().to_be_bytes(), vec![0u8; 20]);
    let mut digest = [0u8; 32];
    digest[11] = 0xee;
    digest[12] = 0x11;
    digest[31] = 0x22;
    assert_eq!(Address::from_digest(&digest), Address { a0: 0x22, a1: 0, a2: 0x1100_0000 });
}

fn hex_bytes(s: &str) -> Vec<u8> {
    evm_in_rust::text::parse_hex(s.as_bytes()).unwrap()
}

#[test]
fn keccak_of_known_inputs() {
    assert_eq!(
        keccak_word(&[]).to_be_bytes(),
        hex_bytes("c5d2460186f7233c927e7db2dcc703c0e500b653ca82273b7bfad8045d85a470")
    );
    assert_eq!(
        keccak_word(b"abc").to_be_bytes(),
        hex_bytes("4e03657aea45a94fc7d47ba826c8d667c0d1e6e33a64a036ec44f58fa12d6c45")
    );
}

#[test]
fn rlp_of_short_items() {
    assert_eq!(rlp_bytes(&[0x7f]), vec![0x7f]);
    assert_eq!(rlp_bytes(&[0x80]), vec![0x81, 0x80]);
    assert_eq!(rlp_bytes(&[]), vec![0x80]);
    assert_eq!(rlp_bytes(&[1, 2, 3]), vec![0x83, 1, 2, 3]);
    assert_eq!(rlp_u64(0), vec![0x80]);
    assert_eq!(rlp_u64(1), vec![0x01]);
    assert_eq!(rlp_u64(0x7f), vec![0x7f]);
    assert_eq!(rlp_u64(0x80), vec![0x81, 0x80]);
    assert_eq!(rlp_u64(0x0400), vec![0x82, 0x04, 0x00]);
    assert_eq!(rlp_u64(u64::MAX), vec![0x88, 0xff, 0xff, 0xff, 0xff, 0xff, 0xff, 0xff, 0xff]);
}

#[test]
fn create_addresses_of_a_known_sender() {
    let sender = Address::from_be_bytes(&hex_bytes("6ac7ea33f8831ea9dcc53393aaa88b25a785dbf0"));
    let expected = [
        "cd234a471b72ba2f1ccf0a70fcaba648a5eecd8d",
        "343c43a37d37dff08ae8c4a11544c718abb4fcf8",
        "f778b86fa74e846c4f0a1fbd1335fe81c00a0c91",
        "fffd933a0bc612844eaf0c6fe3e5b8e9b6c1d19c",
    ];
    for (nonce, hex) in expected.iter().enumerate() {
        assert_eq!(create_address(&sender, nonce as u64).to_be_bytes(), hex_bytes(hex));
    }
    let preimage = create_preimage(&sender, 0);
    assert_eq!(preimage.len(), 23);
    assert_eq!(preimage[0], 0xd6);
    assert_eq!(preimage[1], 0x94);
    assert_eq!(preimage[22], 0x80);
}

#[test]
fn create2_address_of_a_known_case() {
    let sender = Address::zero();
    let salt = Word::zero();
    assert_eq!(
        create2_address(&sender, &salt, &[0x00]).to_be_bytes(),
        hex_bytes("4d1a2e2bb4f88f0250f26ffff098b0b30b26bf38")
    );
    let preimage = create2_preimage(&sender, &salt, &[0xab; 32]);
    assert_eq!(preimage.len(), 85);
    assert_eq!(preimage[0], 0xff);
    assert_eq!(preimage[84], 0xab);
}
