use encrypted_zip::byteorder::{le_from_u16, le_from_u32};
use encrypted_zip::crc::crc32;
use encrypted_zip::mt::{MersenneTwister, MT_DRAWS};

#[test]
fn le_from_u32_reverses_bytes() {
    assert_eq!(le_from_u32(0x04034b50), 0x504b0304);
    assert_eq!(le_from_u32(0x12345678), 0x78563412);
    assert_eq!(le_from_u32(0), 0);
    assert_eq!(le_from_u32(0xffffffff), 0xffffffff);
    assert_eq!(le_from_u32(0x04034b50).to_be_bytes(), 0x04034b50u32.to_le_bytes());
}

#[test]
fn le_from_u16_reverses_bytes() {
    assert_eq!(le_from_u16(0x1234), 0x3412);
    assert_eq!(le_from_u16(0x0014), 0x1400);
    assert_eq!(le_from_u16(0x0014).to_be_bytes(), [0x14, 0x00]);
}

#[test]
fn swapping_twice_is_identity() {
    for x in [0u32, 1, 0x80000000, 0xdeadbeef, 0x00ff00ff] {
        assert_eq!(le_from_u32(le_from_u32(x)), x);
    }
    for x in [0u16, 1, 0x8000, 0xbeef] {
        assert_eq!(le_from_u16(le_from_u16(x)), x);
    }
}

fn checksum(data: &[u8]) -> u32 {
    let mut c: u32 = 0xffffffff;
    for b in data {
        c = crc32(c, *b);
    }
    !c
}

#[test]
fn crc32_check_value() {
    assert_eq!(checksum(b"123456789"), 0xCBF43926);
    assert_eq!(checksum(b"hello world"), 0x0d4a1185);
    assert_eq!(checksum(b""), 0);
}

#[test]
fn mersenne_twister_reference_outputs() {
    let mut mt = MersenneTwister::new(5489);
    let expected = [3499211612u32, 581869302, 3890346734, 3586334585, 545404204];
    for e in expected {
        assert_eq!(mt.next(), e);
    }
    let mut mt = MersenneTwister::new(1);
    assert_eq!(mt.next(), 1791095845);
    assert_eq!(mt.next(), 4282876139);
    assert_eq!(mt.next(), 3093770124);
}

#[test]
fn mersenne_twister_draws_its_full_budget() {
    let mut mt = MersenneTwister::new(5);
    for _ in 0..MT_DRAWS {
        mt.next();
    }
    assert_eq!(MT_DRAWS, 226);
}
