use ncomm::{Packable, PackingError};

fn round_trip<T: Packable + Copy + PartialEq + std::fmt::Debug>(value: T) {
    let mut buffer = vec![0u8; T::len()];
    value.pack(&mut buffer).unwrap();
    assert_eq!(T::unpack(&buffer).unwrap(), value);
    let mut short = vec![0u8; T::len() - 1];
    assert_eq!(value.pack(&mut short), Err(PackingError::InvalidBufferSize));
    assert!(short.iter().all(|b| *b == 0));
    assert_eq!(T::unpack(&short), Err(PackingError::InvalidBufferSize));
}

#[test]
fn unsigned_round_trips() {
    for v in [0u8, 1, 127, 255] {
        round_trip(v);
    }
    for v in [0u16, 1, 0x1234, u16::MAX] {
        round_trip(v);
    }
    for v in [0u32, 0xdead_beef, u32::MAX] {
        round_trip(v);
    }
    for v in [0u64, 0x0123_4567_89ab_cdef, u64::MAX] {
        round_trip(v);
    }
    for v in [0u128, 1 << 100, u128::MAX] {
        round_trip(v);
    }
    for v in [0usize, 12345, u32::MAX as usize] {
        round_trip(v);
    }
}

#[test]
fn signed_round_trips() {
    for v in [0i8, -1, i8::MIN, i8::MAX] {
        round_trip(v);
    }
    for v in [0i16, -2, i16::MIN, i16::MAX] {
        round_trip(v);
    }
    for v in [0i32, -123456, i32::MIN, i32::MAX] {
        round_trip(v);
    }
    for v in [0i64, -1, i64::MIN, i64::MAX] {
        round_trip(v);
    }
    for v in [0i128, -1, i128::MIN, i128::MAX] {
        round_trip(v);
    }
    for v in [0isize, -1, -123456, i32::MAX as isize] {
        round_trip(v);
    }
}

#[test]
fn lengths() {
    assert_eq!(u8::len(), 1);
    assert_eq!(i8::len(), 1);
    assert_eq!(u16::len(), 2);
    assert_eq!(i16::len(), 2);
    assert_eq!(u32::len(), 4);
    assert_eq!(i32::len(), 4);
    assert_eq!(u64::len(), 8);
    assert_eq!(i64::len(), 8);
    assert_eq!(u128::len(), 16);
    assert_eq!(i128::len(), 16);
    assert_eq!(usize::len(), 8);
    assert_eq!(isize::len(), 8);
}

#[test]
fn packed_bytes_are_big_endian() {
    let mut buffer = [0u8; 4];
    0x1234u16.pack(&mut buffer).unwrap();
    assert_eq!(buffer, [0x12, 0x34, 0, 0]);
    (-2i16).pack(&mut buffer).unwrap();
    assert_eq!(buffer, [0xff, 0xfe, 0, 0]);
    0x0102_0304u32.pack(&mut buffer).unwrap();
    assert_eq!(buffer, [1, 2, 3, 4]);
    assert_eq!(u16::unpack(&[0xab, 0xcd, 0xef]).unwrap(), 0xabcd);
    assert_eq!(i8::unpack(&[0x80]).unwrap(), -128);
}

#[test]
fn packing_leaves_rest_of_buffer() {
    let mut buffer = [9u8; 5];
    7u8.pack(&mut buffer).unwrap();
    assert_eq!(buffer, [7, 9, 9, 9, 9]);
}

#[test]
fn test_u8_packing() {
    let mut buffer = [0u8; 1];
    assert!(129u8.pack(&mut buffer).is_ok());
    assert_eq!(129u8, u8::unpack(&buffer).unwrap());
}

#[test]
fn test_u16_packing() {
    let mut buffer = [0u8; 2];
    assert!(129u16.pack(&mut buffer).is_ok());
    assert_eq!(129u16, u16::unpack(&buffer).unwrap());
}

#[test]
fn test_u32_packing() {
    let mut buffer = [0u8; 4];
    assert!(129u32.pack(&mut buffer).is_ok());
    assert_eq!(129u32, u32::unpack(&buffer).unwrap());
}

#[test]
fn test_u64_packing() {
    let mut buffer = [0u8; 8];
    assert!(129u64.pack(&mut buffer).is_ok());
    assert_eq!(129u64, u64::unpack(&buffer).unwrap());
}

#[test]
fn test_u128_packing() {
    let mut buffer = [0u8; 16];
    assert!(129u128.pack(&mut buffer).is_ok());
    assert_eq!(129u128, u128::unpack(&buffer).unwrap());
}

#[test]
fn test_usize_packing() {
    let mut buffer = [0u8; 16];
    assert!(129usize.pack(&mut buffer).is_ok());
    assert_eq!(129usize, usize::unpack(&buffer).unwrap());
}

#[test]
fn test_i8_packing() {
    let mut buffer = [0u8; 1];
    assert!(15i8.pack(&mut buffer).is_ok());
    assert_eq!(15i8, i8::unpack(&buffer).unwrap());
}

#[test]
fn test_i16_packing() {
    let mut buffer = [0u8; 2];
    assert!(129i16.pack(&mut buffer).is_ok());
    assert_eq!(129i16, i16::unpack(&buffer).unwrap());
}

#[test]
fn test_i32_packing() {
    let mut buffer = [0u8; 4];
    assert!(129i32.pack(&mut buffer).is_ok());
    assert_eq!(129i32, i32::unpack(&buffer).unwrap());
}

#[test]
fn test_i64_packing() {
    let mut buffer = [0u8; 8];
    assert!(129i64.pack(&mut buffer).is_ok());
    assert_eq!(129i64, i64::unpack(&buffer).unwrap());
}

#[test]
fn test_i128_packing() {
    let mut buffer = [0u8; 16];
    assert!(129i128.pack(&mut buffer).is_ok());
    assert_eq!(129i128, i128::unpack(&buffer).unwrap());
}

#[test]
fn test_isize_packing() {
    let mut buffer = [0u8; 16];
    assert!(129isize.pack(&mut buffer).is_ok());
    assert_eq!(129isize, isize::unpack(&buffer).unwrap());
}
