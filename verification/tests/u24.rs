use coap_server::app::u24::{u24, TryFromCustomIntError};

#[test]
fn test_wrapping_add() {
    let x = u24::max_value();
    let y = x.wrapping_add(u24::from(1u8));
    assert_eq!(y, u24::min_value());
}

#[test]
fn wrapping_sub_wraps_below_zero() {
    let x = u24::min_value();
    assert_eq!(x.wrapping_sub(u24::from(1u8)), u24::max_value());
    assert_eq!(u24::from(10u8).wrapping_sub(u24::from(3u8)).value(), 7);
}

#[test]
fn wrapping_sub_undoes_wrapping_add() {
    let a = u24::from(0xfff0u16);
    let b = u24::try_from(0xffff00u32).unwrap();
    assert_eq!(a.wrapping_add(b).wrapping_sub(b), a);
    assert_eq!(a.wrapping_add(b).value(), (0xfff0 + 0xffff00) % 0x1000000);
}

#[test]
fn checked_add_and_sub() {
    assert_eq!(u24::max_value().checked_add(u24::from(1u8)), None);
    assert_eq!(u24::from(2u8).checked_add(u24::from(3u8)).map(|v| v.value()), Some(5));
    assert_eq!(u24::from(2u8).checked_sub(u24::from(3u8)), None);
    assert_eq!(u24::from(3u8).checked_sub(u24::from(3u8)), Some(u24::min_value()));
}

#[test]
fn add_within_range() {
    let s = u24::from(200u8) + u24::from(56u8);
    assert_eq!(s.value(), 256);
}

#[test]
fn from_le_bytes_is_little_endian() {
    assert_eq!(u24::from_le_bytes([0x01, 0x02, 0x03]).value(), 0x030201);
    assert_eq!(u24::from_le_bytes([0xff, 0xff, 0xff]), u24::max_value());
}

#[test]
fn conversions_check_the_range() {
    assert_eq!(u24::try_from(0x1000000u32), Err(TryFromCustomIntError));
    assert_eq!(u24::try_from(0xffffffu64).map(|v| v.value()), Ok(0xffffff));
    assert_eq!(u8::try_from(u24::from(255u8)), Ok(255u8));
    assert_eq!(u8::try_from(u24::from(256u16)), Err(TryFromCustomIntError));
    assert_eq!(u16::try_from(u24::try_from(0x10000u32).unwrap()), Err(TryFromCustomIntError));
    assert_eq!(u32::from(u24::max_value()), 0xffffff);
    assert_eq!(u64::from(u24::from(7u8)), 7);
}

#[test]
fn displays_in_decimal() {
    assert_eq!(u24::max_value().to_decimal_string(), "16777215");
    assert_eq!(u24::min_value().to_decimal_string(), "0");
    assert_eq!(TryFromCustomIntError.describe(), "out of range integral type conversion attempted");
}
