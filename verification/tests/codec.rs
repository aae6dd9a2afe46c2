use openssl::bn::BigNum;
use openssl::error::ErrorStack;
use sev::certs::bn::Magnitude;
use sev::certs::util::{FromLe, IntoLe};
use sev::certs::Error;

fn field72(low: &[u8]) -> [u8; 72] {
    let mut field = [0u8; 72];
    field[..low.len()].copy_from_slice(low);
    field
}

fn field512(low: &[u8]) -> [u8; 512] {
    let mut field = [0u8; 512];
    field[..low.len()].copy_from_slice(low);
    field
}

#[test]
fn from_le_reads_least_significant_byte_first() {
    let number = Magnitude::from_le(&field72(&[0x34, 0x12])).unwrap();
    assert_eq!(number.to_vec(), vec![0x12, 0x34]);
    assert_eq!(number.num_bytes(), 2);
}

#[test]
fn from_le_agrees_with_the_cryptography_library() {
    let number = Magnitude::from_le(&field72(&[0x78, 0x56, 0x34, 0x12])).unwrap();
    let theirs = BigNum::from_slice(&number.to_vec()).unwrap();
    assert_eq!(theirs, BigNum::from_u32(0x1234_5678).unwrap());
}

#[test]
fn from_slice_drops_zero_bytes_in_front() {
    let number = Magnitude::from_slice(&[0, 0, 0, 0xab, 0x00, 0xcd]).unwrap();
    assert_eq!(number.to_vec(), vec![0xab, 0x00, 0xcd]);
    assert_eq!(number.num_bytes(), 3);
    assert_eq!(number, Magnitude::from_slice(&[0xab, 0x00, 0xcd]).unwrap());
}

#[test]
fn zero_needs_no_byte() {
    let zero = Magnitude::from_le(&[0u8; 72]).unwrap();
    assert_eq!(zero.to_vec(), Vec::<u8>::new());
    assert_eq!(zero.num_bytes(), 0);
    let small: [u8; 72] = zero.into_le();
    assert_eq!(small, [0u8; 72]);
    let large: [u8; 512] = zero.into_le();
    assert_eq!(large, [0u8; 512]);
    assert_eq!(Magnitude::from_le(&[]).unwrap(), zero);
}

#[test]
fn into_le_pads_with_zero_bytes_after_the_number() {
    let number = Magnitude::from_slice(&[0x01, 0x02, 0x03]).unwrap();
    let small: [u8; 72] = number.into_le();
    assert_eq!(small, field72(&[0x03, 0x02, 0x01]));
    let large: [u8; 512] = number.into_le();
    assert_eq!(large, field512(&[0x03, 0x02, 0x01]));
}

#[test]
fn field_of_72_bytes_round_trips() {
    let mut field = [0u8; 72];
    for (i, byte) in field.iter_mut().enumerate() {
        *byte = (i * 7 + 3) as u8;
    }
    let number = Magnitude::from_le(&field).unwrap();
    assert_eq!(number.num_bytes(), 72);
    let back: [u8; 72] = number.into_le();
    assert_eq!(back, field);
}

#[test]
fn field_of_512_bytes_round_trips() {
    let mut field = [0u8; 512];
    for (i, byte) in field.iter_mut().enumerate() {
        *byte = (i * 13 + 1) as u8;
    }
    field[511] = 0;
    field[510] = 0;
    let number = Magnitude::from_le(&field).unwrap();
    assert_eq!(number.num_bytes(), 510);
    let back: [u8; 512] = number.into_le();
    assert_eq!(back, field);
}

#[test]
fn number_round_trips_through_a_field() {
    let number = Magnitude::from_slice(&[0xde, 0xad, 0xbe, 0xef, 0x00]).unwrap();
    let small: [u8; 72] = number.into_le();
    assert_eq!(Magnitude::from_le(&small).unwrap(), number);
    let large: [u8; 512] = number.into_le();
    assert_eq!(Magnitude::from_le(&large).unwrap(), number);
}

#[test]
fn largest_number_of_a_field_fills_it() {
    let number = Magnitude::from_slice(&[0xff; 72]).unwrap();
    let field: [u8; 72] = number.into_le();
    assert_eq!(field, [0xff; 72]);
    let wide: [u8; 512] = number.into_le();
    assert_eq!(&wide[..72], &[0xff; 72][..]);
    assert_eq!(&wide[72..], &[0u8; 440][..]);
}

#[test]
fn clone_keeps_the_number() {
    let number = Magnitude::from_slice(&[9, 8, 7]).unwrap();
    assert_eq!(number.clone(), number);
}

#[test]
fn refusal_of_the_cryptography_library_is_passed_on() {
    let refused = Magnitude::constructed(Err(ErrorStack::get()));
    assert!(matches!(refused, Err(Error::Crypto(_))));
    let made = Magnitude::constructed(Ok(vec![0x12, 0x34])).unwrap();
    assert_eq!(made, Magnitude::from_slice(&[0x12, 0x34]).unwrap());
}

#[test]
fn more_bytes_than_the_cryptography_library_takes_are_refused() {
    let long = vec![0u8; 0x8000_0000];
    assert!(matches!(Magnitude::from_slice(&long), Err(Error::Oversized)));
    assert!(matches!(Magnitude::from_le(&long), Err(Error::Oversized)));
}
