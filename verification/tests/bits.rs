use shades::bits::{bits_to_bytes, bytes_to_bits};
use shades::marker::{append_marker, MARKER_BITS};

fn bits_from(text: &str) -> Vec<bool> {
    text.chars().filter(|c| *c == '0' || *c == '1').map(|c| c == '1').collect()
}

#[test]
fn bytes_to_bits_is_msb_first() {
    assert_eq!(bytes_to_bits(&[0x74]), bits_from("0111 0100"));
    assert_eq!(bytes_to_bits(&[0x80, 0x01]), bits_from("1000 0000 0000 0001"));
}

#[test]
fn bytes_to_bits_has_eight_bits_per_byte() {
    assert_eq!(bytes_to_bits(&[]).len(), 0);
    assert_eq!(bytes_to_bits(&[0; 5]).len(), 40);
    assert_eq!(bytes_to_bits(b"test").len(), 32);
}

#[test]
fn bits_to_bytes_packs_full_groups() {
    assert_eq!(bits_to_bytes(&bits_from("0111 0100 0110 0101")), vec![0x74, 0x65]);
    assert_eq!(bits_to_bytes(&[]), Vec::<u8>::new());
}

#[test]
fn bits_to_bytes_fills_the_last_group_with_zeros() {
    assert_eq!(bits_to_bytes(&bits_from("101")), vec![0xA0]);
    assert_eq!(bits_to_bytes(&bits_from("1111 1111 1")), vec![0xFF, 0x80]);
    assert_eq!(bits_to_bytes(&bits_from("0111 01")), vec![0x74]);
    assert_eq!(bits_to_bytes(&bits_from("0000 000")), vec![0x00]);
}

#[test]
fn packing_inverts_unpacking_for_every_byte() {
    let all: Vec<u8> = (0..=255u8).collect();
    assert_eq!(bits_to_bytes(&bytes_to_bits(&all)), all);
}

#[test]
fn append_marker_adds_sixty_four_unset_bits() {
    let mut bits = bits_from("1011");
    append_marker(&mut bits);
    assert_eq!(MARKER_BITS, 64);
    assert_eq!(bits.len(), 68);
    assert_eq!(&bits[..4], &bits_from("1011")[..]);
    assert!(bits[4..].iter().all(|bit| !*bit));
}
