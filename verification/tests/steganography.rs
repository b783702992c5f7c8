use image::{ImageBuffer, Rgb, RgbImage};
use shades::carrier::CarrierImage;
use shades::cryptography::{decrypt_data, encrypt_data};
use shades::error::StegoError;
use shades::steganography::{
    embed_data_in_image, embed_encrypted_data, extract_data_from_image, extract_encrypted_data,
};

fn white_carrier(width: u32, height: u32) -> CarrierImage {
    let img: RgbImage = ImageBuffer::from_fn(width, height, |_, _| Rgb([255, 255, 255]));
    CarrierImage::new(width, height, img.into_raw()).expect("Failed to create test image.")
}

fn carrier_of(samples: Vec<u8>) -> CarrierImage {
    let pixels = (samples.len() / 3) as u32;
    CarrierImage::new(pixels, 1, samples).expect("three samples per pixel")
}

#[test]
fn png_test_embed_and_extract_data() {
    let mut image = white_carrier(100, 100);

    let data = b"test";
    let embedded_data = b"test";

    embed_data_in_image(&mut image, data).expect("Failed to embed data");

    let extracted_data = extract_data_from_image(&image).expect("Failed to extract data");

    assert_eq!(extracted_data, embedded_data);
}

#[test]
fn png_test_cryptography_embed_extract() {
    let mut image = white_carrier(100, 100);

    let password = "test";
    let data = "Hello World!";

    let encrypted_data = encrypt_data(data, password).expect("Encryption failed.");

    embed_encrypted_data(&mut image, &encrypted_data, password).expect("Failed to embed data.");

    let extracted_data =
        extract_encrypted_data(&image, password).expect("Failed to extract data.");

    let decrypted_data = decrypt_data(&extracted_data, password).expect("Decryption failed.");

    assert_eq!(decrypted_data, data);
}

#[test]
fn embed_then_extract_recovers_the_text() {
    let mut image = white_carrier(100, 100);
    embed_encrypted_data(&mut image, "Hello World!", "test").expect("Failed to embed data.");
    let text = extract_encrypted_data(&image, "test").expect("Failed to extract data.");
    assert_eq!(text, "Hello World!");
}

#[test]
fn extract_with_another_password_fails() {
    let mut image = white_carrier(100, 100);
    embed_encrypted_data(&mut image, "Hello World!", "test").expect("Failed to embed data.");
    assert_eq!(extract_encrypted_data(&image, "tset"), Err(StegoError::Decryption));
}

#[test]
fn embed_writes_only_least_significant_bits() {
    let before: Vec<u8> = (0..300u32).map(|i| (i * 7 % 256) as u8).collect();
    let mut image = carrier_of(before.clone());
    embed_data_in_image(&mut image, &[0xA5, 0x3C]).expect("Failed to embed data");
    let after = image.samples().to_vec();
    let written = [
        true, false, true, false, false, true, false, true, false, false, true, true, true, true,
        false, false,
    ];
    for i in 0..300 {
        assert_eq!(after[i] >> 1, before[i] >> 1);
        if i < 16 {
            assert_eq!(after[i] & 1 == 1, written[i]);
        } else if i < 80 {
            assert_eq!(after[i] & 1, 0);
        } else {
            assert_eq!(after[i], before[i]);
        }
    }
}

#[test]
fn embed_keeps_the_dimensions() {
    let mut image = white_carrier(12, 7);
    embed_data_in_image(&mut image, b"ab").expect("Failed to embed data");
    assert_eq!(image.width(), 12);
    assert_eq!(image.height(), 7);
    assert_eq!(image.capacity(), 12 * 7 * 3);
    assert_eq!(image.into_samples().len(), 12 * 7 * 3);
}

#[test]
fn embed_fills_a_carrier_that_fits_exactly() {
    // 4 bytes and the marker need 96 bits: 32 pixels.
    let mut image = white_carrier(8, 4);
    assert_eq!(embed_data_in_image(&mut image, b"test"), Ok(()));
    assert_eq!(extract_data_from_image(&image), Ok(b"test".to_vec()));
}

#[test]
fn embed_refuses_a_carrier_that_is_one_pixel_short() {
    let mut image = white_carrier(31, 1);
    let before = image.samples().to_vec();
    assert_eq!(embed_data_in_image(&mut image, b"test"), Err(StegoError::Capacity));
    assert_eq!(image.samples(), &before[..]);
}

#[test]
fn embed_refuses_a_carrier_smaller_than_the_marker() {
    let mut image = white_carrier(3, 7);
    let before = image.samples().to_vec();
    assert_eq!(embed_data_in_image(&mut image, &[]), Err(StegoError::Capacity));
    assert_eq!(image.samples(), &before[..]);
    let mut empty = white_carrier(0, 0);
    assert_eq!(embed_data_in_image(&mut empty, &[]), Err(StegoError::Capacity));
}

#[test]
fn embed_encrypted_refuses_a_small_carrier_untouched() {
    // "Hello World!" needs 16 * 12 + 768 = 960 bits: 320 pixels.
    let mut image = white_carrier(319, 1);
    let before = image.samples().to_vec();
    assert_eq!(
        embed_encrypted_data(&mut image, "Hello World!", "test"),
        Err(StegoError::Capacity)
    );
    assert_eq!(image.samples(), &before[..]);
    let mut enough = white_carrier(320, 1);
    assert_eq!(embed_encrypted_data(&mut enough, "Hello World!", "test"), Ok(()));
    assert_eq!(extract_encrypted_data(&enough, "test"), Ok(String::from("Hello World!")));
}

#[test]
fn extract_without_marker_fails() {
    let image = white_carrier(100, 100);
    assert_eq!(extract_data_from_image(&image), Err(StegoError::NoEmbeddedData));
    assert_eq!(extract_encrypted_data(&image, "test"), Err(StegoError::NoEmbeddedData));
    let tiny = white_carrier(2, 2);
    assert_eq!(extract_data_from_image(&tiny), Err(StegoError::NoEmbeddedData));
}

#[test]
fn extract_of_a_bare_marker_is_empty() {
    let mut image = white_carrier(10, 10);
    embed_data_in_image(&mut image, &[]).expect("Failed to embed data");
    assert_eq!(extract_data_from_image(&image), Ok(Vec::new()));
    assert_eq!(extract_encrypted_data(&image, "test"), Err(StegoError::NoEmbeddedData));
}

#[test]
fn extract_of_a_black_image_is_empty() {
    let image = carrier_of(vec![0; 300]);
    assert_eq!(extract_data_from_image(&image), Ok(Vec::new()));
}

#[test]
fn a_run_of_sixty_three_unset_bits_does_not_end_the_payload() {
    // 0xFF, then 56 + 7 unset bits, then a set bit.
    let payload = [0xFF, 0, 0, 0, 0, 0, 0, 0, 0x01, 0x42];
    let mut image = white_carrier(100, 1);
    embed_data_in_image(&mut image, &payload).expect("Failed to embed data");
    assert_eq!(extract_data_from_image(&image), Ok(payload.to_vec()));
}

#[test]
fn a_run_of_sixty_four_unset_bits_ends_the_payload() {
    let payload = [0xFF, 0, 0, 0, 0, 0, 0, 0, 0, 0x42];
    let mut image = white_carrier(100, 1);
    embed_data_in_image(&mut image, &payload).expect("Failed to embed data");
    assert_eq!(extract_data_from_image(&image), Ok(vec![0xFF]));
}

#[test]
fn unset_bits_at_the_end_of_the_payload_come_back() {
    // 0x74 ends in two unset bits, 0x80 in seven: the marker is found early
    // and the last byte is filled up again.
    for payload in [vec![0x74u8], vec![0x12, 0x80], vec![0xFF, 0x10]] {
        let mut image = white_carrier(100, 1);
        embed_data_in_image(&mut image, &payload).expect("Failed to embed data");
        assert_eq!(extract_data_from_image(&image), Ok(payload));
    }
}

#[test]
fn a_zero_byte_at_the_end_of_the_payload_is_lost() {
    let mut image = white_carrier(100, 1);
    embed_data_in_image(&mut image, &[0x41, 0x00]).expect("Failed to embed data");
    assert_eq!(extract_data_from_image(&image), Ok(vec![0x41]));
}

#[test]
fn extract_reads_the_first_marker_only() {
    let mut samples = vec![255u8; 600];
    // bits 0..8 spell 0x5A, bits 8..72 are the marker, the rest is set
    let first = [false, true, false, true, true, false, true, false];
    for i in 0..8 {
        samples[i] = if first[i] { 0x11 } else { 0x10 };
    }
    for sample in samples.iter_mut().take(72).skip(8) {
        *sample = 0xFE;
    }
    // a second run of unset bits further on changes nothing
    for sample in samples.iter_mut().take(400).skip(200) {
        *sample = 0;
    }
    let image = carrier_of(samples);
    assert_eq!(extract_data_from_image(&image), Ok(vec![0x5A]));
}

#[test]
fn carrier_needs_three_samples_per_pixel() {
    assert!(CarrierImage::new(2, 2, vec![0; 12]).is_some());
    assert!(CarrierImage::new(2, 2, vec![0; 11]).is_none());
    assert!(CarrierImage::new(2, 2, vec![0; 16]).is_none());
    assert!(CarrierImage::new(0, 5, Vec::new()).is_some());
    assert!(CarrierImage::new(u32::MAX, u32::MAX, vec![0; 3]).is_none());
}

#[test]
fn carrier_reads_and_writes_single_bits() {
    let mut image = carrier_of(vec![0x10, 0x11, 0xFF]);
    assert!(!image.lsb(0));
    assert!(image.lsb(1));
    assert!(image.lsb(2));
    image.set_lsb(0, true);
    image.set_lsb(2, false);
    image.set_lsb(1, true);
    assert_eq!(image.samples(), &[0x11, 0x11, 0xFE][..]);
}

#[test]
fn carrier_pixels_stand_in_raster_order() {
    let samples: Vec<u8> = (0..24u8).collect();
    let image = CarrierImage::new(4, 2, samples).expect("three samples per pixel");
    assert_eq!(image.pixel(0, 0), [0, 1, 2]);
    assert_eq!(image.pixel(3, 0), [9, 10, 11]);
    assert_eq!(image.pixel(0, 1), [12, 13, 14]);
    assert_eq!(image.pixel(3, 1), [21, 22, 23]);
}

#[test]
fn embed_walks_the_pixels_row_by_row() {
    let img: RgbImage = ImageBuffer::from_fn(40, 5, |x, y| Rgb([x as u8, y as u8, 0xFF]));
    let mut image = CarrierImage::new(40, 5, img.into_raw()).expect("three samples per pixel");
    embed_data_in_image(&mut image, &[0xFF, 0xFF, 0xFF, 0xFF]).expect("Failed to embed data");
    // 32 set bits, then 64 unset ones: pixels 0..10 and the first two
    // channels of pixel 10 hold set bits, the marker ends with pixel 31.
    for y in 0..5u32 {
        for x in 0..40u32 {
            let at = 3 * (y * 40 + x);
            let rgb = image.pixel(x, y);
            for c in 0..3u32 {
                let old = [x as u8, y as u8, 0xFF][c as usize];
                let bit = at + c;
                let expected = if bit < 32 {
                    old | 1
                } else if bit < 96 {
                    old & 0xFE
                } else {
                    old
                };
                assert_eq!(rgb[c as usize], expected);
            }
        }
    }
}
