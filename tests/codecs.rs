use rand::rngs::StdRng;
use rand::SeedableRng;
use stag::{
    Codec, GrayAlphaCodec, GrayAlphaMode, PixelBuffer, RgbCodec, RgbMode, RgbaCodec, RgbaMode,
};

fn payload_1_to_25() -> Vec<u8> {
    vec![
        1, 2, 3, 4, 5, 6, 7, 8, 9, 10, 11, 12, 13, 14, 15, 16, 17, 18, 19, 20, 21, 22, 23, 24, 25,
    ]
}

#[test]
fn gray_alpha_alpha() {
    let mut image = PixelBuffer::from_pixel(30, 8, &[127u8; 2]);
    let payload = payload_1_to_25();
    let mut buf = vec![0; 25];
    let rng = StdRng::from_entropy();

    GrayAlphaCodec::encode(&mut image, &payload, GrayAlphaMode::Alpha, rng);
    GrayAlphaCodec::decode(&image, &mut buf, 25, GrayAlphaMode::Alpha);

    assert_eq!(payload, buf);
}

#[test]
fn gray_alpha_all() {
    let mut image = PixelBuffer::from_pixel(30, 8, &[127u8; 2]);
    let payload = payload_1_to_25();
    let mut buf = vec![0; 25];
    let rng = StdRng::from_entropy();

    GrayAlphaCodec::encode(&mut image, &payload, GrayAlphaMode::All, rng);
    GrayAlphaCodec::decode(&image, &mut buf, 25, GrayAlphaMode::All);

    assert_eq!(payload, buf);
}

#[test]
fn rgba_alpha() {
    let mut image = PixelBuffer::from_pixel(25, 8, &[127u8; 4]);
    let payload = payload_1_to_25();
    let mut buf = vec![0; 25];
    let rng = StdRng::from_entropy();

    RgbaCodec::encode(&mut image, &payload, RgbaMode::Alpha, rng);
    RgbaCodec::decode(&image, &mut buf, 25, RgbaMode::Alpha);

    assert_eq!(payload, buf);
}

#[test]
fn rgba_all() {
    let mut image = PixelBuffer::from_pixel(25, 2, &[127u8; 4]);
    let payload = payload_1_to_25();
    let mut buf = vec![0; 25];
    let rng = StdRng::from_entropy();

    RgbaCodec::encode(&mut image, &payload, RgbaMode::All, rng);
    RgbaCodec::decode(&image, &mut buf, 25, RgbaMode::All);

    assert_eq!(payload, buf);
}

#[test]
fn gray_alpha_scenario_estimate_and_round_trip() {
    let mut image = PixelBuffer::from_pixel(8, 30, &[127u8; 2]);
    assert_eq!(GrayAlphaCodec::estimate(&image, GrayAlphaMode::Alpha), Some(30));
    assert_eq!(GrayAlphaCodec::estimate(&image, GrayAlphaMode::All), Some(60));
    let payload = payload_1_to_25();
    let mut buf = vec![0; 25];
    GrayAlphaCodec::encode(&mut image, &payload, GrayAlphaMode::Alpha, StdRng::seed_from_u64(7));
    GrayAlphaCodec::decode(&image, &mut buf, 25, GrayAlphaMode::Alpha);
    assert_eq!(buf, payload);
}

#[test]
fn rgba_each_scenario_twelve_bytes() {
    let mut image = PixelBuffer::from_pixel(24, 1, &[127u8; 4]);
    assert_eq!(RgbaCodec::estimate(&image, RgbaMode::All), Some(12));
    assert_eq!(RgbaCodec::estimate(&image, RgbaMode::Alpha), Some(3));
    let payload: Vec<u8> = vec![0, 255, 1, 128, 77, 200, 13, 42, 99, 254, 3, 170];
    let mut buf = vec![0; 12];
    let mode = RgbaMode::from_str("each").unwrap();
    RgbaCodec::encode(&mut image, &payload, mode, StdRng::seed_from_u64(11));
    RgbaCodec::decode(&image, &mut buf, 12, mode);
    assert_eq!(buf, payload);
}

#[test]
fn decode_past_capacity_leaves_zeros() {
    // 40 pixels in alpha mode hold five bytes.
    let mut image = PixelBuffer::from_pixel(40, 1, &[127u8; 4]);
    assert_eq!(RgbaCodec::estimate(&image, RgbaMode::Alpha), Some(5));
    let payload: Vec<u8> = vec![10, 20, 30, 40, 50];
    RgbaCodec::encode(&mut image, &payload, RgbaMode::Alpha, StdRng::seed_from_u64(3));
    let mut buf = vec![0u8; 10];
    RgbaCodec::decode(&image, &mut buf, 10, RgbaMode::Alpha);
    assert_eq!(buf, vec![10, 20, 30, 40, 50, 0, 0, 0, 0, 0]);
}

#[test]
fn decode_leaves_bytes_past_len_untouched() {
    let mut image = PixelBuffer::from_pixel(16, 1, &[127u8; 2]);
    GrayAlphaCodec::encode(&mut image, &[0xA5, 0x5A], GrayAlphaMode::Alpha, StdRng::seed_from_u64(5));
    let mut buf = vec![9u8; 4];
    GrayAlphaCodec::decode(&image, &mut buf, 1, GrayAlphaMode::Alpha);
    assert_eq!(buf, vec![0xA5, 9, 9, 9]);
}

#[test]
fn estimate_plus_one_drops_the_excess_byte() {
    // 4 by 4 gray+alpha, all channels: 16 pixels, four bytes.
    let original = PixelBuffer::from_pixel(4, 4, &[100u8, 101u8]);
    let estimate = GrayAlphaCodec::estimate(&original, GrayAlphaMode::All).unwrap();
    assert_eq!(estimate, 4);
    let payload: Vec<u8> = vec![0xFF, 0x00, 0x0F, 0xF0, 0xAA];
    let mut image = PixelBuffer::from_pixel(4, 4, &[100u8, 101u8]);
    GrayAlphaCodec::encode(&mut image, &payload, GrayAlphaMode::All, StdRng::seed_from_u64(1));
    let mut buf = vec![0u8; 5];
    GrayAlphaCodec::decode(&image, &mut buf, 5, GrayAlphaMode::All);
    assert_eq!(buf, vec![0xFF, 0x00, 0x0F, 0xF0, 0x00]);
}

#[test]
fn estimate_plus_one_leaves_trailing_channels() {
    // 9 pixels in alpha mode: one byte fits, the ninth pixel stays as it was.
    let mut image = PixelBuffer::from_pixel(9, 1, &[0u8; 4]);
    assert_eq!(RgbaCodec::estimate(&image, RgbaMode::Alpha), Some(1));
    RgbaCodec::encode(&mut image, &[0xFF, 0xFF], RgbaMode::Alpha, StdRng::seed_from_u64(2));
    let raw = image.as_raw();
    for p in 0..8 {
        assert_eq!(raw[p * 4 + 3], 1);
    }
    assert_eq!(&raw[32..36], &[0, 0, 0, 0]);
}

#[test]
fn rgb_round_trip_and_estimate() {
    // 8 pixels: three bytes fit, a byte per three pixels is reported.
    let mut image = PixelBuffer::from_pixel(8, 1, &[50u8, 51u8, 52u8]);
    assert_eq!(RgbCodec::estimate(&image, RgbMode::All), Some(2));
    let payload: Vec<u8> = vec![0x81, 0x7E];
    RgbCodec::encode(&mut image, &payload, RgbMode::All, StdRng::seed_from_u64(9));
    let mut buf = vec![0u8; 2];
    RgbCodec::decode(&image, &mut buf, 2, RgbMode::All);
    assert_eq!(buf, payload);
}

#[test]
fn rgb_three_bytes_per_eight_pixels() {
    let mut image = PixelBuffer::from_pixel(24, 1, &[200u8; 3]);
    assert_eq!(RgbCodec::estimate(&image, RgbMode::All), Some(8));
    let payload: Vec<u8> = (1u8..=9).collect();
    RgbCodec::encode(&mut image, &payload, RgbMode::All, StdRng::seed_from_u64(4));
    let mut buf = vec![0u8; 9];
    RgbCodec::decode(&image, &mut buf, 9, RgbMode::All);
    assert_eq!(buf, payload);
}

#[test]
fn modes_parse_and_default() {
    assert!(matches!(GrayAlphaMode::from_str("alpha"), Ok(GrayAlphaMode::Alpha)));
    assert!(matches!(GrayAlphaMode::from_str("all"), Ok(GrayAlphaMode::All)));
    assert!(GrayAlphaMode::from_str("each").is_err());
    assert!(GrayAlphaMode::from_str("").is_err());
    assert!(matches!(RgbMode::from_str("all"), Ok(RgbMode::All)));
    assert!(RgbMode::from_str("alpha").is_err());
    assert!(matches!(RgbaMode::from_str("alpha"), Ok(RgbaMode::Alpha)));
    assert!(matches!(RgbaMode::from_str("all"), Ok(RgbaMode::All)));
    assert!(matches!(RgbaMode::from_str("each"), Ok(RgbaMode::All)));
    assert!(RgbaMode::from_str("Alpha").is_err());
    assert!(matches!(GrayAlphaMode::default(), GrayAlphaMode::Alpha));
    assert!(matches!(RgbMode::default(), RgbMode::All));
    assert!(matches!(RgbaMode::default(), RgbaMode::Alpha));
}

#[test]
fn rgb_partial_group_is_left_alone() {
    // Three pixels make no whole group of eight: nothing is written or read.
    let mut image = PixelBuffer::from_pixel(3, 1, &[0u8; 3]);
    RgbCodec::encode(&mut image, &[0x01], RgbMode::All, StdRng::seed_from_u64(8));
    assert_eq!(image.as_raw(), &[0u8; 9][..]);
    let mut buf = vec![9u8];
    RgbCodec::decode(&image, &mut buf, 1, RgbMode::All);
    assert_eq!(buf, vec![9u8]);
}

#[test]
fn rgb_trailing_pixels_past_whole_groups_stay() {
    // Sixteen pixels hold six bytes; the seventh is dropped and the seven
    // pixels after the two groups are untouched.
    let mut image = PixelBuffer::from_pixel(23, 1, &[0u8; 3]);
    assert_eq!(RgbCodec::estimate(&image, RgbMode::All), Some(7));
    let payload: Vec<u8> = vec![0xFF; 7];
    RgbCodec::encode(&mut image, &payload, RgbMode::All, StdRng::seed_from_u64(6));
    let raw = image.as_raw();
    assert!(raw[..48].iter().all(|v| *v == 1));
    assert!(raw[48..].iter().all(|v| *v == 0));
    let mut buf = vec![0u8; 7];
    RgbCodec::decode(&image, &mut buf, 7, RgbMode::All);
    assert_eq!(buf, vec![0xFF, 0xFF, 0xFF, 0xFF, 0xFF, 0xFF, 0]);
}
