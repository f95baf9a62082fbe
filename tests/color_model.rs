use ledstrip::{LedError, Rgb};

#[test]
fn new_keeps_channels() {
    let c = Rgb::new(8, 0, 4);
    assert_eq!((c.r, c.g, c.b), (8, 0, 4));
}

#[test]
fn from_slice_reads_red_green_blue() {
    let c = Rgb::from_slice(&[1, 2, 3]);
    assert_eq!(c, Rgb::new(1, 2, 3));
}

#[test]
fn from_hsv_strip_default_cyan() {
    assert_eq!(Rgb::from_hsv(150, 100, 13), Ok(Rgb::new(0, 33, 16)));
}

#[test]
fn from_hsv_primaries_and_secondaries() {
    assert_eq!(Rgb::from_hsv(0, 100, 100), Ok(Rgb::new(255, 0, 0)));
    assert_eq!(Rgb::from_hsv(60, 100, 100), Ok(Rgb::new(255, 255, 0)));
    assert_eq!(Rgb::from_hsv(120, 100, 100), Ok(Rgb::new(0, 255, 0)));
    assert_eq!(Rgb::from_hsv(240, 100, 100), Ok(Rgb::new(0, 0, 255)));
    assert_eq!(Rgb::from_hsv(300, 100, 100), Ok(Rgb::new(255, 0, 255)));
    assert_eq!(Rgb::from_hsv(360, 100, 100), Ok(Rgb::new(255, 0, 0)));
}

#[test]
fn from_hsv_intermediate_values_truncate() {
    assert_eq!(Rgb::from_hsv(30, 100, 100), Ok(Rgb::new(255, 127, 0)));
    assert_eq!(Rgb::from_hsv(90, 100, 100), Ok(Rgb::new(127, 255, 0)));
    assert_eq!(Rgb::from_hsv(200, 50, 80), Ok(Rgb::new(102, 170, 204)));
    assert_eq!(Rgb::from_hsv(330, 40, 70), Ok(Rgb::new(178, 107, 142)));
    assert_eq!(Rgb::from_hsv(0, 0, 50), Ok(Rgb::new(127, 127, 127)));
    assert_eq!(Rgb::from_hsv(17, 100, 0), Ok(Rgb::new(0, 0, 0)));
}

#[test]
fn from_hsv_is_deterministic_and_in_byte_range() {
    for h in (0..=360).step_by(7) {
        for s in (0..=100).step_by(9) {
            for v in (0..=100).step_by(11) {
                let a = Rgb::from_hsv(h, s, v).unwrap();
                let b = Rgb::from_hsv(h, s, v).unwrap();
                assert_eq!(a, b);
            }
        }
    }
}

#[test]
fn from_hsv_accepts_inclusive_bounds() {
    assert!(Rgb::from_hsv(360, 100, 100).is_ok());
    assert!(Rgb::from_hsv(0, 0, 0).is_ok());
}

#[test]
fn from_hsv_rejects_out_of_range() {
    assert_eq!(Rgb::from_hsv(361, 0, 0), Err(LedError::InvalidRange));
    assert_eq!(Rgb::from_hsv(0, 101, 0), Err(LedError::InvalidRange));
    assert_eq!(Rgb::from_hsv(0, 0, 101), Err(LedError::InvalidRange));
    assert_eq!(Rgb::from_hsv(u32::MAX, u32::MAX, u32::MAX), Err(LedError::InvalidRange));
}

#[test]
fn packed_word_puts_green_high_red_middle_blue_low() {
    assert_eq!(Rgb::new(1, 2, 4).to_packed_u32(), 0x0002_0104);
    assert_eq!(Rgb::new(255, 0, 0).to_packed_u32(), 0x0000_ff00);
    assert_eq!(Rgb::new(0, 255, 0).to_packed_u32(), 0x00ff_0000);
    assert_eq!(Rgb::new(0, 0, 255).to_packed_u32(), 0x0000_00ff);
}

#[test]
fn packed_word_unpacks_to_the_same_channels() {
    for (r, g, b) in [(0u8, 0u8, 0u8), (1, 2, 4), (255, 255, 255), (18, 52, 86), (200, 7, 99)] {
        let p = Rgb::new(r, g, b).to_packed_u32();
        assert!(p < 1 << 24);
        assert_eq!(((p >> 8) & 0xff) as u8, r);
        assert_eq!(((p >> 16) & 0xff) as u8, g);
        assert_eq!((p & 0xff) as u8, b);
    }
}
