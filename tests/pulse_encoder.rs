use ledstrip::{encode_waveform, PinLevel, Pulse, PulsePair, Rgb, TimingProfile};

fn pair(high: u64, low: u64) -> PulsePair {
    PulsePair {
        high: Pulse { level: PinLevel::High, duration_ns: high },
        low: Pulse { level: PinLevel::Low, duration_ns: low },
    }
}

#[test]
fn profiles_hold_their_widths() {
    assert_eq!(TimingProfile::ws2812(), TimingProfile::new(350, 800, 700, 600));
    assert_eq!(TimingProfile::ws2812b(), TimingProfile::new(400, 800, 850, 450));
    assert_eq!(TimingProfile::from_array(&[1, 2, 3, 4]), TimingProfile::new(1, 2, 3, 4));
}

#[test]
fn empty_input_gives_empty_waveform() {
    assert!(encode_waveform(&[], &TimingProfile::ws2812b()).is_empty());
}

#[test]
fn waveform_has_24_pairs_per_pixel() {
    let p = TimingProfile::ws2812();
    for k in 0..5usize {
        let pixels = vec![Rgb::new(9, 8, 7); k];
        assert_eq!(encode_waveform(&pixels, &p).len(), 24 * k);
    }
}

#[test]
fn bits_go_out_green_red_blue_most_significant_first() {
    let p = TimingProfile::new(1, 2, 3, 4);
    let zero = pair(1, 2);
    let one = pair(3, 4);
    let w = encode_waveform(&[Rgb::new(0x01, 0x80, 0x01)], &p);
    let mut expected = vec![zero; 24];
    expected[0] = one; // top bit of green
    expected[15] = one; // low bit of red
    expected[23] = one; // low bit of blue
    assert_eq!(w, expected);
}

#[test]
fn second_pixel_follows_the_first() {
    let p = TimingProfile::ws2812b();
    let w = encode_waveform(&[Rgb::new(0, 0, 0), Rgb::new(255, 255, 255)], &p);
    assert_eq!(w.len(), 48);
    assert!(w[..24].iter().all(|x| *x == pair(400, 800)));
    assert!(w[24..].iter().all(|x| *x == pair(850, 450)));
}
