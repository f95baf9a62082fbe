use ledstrip::{
    encode_waveform, ControlRequest, FrameReport, LedError, PacketFault, Rgb, SharedFrame,
    TimingProfile,
};

fn packet(values: &[u8]) -> Vec<u8> {
    let mut p = vec![0u8; 125 + values.len()];
    p[123..125].copy_from_slice(&(values.len() as u16).to_be_bytes());
    p[125..].copy_from_slice(values);
    p
}

#[test]
fn shared_frame_starts_with_defaults() {
    let s = SharedFrame::new(3, Rgb::new(0, 33, 16));
    assert_eq!(s.capacity(), 3);
    assert_eq!(s.snapshot().as_slice(), &[Rgb::new(0, 33, 16); 3][..]);
}

#[test]
fn shared_frame_render_matches_encoder() {
    let s = SharedFrame::new(2, Rgb::new(1, 2, 3));
    let p = TimingProfile::ws2812b();
    let w = s.render(&p);
    assert_eq!(w.len(), 48);
    assert_eq!(w, encode_waveform(s.snapshot().as_slice(), &p));
}

#[test]
fn shared_frame_set_pixel() {
    let s = SharedFrame::new(1, Rgb::new(8, 0, 0));
    assert!(s.set_pixel(0, Rgb::new(0, 0, 8)));
    assert!(!s.set_pixel(1, Rgb::new(0, 0, 8)));
    assert_eq!(s.snapshot().as_slice(), &[Rgb::new(0, 0, 8)][..]);
}

#[test]
fn shared_frame_ingests_lighting_frames() {
    let s = SharedFrame::new(2, Rgb::new(0, 0, 0));
    let r = s.ingest_lighting_frame(&packet(&[1, 2, 3, 4, 5, 6, 7, 8, 9]));
    assert_eq!(r, Ok(FrameReport { universe: 0, written: 2, dropped: 1 }));
    assert_eq!(s.snapshot().as_slice(), &[Rgb::new(1, 2, 3), Rgb::new(4, 5, 6)][..]);
    assert_eq!(
        s.ingest_lighting_frame(&[0u8; 10]),
        Err(LedError::MalformedPacket(PacketFault::SizeOutOfRange))
    );
}

#[test]
fn shared_frame_handles_control_requests() {
    let s = SharedFrame::new(360, Rgb::new(0, 0, 0));
    let req = ControlRequest { rainbow: true, ledstates: vec![] };
    assert_eq!(s.handle_control(Some(&req)), Ok(0));
    let fb = s.snapshot();
    assert_eq!(fb.len(), 360);
    assert_eq!(fb.get(359), Rgb::from_hsv(359, 100, 100).ok());
    assert_eq!(s.handle_control(None), Err(LedError::ParseError));
    assert_eq!(s.snapshot().len(), 360);
}

#[test]
fn shared_frame_snapshots_show_whole_updates() {
    let s = SharedFrame::new(4, Rgb::new(0, 0, 0));
    for i in 0..20u32 {
        let v = (i % 2) as u8 * 255;
        s.ingest_lighting_frame(&packet(&[v; 12])).unwrap();
        let fb = s.snapshot();
        assert!(fb.as_slice().iter().all(|c| *c == Rgb::new(v, v, v)));
    }
}
