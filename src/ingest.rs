use vstd::prelude::*;
use vstd::slice::slice_subrange;

use crate::color::{hsv_levels, Rgb};
use crate::error::{LedError, PacketFault};
use crate::frame::{kept_count, overlay, FrameBuffer};

verus! {

/// Size of the fixed lighting-frame header; property values start here.
pub const FRAME_HEADER_LEN: usize = 125;

/// Largest accepted lighting frame: the header and 513 property values.
pub const FRAME_MAX_LEN: usize = 638;

/// Offset of the big-endian universe identifier.
pub const UNIVERSE_OFFSET: usize = 113;

/// Offset of the big-endian property value count.
pub const COUNT_OFFSET: usize = 123;

/// Largest control request body that is read and parsed.
pub const CONTROL_BODY_CAP: usize = 768;

/// Number of hue steps in the rainbow pattern.
pub const RAINBOW_LEN: usize = 360;

/// A decoded lighting frame: its universe and the colours it carries, in LED
/// order.
pub struct LightingFrame {
    pub universe: u16,
    pub colors: Vec<Rgb>,
}

/// What an accepted lighting frame did to a buffer.
#[derive(Clone, Copy, Debug, PartialEq, Eq, Structural)]
pub struct FrameReport {
    /// Universe named in the frame header.
    pub universe: u16,
    /// Colours written into the buffer.
    pub written: usize,
    /// Colours that found no LED and were discarded.
    pub dropped: usize,
}

/// A control request: either the rainbow pattern, or an explicit list of
/// colours.
pub struct ControlRequest {
    pub rainbow: bool,
    pub ledstates: Vec<Rgb>,
}

/// A 16-bit big-endian value.
pub open spec fn be16(hi: u8, lo: u8) -> int {
    hi as int * 256 + lo as int
}

/// Whether a lighting frame has an accepted size (bounds inclusive).
pub open spec fn frame_size_ok(len: int) -> bool {
    FRAME_HEADER_LEN <= len <= FRAME_MAX_LEN
}

/// The universe field of a frame of accepted size.
pub open spec fn frame_universe(p: Seq<u8>) -> int {
    be16(p[UNIVERSE_OFFSET as int], p[UNIVERSE_OFFSET + 1])
}

/// The property value count field of a frame of accepted size.
pub open spec fn frame_count(p: Seq<u8>) -> int {
    be16(p[COUNT_OFFSET as int], p[COUNT_OFFSET + 1])
}

/// Consecutive whole byte triples read as red, green, blue; a trailing
/// incomplete triple is ignored.
pub open spec fn triples(bytes: Seq<u8>) -> Seq<Rgb> {
    Seq::new(
        bytes.len() / 3,
        |i: int| Rgb { r: bytes[3 * i], g: bytes[3 * i + 1], b: bytes[3 * i + 2] },
    )
}

/// The colours that a well-formed frame carries.
pub open spec fn frame_colors(p: Seq<u8>) -> Seq<Rgb> {
    triples(p.subrange(FRAME_HEADER_LEN as int, FRAME_HEADER_LEN + frame_count(p)))
}

/// The outcome that a lighting frame of bytes `p` is owed, short of the
/// colours: size check first, then the count check.
pub open spec fn frame_verdict(p: Seq<u8>) -> Result<(), LedError> {
    if !frame_size_ok(p.len() as int) {
        Err(LedError::MalformedPacket(PacketFault::SizeOutOfRange))
    } else if p.len() < FRAME_HEADER_LEN + frame_count(p) {
        Err(LedError::MalformedPacket(PacketFault::Truncated))
    } else {
        Ok(())
    }
}

/// The rainbow pattern: one colour per integer hue 0..359 at full saturation
/// and value.
pub open spec fn is_rainbow(s: Seq<Rgb>, n: int) -> bool {
    &&& s.len() == n
    &&& forall|i: int| 0 <= i < n ==> (#[trigger] s[i]).levels() == hsv_levels(i, 100, 100)
}

/// Whether a buffer holds what `req` asks for, cut to `capacity`.
pub open spec fn control_applied(s: Seq<Rgb>, req: ControlRequest, capacity: int) -> bool {
    if req.rainbow {
        is_rainbow(s, kept_count(RAINBOW_LEN as int, capacity))
    } else {
        s == req.ledstates@.take(kept_count(req.ledstates@.len() as int, capacity))
    }
}

/// Groups bytes into colours, three at a time.
fn group_triples(bytes: &[u8]) -> (out: Vec<Rgb>)
    ensures
        out@ == triples(bytes@),
{
    let len: usize = bytes.len();
    let n: usize = len / 3;
    let mut out: Vec<Rgb> = Vec::new();
    let mut i: usize = 0;
    while i < n
        invariant
            len == bytes@.len(),
            n == bytes@.len() / 3,
            i <= n,
            out@.len() == i,
            forall|k: int| 0 <= k < i ==> out@[k] == triples(bytes@)[k],
        decreases n - i,
    {
        assert(3 * i + 2 < bytes@.len()) by (nonlinear_arith)
            requires
                i < n,
                n == bytes@.len() / 3,
        ;
        let c = Rgb { r: bytes[3 * i], g: bytes[3 * i + 1], b: bytes[3 * i + 2] };
        out.push(c);
        i = i + 1;
    }
    assert(out@ =~= triples(bytes@));
    out
}

/// Decodes a lighting frame. The size must lie in the accepted range, and the
/// frame must carry all the property values that its header counts.
pub fn parse_lighting_frame(packet: &[u8]) -> (res: Result<LightingFrame, LedError>)
    ensures
        match res {
            Ok(f) => frame_verdict(packet@) == Ok::<(), LedError>(()) && f.universe
                == frame_universe(packet@) && f.colors@ == frame_colors(packet@),
            Err(e) => frame_verdict(packet@) == Err::<(), LedError>(e),
        },
{
    if packet.len() < FRAME_HEADER_LEN || packet.len() > FRAME_MAX_LEN {
        return Err(LedError::MalformedPacket(PacketFault::SizeOutOfRange));
    }
    let universe: u16 = packet[UNIVERSE_OFFSET] as u16 * 256 + packet[UNIVERSE_OFFSET + 1] as u16;
    let count: usize = packet[COUNT_OFFSET] as usize * 256 + packet[COUNT_OFFSET + 1] as usize;
    if packet.len() < FRAME_HEADER_LEN + count {
        return Err(LedError::MalformedPacket(PacketFault::Truncated));
    }
    let values = slice_subrange(packet, FRAME_HEADER_LEN, FRAME_HEADER_LEN + count);
    let colors = group_triples(values);
    Ok(LightingFrame { universe, colors })
}

/// The colours of the rainbow pattern.
pub fn rainbow_pixels() -> (out: Vec<Rgb>)
    ensures
        is_rainbow(out@, RAINBOW_LEN as int),
{
    let mut out: Vec<Rgb> = Vec::new();
    let mut h: u32 = 0;
    while h < 360
        invariant
            h <= 360,
            is_rainbow(out@, h as int),
        decreases 360 - h,
    {
        match Rgb::from_hsv(h, 100, 100) {
            Ok(c) => out.push(c),
            Err(_) => {},
        }
        h = h + 1;
    }
    out
}

/// Admits a control request body of `len` bytes for parsing, or rejects it
/// as too large before any of it is parsed.
pub fn admit_control_body(len: usize) -> (res: Result<(), LedError>)
    ensures
        res is Ok <==> len <= CONTROL_BODY_CAP,
        res is Err ==> res == Err::<(), LedError>(LedError::PayloadTooLarge),
{
    if len > CONTROL_BODY_CAP {
        Err(LedError::PayloadTooLarge)
    } else {
        Ok(())
    }
}

/// The HTTP status that answers a control request: success also where the
/// body did not parse (the error is told in the body), 413 where the body was
/// too large.
pub fn control_status(res: &Result<usize, LedError>) -> (code: u16)
    ensures
        res is Ok ==> code == 200,
        *res == Err::<usize, LedError>(LedError::ParseError) ==> code == 200,
        *res == Err::<usize, LedError>(LedError::PayloadTooLarge) ==> code == 413,
        (res is Err && *res != Err::<usize, LedError>(LedError::ParseError) && *res != Err::<
            usize,
            LedError,
        >(LedError::PayloadTooLarge)) ==> code == 400,
{
    match res {
        Ok(_) => 200,
        Err(LedError::ParseError) => 200,
        Err(LedError::PayloadTooLarge) => 413,
        Err(_) => 400,
    }
}

impl FrameBuffer {
    /// Applies a lighting frame: its colours overwrite the front of the
    /// buffer, up to capacity, and the rest of the buffer keeps its colours.
    /// A malformed frame leaves the buffer as it was.
    pub fn ingest_lighting_frame(&mut self, packet: &[u8]) -> (res: Result<FrameReport, LedError>)
        requires
            old(self).wf(),
        ensures
            final(self).wf(),
            final(self).capacity_spec() == old(self).capacity_spec(),
            match res {
                Ok(rep) => {
                    &&& frame_verdict(packet@) == Ok::<(), LedError>(())
                    &&& rep.universe == frame_universe(packet@)
                    &&& rep.written == kept_count(
                        frame_colors(packet@).len() as int,
                        old(self).capacity_spec() as int,
                    )
                    &&& rep.written + rep.dropped == frame_colors(packet@).len()
                    &&& final(self)@ == overlay(
                        old(self)@,
                        frame_colors(packet@),
                        old(self).capacity_spec() as int,
                    )
                },
                Err(e) => frame_verdict(packet@) == Err::<(), LedError>(e) && final(self)@ == old(
                    self,
                )@,
            },
    {
        match parse_lighting_frame(packet) {
            Ok(frame) => {
                let dropped = self.overlay_prefix(frame.colors.as_slice());
                let written = frame.colors.len() - dropped;
                Ok(FrameReport { universe: frame.universe, written, dropped })
            },
            Err(e) => Err(e),
        }
    }

    /// Applies a control request: the rainbow pattern, or the given colours in
    /// order, replacing the whole buffer and cut to capacity. Returns how many
    /// colours were dropped.
    pub fn apply_control(&mut self, req: &ControlRequest) -> (dropped: usize)
        requires
            old(self).wf(),
        ensures
            final(self).wf(),
            final(self).capacity_spec() == old(self).capacity_spec(),
            control_applied(final(self)@, *req, old(self).capacity_spec() as int),
            req.rainbow ==> dropped == RAINBOW_LEN - kept_count(
                RAINBOW_LEN as int,
                old(self).capacity_spec() as int,
            ),
            !req.rainbow ==> dropped == req.ledstates@.len() - kept_count(
                req.ledstates@.len() as int,
                old(self).capacity_spec() as int,
            ),
    {
        if req.rainbow {
            let colors = rainbow_pixels();
            self.replace_all(colors.as_slice())
        } else {
            self.replace_all(req.ledstates.as_slice())
        }
    }

    /// Handles a parsed control request body: `None` stands for a body that
    /// did not parse, which leaves the buffer as it was.
    pub fn handle_control(&mut self, parsed: Option<&ControlRequest>) -> (res: Result<
        usize,
        LedError,
    >)
        requires
            old(self).wf(),
        ensures
            final(self).wf(),
            final(self).capacity_spec() == old(self).capacity_spec(),
            match parsed {
                Some(req) => res is Ok && control_applied(
                    final(self)@,
                    *req,
                    old(self).capacity_spec() as int,
                ),
                None => res == Err::<usize, LedError>(LedError::ParseError) && final(self)@ == old(
                    self,
                )@,
            },
    {
        match parsed {
            Some(req) => Ok(self.apply_control(req)),
            None => Err(LedError::ParseError),
        }
    }
}

} // verus!
