use vstd::prelude::*;

use crate::color::{packed_of, Rgb};

verus! {

/// Number of bits that one pixel puts on the wire.
pub const BITS_PER_PIXEL: usize = 24;

/// Logic level of one pulse.
#[derive(Clone, Copy, Debug, PartialEq, Eq, Structural)]
pub enum PinLevel {
    High,
    Low,
}

/// One timed segment of the output line.
#[derive(Clone, Copy, Debug, PartialEq, Eq, Structural)]
pub struct Pulse {
    pub level: PinLevel,
    pub duration_ns: u64,
}

/// The high pulse and the low pulse that together carry one bit.
#[derive(Clone, Copy, Debug, PartialEq, Eq, Structural)]
pub struct PulsePair {
    pub high: Pulse,
    pub low: Pulse,
}

/// The four pulse widths, in nanoseconds, of one LED chip variant: high and
/// low for a 0 bit, high and low for a 1 bit.
#[derive(Clone, Copy, Debug, PartialEq, Eq, Structural)]
pub struct TimingProfile {
    pub t0h: u64,
    pub t0l: u64,
    pub t1h: u64,
    pub t1l: u64,
}

/// Whether bit `i` (0 is the least significant) of `word` is set.
pub open spec fn bit_of(word: u32, i: u32) -> bool {
    (word >> i) & 1u32 == 1u32
}

impl TimingProfile {
    pub fn new(t0h: u64, t0l: u64, t1h: u64, t1l: u64) -> (p: Self)
        ensures
            p == (TimingProfile { t0h, t0l, t1h, t1l }),
    {
        TimingProfile { t0h, t0l, t1h, t1l }
    }

    /// The profile from an array `[T0H, T0L, T1H, T1L]`.
    pub fn from_array(t: &[u64; 4]) -> (p: Self)
        ensures
            p == (TimingProfile { t0h: t@[0], t0l: t@[1], t1h: t@[2], t1l: t@[3] }),
    {
        TimingProfile { t0h: t[0], t0l: t[1], t1h: t[2], t1l: t[3] }
    }

    /// Timings used for WS2812 parts.
    pub fn ws2812() -> (p: Self)
        ensures
            p == (TimingProfile { t0h: 350, t0l: 800, t1h: 700, t1l: 600 }),
    {
        TimingProfile { t0h: 350, t0l: 800, t1h: 700, t1l: 600 }
    }

    /// Timings used for WS2812B parts.
    pub fn ws2812b() -> (p: Self)
        ensures
            p == (TimingProfile { t0h: 400, t0l: 800, t1h: 850, t1l: 450 }),
    {
        TimingProfile { t0h: 400, t0l: 800, t1h: 850, t1l: 450 }
    }

    /// The pulse pair that encodes `bit`.
    pub open spec fn pair_spec(self, bit: bool) -> PulsePair {
        if bit {
            PulsePair {
                high: Pulse { level: PinLevel::High, duration_ns: self.t1h },
                low: Pulse { level: PinLevel::Low, duration_ns: self.t1l },
            }
        } else {
            PulsePair {
                high: Pulse { level: PinLevel::High, duration_ns: self.t0h },
                low: Pulse { level: PinLevel::Low, duration_ns: self.t0l },
            }
        }
    }

    pub fn pair_for(&self, bit: bool) -> (p: PulsePair)
        ensures
            p == self.pair_spec(bit),
    {
        if bit {
            PulsePair {
                high: Pulse { level: PinLevel::High, duration_ns: self.t1h },
                low: Pulse { level: PinLevel::Low, duration_ns: self.t1l },
            }
        } else {
            PulsePair {
                high: Pulse { level: PinLevel::High, duration_ns: self.t0h },
                low: Pulse { level: PinLevel::Low, duration_ns: self.t0l },
            }
        }
    }
}

/// The pulse pair at position `k` of a waveform: pixel `k / 24`, bit
/// `23 - k % 24` of its hardware word, most significant bit first.
pub open spec fn pair_at(pixels: Seq<Rgb>, profile: TimingProfile, k: int) -> PulsePair {
    profile.pair_spec(bit_of(packed_of(pixels[k / 24]), (23 - k % 24) as u32))
}

/// The waveform for a sequence of pixels: 24 pulse pairs per pixel, in pixel
/// order.
pub open spec fn waveform(pixels: Seq<Rgb>, profile: TimingProfile) -> Seq<PulsePair> {
    Seq::new(24 * pixels.len(), |k: int| pair_at(pixels, profile, k))
}

/// Encodes the pixels of one channel into the pulse pairs that drive it.
pub fn encode_waveform(pixels: &[Rgb], profile: &TimingProfile) -> (w: Vec<PulsePair>)
    ensures
        w@ == waveform(pixels@, *profile),
        w@.len() == 24 * pixels@.len(),
{
    let mut w: Vec<PulsePair> = Vec::new();
    let mut j: usize = 0;
    while j < pixels.len()
        invariant
            j <= pixels@.len(),
            w@.len() == 24 * j,
            forall|k: int| 0 <= k < w@.len() ==> w@[k] == pair_at(pixels@, *profile, k),
        decreases pixels@.len() - j,
    {
        let word = pixels[j].to_packed_u32();
        let mut i: u32 = 24;
        while i > 0
            invariant
                j < pixels@.len(),
                word == packed_of(pixels@[j as int]),
                i <= 24,
                w@.len() == 24 * j + (24 - i),
                forall|k: int| 0 <= k < w@.len() ==> w@[k] == pair_at(pixels@, *profile, k),
            decreases i,
        {
            i = i - 1;
            let bit = (word >> i) & 1u32 == 1u32;
            let pair = profile.pair_for(bit);
            let ghost k = w@.len() as int;
            assert(k / 24 == j as int && k % 24 == 23 - i as int) by (nonlinear_arith)
                requires
                    k == 24 * j + (23 - i),
                    i < 24,
            ;
            w.push(pair);
        }
        j = j + 1;
    }
    assert(w@ =~= waveform(pixels@, *profile));
    w
}

/// Encoding yields exactly 24 pulse pairs per pixel; no pixels give an empty
/// waveform.
pub proof fn lemma_waveform_length(pixels: Seq<Rgb>, profile: TimingProfile)
    ensures
        waveform(pixels, profile).len() == 24 * pixels.len(),
        pixels.len() == 0 ==> waveform(pixels, profile) == Seq::<PulsePair>::empty(),
{
    if pixels.len() == 0 {
        assert(waveform(pixels, profile) =~= Seq::<PulsePair>::empty());
    }
}

} // verus!
