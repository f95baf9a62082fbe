use vstd::prelude::*;
use vstd::rwlock::{RwLock, RwLockPredicate};

use crate::color::Rgb;
use crate::error::LedError;
use crate::frame::{kept_count, FrameBuffer};
use crate::ingest::{
    frame_colors, frame_universe, frame_verdict, ControlRequest, FrameReport, RAINBOW_LEN,
};
use crate::pulse::{encode_waveform, waveform, PulsePair, TimingProfile};

verus! {

/// What every buffer stored in a channel's lock satisfies: it is well formed
/// and sized for the channel's LEDs.
pub struct FrameInvariant {
    pub capacity: usize,
}

impl RwLockPredicate<FrameBuffer> for FrameInvariant {
    open spec fn inv(self, v: FrameBuffer) -> bool {
        v.wf() && v.capacity_spec() == self.capacity
    }
}

/// The frame buffer of one output channel, shared between the render loop
/// and the ingestion handlers behind a reader/writer lock. Writers hold the
/// lock for a whole update, so a reader sees either the buffer before it or
/// the buffer after it, never a mixture.
pub struct SharedFrame {
    lock: RwLock<FrameBuffer, FrameInvariant>,
    capacity: usize,
}

impl SharedFrame {
    #[verifier::type_invariant]
    spec fn lock_matches(&self) -> bool {
        self.lock.pred() == FrameInvariant { capacity: self.capacity }
    }

    /// The number of LEDs on the channel.
    pub closed spec fn capacity_spec(&self) -> nat {
        self.capacity as nat
    }

    /// A channel of `capacity` LEDs, each set to `default`.
    pub fn new(capacity: usize, default: Rgb) -> (s: Self)
        ensures
            s.capacity_spec() == capacity,
    {
        let fb = FrameBuffer::new(capacity, default);
        let lock = RwLock::new(fb, Ghost(FrameInvariant { capacity }));
        SharedFrame { lock, capacity }
    }

    pub fn capacity(&self) -> (c: usize)
        ensures
            c == self.capacity_spec(),
    {
        self.capacity
    }

    /// A copy of the buffer as it stands at one moment.
    pub fn snapshot(&self) -> (fb: FrameBuffer)
        ensures
            fb.wf(),
            fb.capacity_spec() == self.capacity_spec(),
    {
        proof {
            use_type_invariant(self);
        }
        let handle = self.lock.acquire_read();
        let fb = handle.borrow().duplicate();
        handle.release_read();
        fb
    }

    /// The waveform of the buffer as it stands at one moment, under `profile`.
    pub fn render(&self, profile: &TimingProfile) -> (w: Vec<PulsePair>)
        ensures
            exists|fb: FrameBuffer|
                fb.wf() && fb.capacity_spec() == self.capacity_spec() && w@ == waveform(
                    fb@,
                    *profile,
                ),
    {
        proof {
            use_type_invariant(self);
        }
        let handle = self.lock.acquire_read();
        let fb = handle.borrow();
        let w = encode_waveform(fb.as_slice(), profile);
        assert(fb.wf() && fb.capacity_spec() == self.capacity_spec() && w@ == waveform(
            fb@,
            *profile,
        ));
        handle.release_read();
        w
    }

    /// Sets the colour at `index`, when the buffer reaches that far.
    pub fn set_pixel(&self, index: usize, color: Rgb) -> (done: bool)
        ensures
            done ==> index < self.capacity_spec(),
            index >= self.capacity_spec() ==> !done,
    {
        proof {
            use_type_invariant(self);
        }
        let (mut fb, handle) = self.lock.acquire_write();
        proof {
            fb.lemma_len_within_capacity();
        }
        let done = fb.set(index, color);
        handle.release_write(fb);
        done
    }

    /// Applies a lighting frame to the channel under the write lock.
    pub fn ingest_lighting_frame(&self, packet: &[u8]) -> (res: Result<FrameReport, LedError>)
        ensures
            match res {
                Ok(rep) => {
                    &&& frame_verdict(packet@) == Ok::<(), LedError>(())
                    &&& rep.universe == frame_universe(packet@)
                    &&& rep.written == kept_count(
                        frame_colors(packet@).len() as int,
                        self.capacity_spec() as int,
                    )
                    &&& rep.written + rep.dropped == frame_colors(packet@).len()
                },
                Err(e) => frame_verdict(packet@) == Err::<(), LedError>(e),
            },
    {
        proof {
            use_type_invariant(self);
        }
        let (mut fb, handle) = self.lock.acquire_write();
        let res = fb.ingest_lighting_frame(packet);
        handle.release_write(fb);
        res
    }

    /// Applies a parsed control request body under the write lock; `None`
    /// stands for a body that did not parse.
    pub fn handle_control(&self, parsed: Option<&ControlRequest>) -> (res: Result<
        usize,
        LedError,
    >)
        ensures
            match parsed {
                Some(req) => {
                    &&& req.rainbow ==> res == Ok::<usize, LedError>(
                        (RAINBOW_LEN - kept_count(RAINBOW_LEN as int, self.capacity_spec() as int))
                            as usize,
                    )
                    &&& !req.rainbow ==> res == Ok::<usize, LedError>(
                        (req.ledstates@.len() - kept_count(
                            req.ledstates@.len() as int,
                            self.capacity_spec() as int,
                        )) as usize,
                    )
                },
                None => res == Err::<usize, LedError>(LedError::ParseError),
            },
    {
        proof {
            use_type_invariant(self);
        }
        let (mut fb, handle) = self.lock.acquire_write();
        let res = match parsed {
            Some(req) => Ok(fb.apply_control(req)),
            None => Err(LedError::ParseError),
        };
        handle.release_write(fb);
        res
    }
}

} // verus!
