use vstd::prelude::*;

use crate::color::Rgb;

verus! {

/// The smaller of two integers.
pub open spec fn min_int(a: int, b: int) -> int {
    if a <= b {
        a
    } else {
        b
    }
}

/// How many of `offered` entries fit in a buffer of `capacity`.
pub open spec fn kept_count(offered: int, capacity: int) -> int {
    min_int(offered, capacity)
}

/// The buffer after a prefix update: the first entries of `new` that fit
/// overwrite the front of `old`, and the positions of `old` past them keep
/// their colours.
pub open spec fn overlay(old: Seq<Rgb>, new: Seq<Rgb>, capacity: int) -> Seq<Rgb> {
    let n = kept_count(new.len() as int, capacity);
    if n < old.len() {
        new.take(n) + old.skip(n)
    } else {
        new.take(n)
    }
}

/// A prefix update never grows a buffer past its capacity: the first colours
/// that fit are written in order, the rest are dropped, and every position
/// past the update keeps its old colour.
pub proof fn lemma_overlay_within_capacity(old: Seq<Rgb>, new: Seq<Rgb>, capacity: int)
    requires
        old.len() <= capacity,
    ensures
        overlay(old, new, capacity).len() <= capacity,
        overlay(old, new, capacity).len() == if old.len() <= kept_count(new.len() as int, capacity) {
            kept_count(new.len() as int, capacity)
        } else {
            old.len() as int
        },
        forall|i: int|
            0 <= i < kept_count(new.len() as int, capacity) ==> #[trigger] overlay(
                old,
                new,
                capacity,
            )[i] == new[i],
        forall|i: int|
            kept_count(new.len() as int, capacity) <= i < old.len() ==> #[trigger] overlay(
                old,
                new,
                capacity,
            )[i] == old[i],
{
}

/// The ordered colours of one output channel, never longer than the number of
/// LEDs on that channel.
pub struct FrameBuffer {
    pixels: Vec<Rgb>,
    capacity: usize,
}

/// A copy of the first `n` colours of `src`.
fn copy_prefix(src: &[Rgb], n: usize) -> (out: Vec<Rgb>)
    requires
        n <= src@.len(),
    ensures
        out@ == src@.take(n as int),
{
    let mut out: Vec<Rgb> = Vec::new();
    let mut i: usize = 0;
    while i < n
        invariant
            i <= n,
            n <= src@.len(),
            out@ == src@.take(i as int),
        decreases n - i,
    {
        out.push(src[i]);
        i = i + 1;
        assert(out@ =~= src@.take(i as int));
    }
    out
}

impl View for FrameBuffer {
    type V = Seq<Rgb>;

    closed spec fn view(&self) -> Seq<Rgb> {
        self.pixels@
    }
}

impl FrameBuffer {
    /// The number of LEDs on the channel.
    pub closed spec fn capacity_spec(&self) -> nat {
        self.capacity as nat
    }

    /// The buffer never holds more colours than the channel has LEDs.
    pub closed spec fn wf(&self) -> bool {
        self.pixels@.len() <= self.capacity
    }

    /// A well-formed buffer holds at most one colour per LED.
    pub proof fn lemma_len_within_capacity(&self)
        requires
            self.wf(),
        ensures
            self@.len() <= self.capacity_spec(),
    {
    }

    /// A buffer for `capacity` LEDs, each set to `default`.
    pub fn new(capacity: usize, default: Rgb) -> (fb: Self)
        ensures
            fb.wf(),
            fb.capacity_spec() == capacity,
            fb@ == Seq::new(capacity as nat, |_i: int| default),
    {
        let mut pixels: Vec<Rgb> = Vec::new();
        let mut i: usize = 0;
        while i < capacity
            invariant
                i <= capacity,
                pixels@ == Seq::new(i as nat, |_i: int| default),
            decreases capacity - i,
        {
            pixels.push(default);
            i = i + 1;
            assert(pixels@ =~= Seq::new(i as nat, |_i: int| default));
        }
        FrameBuffer { pixels, capacity }
    }

    pub fn capacity(&self) -> (c: usize)
        ensures
            c == self.capacity_spec(),
    {
        self.capacity
    }

    pub fn len(&self) -> (n: usize)
        ensures
            n == self@.len(),
    {
        self.pixels.len()
    }

    /// The colours, in LED order.
    pub fn as_slice(&self) -> (s: &[Rgb])
        ensures
            s@ == self@,
    {
        self.pixels.as_slice()
    }

    /// The colour at `index`, if the buffer reaches that far.
    pub fn get(&self, index: usize) -> (c: Option<Rgb>)
        ensures
            index < self@.len() ==> c == Some(self@[index as int]),
            index >= self@.len() ==> c.is_none(),
    {
        if index < self.pixels.len() {
            Some(self.pixels[index])
        } else {
            None
        }
    }

    /// Sets the colour at `index` when the buffer reaches that far; otherwise
    /// leaves the buffer as it is and returns false.
    pub fn set(&mut self, index: usize, color: Rgb) -> (done: bool)
        requires
            old(self).wf(),
        ensures
            final(self).wf(),
            final(self).capacity_spec() == old(self).capacity_spec(),
            done == (index < old(self)@.len()),
            done ==> final(self)@ == old(self)@.update(index as int, color),
            !done ==> final(self)@ == old(self)@,
    {
        if index < self.pixels.len() {
            self.pixels.set(index, color);
            true
        } else {
            false
        }
    }

    /// A copy of the buffer.
    pub fn duplicate(&self) -> (fb: FrameBuffer)
        requires
            self.wf(),
        ensures
            fb.wf(),
            fb.capacity_spec() == self.capacity_spec(),
            fb@ == self@,
    {
        let pixels = copy_prefix(self.pixels.as_slice(), self.pixels.len());
        assert(pixels@ =~= self.pixels@);
        FrameBuffer { pixels, capacity: self.capacity }
    }

    /// Overwrites the front of the buffer with `colors`, one per LED, growing
    /// it up to capacity where needed. Positions past the update keep their
    /// colours; colours beyond capacity are dropped, and their number is
    /// returned.
    pub fn overlay_prefix(&mut self, colors: &[Rgb]) -> (dropped: usize)
        requires
            old(self).wf(),
        ensures
            final(self).wf(),
            final(self).capacity_spec() == old(self).capacity_spec(),
            final(self)@ == overlay(old(self)@, colors@, old(self).capacity_spec() as int),
            dropped == colors@.len() - kept_count(
                colors@.len() as int,
                old(self).capacity_spec() as int,
            ),
    {
        let n: usize = if colors.len() <= self.capacity {
            colors.len()
        } else {
            self.capacity
        };
        let mut out = copy_prefix(colors, n);
        if n < self.pixels.len() {
            let mut j: usize = n;
            assert(out@ =~= colors@.take(n as int) + self.pixels@.subrange(n as int, j as int));
            while j < self.pixels.len()
                invariant
                    n <= j <= self.pixels@.len(),
                    out@ == colors@.take(n as int) + self.pixels@.subrange(n as int, j as int),
                decreases self.pixels@.len() - j,
            {
                out.push(self.pixels[j]);
                j = j + 1;
                assert(out@ =~= colors@.take(n as int) + self.pixels@.subrange(n as int, j as int));
            }
            assert(self.pixels@.subrange(n as int, j as int) =~= self.pixels@.skip(n as int));
        }
        self.pixels = out;
        colors.len() - n
    }

    /// Replaces the whole buffer with `colors`, keeping as many as fit;
    /// returns how many were dropped.
    pub fn replace_all(&mut self, colors: &[Rgb]) -> (dropped: usize)
        requires
            old(self).wf(),
        ensures
            final(self).wf(),
            final(self).capacity_spec() == old(self).capacity_spec(),
            final(self)@ == colors@.take(
                kept_count(colors@.len() as int, old(self).capacity_spec() as int),
            ),
            dropped == colors@.len() - kept_count(
                colors@.len() as int,
                old(self).capacity_spec() as int,
            ),
    {
        let n: usize = if colors.len() <= self.capacity {
            colors.len()
        } else {
            self.capacity
        };
        self.pixels = copy_prefix(colors, n);
        colors.len() - n
    }
}

} // verus!
