//! Planar (deinterleaved) audio buffer views.
//!
//! A [`Buffer`] is the unit of work handed to a processor. It exposes a
//! read-only **input** view and a writable **output** view, each a slice of
//! per-channel slices. The buffer borrows its storage; it never allocates.
//!
//! # Capacity vs. frames
//!
//! * **capacity**: the allocated size of each channel;
//! * **frames**: the number of *active* frames (`frames <= capacity`).
//!
//! The default accessors ([`input`](Buffer::input),
//! [`output`](Buffer::output), [`output_mut`](Buffer::output_mut)) yield the
//! active `frames` region; the `*_full` accessors reach the whole capacity.

use vstd::prelude::*;

verus! {

/// The model of a buffer view: its input and output channels, its capacity
/// and its active frame count.
#[verifier::ext_equal]
pub struct BufferModel<S> {
    pub input: Seq<Seq<S>>,
    pub output: Seq<Seq<S>>,
    pub capacity: nat,
    pub frames: nat,
}

/// Every channel of `channels` holds at least `capacity` samples.
pub open spec fn all_hold<S>(channels: Seq<Seq<S>>, capacity: nat) -> bool {
    forall|i: int| 0 <= i < channels.len() ==> capacity <= (#[trigger] channels[i]).len()
}

impl<S> BufferModel<S> {
    /// The active region fits in the capacity, which every channel holds.
    pub open spec fn wf(self) -> bool {
        &&& self.frames <= self.capacity
        &&& all_hold(self.input, self.capacity)
        &&& all_hold(self.output, self.capacity)
    }

    /// Whether this view has the shape of `before`: the same input, capacity
    /// and active frames, and as many output channels of the same lengths.
    pub open spec fn keeps_shape_of(self, before: BufferModel<S>) -> bool {
        &&& self.input == before.input
        &&& self.capacity == before.capacity
        &&& self.frames == before.frames
        &&& self.output.len() == before.output.len()
        &&& forall|c: int|
            0 <= c < before.output.len() ==> (#[trigger] self.output[c]).len() == before.output[c].len()
    }

    /// Output channel `ch` with its first `len` samples replaced by `s`.
    pub open spec fn write_output(self, ch: int, len: nat, s: Seq<S>) -> Seq<Seq<S>> {
        self.output.update(ch, s + self.output[ch].subrange(len as int, self.output[ch].len() as int))
    }
}

/// A write through output channel `ch` changes only that channel: its first
/// `len` samples read back what was written, its tail and every other output
/// channel keep their samples, and the input is untouched.
pub proof fn lemma_output_write_is_local<S>(
    b: BufferModel<S>,
    ch: int,
    len: nat,
    s: Seq<S>,
    other: int,
)
    requires
        b.wf(),
        0 <= ch < b.output.len(),
        len <= b.capacity,
        s.len() == len,
        0 <= other < b.output.len(),
    ensures
        b.write_output(ch, len, s)[ch].subrange(0, len as int) == s,
        b.write_output(ch, len, s)[ch].subrange(len as int, b.output[ch].len() as int)
            == b.output[ch].subrange(len as int, b.output[ch].len() as int),
        b.write_output(ch, len, s)[ch].len() == b.output[ch].len(),
        other != ch ==> b.write_output(ch, len, s)[other] == b.output[other],
{
    assert(b.capacity <= b.output[ch].len());
    let w = b.write_output(ch, len, s)[ch];
    assert(w.subrange(0, len as int) =~= s);
    assert(w.subrange(len as int, b.output[ch].len() as int) =~= b.output[ch].subrange(
        len as int,
        b.output[ch].len() as int,
    ));
}

/// A buffer of planar audio with a read-only input and a writable output,
/// each a slice of per-channel slices, sharing a common `capacity` and an
/// active `frames` count (`frames <= capacity`).
///
/// The lifetime `'a` ties the view to the borrowed channel storage.
pub struct Buffer<'a, S> {
    input: &'a [&'a [S]],
    output: &'a mut [&'a mut [S]],
    capacity: usize,
    frames: usize,
}

impl<'a, S> View for Buffer<'a, S> {
    type V = BufferModel<S>;

    closed spec fn view(&self) -> BufferModel<S> {
        BufferModel {
            input: self.input@.map_values(|c: &[S]| c@),
            output: self.output@.map_values(|c: &mut [S]| c@),
            capacity: self.capacity as nat,
            frames: self.frames as nat,
        }
    }
}

impl<'a, S> Buffer<'a, S> {
    /// Create a buffer whose every frame is active (`capacity == frames`).
    /// Every channel must hold at least `frames` samples.
    pub fn new(input: &'a [&'a [S]], output: &'a mut [&'a mut [S]], frames: usize) -> (r: Self)
        requires
            all_hold(input@.map_values(|c: &[S]| c@), frames as nat),
            all_hold(old(output)@.map_values(|c: &mut [S]| c@), frames as nat),
        ensures
            r@ == (BufferModel {
                input: input@.map_values(|c: &[S]| c@),
                output: old(output)@.map_values(|c: &mut [S]| c@),
                capacity: frames as nat,
                frames: frames as nat,
            }),
            r@.wf(),
    {
        Self::with_capacity(input, output, frames, frames)
    }

    /// Create a buffer with an explicit channel `capacity` of which the first
    /// `frames` are active. `frames` must not exceed `capacity`, and every
    /// channel must hold at least `capacity` samples.
    pub fn with_capacity(
        input: &'a [&'a [S]],
        output: &'a mut [&'a mut [S]],
        capacity: usize,
        frames: usize,
    ) -> (r: Self)
        requires
            frames <= capacity,
            all_hold(input@.map_values(|c: &[S]| c@), capacity as nat),
            all_hold(old(output)@.map_values(|c: &mut [S]| c@), capacity as nat),
        ensures
            r@ == (BufferModel {
                input: input@.map_values(|c: &[S]| c@),
                output: old(output)@.map_values(|c: &mut [S]| c@),
                capacity: capacity as nat,
                frames: frames as nat,
            }),
            r@.wf(),
    {
        Buffer { input, output, capacity, frames }
    }

    /// Number of *active* frames in this buffer (`<= capacity`).
    pub fn frames(&self) -> (r: usize)
        ensures
            r == self@.frames,
    {
        self.frames
    }

    /// Allocated capacity of each channel, in frames.
    pub fn capacity(&self) -> (r: usize)
        ensures
            r == self@.capacity,
    {
        self.capacity
    }

    /// Number of input channels.
    pub fn in_channels(&self) -> (r: usize)
        ensures
            r == self@.input.len(),
    {
        self.input.len()
    }

    /// Number of output channels.
    pub fn out_channels(&self) -> (r: usize)
        ensures
            r == self@.output.len(),
    {
        self.output.len()
    }

    /// Read-only samples for input channel `ch`.
    pub fn input(&self, ch: usize) -> (r: &[S])
        requires
            self@.wf(),
            ch < self@.input.len(),
        ensures
            r@ == self@.input[ch as int].subrange(0, self@.frames as int),
    {
        let c: &[S] = self.input[ch];
        assert(c@ == self@.input[ch as int]);
        assert(self@.capacity <= self@.input[ch as int].len());
        &c[0..self.frames]
    }

    /// Read-only view of output channel `ch` (e.g. to read back processed
    /// samples during a crossfade).
    pub fn output(&self, ch: usize) -> (r: &[S])
        requires
            self@.wf(),
            ch < self@.output.len(),
        ensures
            r@ == self@.output[ch as int].subrange(0, self@.frames as int),
    {
        let c: &[S] = &self.output[ch];
        assert(c@ == self@.output[ch as int]);
        assert(self@.capacity <= self@.output[ch as int].len());
        &c[0..self.frames]
    }

    /// Read-only samples for input channel `ch` over the full `capacity`
    /// (active frames plus the inactive tail).
    pub fn input_full(&self, ch: usize) -> (r: &[S])
        requires
            self@.wf(),
            ch < self@.input.len(),
        ensures
            r@ == self@.input[ch as int].subrange(0, self@.capacity as int),
    {
        let c: &[S] = self.input[ch];
        assert(c@ == self@.input[ch as int]);
        assert(self@.capacity <= self@.input[ch as int].len());
        &c[0..self.capacity]
    }

    /// The first `len` samples of output channel `ch`, writable.
    fn output_prefix_mut(&mut self, ch: usize, len: usize) -> (r: &mut [S])
        requires
            old(self)@.wf(),
            ch < old(self)@.output.len(),
            len <= old(self)@.capacity,
        ensures
            r@ == old(self)@.output[ch as int].subrange(0, len as int),
            final(self)@ == (BufferModel {
                output: old(self)@.write_output(ch as int, len as nat, final(r)@),
                ..old(self)@
            }),
    {
        let (_head, rest) = self.output.split_at_mut(ch);
        let row = rest.first_mut().unwrap();
        let (a, _b) = row.split_at_mut(len);
        a
    }

    /// Writable samples for output channel `ch` (active `frames` region).
    pub fn output_mut(&mut self, ch: usize) -> (r: &mut [S])
        requires
            old(self)@.wf(),
            ch < old(self)@.output.len(),
        ensures
            r@ == old(self)@.output[ch as int].subrange(0, old(self)@.frames as int),
            final(self)@ == (BufferModel {
                output: old(self)@.write_output(ch as int, old(self)@.frames, final(r)@),
                ..old(self)@
            }),
    {
        let frames = self.frames;
        self.output_prefix_mut(ch, frames)
    }

    /// Writable samples for output channel `ch` over the full `capacity`.
    ///
    /// Use when a block may write beyond the active `frames`, e.g. a
    /// sample-rate converter producing more output frames than it consumed,
    /// or to clear the inactive tail.
    pub fn output_full_mut(&mut self, ch: usize) -> (r: &mut [S])
        requires
            old(self)@.wf(),
            ch < old(self)@.output.len(),
        ensures
            r@ == old(self)@.output[ch as int].subrange(0, old(self)@.capacity as int),
            final(self)@ == (BufferModel {
                output: old(self)@.write_output(ch as int, old(self)@.capacity, final(r)@),
                ..old(self)@
            }),
    {
        let capacity = self.capacity;
        self.output_prefix_mut(ch, capacity)
    }
}

} // verus!
