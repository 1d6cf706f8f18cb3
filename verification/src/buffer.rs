//! Planar (deinterleaved) audio buffers.
//!
//! A [`Buffer`] holds **one signal**: `channels` planar channels stored in one
//! contiguous, channel-major slab. It owns its storage, which is allocated once
//! at construction and only reused afterwards: none of the accessors
//! allocate, except [`iter_channels`](Buffer::iter_channels) and
//! [`iter_channels_mut`](Buffer::iter_channels_mut), which collect their
//! per-channel slices into a `Vec`.
//!
//! # Capacity vs. frames
//!
//! Two lengths describe a buffer, mirroring `Vec::capacity`/`Vec::len`:
//!
//! * **capacity**: the allocated size of each channel, fixed at construction;
//! * **frames**: the number of *active* frames (`frames <= capacity`).
//!
//! [`channel`](Buffer::channel)/[`channel_mut`](Buffer::channel_mut) yield the
//! active region. A producer that emits a different frame count than it
//! consumed writes via [`channel_full_mut`](Buffer::channel_full_mut) and then
//! publishes the new length with [`set_frames`](Buffer::set_frames).
//!
//! The model of a buffer ([`BufferModel`]) is its geometry plus its whole
//! channel-major storage; frame `k` of channel `ch` lives at
//! [`sample_index`]`(capacity, ch, k)`.

use vstd::prelude::*;

verus! {

/// A silent sample: a value that `S::default()` returns (zero for the float
/// sample types).
pub open spec fn is_silence<S: Default>(s: S) -> bool {
    call_ensures(S::default, (), s)
}

/// Position of frame `k` of channel `ch` in channel-major storage.
pub open spec fn sample_index(capacity: nat, ch: int, k: int) -> int {
    ch * capacity + k
}

/// The model of a [`Buffer`]: `channels` channels of `capacity` samples each,
/// stored channel-major in `data`, of which the first `frames` of each channel
/// are active.
#[verifier::ext_equal]
pub struct BufferModel<S> {
    pub channels: nat,
    pub capacity: nat,
    pub frames: nat,
    pub data: Seq<S>,
}

impl<S> BufferModel<S> {
    /// The storage holds exactly `channels * capacity` samples and the active
    /// region fits in the capacity.
    pub open spec fn wf(self) -> bool {
        &&& self.data.len() == self.channels * self.capacity
        &&& self.frames <= self.capacity
        &&& self.channels * self.capacity <= usize::MAX
    }

    /// Sample `k` of channel `ch`.
    pub open spec fn sample(self, ch: int, k: int) -> S {
        self.data[sample_index(self.capacity, ch, k)]
    }

    /// The first `len` samples of channel `ch`.
    pub open spec fn region(self, ch: int, len: nat) -> Seq<S> {
        self.data.subrange(sample_index(self.capacity, ch, 0), sample_index(self.capacity, ch, len as int))
    }

    /// The active region of channel `ch`.
    pub open spec fn channel(self, ch: int) -> Seq<S> {
        self.region(ch, self.frames)
    }

    /// The full `capacity` region of channel `ch`.
    pub open spec fn channel_full(self, ch: int) -> Seq<S> {
        self.region(ch, self.capacity)
    }

    /// The inactive tail of channel `ch`: its samples past the active region.
    pub open spec fn inactive(self, ch: int) -> Seq<S> {
        self.data.subrange(
            sample_index(self.capacity, ch, self.frames as int),
            sample_index(self.capacity, ch, self.capacity as int),
        )
    }

    /// This buffer with the first `len` samples of channel `ch` replaced by `s`.
    pub open spec fn with_region(self, ch: int, len: nat, s: Seq<S>) -> BufferModel<S> {
        BufferModel {
            channels: self.channels,
            capacity: self.capacity,
            frames: self.frames,
            data: self.data.subrange(0, sample_index(self.capacity, ch, 0)) + s + self.data.subrange(
                sample_index(self.capacity, ch, len as int),
                self.data.len() as int,
            ),
        }
    }

    /// This buffer with `frames` active frames.
    pub open spec fn with_frames(self, frames: nat) -> BufferModel<S> {
        BufferModel {
            channels: self.channels,
            capacity: self.capacity,
            frames: frames,
            data: self.data,
        }
    }
}

/// The concatenation of `parts`, in order.
pub open spec fn concat_all<S>(parts: Seq<Seq<S>>) -> Seq<S>
    decreases parts.len(),
{
    if parts.len() == 0 {
        Seq::empty()
    } else {
        concat_all(parts.drop_last()) + parts.last()
    }
}

proof fn lemma_channel_bounds(channels: nat, capacity: nat, ch: int, k: int)
    requires
        0 <= ch < channels,
        0 <= k <= capacity,
    ensures
        0 <= ch * capacity,
        ch * capacity + k <= channels * capacity,
        k < capacity ==> ch * capacity + k < channels * capacity,
{
    assert(0 <= ch * capacity) by (nonlinear_arith)
        requires
            0 <= ch,
    ;
    assert(ch * capacity + capacity <= channels * capacity) by (nonlinear_arith)
        requires
            0 <= ch < channels,
    ;
}

/// Distinct (channel, frame) pairs live at distinct positions.
proof fn lemma_sample_index_injective(capacity: nat, c1: int, k1: int, c2: int, k2: int)
    requires
        0 <= c1,
        0 <= c2,
        0 <= k1 < capacity,
        0 <= k2 < capacity,
        sample_index(capacity, c1, k1) == sample_index(capacity, c2, k2),
    ensures
        c1 == c2,
        k1 == k2,
{
    if c1 < c2 {
        assert(c1 * capacity + capacity <= c2 * capacity) by (nonlinear_arith)
            requires
                0 <= c1 < c2,
        ;
    } else if c2 < c1 {
        assert(c2 * capacity + capacity <= c1 * capacity) by (nonlinear_arith)
            requires
                0 <= c2 < c1,
        ;
    }
}

/// A write through a channel region changes exactly that region: the buffer
/// stays well formed, the region reads back what was written, the rest of
/// that channel is unchanged, and so is every other channel. (Channels do not
/// alias.)
pub proof fn lemma_region_write<S>(b: BufferModel<S>, ch: int, len: nat, s: Seq<S>, other: int, k: int)
    requires
        b.wf(),
        0 <= ch < b.channels,
        len <= b.capacity,
        s.len() == len,
        0 <= other < b.channels,
        0 <= k < b.capacity,
    ensures
        b.with_region(ch, len, s).wf(),
        b.with_region(ch, len, s).region(ch, len) == s,
        (other != ch || k >= len) ==> b.with_region(ch, len, s).sample(other, k) == b.sample(other, k),
{
    let w = b.with_region(ch, len, s);
    let cap = b.capacity;
    lemma_channel_bounds(b.channels, cap, ch, len as int);
    lemma_channel_bounds(b.channels, cap, other, k);
    let start = ch * cap;
    assert(w.data.len() == b.data.len());
    assert(w.region(ch, len) =~= s);
    if other < ch {
        assert(other * cap + cap <= ch * cap) by (nonlinear_arith)
            requires
                0 <= other < ch,
        ;
    } else if other > ch {
        assert(ch * cap + cap <= other * cap) by (nonlinear_arith)
            requires
                0 <= ch < other,
        ;
    }
    if other != ch || k >= len {
        let i = sample_index(cap, other, k);
        if i < start {
            assert(w.data[i] == b.data[i]);
        } else {
            assert(i >= start + len);
            assert(w.data[i] == b.data[i]);
        }
    }
}

/// The active region of a channel is the first `frames` samples of its full
/// region, whatever the frame count is set to.
pub proof fn lemma_active_is_prefix_of_full<S>(b: BufferModel<S>, ch: int, frames: nat)
    requires
        b.wf(),
        0 <= ch < b.channels,
        frames <= b.capacity,
    ensures
        b.with_frames(frames).wf(),
        b.with_frames(frames).channel(ch) == b.channel_full(ch).subrange(0, frames as int),
{
    lemma_channel_bounds(b.channels, b.capacity, ch, b.capacity as int);
    assert(b.with_frames(frames).channel(ch) =~= b.channel_full(ch).subrange(0, frames as int));
}

/// Storage is channel-major: channel after channel, each channel's active
/// region followed by its inactive tail. Writing back unchanged slices through
/// [`Buffer::iter_channels_mut`] therefore leaves the storage as it was.
pub proof fn lemma_storage_is_channel_major<S>(b: BufferModel<S>)
    requires
        b.wf(),
    ensures
        concat_all(Seq::new(b.channels, |ch: int| b.channel(ch) + b.inactive(ch))) == b.data,
{
    lemma_channel_major_prefix(b, b.channels);
    assert(b.data.subrange(0, (b.channels * b.capacity) as int) =~= b.data);
}

proof fn lemma_channel_major_prefix<S>(b: BufferModel<S>, n: nat)
    requires
        b.wf(),
        n <= b.channels,
    ensures
        n * b.capacity <= b.data.len(),
        concat_all(Seq::new(n, |ch: int| b.channel(ch) + b.inactive(ch))) == b.data.subrange(
            0,
            (n * b.capacity) as int,
        ),
    decreases n,
{
    let cap = b.capacity;
    if n == 0 {
        assert(n * cap == 0) by (nonlinear_arith)
            requires
                n == 0,
        ;
        assert(concat_all(Seq::new(0nat, |ch: int| b.channel(ch) + b.inactive(ch))) =~= b.data.subrange(0, 0));
    } else {
        let m = (n - 1) as nat;
        lemma_channel_major_prefix(b, m);
        lemma_channel_bounds(b.channels, cap, m as int, cap as int);
        assert(n * cap == m * cap + cap) by (nonlinear_arith)
            requires
                n == m + 1,
        ;
        let parts = Seq::new(n, |ch: int| b.channel(ch) + b.inactive(ch));
        assert(parts.drop_last() =~= Seq::new(m, |ch: int| b.channel(ch) + b.inactive(ch)));
        assert(parts.last() =~= b.data.subrange((m * cap) as int, (m * cap + cap) as int));
        assert(concat_all(parts) =~= b.data.subrange(0, (n * cap) as int));
    }
}

/// One planar audio signal: `channels` channels of `capacity` frames in a
/// single contiguous allocation, of which the first `frames` are active.
///
/// See the [module docs](self) for the capacity/frames distinction.
pub struct Buffer<S> {
    /// Channel-major storage, `channels * capacity` long.
    data: Vec<S>,
    channels: usize,
    capacity: usize,
    frames: usize,
}

impl<S> View for Buffer<S> {
    type V = BufferModel<S>;

    closed spec fn view(&self) -> BufferModel<S> {
        BufferModel {
            channels: self.channels as nat,
            capacity: self.capacity as nat,
            frames: self.frames as nat,
            data: self.data@,
        }
    }
}

impl<S: Copy + Default> Buffer<S> {
    /// Allocate a silent buffer of `channels` channels and `capacity` frames,
    /// all of them active. This allocates.
    pub fn new(channels: usize, capacity: usize) -> (r: Self)
        requires
            channels * capacity <= usize::MAX,
        ensures
            r@.wf(),
            r@.channels == channels,
            r@.capacity == capacity,
            r@.frames == capacity,
            forall|i: int| 0 <= i < r@.data.len() ==> is_silence(#[trigger] r@.data[i]),
    {
        let n = channels * capacity;
        let z = S::default();
        let mut data: Vec<S> = Vec::new();
        let mut i: usize = 0;
        while i < n
            invariant
                i <= n,
                data@.len() == i,
                is_silence(z),
                forall|j: int| 0 <= j < i ==> data@[j] == z,
            decreases n - i,
        {
            data.push(z);
            i = i + 1;
        }
        Buffer { data, channels, capacity, frames: capacity }
    }

    /// Number of channels.
    pub fn channels(&self) -> (r: usize)
        ensures
            r == self@.channels,
    {
        self.channels
    }

    /// Allocated frames per channel.
    pub fn capacity(&self) -> (r: usize)
        ensures
            r == self@.capacity,
    {
        self.capacity
    }

    /// Number of active frames (`<= capacity`).
    pub fn frames(&self) -> (r: usize)
        ensures
            r == self@.frames,
    {
        self.frames
    }

    /// Set the number of active frames, which must not exceed the capacity.
    pub fn set_frames(&mut self, frames: usize)
        requires
            old(self)@.wf(),
            frames <= old(self)@.capacity,
        ensures
            final(self)@ == old(self)@.with_frames(frames as nat),
            final(self)@.wf(),
    {
        self.frames = frames;
    }

    /// The first `len` samples of channel `ch`, read-only.
    fn region(&self, ch: usize, len: usize) -> (r: &[S])
        requires
            self@.wf(),
            ch < self@.channels,
            len <= self@.capacity,
        ensures
            r@ == self@.region(ch as int, len as nat),
    {
        proof {
            lemma_channel_bounds(self@.channels, self@.capacity, ch as int, len as int);
        }
        let start = ch * self.capacity;
        let s = self.data.as_slice();
        &s[start..start + len]
    }

    /// The first `len` samples of channel `ch`, writable.
    fn region_mut(&mut self, ch: usize, len: usize) -> (r: &mut [S])
        requires
            old(self)@.wf(),
            ch < old(self)@.channels,
            len <= old(self)@.capacity,
        ensures
            r@ == old(self)@.region(ch as int, len as nat),
            final(self)@ == old(self)@.with_region(ch as int, len as nat, final(r)@),
            final(r)@.len() == r@.len() ==> final(self)@.wf(),
    {
        proof {
            lemma_channel_bounds(self@.channels, self@.capacity, ch as int, len as int);
        }
        let start = ch * self.capacity;
        let ghost old_data = self.data@;
        let s = self.data.as_mut_slice();
        let (head, tail) = s.split_at_mut(start);
        let (mid, rest) = tail.split_at_mut(len);
        assert(head@ =~= old_data.subrange(0, start as int));
        assert(rest@ =~= old_data.subrange(start + len, old_data.len() as int));
        mid
    }

    /// The active region of channel `ch`, read-only.
    pub fn channel(&self, ch: usize) -> (r: &[S])
        requires
            self@.wf(),
            ch < self@.channels,
        ensures
            r@ == self@.channel(ch as int),
    {
        self.region(ch, self.frames)
    }

    /// The active region of channel `ch`, writable. The buffer afterwards holds
    /// what was written through the returned slice in that region, and is
    /// unchanged elsewhere.
    pub fn channel_mut(&mut self, ch: usize) -> (r: &mut [S])
        requires
            old(self)@.wf(),
            ch < old(self)@.channels,
        ensures
            r@ == old(self)@.channel(ch as int),
            final(self)@ == old(self)@.with_region(ch as int, old(self)@.frames, final(r)@),
            final(r)@.len() == r@.len() ==> final(self)@.wf(),
    {
        let frames = self.frames;
        self.region_mut(ch, frames)
    }

    /// The full `capacity` region of channel `ch`, read-only.
    pub fn channel_full(&self, ch: usize) -> (r: &[S])
        requires
            self@.wf(),
            ch < self@.channels,
        ensures
            r@ == self@.channel_full(ch as int),
    {
        self.region(ch, self.capacity)
    }

    /// The full `capacity` region of channel `ch`, writable. Use this to write
    /// past the current active region (e.g. a resampler producing more frames
    /// than it consumed) before publishing the new length with
    /// [`set_frames`](Self::set_frames).
    pub fn channel_full_mut(&mut self, ch: usize) -> (r: &mut [S])
        requires
            old(self)@.wf(),
            ch < old(self)@.channels,
        ensures
            r@ == old(self)@.channel_full(ch as int),
            final(self)@ == old(self)@.with_region(ch as int, old(self)@.capacity, final(r)@),
            final(r)@.len() == r@.len() ==> final(self)@.wf(),
    {
        let capacity = self.capacity;
        self.region_mut(ch, capacity)
    }

    /// The active region of every channel, in channel order: one slice of
    /// `frames` samples per channel.
    pub fn iter_channels(&self) -> (r: Vec<&[S]>)
        requires
            self@.wf(),
        ensures
            r@.len() == self@.channels,
            forall|ch: int| 0 <= ch < r@.len() ==> (#[trigger] r@[ch])@ == self@.channel(ch),
    {
        let mut out: Vec<&[S]> = Vec::new();
        let mut ch: usize = 0;
        while ch < self.channels
            invariant
                self@.wf(),
                ch <= self@.channels,
                out@.len() == ch,
                forall|c: int| 0 <= c < ch ==> (#[trigger] out@[c])@ == self@.channel(c),
            decreases self@.channels - ch,
        {
            out.push(self.channel(ch));
            ch = ch + 1;
        }
        out
    }

    /// The active region of every channel, writable, in channel order: one
    /// slice of `frames` samples per channel. Afterwards the storage holds,
    /// channel by channel, what was written through each returned slice
    /// followed by that channel's untouched inactive tail.
    pub fn iter_channels_mut(&mut self) -> (r: Vec<&mut [S]>)
        requires
            old(self)@.wf(),
        ensures
            r@.len() == old(self)@.channels,
            forall|ch: int| 0 <= ch < r@.len() ==> r@[ch]@ == #[trigger] old(self)@.channel(ch),
            final(self)@.channels == old(self)@.channels,
            final(self)@.capacity == old(self)@.capacity,
            final(self)@.frames == old(self)@.frames,
            final(self)@.data == concat_all(
                Seq::new(r@.len(), |ch: int| final(r@[ch])@ + old(self)@.inactive(ch)),
            ),
    {
        let cap = self.capacity;
        let frames = self.frames;
        let channels = self.channels;
        let ghost old_view = self@;
        let ghost fin = final(self)@;
        let mut out: Vec<&mut [S]> = Vec::new();
        let mut rest: &mut [S] = self.data.as_mut_slice();
        let mut ch: usize = 0;
        while ch < channels
            invariant
                old_view.wf(),
                cap == old_view.capacity,
                frames == old_view.frames,
                channels == old_view.channels,
                ch <= channels,
                ch * cap <= old_view.data.len(),
                rest@ == old_view.data.subrange(ch * cap, old_view.data.len() as int),
                out@.len() == ch,
                forall|c: int| 0 <= c < ch ==> out@[c]@ == #[trigger] old_view.channel(c),
                fin.data == concat_all(
                    Seq::new(ch as nat, |c: int| final(out@[c])@ + old_view.inactive(c)),
                ) + final(rest)@,
            decreases channels - ch,
        {
            proof {
                lemma_channel_bounds(old_view.channels, cap as nat, ch as int, cap as int);
            }
            let ghost old_out = out@;
            let ghost old_fin = final(rest)@;
            let (chunk, tail) = rest.split_at_mut(cap);
            let (active, inactive) = chunk.split_at_mut(frames);
            assert(inactive@ =~= old_view.inactive(ch as int));
            assert(active@ =~= old_view.channel(ch as int));
            out.push(active);
            rest = tail;
            proof {
                let parts = Seq::new((ch + 1) as nat, |c: int| final(out@[c])@ + old_view.inactive(c));
                assert(parts.drop_last() =~= Seq::new(
                    ch as nat,
                    |c: int| final(old_out[c])@ + old_view.inactive(c),
                ));
                assert(old_fin == parts.last() + final(rest)@);
                assert(concat_all(parts) == concat_all(parts.drop_last()) + parts.last());
                assert((ch + 1) * cap == ch * cap + cap) by (nonlinear_arith);
                assert(rest@ =~= old_view.data.subrange((ch + 1) * cap, old_view.data.len() as int));
            }
            ch = ch + 1;
        }
        assert(rest@.len() == 0);
        out
    }

    /// Zero the active region of every channel; the inactive tails keep their
    /// samples.
    pub fn silence(&mut self)
        requires
            old(self)@.wf(),
        ensures
            final(self)@.wf(),
            final(self)@.channels == old(self)@.channels,
            final(self)@.capacity == old(self)@.capacity,
            final(self)@.frames == old(self)@.frames,
            forall|ch: int, k: int|
                0 <= ch < old(self)@.channels && 0 <= k < old(self)@.capacity ==> if k < old(
                    self,
                )@.frames {
                    is_silence(#[trigger] final(self)@.sample(ch, k))
                } else {
                    final(self)@.sample(ch, k) == old(self)@.sample(ch, k)
                },
    {
        let z = S::default();
        let ghost old_view = self@;
        let mut ch: usize = 0;
        while ch < self.channels
            invariant
                is_silence(z),
                old_view.wf(),
                self@.wf(),
                self@.channels == old_view.channels,
                self@.capacity == old_view.capacity,
                self@.frames == old_view.frames,
                ch <= self@.channels,
                forall|c: int, k: int|
                    0 <= c < old_view.channels && 0 <= k < old_view.capacity ==> if c < ch && k
                        < old_view.frames {
                        is_silence(#[trigger] self@.sample(c, k))
                    } else {
                        self@.sample(c, k) == old_view.sample(c, k)
                    },
            decreases self@.channels - ch,
        {
            let mut k: usize = 0;
            while k < self.frames
                invariant
                    is_silence(z),
                    old_view.wf(),
                    self@.wf(),
                    self@.channels == old_view.channels,
                    self@.capacity == old_view.capacity,
                    self@.frames == old_view.frames,
                    ch < self@.channels,
                    k <= self@.frames,
                    forall|c: int, k2: int|
                        0 <= c < old_view.channels && 0 <= k2 < old_view.capacity ==> if (c < ch
                            || (c == ch && k2 < k)) && k2 < old_view.frames {
                            is_silence(#[trigger] self@.sample(c, k2))
                        } else {
                            self@.sample(c, k2) == old_view.sample(c, k2)
                        },
                decreases self@.frames - k,
            {
                proof {
                    lemma_channel_bounds(self@.channels, self@.capacity, ch as int, k as int);
                }
                let idx = ch * self.capacity + k;
                let ghost before = self@;
                self.data.set(idx, z);
                proof {
                    assert forall|c: int, k2: int|
                        0 <= c < old_view.channels && 0 <= k2 < old_view.capacity implies if (c
                            < ch || (c == ch && k2 < k + 1)) && k2 < old_view.frames {
                            is_silence(#[trigger] self@.sample(c, k2))
                        } else {
                            self@.sample(c, k2) == old_view.sample(c, k2)
                        } by {
                        lemma_channel_bounds(self@.channels, self@.capacity, c, k2);
                        if sample_index(self@.capacity, c, k2) == idx {
                            lemma_sample_index_injective(self@.capacity, c, k2, ch as int, k as int);
                        } else {
                            assert(self@.sample(c, k2) == before.sample(c, k2));
                        }
                    }
                }
                k = k + 1;
            }
            ch = ch + 1;
        }
    }

    /// Copy the active region of `src` into this buffer and adopt its frame
    /// count. Channel counts must match and `src`'s active region must fit in
    /// this buffer's capacity; samples past it keep their values.
    pub fn copy_from(&mut self, src: &Buffer<S>)
        requires
            old(self)@.wf(),
            src@.wf(),
            src@.channels == old(self)@.channels,
            src@.frames <= old(self)@.capacity,
        ensures
            final(self)@.wf(),
            final(self)@.channels == old(self)@.channels,
            final(self)@.capacity == old(self)@.capacity,
            final(self)@.frames == src@.frames,
            forall|ch: int| 0 <= ch < src@.channels ==> #[trigger] final(self)@.channel(ch) == src@.channel(ch),
            forall|ch: int, k: int|
                0 <= ch < old(self)@.channels && src@.frames <= k < old(self)@.capacity
                    ==> #[trigger] final(self)@.sample(ch, k) == old(self)@.sample(ch, k),
    {
        self.set_frames(src.frames);
        let ghost old_view = self@;
        let mut ch: usize = 0;
        while ch < self.channels
            invariant
                old_view.wf(),
                src@.wf(),
                src@.channels == old_view.channels,
                src@.frames == old_view.frames,
                src@.frames <= old_view.capacity,
                self@.wf(),
                self@.channels == old_view.channels,
                self@.capacity == old_view.capacity,
                self@.frames == old_view.frames,
                ch <= self@.channels,
                forall|c: int, k: int|
                    0 <= c < old_view.channels && 0 <= k < old_view.capacity ==> #[trigger] self@.sample(c, k)
                        == if c < ch && k < old_view.frames {
                        src@.sample(c, k)
                    } else {
                        old_view.sample(c, k)
                    },
            decreases self@.channels - ch,
        {
            let mut k: usize = 0;
            while k < self.frames
                invariant
                    old_view.wf(),
                    src@.wf(),
                    src@.channels == old_view.channels,
                    src@.frames == old_view.frames,
                    src@.frames <= old_view.capacity,
                    self@.wf(),
                    self@.channels == old_view.channels,
                    self@.capacity == old_view.capacity,
                    self@.frames == old_view.frames,
                    ch < self@.channels,
                    k <= self@.frames,
                    forall|c: int, k2: int|
                        0 <= c < old_view.channels && 0 <= k2 < old_view.capacity
                            ==> #[trigger] self@.sample(c, k2) == if (c < ch || (c == ch && k2 < k))
                            && k2 < old_view.frames {
                            src@.sample(c, k2)
                        } else {
                            old_view.sample(c, k2)
                        },
                decreases self@.frames - k,
            {
                proof {
                    lemma_channel_bounds(self@.channels, self@.capacity, ch as int, k as int);
                    lemma_channel_bounds(src@.channels, src@.capacity, ch as int, k as int);
                }
                let v = src.data[ch * src.capacity + k];
                let idx = ch * self.capacity + k;
                let ghost before = self@;
                self.data.set(idx, v);
                proof {
                    assert forall|c: int, k2: int|
                        0 <= c < old_view.channels && 0 <= k2 < old_view.capacity implies #[trigger] self@.sample(c, k2)
                            == if (c < ch || (c == ch && k2 < k + 1)) && k2 < old_view.frames {
                            src@.sample(c, k2)
                        } else {
                            old_view.sample(c, k2)
                        } by {
                        lemma_channel_bounds(self@.channels, self@.capacity, c, k2);
                        if sample_index(self@.capacity, c, k2) == idx {
                            lemma_sample_index_injective(self@.capacity, c, k2, ch as int, k as int);
                        } else {
                            assert(self@.sample(c, k2) == before.sample(c, k2));
                        }
                    }
                }
                k = k + 1;
            }
            ch = ch + 1;
        }
        proof {
            assert forall|c: int| 0 <= c < src@.channels implies #[trigger] self@.channel(c) == src@.channel(c) by {
                lemma_channel_bounds(self@.channels, self@.capacity, c, self@.frames as int);
                lemma_channel_bounds(src@.channels, src@.capacity, c, src@.frames as int);
                assert forall|k: int| 0 <= k < src@.frames implies self@.channel(c)[k] == src@.channel(c)[k] by {
                    assert(self@.sample(c, k) == src@.sample(c, k));
                }
                assert(self@.channel(c) =~= src@.channel(c));
            }
        }
    }
}

} // verus!
