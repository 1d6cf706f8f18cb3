//! Deterministic offline driving of a processor.
//!
//! [`run_offline`] drives a [`Process`] over a whole planar signal in
//! fixed-size blocks, single-threaded, so the same input always yields the
//! same output. That is what makes a processor's behaviour testable.

use vstd::prelude::*;

use crate::buffer::is_silence;
use crate::common::buffer::{all_hold, Buffer, BufferModel};

verus! {

/// The realtime processing step of a processor: process one [`Buffer`] view
/// in place.
pub trait Process<S>: Sized {
    /// Whether one call of [`process`](Process::process), made on this
    /// processor with a view that reads `before`, may leave the view's output
    /// channels holding `output` and the processor as `after`. What a step
    /// does is each processor's own affair: this names it. A processor that
    /// does not say leaves every outcome possible.
    open spec fn processes(&self, before: BufferModel<S>, output: Seq<Seq<S>>, after: Self) -> bool {
        true
    }

    /// Process one buffer view in place. Realtime-safe: no heap allocation,
    /// no locking, no blocking. The view's methods change nothing but the
    /// samples of its output channels, so the view keeps its shape; what the
    /// samples become, and what the processor becomes, is its step
    /// ([`processes`](Process::processes)).
    fn process(&mut self, buffer: &mut Buffer<'_, S>)
        ensures
            final(buffer)@.keeps_shape_of(old(buffer)@),
            old(self).processes(old(buffer)@, final(buffer)@.output, *final(self)),
    ;
}

/// The smaller of two naturals.
pub open spec fn min_nat(a: nat, b: nat) -> nat {
    if a <= b {
        a
    } else {
        b
    }
}

/// The length of the shortest channel of `chans`, or 0 when there is none.
pub open spec fn min_len<S>(chans: Seq<Vec<S>>) -> nat
    decreases chans.len(),
{
    if chans.len() == 0 {
        0
    } else if chans.len() == 1 {
        chans[0]@.len()
    } else {
        min_nat(min_len(chans.drop_last()), chans.last()@.len())
    }
}

/// The frames per block for a requested `block` size: at least one.
pub open spec fn block_size(block: nat) -> nat {
    if block == 0 {
        1
    } else {
        block
    }
}

/// How many blocks of `k` frames it takes to cover `total` frames: the last
/// block may be shorter.
pub open spec fn window_count(total: nat, k: nat) -> nat {
    total / k + if total % k == 0 {
        0nat
    } else {
        1nat
    }
}

/// The first frame of block `j`.
pub open spec fn window_start(k: nat, j: nat) -> nat {
    j * k
}

/// The number of frames of block `j`: `k`, or what is left of `total`.
pub open spec fn window_len(total: nat, k: nat, j: nat) -> nat {
    min_nat(k, (total - j * k) as nat)
}

/// The length of the shortest channel is the length of one of the channels
/// (when there is any), and no channel is shorter.
pub proof fn lemma_min_len_is_shortest<S>(chans: Seq<Vec<S>>)
    ensures
        forall|i: int| 0 <= i < chans.len() ==> min_len(chans) <= (#[trigger] chans[i])@.len(),
        chans.len() > 0 ==> exists|i: int| 0 <= i < chans.len() && min_len(chans) == (#[trigger] chans[i])@.len(),
    decreases chans.len(),
{
    if chans.len() > 1 {
        let init = chans.drop_last();
        lemma_min_len_is_shortest(init);
        assert forall|i: int| 0 <= i < chans.len() implies min_len(chans) <= (#[trigger] chans[i])@.len() by {
            if i < chans.len() - 1 {
                assert(init[i] == chans[i]);
            }
        }
        let w = choose|i: int| 0 <= i < init.len() && min_len(init) == (#[trigger] init[i])@.len();
        assert(init[w] == chans[w]);
        if min_len(init) <= chans.last()@.len() {
            assert(min_len(chans) == chans[w]@.len());
        } else {
            assert(min_len(chans) == chans[chans.len() - 1]@.len());
        }
    } else if chans.len() == 1 {
        assert(min_len(chans) == chans[0]@.len());
    }
}

/// The block size for a requested `block` is `block` itself, or one frame
/// when `block` is 0: no block is longer than what was asked for.
pub proof fn lemma_block_size_is_requested(block: nat)
    ensures
        block > 0 ==> block_size(block) == block,
        block == 0 ==> block_size(block) == 1,
        block_size(block) >= 1,
{
}

/// Blocks start inside the signal, and the block after the last would start
/// at or past its end.
proof fn lemma_window_bounds(total: nat, k: nat, j: nat)
    requires
        k > 0,
    ensures
        j < window_count(total, k) ==> j * k < total,
        j + 1 >= window_count(total, k) ==> (j + 1) * k >= total,
{
    let q = total / k;
    let r = total % k;
    vstd::arithmetic::div_mod::lemma_fundamental_div_mod(total as int, k as int);
    vstd::arithmetic::div_mod::lemma_mod_pos_bound(total as int, k as int);
    assert(total == k * q + r);
    if j < window_count(total, k) {
        if r == 0 {
            assert(j * k < total) by (nonlinear_arith)
                requires
                    j + 1 <= q,
                    total == k * q,
                    k > 0,
            ;
        } else {
            assert(j * k < total) by (nonlinear_arith)
                requires
                    j <= q,
                    total == k * q + r,
                    r > 0,
            ;
        }
    }
    if j + 1 >= window_count(total, k) {
        if r == 0 {
            assert((j + 1) * k >= total) by (nonlinear_arith)
                requires
                    j + 1 >= q,
                    total == k * q,
                    k > 0,
            ;
        } else {
            assert((j + 1) * k >= total) by (nonlinear_arith)
                requires
                    j + 1 >= q + 1,
                    total == k * q + r,
                    r < k,
            ;
        }
    }
}

/// The blocks tile the signal: each block is non-empty, ends where the next
/// one starts, and the last one ends at the end of the signal.
pub proof fn lemma_windows_tile(total: nat, k: nat, j: nat)
    requires
        k > 0,
        j < window_count(total, k),
    ensures
        window_len(total, k, j) > 0,
        window_start(k, j) + window_len(total, k, j) == if j + 1 < window_count(total, k) {
            window_start(k, j + 1)
        } else {
            total
        },
{
    lemma_window_bounds(total, k, j);
    lemma_window_bounds(total, k, j + 1);
    assert((j + 1) * k == j * k + k) by (nonlinear_arith);
}

/// Block `j` of `total` frames cut into blocks of `block` frames (at least
/// one): its first frame and its length.
pub fn window(j: usize, total: usize, block: usize) -> (r: (usize, usize))
    requires
        j < window_count(total as nat, block_size(block as nat)),
    ensures
        r.0 == window_start(block_size(block as nat), j as nat),
        r.1 == window_len(total as nat, block_size(block as nat), j as nat),
        r.1 > 0,
        r.0 + r.1 <= total,
        block > 0 ==> r.1 <= block,
        r.1 <= block_size(block as nat),
{
    let k: usize = if block == 0 {
        1
    } else {
        block
    };
    proof {
        lemma_window_bounds(total as nat, k as nat, j as nat);
        lemma_windows_tile(total as nat, k as nat, j as nat);
    }
    let start = j * k;
    let left = total - start;
    let n = if k <= left {
        k
    } else {
        left
    };
    (start, n)
}

/// The length of the shortest of `input`'s channels, 0 when there is none.
fn shortest<S>(input: &Vec<Vec<S>>) -> (t: usize)
    ensures
        t == min_len(input@),
        forall|c: int| 0 <= c < input@.len() ==> t <= (#[trigger] input@[c])@.len(),
        input@.len() > 0 ==> exists|c: int| 0 <= c < input@.len() && t == (#[trigger] input@[c])@.len(),
{
    proof {
        lemma_min_len_is_shortest(input@);
    }
    if input.len() == 0 {
        return 0;
    }
    let mut t = input[0].len();
    let mut i: usize = 1;
    assert(input@.take(1) =~= seq![input@[0]]);
    while i < input.len()
        invariant
            1 <= i <= input@.len(),
            t == min_len(input@.take(i as int)),
        decreases input@.len() - i,
    {
        let l = input[i].len();
        assert(input@.take(i + 1).drop_last() =~= input@.take(i as int));
        if l < t {
            t = l;
        }
        i = i + 1;
    }
    assert(input@.take(i as int) =~= input@);
    t
}

/// `n` silent samples.
fn silent<S: Copy + Default>(n: usize) -> (r: Vec<S>)
    ensures
        r@.len() == n,
        forall|k: int| 0 <= k < n ==> is_silence(#[trigger] r@[k]),
{
    let z = S::default();
    let mut v: Vec<S> = Vec::new();
    let mut i: usize = 0;
    while i < n
        invariant
            i <= n,
            v@.len() == i,
            is_silence(z),
            forall|k: int| 0 <= k < i ==> v@[k] == z,
        decreases n - i,
    {
        v.push(z);
        i = i + 1;
    }
    v
}

/// Whether `chans` holds `channels` channels of `n` silent samples each.
pub open spec fn is_silent_block<S: Default>(chans: Seq<Vec<S>>, channels: nat, n: nat) -> bool {
    &&& chans.len() == channels
    &&& forall|c: int| 0 <= c < channels ==> (#[trigger] chans[c])@.len() == n
    &&& forall|c: int, k: int| 0 <= c < channels && 0 <= k < n ==> is_silence(#[trigger] chans[c]@[k])
}

/// The output channels one block starts with: `channels` channels of `n`
/// silent samples.
pub fn silent_block<S: Copy + Default>(channels: usize, n: usize) -> (r: Vec<Vec<S>>)
    ensures
        is_silent_block(r@, channels as nat, n as nat),
{
    let mut out: Vec<Vec<S>> = Vec::new();
    let mut c: usize = 0;
    while c < channels
        invariant
            c <= channels,
            is_silent_block(out@, c as nat, n as nat),
        decreases channels - c,
    {
        let row = silent(n);
        out.push(row);
        assert(out@[c as int] == row);
        c = c + 1;
    }
    out
}

/// The input one block sees: frames `start .. start + n` of every input
/// channel.
pub fn block_inputs<'a, S>(input: &'a Vec<Vec<S>>, start: usize, n: usize) -> (r: Vec<&'a [S]>)
    requires
        forall|c: int| 0 <= c < input@.len() ==> start + n <= (#[trigger] input@[c])@.len(),
    ensures
        r@.len() == input@.len(),
        forall|c: int|
            0 <= c < input@.len() ==> (#[trigger] r@[c])@ == input@[c]@.subrange(
                start as int,
                start + n,
            ),
{
    let mut out: Vec<&'a [S]> = Vec::new();
    let mut c: usize = 0;
    while c < input.len()
        invariant
            c <= input@.len(),
            forall|i: int| 0 <= i < input@.len() ==> start + n <= (#[trigger] input@[i])@.len(),
            out@.len() == c,
            forall|i: int|
                0 <= i < c ==> (#[trigger] out@[i])@ == input@[i]@.subrange(start as int, (start + n) as int),
        decreases input@.len() - c,
    {
        let row: &Vec<S> = &input[c];
        let s = row.as_slice();
        let len = s.len();
        assert(start + n <= len);
        out.push(&s[start..start + n]);
        c = c + 1;
    }
    out
}

/// The samples of `s`, in a vector of their own.
fn copy_samples<S: Copy>(s: &[S]) -> (r: Vec<S>)
    ensures
        r@ == s@,
{
    let mut v: Vec<S> = Vec::new();
    let mut i: usize = 0;
    while i < s.len()
        invariant
            i <= s@.len(),
            v@ == s@.subrange(0, i as int),
        decreases s@.len() - i,
    {
        v.push(s[i]);
        assert(v@ =~= s@.subrange(0, i + 1));
        i = i + 1;
    }
    assert(v@ =~= s@);
    v
}

/// The view a block is handed: `inputs` and `outputs` as its channels, every
/// one of them `n` frames long, all of them active.
pub open spec fn block_model<S>(inputs: Seq<&[S]>, outputs: Seq<Vec<S>>, n: nat) -> BufferModel<S> {
    BufferModel {
        input: inputs.map_values(|s: &[S]| s@),
        output: outputs.map_values(|v: Vec<S>| v@),
        capacity: n,
        frames: n,
    }
}

/// Hand `processor` one block, a view of `inputs` and of `outputs` whose every
/// channel is `n` frames long and active, and return what the processor left
/// in the view's output channels.
fn process_block<S: Copy, P: Process<S>>(
    processor: &mut P,
    inputs: &Vec<&[S]>,
    outputs: Vec<Vec<S>>,
    n: usize,
) -> (r: Vec<Vec<S>>)
    requires
        forall|i: int| 0 <= i < inputs@.len() ==> (#[trigger] inputs@[i])@.len() == n,
        forall|i: int| 0 <= i < outputs@.len() ==> (#[trigger] outputs@[i])@.len() == n,
    ensures
        r@.len() == outputs@.len(),
        forall|c: int| 0 <= c < r@.len() ==> (#[trigger] r@[c])@.len() == n,
        old(processor).processes(
            block_model(inputs@, outputs@, n as nat),
            r@.map_values(|v: Vec<S>| v@),
            *final(processor),
        ),
{
    let ghost orig = outputs@;
    let ghost model = block_model(inputs@, orig, n as nat);
    let mut outputs = outputs;
    let out_channels = outputs.len();
    let mut windows: Vec<&mut [S]> = Vec::new();
    let mut rest: &mut [Vec<S>] = outputs.as_mut_slice();
    let mut c: usize = 0;
    while c < out_channels
        invariant
            c <= out_channels,
            out_channels == orig.len(),
            rest@ == orig.subrange(c as int, out_channels as int),
            windows@.len() == c,
            forall|i: int| #![trigger windows@[i]] 0 <= i < c ==> windows@[i]@ == orig[i]@,
        decreases out_channels - c,
    {
        let (first, tail) = rest.split_at_mut(1);
        let row = first.first_mut().unwrap();
        windows.push(row.as_mut_slice());
        rest = tail;
        c = c + 1;
    }
    assert(windows@.map_values(|s: &mut [S]| s@) =~= orig.map_values(|v: Vec<S>| v@));
    assert(all_hold(inputs@.map_values(|s: &[S]| s@), n as nat));
    assert(all_hold(windows@.map_values(|s: &mut [S]| s@), n as nat));
    let mut view = Buffer::new(inputs.as_slice(), windows.as_mut_slice(), n);
    assert(view@ == model);
    processor.process(&mut view);
    assert(view@.wf());
    let mut r: Vec<Vec<S>> = Vec::new();
    let mut c: usize = 0;
    while c < out_channels
        invariant
            c <= out_channels,
            out_channels == model.output.len(),
            model.frames == n,
            view@.keeps_shape_of(model),
            view@.wf(),
            forall|i: int| 0 <= i < out_channels ==> (#[trigger] model.output[i]).len() == n,
            r@.len() == c,
            forall|i: int| 0 <= i < c ==> (#[trigger] r@[i])@ == view@.output[i],
        decreases out_channels - c,
    {
        let s = view.output(c);
        assert(view@.output[c as int].len() == n);
        assert(s@ =~= view@.output[c as int]);
        r.push(copy_samples(s));
        c = c + 1;
    }
    assert(r@.map_values(|v: Vec<S>| v@) =~= view@.output);
    r
}

/// Append each channel of `block` to the same channel of `output`.
pub fn append_block<S: Copy>(output: &mut Vec<Vec<S>>, block: &Vec<Vec<S>>)
    requires
        block@.len() == old(output)@.len(),
    ensures
        final(output)@.len() == old(output)@.len(),
        forall|c: int|
            0 <= c < old(output)@.len() ==> (#[trigger] final(output)@[c])@ == old(output)@[c]@
                + block@[c]@,
{
    let ghost before = output@;
    let channels = output.len();
    let mut c: usize = 0;
    while c < channels
        invariant
            c <= channels,
            channels == before.len(),
            block@.len() == channels,
            output@.len() == channels,
            forall|i: int| c <= i < channels ==> (#[trigger] output@[i]) == before[i],
            forall|i: int| 0 <= i < c ==> (#[trigger] output@[i])@ == before[i]@ + block@[i]@,
        decreases channels - c,
    {
        let row: &Vec<S> = &block[c];
        let len = row.len();
        let mut kk: usize = 0;
        while kk < len
            invariant
                kk <= len,
                c < channels,
                channels == before.len(),
                block@.len() == channels,
                len == block@[c as int]@.len(),
                row@ == block@[c as int]@,
                output@.len() == channels,
                output@[c as int]@ == before[c as int]@ + block@[c as int]@.subrange(0, kk as int),
                forall|i: int| c < i < channels ==> (#[trigger] output@[i]) == before[i],
                forall|i: int| 0 <= i < c ==> (#[trigger] output@[i])@ == before[i]@ + block@[i]@,
            decreases len - kk,
        {
            let v = row[kk];
            output[c].push(v);
            assert(output@[c as int]@ =~= before[c as int]@ + block@[c as int]@.subrange(0, kk + 1));
            kk = kk + 1;
        }
        assert(block@[c as int]@.subrange(0, len as int) =~= block@[c as int]@);
        c = c + 1;
    }
}

/// Whether `v` is the view of frames `start .. start + n` of `input`, with
/// `out_channels` output channels of `n` silent samples, every frame active.
pub open spec fn is_block_view<S: Default>(
    v: BufferModel<S>,
    input: Seq<Vec<S>>,
    out_channels: nat,
    start: nat,
    n: nat,
) -> bool {
    &&& v.capacity == n
    &&& v.frames == n
    &&& v.input.len() == input.len()
    &&& forall|c: int|
        0 <= c < input.len() ==> #[trigger] v.input[c] == input[c]@.subrange(start as int, (start + n) as int)
    &&& v.output.len() == out_channels
    &&& forall|c: int| 0 <= c < out_channels ==> (#[trigger] v.output[c]).len() == n
    &&& forall|c: int, k: int|
        0 <= c < out_channels && 0 <= k < n ==> is_silence(#[trigger] v.output[c][k])
}

/// Whether block `j` of an offline run over `input` in blocks of `k` frames
/// went as it should: the processor `states[j]` was handed `views[j]`, the
/// view of that block's frames with silent output channels; its step left
/// `outs[j]` in them and the processor as `states[j + 1]`; and `r` holds
/// `outs[j]` over that block's frames.
pub open spec fn block_done<S: Default, P: Process<S>>(
    input: Seq<Vec<S>>,
    out_channels: nat,
    k: nat,
    r: Seq<Vec<S>>,
    states: Seq<P>,
    views: Seq<BufferModel<S>>,
    outs: Seq<Seq<Seq<S>>>,
    j: int,
) -> bool {
    let start = window_start(k, j as nat);
    let n = window_len(min_len(input), k, j as nat);
    &&& is_block_view(views[j], input, out_channels, start, n)
    &&& states[j].processes(views[j], outs[j], states[j + 1])
    &&& outs[j].len() == out_channels
    &&& forall|c: int|
        0 <= c < out_channels ==> (#[trigger] r[c])@.subrange(start as int, (start + n) as int) == outs[j][c]
}

/// Whether `r` is what an offline run of the processor `before` over `input`
/// in blocks of `block` frames gives, leaving the processor as `after`:
/// `out_channels` channels as long as the shortest input channel, every block
/// done as [`block_done`] says, with `states` the processor before each block
/// and after the last one.
pub open spec fn is_offline_run<S: Default, P: Process<S>>(
    before: P,
    after: P,
    input: Seq<Vec<S>>,
    out_channels: nat,
    block: nat,
    r: Seq<Vec<S>>,
    states: Seq<P>,
    views: Seq<BufferModel<S>>,
    outs: Seq<Seq<Seq<S>>>,
) -> bool {
    let k = block_size(block);
    let m = window_count(min_len(input), k);
    &&& states.len() == m + 1
    &&& views.len() == m
    &&& outs.len() == m
    &&& states[0] == before
    &&& states[m as int] == after
    &&& r.len() == out_channels
    &&& forall|c: int| 0 <= c < out_channels ==> (#[trigger] r[c])@.len() == min_len(input)
    &&& forall|j: int| 0 <= j < m ==> #[trigger] block_done(input, out_channels, k, r, states, views, outs, j)
}

/// A block ends at or before the start of any later block.
proof fn lemma_earlier_block_ends_first(total: nat, k: nat, i: nat, j: nat)
    requires
        k > 0,
        i < j,
    ensures
        window_start(k, i) + window_len(total, k, i) <= window_start(k, j),
{
    assert(window_len(total, k, i) <= k);
    assert(i * k + k <= j * k) by (nonlinear_arith)
        requires
            i + 1 <= j,
            k > 0,
    ;
}

/// Drive `processor` over a planar `input` signal in fixed-size blocks,
/// returning the planar output: `out_channels` channels, each as long as the
/// shortest input channel.
///
/// The signal is cut into blocks of `block` frames (at least one; the last
/// block may be shorter). For each block in turn the processor gets a view of
/// that block's input frames and `out_channels` output channels that start
/// silent; what it leaves in them becomes that block of the output.
/// Deterministic and single-threaded: the same `input` always yields the same
/// output. `block` must not exceed the processor's `max_frames`.
///
/// The contract says so block by block, over the processor's own step: there
/// are the processor's states before each block and after the last, the views
/// the blocks were handed and what each block left in its output channels,
/// such that [`is_offline_run`] holds of them.
pub fn run_offline<S: Copy + Default, P: Process<S>>(
    processor: &mut P,
    input: &Vec<Vec<S>>,
    out_channels: usize,
    block: usize,
) -> (r: Vec<Vec<S>>)
    ensures
        r@.len() == out_channels,
        forall|c: int| 0 <= c < out_channels ==> (#[trigger] r@[c])@.len() == min_len(input@),
        forall|i: int| 0 <= i < input@.len() ==> min_len(input@) <= (#[trigger] input@[i])@.len(),
        input@.len() > 0 ==> exists|i: int|
            0 <= i < input@.len() && min_len(input@) == (#[trigger] input@[i])@.len(),
        exists|states: Seq<P>, views: Seq<BufferModel<S>>, outs: Seq<Seq<Seq<S>>>|
            #[trigger] is_offline_run(
                *old(processor),
                *final(processor),
                input@,
                out_channels as nat,
                block as nat,
                r@,
                states,
                views,
                outs,
            ),
{
    let k: usize = if block == 0 {
        1
    } else {
        block
    };
    let in_channels = input.len();
    let total = shortest(input);
    proof {
        lemma_min_len_is_shortest(input@);
        vstd::arithmetic::div_mod::lemma_fundamental_div_mod(total as int, k as int);
        vstd::arithmetic::div_mod::lemma_mod_pos_bound(total as int, k as int);
        if total / k == 0 && total % k == 0 {
            // no block at all: the signal is empty
            assert(k * (total / k) == 0) by (nonlinear_arith)
                requires
                    total / k == 0,
            ;
            assert(total == 0);
        }
        if total % k != 0 {
            // the blocks that are full cover less than the whole signal, so
            // there are fewer of them than frames
            assert((total / k) * k < total) by (nonlinear_arith)
                requires
                    total == k * (total / k) + total % k,
                    total % k > 0,
            ;
            assert(total / k <= (total / k) * k) by (nonlinear_arith)
                requires
                    k >= 1,
                    total / k >= 0,
            ;
            assert(total / k < total);
        }
    }
    let count = if total % k == 0 {
        total / k
    } else {
        total / k + 1
    };

    let mut output: Vec<Vec<S>> = Vec::new();
    let mut c: usize = 0;
    while c < out_channels
        invariant
            c <= out_channels,
            output@.len() == c,
            forall|i: int| 0 <= i < c ==> (#[trigger] output@[i])@.len() == 0,
        decreases out_channels - c,
    {
        output.push(Vec::new());
        c = c + 1;
    }

    let ghost mut states: Seq<P> = seq![*processor];
    let ghost mut views: Seq<BufferModel<S>> = Seq::empty();
    let ghost mut outs: Seq<Seq<Seq<S>>> = Seq::empty();
    let mut pos: usize = 0;
    let mut j: usize = 0;
    while j < count
        invariant
            k == block_size(block as nat),
            k > 0,
            total == min_len(input@),
            in_channels == input@.len(),
            forall|c: int| 0 <= c < in_channels ==> total <= (#[trigger] input@[c])@.len(),
            count == window_count(total as nat, k as nat),
            j <= count,
            pos == if j < count {
                j * k
            } else {
                total as int
            },
            output@.len() == out_channels,
            forall|c: int| 0 <= c < out_channels ==> (#[trigger] output@[c])@.len() == pos,
            states.len() == j + 1,
            views.len() == j,
            outs.len() == j,
            states[0] == *old(processor),
            states[j as int] == *processor,
            forall|i: int|
                0 <= i < j ==> #[trigger] block_done(
                    input@,
                    out_channels as nat,
                    k as nat,
                    output@,
                    states,
                    views,
                    outs,
                    i,
                ),
        decreases count - j,
    {
        let (start, n) = window(j, total, k);
        proof {
            lemma_windows_tile(total as nat, k as nat, j as nat);
        }

        let inputs = block_inputs(input, start, n);
        let scratch: Vec<Vec<S>> = silent_block(out_channels, n);
        let ghost view = block_model(inputs@, scratch@, n as nat);
        let ghost states0 = states;
        let ghost views0 = views;
        let ghost outs0 = outs;
        let blk = process_block(processor, &inputs, scratch, n);
        let ghost before = output@;
        append_block(&mut output, &blk);
        proof {
            let out_j = blk@.map_values(|v: Vec<S>| v@);
            states = states0.push(*processor);
            views = views0.push(view);
            outs = outs0.push(out_j);
            assert(is_block_view(view, input@, out_channels as nat, start as nat, n as nat));
            assert forall|c: int| 0 <= c < out_channels implies (#[trigger] output@[c])@.len()
                == start + n by {
                assert(output@[c]@ == before[c]@ + blk@[c]@);
            }
            assert forall|i: int| 0 <= i <= j implies #[trigger] block_done(
                input@,
                out_channels as nat,
                k as nat,
                output@,
                states,
                views,
                outs,
                i,
            ) by {
                let s: int = window_start(k as nat, i as nat) as int;
                let m: int = window_len(total as nat, k as nat, i as nat) as int;
                if i < j {
                    assert(block_done(input@, out_channels as nat, k as nat, before, states0, views0, outs0, i));
                    lemma_earlier_block_ends_first(total as nat, k as nat, i as nat, j as nat);
                    assert forall|c: int| 0 <= c < out_channels implies (#[trigger] output@[c])@.subrange(
                        s,
                        s + m,
                    ) == outs[i][c] by {
                        assert(before[c]@.subrange(s, s + m) == outs0[i][c]);
                        assert(output@[c]@.subrange(s, s + m) =~= before[c]@.subrange(s, s + m));
                    }
                } else {
                    assert forall|c: int| 0 <= c < out_channels implies (#[trigger] output@[c])@.subrange(
                        s,
                        s + m,
                    ) == outs[i][c] by {
                        assert(output@[c]@.subrange(s, s + m) =~= blk@[c]@);
                    }
                }
            }
        }

        pos = start + n;
        j = j + 1;
    }
    proof {
        assert(is_offline_run(
            *old(processor),
            *processor,
            input@,
            out_channels as nat,
            block as nat,
            output@,
            states,
            views,
            outs,
        ));
    }
    output
}

} // verus!
