//! Channel masks: sets of speaker positions.
//!
//! The bit layout mirrors the Microsoft `WAVEFORMATEXTENSIBLE::dwChannelMask`
//! convention (which SMPTE/ITU layouts also follow), so masks round-trip
//! cleanly with WAV files and OS audio APIs. Ascending bit order is also the
//! order in which channels appear in a planar buffer.
//!
//! The model of a mask is its `u32` bit pattern (`mask@`). Its channels, in
//! planar order, are [`positions_of`]; their number is [`channel_count_of`].
//!
//! Each named speaker position and standard layout is an associated
//! function returning its mask. Masks combine like the flag sets they are:
//! union (`|`), intersection (`&`), difference (`-`), symmetric difference
//! (`^`) and complement within the known positions (`!`).

use std::ops::{BitAnd, BitOr, BitXor, Not, Sub};

use vstd::prelude::*;
use vstd::std_specs::ops::{BitAndSpecImpl, BitOrSpecImpl, BitXorSpecImpl, NotSpecImpl, SubSpecImpl};

verus! {

/// Whether bit `i` of `x` is set.
pub open spec fn has_bit(x: u32, i: u32) -> bool {
    (x >> i) & 1u32 == 1u32
}

/// The single-position mask of bit `i`.
pub open spec fn single(i: u32) -> u32 {
    1u32 << i
}

/// Number of bits of `x` set among bits `0..n`.
pub open spec fn count_below(x: u32, n: u32) -> nat
    decreases n,
{
    if n == 0 {
        0
    } else {
        count_below(x, (n - 1) as u32) + if has_bit(x, (n - 1) as u32) {
            1nat
        } else {
            0nat
        }
    }
}

/// The single-position masks of the bits of `x` set among bits `0..n`, in
/// ascending bit order.
pub open spec fn positions_below(x: u32, n: u32) -> Seq<u32>
    decreases n,
{
    if n == 0 {
        Seq::empty()
    } else {
        let i = (n - 1) as u32;
        positions_below(x, i) + if has_bit(x, i) {
            seq![single(i)]
        } else {
            Seq::<u32>::empty()
        }
    }
}

/// The speaker positions of the mask with bits `x`, in planar (ascending-bit)
/// order, each as a single-position bit pattern.
pub open spec fn positions_of(x: u32) -> Seq<u32> {
    positions_below(x, 32)
}

/// The number of channels of the mask with bits `x`.
pub open spec fn channel_count_of(x: u32) -> nat {
    count_below(x, 32)
}

/// What [`ChannelMask::index_of`] returns for `position` in the mask with bits
/// `x`: `Some(k)` exactly when `position` is the `k`-th speaker position of
/// the layout, `None` when it is not one of its positions.
pub open spec fn index_of_result(x: u32, position: u32, r: Option<usize>) -> bool {
    match r {
        Some(k) => k < positions_of(x).len() && positions_of(x)[k as int] == position,
        None => !positions_of(x).contains(position),
    }
}

/// The bits of all known speaker positions (front left through top back
/// right).
pub open spec fn all_bits() -> u32 {
    0x0003_FFFFu32
}

/// A set of speaker positions, identifying both *which* channels are present
/// and, by ascending bit order, *what order* they appear in a planar buffer.
#[derive(Debug, Clone, Copy, PartialEq, Eq, Hash, Structural)]
pub struct ChannelMask(pub(crate) u32);

impl View for ChannelMask {
    type V = u32;

    closed spec fn view(&self) -> u32 {
        self.0
    }
}

/// The model of a mask is its bit pattern.
pub(crate) proof fn lemma_view_is_bits(m: ChannelMask)
    ensures
        m@ == m.0,
{
}

impl ChannelMask {
    /// Front left.
    #[allow(non_snake_case)]
    pub fn FRONT_LEFT() -> (r: ChannelMask)
        ensures
            r@ == 0x0000_0001u32,
    {
        ChannelMask(0x0000_0001)
    }

    /// Front right.
    #[allow(non_snake_case)]
    pub fn FRONT_RIGHT() -> (r: ChannelMask)
        ensures
            r@ == 0x0000_0002u32,
    {
        ChannelMask(0x0000_0002)
    }

    /// Front center.
    #[allow(non_snake_case)]
    pub fn FRONT_CENTER() -> (r: ChannelMask)
        ensures
            r@ == 0x0000_0004u32,
    {
        ChannelMask(0x0000_0004)
    }

    /// Low-frequency effects (LFE).
    #[allow(non_snake_case)]
    pub fn LOW_FREQUENCY() -> (r: ChannelMask)
        ensures
            r@ == 0x0000_0008u32,
    {
        ChannelMask(0x0000_0008)
    }

    /// Back left.
    #[allow(non_snake_case)]
    pub fn BACK_LEFT() -> (r: ChannelMask)
        ensures
            r@ == 0x0000_0010u32,
    {
        ChannelMask(0x0000_0010)
    }

    /// Back right.
    #[allow(non_snake_case)]
    pub fn BACK_RIGHT() -> (r: ChannelMask)
        ensures
            r@ == 0x0000_0020u32,
    {
        ChannelMask(0x0000_0020)
    }

    /// Front left of center.
    #[allow(non_snake_case)]
    pub fn FRONT_LEFT_OF_CENTER() -> (r: ChannelMask)
        ensures
            r@ == 0x0000_0040u32,
    {
        ChannelMask(0x0000_0040)
    }

    /// Front right of center.
    #[allow(non_snake_case)]
    pub fn FRONT_RIGHT_OF_CENTER() -> (r: ChannelMask)
        ensures
            r@ == 0x0000_0080u32,
    {
        ChannelMask(0x0000_0080)
    }

    /// Back center.
    #[allow(non_snake_case)]
    pub fn BACK_CENTER() -> (r: ChannelMask)
        ensures
            r@ == 0x0000_0100u32,
    {
        ChannelMask(0x0000_0100)
    }

    /// Side left.
    #[allow(non_snake_case)]
    pub fn SIDE_LEFT() -> (r: ChannelMask)
        ensures
            r@ == 0x0000_0200u32,
    {
        ChannelMask(0x0000_0200)
    }

    /// Side right.
    #[allow(non_snake_case)]
    pub fn SIDE_RIGHT() -> (r: ChannelMask)
        ensures
            r@ == 0x0000_0400u32,
    {
        ChannelMask(0x0000_0400)
    }

    /// Top center.
    #[allow(non_snake_case)]
    pub fn TOP_CENTER() -> (r: ChannelMask)
        ensures
            r@ == 0x0000_0800u32,
    {
        ChannelMask(0x0000_0800)
    }

    /// Top front left.
    #[allow(non_snake_case)]
    pub fn TOP_FRONT_LEFT() -> (r: ChannelMask)
        ensures
            r@ == 0x0000_1000u32,
    {
        ChannelMask(0x0000_1000)
    }

    /// Top front center.
    #[allow(non_snake_case)]
    pub fn TOP_FRONT_CENTER() -> (r: ChannelMask)
        ensures
            r@ == 0x0000_2000u32,
    {
        ChannelMask(0x0000_2000)
    }

    /// Top front right.
    #[allow(non_snake_case)]
    pub fn TOP_FRONT_RIGHT() -> (r: ChannelMask)
        ensures
            r@ == 0x0000_4000u32,
    {
        ChannelMask(0x0000_4000)
    }

    /// Top back left.
    #[allow(non_snake_case)]
    pub fn TOP_BACK_LEFT() -> (r: ChannelMask)
        ensures
            r@ == 0x0000_8000u32,
    {
        ChannelMask(0x0000_8000)
    }

    /// Top back center.
    #[allow(non_snake_case)]
    pub fn TOP_BACK_CENTER() -> (r: ChannelMask)
        ensures
            r@ == 0x0001_0000u32,
    {
        ChannelMask(0x0001_0000)
    }

    /// Top back right.
    #[allow(non_snake_case)]
    pub fn TOP_BACK_RIGHT() -> (r: ChannelMask)
        ensures
            r@ == 0x0002_0000u32,
    {
        ChannelMask(0x0002_0000)
    }

    // Standard speaker layouts, mirroring the `KSAUDIO_SPEAKER_*` definitions
    // of Windows `ksmedia.h`.

    /// No speakers (`KSAUDIO_SPEAKER_DIRECTOUT`).
    #[allow(non_snake_case)]
    pub fn MASK_DIRECT_OUT() -> (r: ChannelMask)
        ensures
            r@ == 0x0000_0000u32,
    {
        ChannelMask(0x0000_0000)
    }

    /// 1.0 mono: front center (`KSAUDIO_SPEAKER_MONO`).
    #[allow(non_snake_case)]
    pub fn MASK_MONO() -> (r: ChannelMask)
        ensures
            r@ == 0x0000_0004u32,
    {
        ChannelMask(0x0000_0004)
    }

    /// 1.1: front center + LFE (`KSAUDIO_SPEAKER_1POINT1`).
    #[allow(non_snake_case)]
    pub fn MASK_1_1() -> (r: ChannelMask)
        ensures
            r@ == 0x0000_000Cu32,
    {
        ChannelMask(0x0000_000C)
    }

    /// 2.0 stereo: front left + front right (`KSAUDIO_SPEAKER_STEREO`).
    #[allow(non_snake_case)]
    pub fn MASK_STEREO() -> (r: ChannelMask)
        ensures
            r@ == 0x0000_0003u32,
    {
        ChannelMask(0x0000_0003)
    }

    /// 2.1: stereo + LFE (`KSAUDIO_SPEAKER_2POINT1`).
    #[allow(non_snake_case)]
    pub fn MASK_2_1() -> (r: ChannelMask)
        ensures
            r@ == 0x0000_000Bu32,
    {
        ChannelMask(0x0000_000B)
    }

    /// 3.0: stereo + center (`KSAUDIO_SPEAKER_3POINT0`).
    #[allow(non_snake_case)]
    pub fn MASK_3_0() -> (r: ChannelMask)
        ensures
            r@ == 0x0000_0007u32,
    {
        ChannelMask(0x0000_0007)
    }

    /// 3.1: stereo + center + LFE (`KSAUDIO_SPEAKER_3POINT1`).
    #[allow(non_snake_case)]
    pub fn MASK_3_1() -> (r: ChannelMask)
        ensures
            r@ == 0x0000_000Fu32,
    {
        ChannelMask(0x0000_000F)
    }

    /// 4.0 quad: front pair + back pair (`KSAUDIO_SPEAKER_QUAD`).
    #[allow(non_snake_case)]
    pub fn MASK_QUAD() -> (r: ChannelMask)
        ensures
            r@ == 0x0000_0033u32,
    {
        ChannelMask(0x0000_0033)
    }

    /// 4.0 surround: front left/right/center + back center (`KSAUDIO_SPEAKER_SURROUND`).
    #[allow(non_snake_case)]
    pub fn MASK_4_0_SURROUND() -> (r: ChannelMask)
        ensures
            r@ == 0x0000_0107u32,
    {
        ChannelMask(0x0000_0107)
    }

    /// 5.0: front left/right/center + side pair (`KSAUDIO_SPEAKER_5POINT0`).
    #[allow(non_snake_case)]
    pub fn MASK_5_0() -> (r: ChannelMask)
        ensures
            r@ == 0x0000_0607u32,
    {
        ChannelMask(0x0000_0607)
    }

    /// 5.1: front left/right/center + LFE + back pair (`KSAUDIO_SPEAKER_5POINT1`, a.k.a. `5POINT1_BACK`).
    #[allow(non_snake_case)]
    pub fn MASK_5_1() -> (r: ChannelMask)
        ensures
            r@ == 0x0000_003Fu32,
    {
        ChannelMask(0x0000_003F)
    }

    /// 5.1 with side speakers: front left/right/center + LFE + side pair (`KSAUDIO_SPEAKER_5POINT1_SURROUND`).
    #[allow(non_snake_case)]
    pub fn MASK_5_1_SIDE() -> (r: ChannelMask)
        ensures
            r@ == 0x0000_060Fu32,
    {
        ChannelMask(0x0000_060F)
    }

    /// 7.0: 5.0 + back pair (`KSAUDIO_SPEAKER_7POINT0`).
    #[allow(non_snake_case)]
    pub fn MASK_7_0() -> (r: ChannelMask)
        ensures
            r@ == 0x0000_0637u32,
    {
        ChannelMask(0x0000_0637)
    }

    /// 7.1: 5.1 + side pair (`KSAUDIO_SPEAKER_7POINT1_SURROUND`).
    #[allow(non_snake_case)]
    pub fn MASK_7_1() -> (r: ChannelMask)
        ensures
            r@ == 0x0000_063Fu32,
    {
        ChannelMask(0x0000_063F)
    }

    /// 7.1 "wide" (legacy): 5.1 + front-of-center pair (`KSAUDIO_SPEAKER_7POINT1`). Obsolete: it lacks side speakers, prefer `MASK_7_1`.
    #[allow(non_snake_case)]
    pub fn MASK_7_1_WIDE() -> (r: ChannelMask)
        ensures
            r@ == 0x0000_00FFu32,
    {
        ChannelMask(0x0000_00FF)
    }

    /// 7.1.4: 7.1 plus four height speakers (top front pair + top back pair).
    #[allow(non_snake_case)]
    pub fn MASK_7_1_4() -> (r: ChannelMask)
        ensures
            r@ == 0x0002_D63Fu32,
    {
        ChannelMask(0x0002_D63F)
    }

    /// The mask with no position set.
    pub fn empty() -> (r: ChannelMask)
        ensures
            r@ == 0u32,
    {
        ChannelMask(0)
    }

    /// The mask with exactly the given bits, unknown bits included.
    pub fn from_bits_retain(bits: u32) -> (r: ChannelMask)
        ensures
            r@ == bits,
    {
        ChannelMask(bits)
    }

    /// The raw bits of this mask.
    pub fn bits(self) -> (r: u32)
        ensures
            r == self@,
    {
        self.0
    }

    /// The mask of every known speaker position.
    pub fn all() -> (r: ChannelMask)
        ensures
            r@ == all_bits(),
    {
        ChannelMask(0x0003_FFFF)
    }

    /// The mask with exactly the given bits, or `None` if any bit is not a
    /// known speaker position.
    pub fn from_bits(bits: u32) -> (r: Option<ChannelMask>)
        ensures
            r is Some <==> bits & !all_bits() == 0u32,
            r matches Some(m) ==> m@ == bits,
    {
        if bits & !0x0003_FFFFu32 == 0 {
            Some(ChannelMask(bits))
        } else {
            None
        }
    }

    /// The mask with the known positions among the given bits; unknown bits
    /// are dropped.
    pub fn from_bits_truncate(bits: u32) -> (r: ChannelMask)
        ensures
            r@ == bits & all_bits(),
    {
        ChannelMask(bits & 0x0003_FFFF)
    }

    /// Whether no position is set.
    pub fn is_empty(self) -> (r: bool)
        ensures
            r == (self@ == 0u32),
    {
        self.0 == 0
    }

    /// Whether every known position is set.
    pub fn is_all(self) -> (r: bool)
        ensures
            r == (self@ & all_bits() == all_bits()),
    {
        self.0 & 0x0003_FFFF == 0x0003_FFFF
    }

    /// Whether `self` and `other` share a position.
    pub fn intersects(self, other: ChannelMask) -> (r: bool)
        ensures
            r == (self@ & other@ != 0u32),
    {
        self.0 & other.0 != 0
    }

    /// The positions in either mask.
    pub fn union(self, other: ChannelMask) -> (r: ChannelMask)
        ensures
            r@ == self@ | other@,
    {
        ChannelMask(self.0 | other.0)
    }

    /// The positions in both masks.
    pub fn intersection(self, other: ChannelMask) -> (r: ChannelMask)
        ensures
            r@ == self@ & other@,
    {
        ChannelMask(self.0 & other.0)
    }

    /// The positions of `self` that are not in `other`.
    pub fn difference(self, other: ChannelMask) -> (r: ChannelMask)
        ensures
            r@ == self@ & !other@,
    {
        ChannelMask(self.0 & !other.0)
    }

    /// The positions in exactly one of the masks.
    pub fn symmetric_difference(self, other: ChannelMask) -> (r: ChannelMask)
        ensures
            r@ == self@ ^ other@,
    {
        ChannelMask(self.0 ^ other.0)
    }

    /// The known positions not in `self`.
    pub fn complement(self) -> (r: ChannelMask)
        ensures
            r@ == !self@ & all_bits(),
    {
        ChannelMask(!self.0 & 0x0003_FFFF)
    }

    /// Add the positions of `other`.
    pub fn insert(&mut self, other: ChannelMask)
        ensures
            final(self)@ == old(self)@ | other@,
    {
        self.0 = self.0 | other.0;
    }

    /// Remove the positions of `other`.
    pub fn remove(&mut self, other: ChannelMask)
        ensures
            final(self)@ == old(self)@ & !other@,
    {
        self.0 = self.0 & !other.0;
    }

    /// Flip the positions of `other`.
    pub fn toggle(&mut self, other: ChannelMask)
        ensures
            final(self)@ == old(self)@ ^ other@,
    {
        self.0 = self.0 ^ other.0;
    }

    /// Insert the positions of `other` when `value` holds, remove them
    /// otherwise.
    pub fn set(&mut self, other: ChannelMask, value: bool)
        ensures
            final(self)@ == if value {
                old(self)@ | other@
            } else {
                old(self)@ & !other@
            },
    {
        if value {
            self.insert(other);
        } else {
            self.remove(other);
        }
    }

    /// Whether every position of `other` is also in `self`.
    pub fn contains(self, other: ChannelMask) -> (r: bool)
        ensures
            r == (self@ & other@ == other@),
    {
        self.0 & other.0 == other.0
    }

    /// The number of channels in this mask.
    pub fn channel_count(self) -> (r: usize)
        ensures
            r == channel_count_of(self@),
            r == positions_of(self@).len(),
    {
        proof {
            lemma_positions_len(self@, 32);
        }
        count_bits_below(self.0, 32)
    }

    /// The speaker positions present in this mask in canonical
    /// (ascending-bit) order, the same order channels appear in a planar
    /// buffer. Each item is a single-position mask.
    pub fn positions(self) -> (r: Vec<ChannelMask>)
        ensures
            r@.map_values(|m: ChannelMask| m@) == positions_of(self@),
    {
        let mut out: Vec<ChannelMask> = Vec::new();
        let mut i: u32 = 0;
        while i < 32
            invariant
                i <= 32,
                out@.map_values(|m: ChannelMask| m@) == positions_below(self@, i),
            decreases 32 - i,
        {
            let ghost before = out@.map_values(|m: ChannelMask| m@);
            proof {
                lemma_bit_is_zero_or_one(self@, i);
            }
            if (self.0 >> i) & 1 == 1 {
                out.push(ChannelMask(1u32 << i));
                assert(out@.map_values(|m: ChannelMask| m@) =~= before + seq![single(i)]);
            } else {
                assert(out@.map_values(|m: ChannelMask| m@) =~= before + Seq::<u32>::empty());
            }
            i = i + 1;
        }
        out
    }

    /// Maps a single speaker `position` to its channel index in this layout:
    /// the inverse of [`positions`](Self::positions).
    ///
    /// Returns `None` if `position` is absent from the layout, or is not a
    /// single position (a multi-bit, whole-layout mask, or the empty mask).
    pub fn index_of(self, position: ChannelMask) -> (r: Option<usize>)
        ensures
            index_of_result(self@, position@, r),
    {
        let p = position.0;
        let mut j: u32 = 0;
        while j < 32 && p != (1u32 << j)
            invariant
                j <= 32,
                forall|i: u32| i < j ==> p != #[trigger] single(i),
            decreases 32 - j,
        {
            j = j + 1;
        }
        if j == 32 {
            proof {
                lemma_positions_are_single(self@, 32, p);
            }
            return None;
        }
        // `position` is the single position of bit `j`.
        proof {
            lemma_contains_single(self@, j);
        }
        if self.0 & p != p {
            proof {
                lemma_absent_bit_not_listed(self@, j);
            }
            return None;
        }
        // Count the set positions below the queried bit.
        let k = count_bits_below(self.0, j);
        proof {
            lemma_positions_index(self@, j);
        }
        Some(k)
    }
}

/// Counts the bits of `x` set among bits `0..n`.
fn count_bits_below(x: u32, n: u32) -> (r: usize)
    requires
        n <= 32,
    ensures
        r == count_below(x, n),
{
    let mut count: usize = 0;
    let mut i: u32 = 0;
    while i < n
        invariant
            i <= n <= 32,
            count == count_below(x, i),
            count <= i,
        decreases n - i,
    {
        proof {
            lemma_bit_is_zero_or_one(x, i);
        }
        if (x >> i) & 1 == 1 {
            count = count + 1;
        }
        i = i + 1;
    }
    count
}

proof fn lemma_bit_is_zero_or_one(x: u32, i: u32)
    requires
        i < 32,
    ensures
        (x >> i) & 1u32 == 0u32 || (x >> i) & 1u32 == 1u32,
{
    assert((x >> i) & 1u32 == 0u32 || (x >> i) & 1u32 == 1u32) by (bit_vector)
        requires
            i < 32u32,
    ;
}

proof fn lemma_single_injective(i: u32, j: u32)
    requires
        i < 32,
        j < 32,
        single(i) == single(j),
    ensures
        i == j,
{
    assert(i == j) by (bit_vector)
        requires
            i < 32u32,
            j < 32u32,
            (1u32 << i) == (1u32 << j),
    ;
}

/// For a single position, containment is the bit test.
proof fn lemma_contains_single(x: u32, j: u32)
    requires
        j < 32,
    ensures
        (x & single(j) == single(j)) == has_bit(x, j),
{
    assert((x & (1u32 << j) == (1u32 << j)) == ((x >> j) & 1u32 == 1u32)) by (bit_vector)
        requires
            j < 32u32,
    ;
}

/// The listing of bits `0..n` has one entry per set bit.
proof fn lemma_positions_len(x: u32, n: u32)
    requires
        n <= 32,
    ensures
        positions_below(x, n).len() == count_below(x, n),
    decreases n,
{
    if n > 0 {
        lemma_positions_len(x, (n - 1) as u32);
    }
}

/// Listing more bits only appends: the listing of bits `0..m` is a prefix of
/// that of bits `0..n`.
proof fn lemma_positions_prefix(x: u32, m: u32, n: u32)
    requires
        m <= n <= 32,
    ensures
        positions_below(x, m).len() <= positions_below(x, n).len(),
        forall|k: int|
            0 <= k < positions_below(x, m).len() ==> positions_below(x, n)[k]
                == #[trigger] positions_below(x, m)[k],
    decreases n - m,
{
    if m < n {
        lemma_positions_prefix(x, m, (n - 1) as u32);
    }
}

/// Every listed entry is the single position of a set bit below `n`.
proof fn lemma_positions_are_single(x: u32, n: u32, p: u32)
    requires
        n <= 32,
    ensures
        positions_below(x, n).contains(p) ==> exists|i: u32|
            i < n && has_bit(x, i) && p == #[trigger] single(i),
    decreases n,
{
    if n > 0 {
        let i = (n - 1) as u32;
        lemma_positions_are_single(x, i, p);
        if positions_below(x, n).contains(p) {
            let k = choose|k: int| 0 <= k < positions_below(x, n).len() && positions_below(x, n)[k] == p;
            if k < positions_below(x, i).len() {
                assert(positions_below(x, i)[k] == p);
                assert(positions_below(x, i).contains(p));
            } else {
                assert(has_bit(x, i) && p == single(i));
            }
        }
    }
}

/// The single position of a clear bit is not listed.
proof fn lemma_absent_bit_not_listed(x: u32, j: u32)
    requires
        j < 32,
        !has_bit(x, j),
    ensures
        !positions_of(x).contains(single(j)),
{
    lemma_positions_are_single(x, 32, single(j));
    if positions_of(x).contains(single(j)) {
        let i = choose|i: u32| i < 32 && has_bit(x, i) && single(j) == #[trigger] single(i);
        lemma_single_injective(i, j);
    }
}

/// A set bit `j` is listed at index `count_below(x, j)`.
proof fn lemma_positions_index(x: u32, j: u32)
    requires
        j < 32,
        has_bit(x, j),
    ensures
        count_below(x, j) < positions_of(x).len(),
        positions_of(x)[count_below(x, j) as int] == single(j),
{
    lemma_positions_len(x, j);
    lemma_positions_prefix(x, (j + 1) as u32, 32);
    assert(positions_below(x, (j + 1) as u32)[count_below(x, j) as int] == single(j));
}

proof fn lemma_single_increasing(i: u32, j: u32)
    requires
        i < j < 32,
    ensures
        single(i) < single(j),
{
    assert((1u32 << i) < (1u32 << j)) by (bit_vector)
        requires
            i < j,
            j < 32u32,
    ;
}

/// The speaker positions of a layout are listed in strictly ascending bit
/// order (the planar channel order), so no position is listed twice.
pub proof fn lemma_positions_ascending(x: u32)
    ensures
        forall|a: int, b: int|
            0 <= a < b < positions_of(x).len() ==> positions_of(x)[a] < positions_of(x)[b],
{
    lemma_positions_below_ascending(x, 32);
}

proof fn lemma_positions_below_ascending(x: u32, n: u32)
    requires
        n <= 32,
    ensures
        forall|a: int, b: int|
            0 <= a < b < positions_below(x, n).len() ==> positions_below(x, n)[a]
                < positions_below(x, n)[b],
    decreases n,
{
    if n > 0 {
        let i = (n - 1) as u32;
        lemma_positions_below_ascending(x, i);
        let s = positions_below(x, n);
        let t = positions_below(x, i);
        assert forall|a: int, b: int| 0 <= a < b < s.len() implies s[a] < s[b] by {
            if b >= t.len() {
                // `s[b]` is the newly listed bit `i`; `s[a]` is a lower one.
                assert(t.contains(s[a]));
                lemma_positions_are_single(x, i, s[a]);
                let i2 = choose|i2: u32| i2 < i && has_bit(x, i2) && s[a] == #[trigger] single(i2);
                lemma_single_increasing(i2, i);
            }
        }
    }
}

/// The speaker positions of a layout are pairwise distinct.
pub proof fn lemma_positions_distinct(x: u32)
    ensures
        forall|a: int, b: int|
            0 <= a < b < positions_of(x).len() ==> positions_of(x)[a] != positions_of(x)[b],
{
    lemma_positions_ascending(x);
}

/// Each listed position is a single-position mask of a bit set in the layout.
pub proof fn lemma_positions_are_layout_bits(x: u32, p: u32)
    ensures
        positions_of(x).contains(p) ==> exists|i: u32|
            i < 32 && has_bit(x, i) && p == #[trigger] single(i),
{
    lemma_positions_are_single(x, 32, p);
}

/// Bit `i` of a union or intersection.
proof fn lemma_bit_of_union_intersection(a: u32, b: u32, i: u32)
    requires
        i < 32,
    ensures
        has_bit(a | b, i) == (has_bit(a, i) || has_bit(b, i)),
        has_bit(a & b, i) == (has_bit(a, i) && has_bit(b, i)),
{
    assert(((a | b) >> i) & 1u32 == 1u32 <==> ((a >> i) & 1u32 == 1u32 || (b >> i) & 1u32 == 1u32))
        by (bit_vector)
        requires
            i < 32u32,
    ;
    assert(((a & b) >> i) & 1u32 == 1u32 <==> ((a >> i) & 1u32 == 1u32 && (b >> i) & 1u32 == 1u32))
        by (bit_vector)
        requires
            i < 32u32,
    ;
}

proof fn lemma_count_below_union(a: u32, b: u32, n: u32)
    requires
        n <= 32,
    ensures
        count_below(a | b, n) + count_below(a & b, n) == count_below(a, n) + count_below(b, n),
    decreases n,
{
    if n > 0 {
        let i = (n - 1) as u32;
        lemma_count_below_union(a, b, i);
        lemma_bit_of_union_intersection(a, b, i);
    }
}

proof fn lemma_count_below_contained(a: u32, b: u32, n: u32)
    requires
        n <= 32,
        a & b == b,
    ensures
        count_below(b, n) <= count_below(a, n),
    decreases n,
{
    if n > 0 {
        let i = (n - 1) as u32;
        lemma_count_below_contained(a, b, i);
        lemma_bit_of_union_intersection(a, b, i);
    }
}

/// Channels of a union and an intersection add up like sets: the union of
/// two layouts has as many channels as both together, less those they share.
pub proof fn lemma_union_intersection_counts(a: u32, b: u32)
    ensures
        channel_count_of(a | b) + channel_count_of(a & b) == channel_count_of(a) + channel_count_of(b),
{
    lemma_count_below_union(a, b, 32);
}

/// A layout that contains another has at least as many channels.
pub proof fn lemma_contained_has_fewer_channels(a: u32, b: u32)
    requires
        a & b == b,
    ensures
        channel_count_of(b) <= channel_count_of(a),
{
    lemma_count_below_contained(a, b, 32);
}

/// A layout has as many channels as it lists positions.
pub proof fn lemma_channel_count_is_positions_len(x: u32)
    ensures
        channel_count_of(x) == positions_of(x).len(),
{
    lemma_positions_len(x, 32);
}

/// `index_of` inverts `positions`: the `k`-th listed position of a layout has
/// index `k`, and no other.
pub proof fn lemma_index_of_inverts_positions(x: u32, k: int, r: Option<usize>)
    requires
        0 <= k < positions_of(x).len(),
        index_of_result(x, positions_of(x)[k], r),
    ensures
        r == Some(k as usize),
{
    lemma_positions_distinct(x);
    match r {
        Some(k2) => {
            if k2 as int != k {
                assert(positions_of(x)[k2 as int] == positions_of(x)[k]);
            }
        },
        None => {
            assert(positions_of(x).contains(positions_of(x)[k]));
        },
    }
}

impl BitOr for ChannelMask {
    type Output = ChannelMask;

    /// The union of the two masks.
    fn bitor(self, rhs: ChannelMask) -> (r: ChannelMask)
        ensures
            r@ == self@ | rhs@,
    {
        self.union(rhs)
    }
}

impl BitOrSpecImpl for ChannelMask {
    open spec fn obeys_bitor_spec() -> bool {
        true
    }

    open spec fn bitor_req(self, rhs: ChannelMask) -> bool {
        true
    }

    closed spec fn bitor_spec(self, rhs: ChannelMask) -> ChannelMask {
        ChannelMask(self.0 | rhs.0)
    }
}

impl BitAnd for ChannelMask {
    type Output = ChannelMask;

    /// The intersection of the two masks.
    fn bitand(self, rhs: ChannelMask) -> (r: ChannelMask)
        ensures
            r@ == self@ & rhs@,
    {
        self.intersection(rhs)
    }
}

impl BitAndSpecImpl for ChannelMask {
    open spec fn obeys_bitand_spec() -> bool {
        true
    }

    open spec fn bitand_req(self, rhs: ChannelMask) -> bool {
        true
    }

    closed spec fn bitand_spec(self, rhs: ChannelMask) -> ChannelMask {
        ChannelMask(self.0 & rhs.0)
    }
}

impl BitXor for ChannelMask {
    type Output = ChannelMask;

    /// The symmetric difference of the two masks.
    fn bitxor(self, rhs: ChannelMask) -> (r: ChannelMask)
        ensures
            r@ == self@ ^ rhs@,
    {
        self.symmetric_difference(rhs)
    }
}

impl BitXorSpecImpl for ChannelMask {
    open spec fn obeys_bitxor_spec() -> bool {
        true
    }

    open spec fn bitxor_req(self, rhs: ChannelMask) -> bool {
        true
    }

    closed spec fn bitxor_spec(self, rhs: ChannelMask) -> ChannelMask {
        ChannelMask(self.0 ^ rhs.0)
    }
}

impl Sub for ChannelMask {
    type Output = ChannelMask;

    /// The positions of `self` that are not in `rhs`.
    fn sub(self, rhs: ChannelMask) -> (r: ChannelMask)
        ensures
            r@ == self@ & !rhs@,
    {
        self.difference(rhs)
    }
}

impl SubSpecImpl for ChannelMask {
    open spec fn obeys_sub_spec() -> bool {
        true
    }

    open spec fn sub_req(self, rhs: ChannelMask) -> bool {
        true
    }

    closed spec fn sub_spec(self, rhs: ChannelMask) -> ChannelMask {
        ChannelMask(self.0 & !rhs.0)
    }
}

impl Not for ChannelMask {
    type Output = ChannelMask;

    /// The known positions not in the mask.
    fn not(self) -> (r: ChannelMask)
        ensures
            r@ == !self@ & all_bits(),
    {
        self.complement()
    }
}

impl NotSpecImpl for ChannelMask {
    open spec fn obeys_not_spec() -> bool {
        true
    }

    open spec fn not_req(self) -> bool {
        true
    }

    closed spec fn not_spec(self) -> ChannelMask {
        ChannelMask(!self.0 & 0x0003_FFFFu32)
    }
}

} // verus!
