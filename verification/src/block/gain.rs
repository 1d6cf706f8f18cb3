//! The layout rules and metadata of the broadband gain block, the reference
//! block: the same gain on every channel, layout passed straight through.

use vstd::prelude::*;

use super::{BlockDescription, Error, Result};
use crate::channel_mask::ChannelMask;

verus! {

/// The layouts gain accepts and produces, as bit patterns: mono, stereo,
/// quad, 5.1, 7.1 and 7.1.4.
pub open spec fn layouts_spec() -> Seq<u32> {
    seq![0x0000_0004u32, 0x0000_0003u32, 0x0000_0033u32, 0x0000_003Fu32, 0x0000_063Fu32, 0x0002_D63Fu32]
}

/// The layouts gain accepts and produces: mono, stereo, quad, 5.1, 7.1 and
/// 7.1.4.
pub fn layouts() -> (r: &'static [ChannelMask])
    ensures
        r@.map_values(|m: ChannelMask| m@) == layouts_spec(),
{
    let r: &'static [ChannelMask] = &[
        ChannelMask(0x0000_0004),
        ChannelMask(0x0000_0003),
        ChannelMask(0x0000_0033),
        ChannelMask(0x0000_003F),
        ChannelMask(0x0000_063F),
        ChannelMask(0x0002_D63F),
    ];
    proof {
        assert forall|i: int| 0 <= i < r@.len() implies (#[trigger] r@[i])@ == r@[i].0 by {
            crate::channel_mask::lemma_view_is_bits(r@[i]);
        }
    }
    assert(r@.map_values(|m: ChannelMask| m@) =~= layouts_spec());
    r
}

/// Whether gain can be built for input `layout`.
pub fn supports_layout(layout: ChannelMask) -> (r: bool)
    ensures
        r == layouts_spec().contains(layout@),
{
    let all = layouts();
    let ghost v = all@.map_values(|m: ChannelMask| m@);
    let mut i: usize = 0;
    while i < all.len()
        invariant
            i <= all@.len(),
            v == all@.map_values(|m: ChannelMask| m@),
            v == layouts_spec(),
            forall|j: int| 0 <= j < i ==> v[j] != layout@,
        decreases all@.len() - i,
    {
        if all[i].bits() == layout.bits() {
            assert(v[i as int] == layout@);
            return true;
        }
        i = i + 1;
    }
    proof {
        if layouts_spec().contains(layout@) {
            let j = choose|j: int| 0 <= j < v.len() && v[j] == layout@;
            assert(v[j] != layout@);
        }
    }
    false
}

/// The layout check gain makes when it is built: `Ok` for a supported input
/// layout, [`Error::UnsupportedLayout`] naming the layout otherwise.
pub fn check_layout(layout: ChannelMask) -> (r: Result<()>)
    ensures
        r is Ok <==> layouts_spec().contains(layout@),
        r is Err ==> r == Err::<(), Error>(Error::UnsupportedLayout(layout)),
{
    if !supports_layout(layout) {
        return Err(Error::UnsupportedLayout(layout));
    }
    Ok(())
}

/// Static metadata of the gain block.
pub fn description() -> (r: BlockDescription)
    ensures
        r.name@ == "gain"@,
        r.description@ == "Broadband gain applied uniformly across all channels."@,
        r.input_layouts@.map_values(|m: ChannelMask| m@) == layouts_spec(),
        r.output_layouts@.map_values(|m: ChannelMask| m@) == layouts_spec(),
{
    BlockDescription {
        name: "gain",
        description: "Broadband gain applied uniformly across all channels.",
        input_layouts: layouts(),
        output_layouts: layouts(),
    }
}

} // verus!
