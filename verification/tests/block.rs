use thx_dsp::block::gain;
use thx_dsp::block::runtime::{route, FadePosition, ResetWatch, Route};
use thx_dsp::{ChannelMask, Error};

#[test]
fn gain_accepts_exactly_its_layouts() {
    let supported = [
        ChannelMask::MASK_MONO(),
        ChannelMask::MASK_STEREO(),
        ChannelMask::MASK_QUAD(),
        ChannelMask::MASK_5_1(),
        ChannelMask::MASK_7_1(),
        ChannelMask::MASK_7_1_4(),
    ];
    assert_eq!(gain::layouts(), &supported);
    for layout in supported {
        assert!(gain::supports_layout(layout));
        assert_eq!(gain::check_layout(layout), Ok(()));
    }
}

#[test]
fn gain_rejects_unsupported_layout() {
    let bad = ChannelMask::FRONT_LEFT();
    assert!(!gain::supports_layout(bad));
    let Err(err) = gain::check_layout(bad) else {
        panic!("layout must be rejected");
    };
    assert!(matches!(err, Error::UnsupportedLayout(_)));
    assert_eq!(err, Error::UnsupportedLayout(bad));
    assert_eq!(
        gain::check_layout(ChannelMask::MASK_5_1_SIDE()),
        Err(Error::UnsupportedLayout(ChannelMask::MASK_5_1_SIDE()))
    );
}

#[test]
fn gain_description_lists_its_layouts() {
    let d = gain::description();
    assert_eq!(d.name, "gain");
    assert_eq!(d.description, "Broadband gain applied uniformly across all channels.");
    assert_eq!(d.input_layouts, gain::layouts());
    assert_eq!(d.output_layouts, gain::layouts());
}

#[test]
fn route_follows_enable_and_fade() {
    assert_eq!(route(true, FadePosition::Wet), Route::Processed);
    assert_eq!(route(false, FadePosition::Dry), Route::Bypassed);
    assert_eq!(route(false, FadePosition::Wet), Route::Crossfade);
    assert_eq!(route(true, FadePosition::Dry), Route::Crossfade);
    assert_eq!(route(true, FadePosition::Between), Route::Crossfade);
    assert_eq!(route(false, FadePosition::Between), Route::Crossfade);
}

#[test]
fn reset_watch_fires_once_per_new_generation() {
    let mut watch = ResetWatch::new();
    assert!(!watch.observe(0));
    assert!(watch.observe(1));
    assert!(!watch.observe(1));
    assert!(watch.observe(3));
    assert!(watch.observe(u32::MAX));
    assert!(watch.observe(u32::MAX.wrapping_add(1)));
    assert!(!watch.observe(0));
}
