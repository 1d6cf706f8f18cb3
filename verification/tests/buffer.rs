use thx_dsp::Buffer;

#[test]
fn geometry() {
    let buf = Buffer::<f32>::new(6, 512);
    assert_eq!(buf.channels(), 6);
    assert_eq!(buf.capacity(), 512);
    assert_eq!(buf.frames(), 512);
    assert_eq!(buf.channel(5).len(), 512);
}

#[test]
fn set_frames_narrows_active_region() {
    let mut buf = Buffer::<f32>::new(2, 8);
    buf.set_frames(3);
    assert_eq!(buf.frames(), 3);
    assert_eq!(buf.channel(0).len(), 3);
    assert_eq!(buf.channel_full(0).len(), 8);
}

#[test]
fn channels_do_not_alias() {
    let mut buf = Buffer::<f32>::new(2, 4);
    buf.channel_mut(0).fill(1.0);
    buf.channel_mut(1).fill(2.0);
    assert_eq!(buf.channel(0), &[1.0; 4]);
    assert_eq!(buf.channel(1), &[2.0; 4]);
}

#[test]
fn copy_from_adopts_frames() {
    let mut src = Buffer::<f32>::new(2, 8);
    src.set_frames(5);
    src.channel_mut(1).fill(0.5);

    let mut dst = Buffer::<f32>::new(2, 8);
    dst.copy_from(&src);
    assert_eq!(dst.frames(), 5);
    assert_eq!(dst.channel(1), &[0.5; 5]);
}

#[test]
fn zero_capacity_is_harmless() {
    let mut buf = Buffer::<f32>::new(0, 0);
    assert_eq!(buf.iter_channels().len(), 0);
    buf.silence();
}

#[test]
fn new_buffer_is_silent() {
    let buf = Buffer::<f64>::new(3, 5);
    for ch in 0..3 {
        assert_eq!(buf.channel_full(ch), &[0.0; 5]);
    }
}

#[test]
fn zero_capacity_lists_one_empty_slice_per_channel() {
    let buf = Buffer::<f32>::new(3, 0);
    assert_eq!(buf.channels(), 3);
    let chans = buf.iter_channels();
    assert_eq!(chans.len(), 3);
    assert!(chans.iter().all(|c| c.is_empty()));
    assert!(buf.channel(2).is_empty());
}

#[test]
fn iter_channels_yields_active_regions_in_order() {
    let mut buf = Buffer::<f32>::new(3, 4);
    for ch in 0..3 {
        buf.channel_full_mut(ch).copy_from_slice(&[ch as f32, 1.0, 2.0, 3.0]);
    }
    buf.set_frames(2);
    let chans = buf.iter_channels();
    assert_eq!(chans.len(), 3);
    assert_eq!(chans[0], &[0.0, 1.0]);
    assert_eq!(chans[1], &[1.0, 1.0]);
    assert_eq!(chans[2], &[2.0, 1.0]);
}

#[test]
fn silence_clears_only_the_active_region() {
    let mut buf = Buffer::<f32>::new(2, 4);
    buf.channel_mut(0).fill(7.0);
    buf.channel_mut(1).fill(9.0);
    buf.set_frames(3);
    buf.silence();
    assert_eq!(buf.channel_full(0), &[0.0, 0.0, 0.0, 7.0]);
    assert_eq!(buf.channel_full(1), &[0.0, 0.0, 0.0, 9.0]);
}

#[test]
fn copy_from_keeps_samples_past_the_copied_frames() {
    let mut src = Buffer::<f32>::new(1, 2);
    src.channel_mut(0).copy_from_slice(&[4.0, 5.0]);
    let mut dst = Buffer::<f32>::new(1, 4);
    dst.channel_mut(0).fill(1.0);
    dst.copy_from(&src);
    assert_eq!(dst.frames(), 2);
    assert_eq!(dst.channel(0), &[4.0, 5.0]);
    assert_eq!(dst.channel_full(0), &[4.0, 5.0, 1.0, 1.0]);
}

#[test]
fn full_region_writes_become_active_after_set_frames() {
    let mut buf = Buffer::<f32>::new(1, 4);
    buf.set_frames(1);
    buf.channel_full_mut(0).copy_from_slice(&[1.0, 2.0, 3.0, 4.0]);
    assert_eq!(buf.channel(0), &[1.0]);
    buf.set_frames(3);
    assert_eq!(buf.channel(0), &[1.0, 2.0, 3.0]);
}

#[test]
fn iter_channels_mut_writes_each_active_region() {
    let mut buf = Buffer::<f32>::new(2, 3);
    buf.set_frames(2);
    for (i, ch) in buf.iter_channels_mut().into_iter().enumerate() {
        assert_eq!(ch.len(), 2);
        ch.fill(i as f32 + 1.0);
    }
    assert_eq!(buf.channel_full(0), &[1.0, 1.0, 0.0]);
    assert_eq!(buf.channel_full(1), &[2.0, 2.0, 0.0]);
}

#[test]
fn iter_channels_mut_of_zero_capacity_gives_empty_slices() {
    let mut buf = Buffer::<f32>::new(4, 0);
    let chans = buf.iter_channels_mut();
    assert_eq!(chans.len(), 4);
    assert!(chans.iter().all(|c| c.is_empty()));
}
