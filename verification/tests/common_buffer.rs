use thx_dsp::common::Buffer;

#[test]
fn channel_count() {
    let frames = 8;
    let in_num_ch = 12;
    let out_num_ch = 2;

    let input = vec![vec![0.0_f32; frames]; in_num_ch];
    let mut output = vec![vec![0.0_f32; frames]; out_num_ch];
    let in_refs: Vec<&[f32]> = input.iter().map(Vec::as_slice).collect();
    let mut out_refs: Vec<&mut [f32]> = output.iter_mut().map(Vec::as_mut_slice).collect();

    let buffer = Buffer::new(&in_refs, &mut out_refs, frames);
    assert_eq!(buffer.frames(), frames);
    assert_eq!(buffer.in_channels(), in_num_ch);
    assert_eq!(buffer.out_channels(), out_num_ch);
}

#[test]
fn frames_all_active() {
    let input = vec![vec![1.0_f32; 4]; 1];
    let mut output = vec![vec![0.0_f32; 4]; 1];
    let in_refs: Vec<&[f32]> = input.iter().map(Vec::as_slice).collect();
    let mut out_refs: Vec<&mut [f32]> = output.iter_mut().map(Vec::as_mut_slice).collect();

    // 4 frames allocated, all active.
    let buffer = Buffer::new(&in_refs, &mut out_refs, 4);
    assert_eq!(buffer.frames(), buffer.capacity());
}

#[test]
fn frames_below_capacity() {
    let input = vec![vec![1.0_f32; 8]; 2];
    let mut output = vec![vec![0.0_f32; 8]; 2];
    let in_refs: Vec<&[f32]> = input.iter().map(Vec::as_slice).collect();
    let mut out_refs: Vec<&mut [f32]> = output.iter_mut().map(Vec::as_mut_slice).collect();

    // 8 frames allocated, only 3 active.
    let buffer = Buffer::with_capacity(&in_refs, &mut out_refs, 8, 3);
    assert_eq!(buffer.frames(), 3);
    assert_eq!(buffer.capacity(), 8);
    assert_eq!(buffer.input(0).len(), 3);
    assert_eq!(buffer.input_full(0).len(), 8);
}

#[test]
fn output_writes_reach_the_borrowed_storage() {
    let input = vec![vec![1.0_f32, 2.0, 3.0, 4.0]; 2];
    let mut output = vec![vec![0.0_f32; 4]; 2];
    {
        let in_refs: Vec<&[f32]> = input.iter().map(Vec::as_slice).collect();
        let mut out_refs: Vec<&mut [f32]> = output.iter_mut().map(Vec::as_mut_slice).collect();
        let mut buffer = Buffer::with_capacity(&in_refs, &mut out_refs, 4, 2);
        assert_eq!(buffer.input(1), &[1.0, 2.0]);
        buffer.output_mut(1).copy_from_slice(&[5.0, 6.0]);
        assert_eq!(buffer.output(1), &[5.0, 6.0]);
        buffer.output_full_mut(0)[3] = 9.0;
        assert_eq!(buffer.output(0), &[0.0, 0.0]);
    }
    assert_eq!(output[0], vec![0.0, 0.0, 0.0, 9.0]);
    assert_eq!(output[1], vec![5.0, 6.0, 0.0, 0.0]);
}
