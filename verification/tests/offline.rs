use thx_dsp::common::testing::{append_block, block_inputs, run_offline, silent_block, window, Process};
use thx_dsp::common::Buffer;

/// Doubles input channel 0 into every output channel and records the block
/// sizes it was handed.
struct Doubler {
    blocks: Vec<usize>,
}

impl Process<f32> for Doubler {
    fn process(&mut self, buffer: &mut Buffer<'_, f32>) {
        self.blocks.push(buffer.frames());
        for ch in 0..buffer.out_channels() {
            for i in 0..buffer.frames() {
                let x = buffer.input(0)[i];
                buffer.output_mut(ch)[i] = 2.0 * x;
            }
        }
    }
}

#[test]
fn run_offline_drives_fixed_blocks_over_the_shortest_channel() {
    let input = vec![
        (0..10).map(|i| i as f32).collect::<Vec<_>>(),
        vec![0.0_f32; 7],
    ];
    let mut p = Doubler { blocks: Vec::new() };
    let out = run_offline(&mut p, &input, 2, 3);
    assert_eq!(p.blocks, vec![3, 3, 1]);
    assert_eq!(out.len(), 2);
    let expected: Vec<f32> = (0..7).map(|i| 2.0 * i as f32).collect();
    assert_eq!(out[0], expected);
    assert_eq!(out[1], expected);
}

#[test]
fn run_offline_treats_block_zero_as_one() {
    let input = vec![vec![1.0_f32, 2.0, 3.0]];
    let mut p = Doubler { blocks: Vec::new() };
    let out = run_offline(&mut p, &input, 1, 0);
    assert_eq!(p.blocks, vec![1, 1, 1]);
    assert_eq!(out, vec![vec![2.0, 4.0, 6.0]]);
}

#[test]
fn run_offline_on_empty_input_never_calls_the_processor() {
    let input: Vec<Vec<f32>> = Vec::new();
    let mut p = Doubler { blocks: Vec::new() };
    let out = run_offline(&mut p, &input, 3, 4);
    assert!(p.blocks.is_empty());
    assert_eq!(out, vec![Vec::<f32>::new(); 3]);
}

/// Leaves its output untouched.
struct Idle;

impl Process<f64> for Idle {
    fn process(&mut self, _buffer: &mut Buffer<'_, f64>) {}
}

#[test]
fn run_offline_output_starts_silent() {
    let input = vec![vec![5.0_f64; 5]; 2];
    let out = run_offline(&mut Idle, &input, 1, 2);
    assert_eq!(out, vec![vec![0.0; 5]]);
}

#[test]
fn windows_tile_the_signal() {
    assert_eq!(window(0, 7, 3), (0, 3));
    assert_eq!(window(1, 7, 3), (3, 3));
    assert_eq!(window(2, 7, 3), (6, 1));
    assert_eq!(window(0, 6, 3), (0, 3));
    assert_eq!(window(1, 6, 3), (3, 3));
    assert_eq!(window(4, 5, 0), (4, 1));
}

/// Writes how many blocks it has seen before into every output sample.
struct Counter {
    calls: u32,
}

impl Process<u32> for Counter {
    fn process(&mut self, buffer: &mut Buffer<'_, u32>) {
        for ch in 0..buffer.out_channels() {
            for s in buffer.output_mut(ch).iter_mut() {
                *s = self.calls;
            }
        }
        self.calls += 1;
    }
}

#[test]
fn run_offline_threads_the_processor_state_through_the_blocks() {
    let input = vec![vec![0_u32; 7]];
    let mut p = Counter { calls: 0 };
    let out = run_offline(&mut p, &input, 2, 3);
    assert_eq!(p.calls, 3);
    assert_eq!(out, vec![vec![0, 0, 0, 1, 1, 1, 2]; 2]);
}

#[test]
fn block_inputs_take_the_block_frames_of_every_channel() {
    let input = vec![vec![1_u32, 2, 3, 4], vec![5, 6, 7, 8]];
    let views = block_inputs(&input, 1, 2);
    assert_eq!(views.len(), 2);
    assert_eq!(views[0], &[2, 3][..]);
    assert_eq!(views[1], &[6, 7][..]);
    let none = block_inputs(&input, 4, 0);
    assert!(none.iter().all(|s| s.is_empty()));
}

#[test]
fn silent_block_holds_silent_channels() {
    let b: Vec<Vec<f32>> = silent_block(2, 3);
    assert_eq!(b, vec![vec![0.0_f32; 3]; 2]);
    let empty: Vec<Vec<f32>> = silent_block(0, 3);
    assert!(empty.is_empty());
}

#[test]
fn append_block_extends_each_channel() {
    let mut out = vec![vec![1_u32], vec![2]];
    append_block(&mut out, &vec![vec![3, 4], vec![5, 6]]);
    assert_eq!(out, vec![vec![1, 3, 4], vec![2, 5, 6]]);
}
