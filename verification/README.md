# thx-dsp

A real-time DSP framework for audio blocks: planar audio buffers, speaker
layout masks, parameters shared lock-free between a control thread and the
audio thread, and blocks that split into a processor and a controller.

## Layout

* `src/` is the verified library (Verus). It holds the framework's logic on
  integers, buffers and control flow:
  * `channel_mask`: speaker-layout bit masks, their planar channel order
    (`positions`), channel counts and the position-to-index map;
  * `buffer`: owned planar buffers (capacity vs. active frames);
  * `common::buffer`: borrowed input/output buffer views;
  * `common::params`: the parameter trait, boolean parameters and the
    sample clock of a shared smoother;
  * `common::processor`: the controller trait;
  * `common::testing`: the offline driver that runs a processor over a whole
    signal in fixed blocks;
  * `smooth`: the sample clock of a linear parameter ramp;
  * `block`: block errors and metadata, the gain block's layout rules, and the
    runtime's reset and bypass-routing decisions.
* `app/` is the floating-point half, ordinary Rust on top of the library: the
  `f32`/`f64` sample trait, smoothed values, stream specs, the block trait and
  its lock-free runtime (`triple_buffer`), the gain blocks, serde support
  (including the serde-bound `Config` trait), the `std::error::Error` form of
  the block error, and the float signal generators and analyzers.
* `tests/` exercises the library.
