use low_pass::AudioFormat;
use low_pass::AudioSource;
use low_pass::LowPass;
use low_pass::SharedSource;
use low_pass::StreamState;

fn two_pi() -> f32 {
    2.0 * std::f32::consts::PI
}

fn rc_of(cutoff: f32) -> f32 {
    1.0 / (two_pi() * cutoff)
}

fn step(a: f32, prev: f32, x: f32) -> f32 {
    prev + a * (x - prev)
}

/// Reference model of the filter stage in native `f32`: the documented
/// algorithm run on plain floats, compared bit-for-bit against the library.
struct Model {
    scratch: Vec<f32>,
    rc: f32,
    rate: u32,
    stereo: bool,
}

impl Model {
    fn new(cutoff: f32, rate: u32, stereo: bool) -> Model {
        Model { scratch: Vec::new(), rc: rc_of(cutoff), rate, stereo }
    }

    fn read(&mut self, x: &mut [f32], written: usize) {
        if written == 0 {
            return;
        }
        if self.scratch.len() < x.len() {
            self.scratch.resize(x.len(), 0.0);
        }
        let dt = 1.0 / self.rate as f32;
        if self.stereo {
            let a = dt / (self.rc + dt);
            let s0 = self.scratch[written - 2];
            let s1 = self.scratch[written - 1];
            for i in 0..written {
                let prev = if i == 0 {
                    s0
                } else if i == 1 {
                    s1
                } else {
                    self.scratch[i - 2]
                };
                let y = step(a, prev, x[i]);
                self.scratch[i] = y;
                x[i] = y;
            }
        } else {
            let a = self.rc / (self.rc + dt);
            let mut prev = self.scratch[written - 1];
            for i in 0..written {
                let y = step(a, prev, x[i]);
                self.scratch[i] = y;
                x[i] = y;
                prev = y;
            }
        }
    }
}

fn bits_buf(values: &[f32]) -> Vec<u32> {
    values.iter().map(|v| v.to_bits()).collect()
}

fn floats_of(bits: &[u32]) -> Vec<f32> {
    bits.iter().map(|b| f32::from_bits(*b)).collect()
}

/// A source producing the same value in every sample, always `Good`.
struct ConstSource {
    format: AudioFormat,
    value: f32,
}

impl AudioSource for ConstSource {
    fn format(&mut self) -> AudioFormat {
        self.format
    }

    fn read(&mut self, samples: &mut Vec<u32>) -> StreamState {
        for i in 0..samples.len() {
            samples[i] = self.value.to_bits();
        }
        StreamState::Good
    }
}

/// A source that fills a scripted prefix and reports a scripted state,
/// leaving the rest of the buffer untouched.
struct ScriptSource {
    format: AudioFormat,
    fills: Vec<f32>,
    state: StreamState,
}

impl AudioSource for ScriptSource {
    fn format(&mut self) -> AudioFormat {
        self.format
    }

    fn read(&mut self, samples: &mut Vec<u32>) -> StreamState {
        let n = match self.state {
            StreamState::Good => samples.len(),
            StreamState::Finished(n) => n,
            StreamState::Underrun(n) => n,
        };
        for i in 0..n {
            samples[i] = self.fills[i].to_bits();
        }
        self.state
    }
}

/// A source counting upward across reads, to observe that shared handles
/// reach one and the same underlying source.
struct CountingSource {
    format: AudioFormat,
    next: f32,
}

impl AudioSource for CountingSource {
    fn format(&mut self) -> AudioFormat {
        self.format
    }

    fn read(&mut self, samples: &mut Vec<u32>) -> StreamState {
        for i in 0..samples.len() {
            samples[i] = self.next.to_bits();
            self.next += 1.0;
        }
        StreamState::Good
    }
}

#[test]
fn cutoff_round_trip_after_construction() {
    let source = ConstSource { format: AudioFormat::Mono(44100), value: 0.0 };
    let filter = LowPass::new(source, 440.0f32.to_bits());
    let got = f32::from_bits(filter.cutoff());
    assert!((got - 440.0).abs() < 0.05, "cutoff round trip gave {got}");
}

#[test]
fn cutoff_round_trip_after_set_cutoff() {
    let source = ConstSource { format: AudioFormat::Mono(44100), value: 0.0 };
    let mut filter = LowPass::new(source, 440.0f32.to_bits());
    filter.set_cutoff(1000.0f32.to_bits());
    let got = f32::from_bits(filter.cutoff());
    assert!((got - 1000.0).abs() < 0.05, "cutoff round trip gave {got}");
}

#[test]
fn cutoff_matches_inverse_formula_exactly() {
    let source = ConstSource { format: AudioFormat::Mono(44100), value: 0.0 };
    let filter = LowPass::new(source, 440.0f32.to_bits());
    let expected = 1.0f32 / (two_pi() * rc_of(440.0));
    assert_eq!(filter.cutoff(), expected.to_bits());
}

#[test]
fn mono_constant_signal_converges_without_overshoot() {
    let k = 1.0f32;
    let source = ConstSource { format: AudioFormat::Mono(44100), value: k };
    let mut filter = LowPass::new(source, 1000.0f32.to_bits());
    let mut buf = vec![0u32; 8];
    assert_eq!(filter.read(&mut buf), StreamState::Good);
    let first = floats_of(&buf);
    assert_eq!(filter.read(&mut buf), StreamState::Good);
    let second = floats_of(&buf);

    let mut last = 0.0f32;
    for &y in first.iter().chain(second.iter()) {
        assert!(y >= last, "output fell from {last} to {y}");
        assert!(y <= k, "output overshot to {y}");
        last = y;
    }

    // Continuity: the second read's first output steps from the first
    // read's true last output, not from a fresh filter's zero state.
    let rc = rc_of(1000.0);
    let dt = 1.0 / 44100u32 as f32;
    let a = rc / (rc + dt);
    assert_eq!(second[0].to_bits(), step(a, first[7], k).to_bits());
    assert_ne!(second[0].to_bits(), step(a, 0.0, k).to_bits());
}

#[test]
fn mono_reads_match_reference_model() {
    let source = ConstSource { format: AudioFormat::Mono(8), value: 0.75 };
    let mut filter = LowPass::new(source, 2.0f32.to_bits());
    let mut model = Model::new(2.0, 8, false);
    for len in [5usize, 3, 6] {
        let mut buf = vec![0u32; len];
        assert_eq!(filter.read(&mut buf), StreamState::Good);
        let mut expected = vec![0.75f32; len];
        model.read(&mut expected, len);
        assert_eq!(buf, bits_buf(&expected));
    }
}

#[test]
fn stereo_equal_channels_stay_identical() {
    let frames = [1.0f32, 2.0, 0.5, -1.0];
    let mut fills = Vec::new();
    for &v in frames.iter() {
        fills.push(v);
        fills.push(v);
    }
    let source = ScriptSource {
        format: AudioFormat::Stereo(8),
        fills,
        state: StreamState::Good,
    };
    let mut filter = LowPass::new(source, 1.0f32.to_bits());
    let mut buf = vec![0u32; 8];
    assert_eq!(filter.read(&mut buf), StreamState::Good);
    let out = floats_of(&buf);

    // Both channels carry the same signal, so their outputs agree, and each
    // equals the single-channel recurrence run with the stereo coefficient
    // dt / (rc + dt).
    let rc = rc_of(1.0);
    let dt = 1.0 / 8u32 as f32;
    let a = dt / (rc + dt);
    let mut prev = 0.0f32;
    for (i, &v) in frames.iter().enumerate() {
        let y = step(a, prev, v);
        assert_eq!(out[2 * i].to_bits(), y.to_bits());
        assert_eq!(out[2 * i + 1].to_bits(), y.to_bits());
        prev = y;
    }
}

#[test]
fn stereo_reads_match_reference_model() {
    let source = ConstSource { format: AudioFormat::Stereo(8), value: -0.25 };
    let mut filter = LowPass::new(source, 2.0f32.to_bits());
    let mut model = Model::new(2.0, 8, true);
    for len in [6usize, 4, 8] {
        let mut buf = vec![0u32; len];
        assert_eq!(filter.read(&mut buf), StreamState::Good);
        let mut expected = vec![-0.25f32; len];
        model.read(&mut expected, len);
        assert_eq!(buf, bits_buf(&expected));
    }
}

#[test]
fn underrun_zero_leaves_buffer_untouched() {
    let source = ScriptSource {
        format: AudioFormat::Mono(8),
        fills: Vec::new(),
        state: StreamState::Underrun(0),
    };
    let mut filter = LowPass::new(source, 2.0f32.to_bits());
    let sentinel = bits_buf(&[9.0, 8.0, 7.0, 6.0]);
    let mut buf = sentinel.clone();
    assert_eq!(filter.read(&mut buf), StreamState::Underrun(0));
    assert_eq!(buf, sentinel);
}

#[test]
fn underrun_zero_leaves_filter_state_untouched() {
    let mut filter = LowPass::new(
        ScriptSource {
            format: AudioFormat::Mono(8),
            fills: vec![0.5; 4],
            state: StreamState::Good,
        },
        2.0f32.to_bits(),
    );
    let mut plain = LowPass::new(
        ScriptSource {
            format: AudioFormat::Mono(8),
            fills: vec![0.5; 4],
            state: StreamState::Good,
        },
        2.0f32.to_bits(),
    );

    // An empty read in between must not perturb the filter's memory.
    let mut empty: Vec<u32> = Vec::new();
    assert_eq!(filter.read(&mut empty), StreamState::Good);

    let mut a = vec![0u32; 4];
    let mut b = vec![0u32; 4];
    assert_eq!(filter.read(&mut a), StreamState::Good);
    assert_eq!(plain.read(&mut b), StreamState::Good);
    assert_eq!(a, b);
}

#[test]
fn finished_partial_read_filters_only_the_prefix() {
    let source = ScriptSource {
        format: AudioFormat::Mono(8),
        fills: vec![1.0, 2.0, 3.0],
        state: StreamState::Finished(3),
    };
    let mut filter = LowPass::new(source, 2.0f32.to_bits());
    let sentinel = 42.5f32.to_bits();
    let mut buf = vec![sentinel; 8];
    assert_eq!(filter.read(&mut buf), StreamState::Finished(3));

    let rc = rc_of(2.0);
    let dt = 1.0 / 8u32 as f32;
    let a = rc / (rc + dt);
    let mut prev = 0.0f32;
    for (i, &x) in [1.0f32, 2.0, 3.0].iter().enumerate() {
        let y = step(a, prev, x);
        assert_eq!(buf[i], y.to_bits());
        prev = y;
    }
    for i in 3..8 {
        assert_eq!(buf[i], sentinel);
    }
}

#[test]
fn stereo_unaligned_count_passes_through_unfiltered() {
    let source = ScriptSource {
        format: AudioFormat::Stereo(8),
        fills: vec![1.0, 2.0, 3.0],
        state: StreamState::Underrun(3),
    };
    let mut filter = LowPass::new(source, 2.0f32.to_bits());
    let mut buf = vec![0u32; 8];
    assert_eq!(filter.read(&mut buf), StreamState::Underrun(3));
    // An odd sample count cannot line up with whole stereo frames: the
    // samples are handed through as the source wrote them.
    assert_eq!(&buf[..3], &bits_buf(&[1.0, 2.0, 3.0])[..]);
}

#[test]
fn scratch_grows_and_keeps_tail_state_across_shorter_reads() {
    let k = 1.0f32;
    let source = ConstSource { format: AudioFormat::Mono(8), value: k };
    let mut filter = LowPass::new(source, 2.0f32.to_bits());
    let mut model = Model::new(2.0, 8, false);

    // A long read, a shorter one, then a long one again: the third read's
    // seed must be real filter state left by the first read's tail, and
    // every sample must match the reference model that grows and never
    // shrinks its scratch buffer.
    let mut first = vec![0u32; 8];
    assert_eq!(filter.read(&mut first), StreamState::Good);
    let mut e1 = vec![k; 8];
    model.read(&mut e1, 8);
    assert_eq!(first, bits_buf(&e1));

    let mut second = vec![0u32; 4];
    assert_eq!(filter.read(&mut second), StreamState::Good);
    let mut e2 = vec![k; 4];
    model.read(&mut e2, 4);
    assert_eq!(second, bits_buf(&e2));

    let mut third = vec![0u32; 8];
    assert_eq!(filter.read(&mut third), StreamState::Good);
    let mut e3 = vec![k; 8];
    model.read(&mut e3, 8);
    assert_eq!(third, bits_buf(&e3));

    // The continuity is visible: the third read is seeded from the first
    // read's last output, which the shorter read left in place.
    let rc = rc_of(2.0);
    let dt = 1.0 / 8u32 as f32;
    let a = rc / (rc + dt);
    assert_eq!(third[0], step(a, e1[7], k).to_bits());
}

#[test]
fn filter_mono_matches_recurrence() {
    let mut samples = bits_buf(&[1.0, 2.0, 3.0, 4.0]);
    let mut scratch = bits_buf(&[0.0, 0.0, 0.0, 0.5]);
    let rc = rc_of(2.0);
    let dt = 0.125f32;
    low_pass::filter_mono(&mut samples, &mut scratch, 4, dt.to_bits(), rc.to_bits());

    let a = rc / (rc + dt);
    let mut prev = 0.5f32;
    let mut expected = Vec::new();
    for &x in [1.0f32, 2.0, 3.0, 4.0].iter() {
        prev = step(a, prev, x);
        expected.push(prev);
    }
    assert_eq!(samples, bits_buf(&expected));
    assert_eq!(scratch, bits_buf(&expected));
}

#[test]
fn filter_stereo_filters_channels_separately() {
    let mut samples = bits_buf(&[1.0, 10.0, 2.0, 20.0]);
    let mut scratch = bits_buf(&[0.0, 0.0, 0.5, 5.0]);
    let rc = rc_of(2.0);
    let dt = 0.125f32;
    low_pass::filter_stereo(&mut samples, &mut scratch, 4, dt.to_bits(), rc.to_bits());

    let a = dt / (rc + dt);
    let l0 = step(a, 0.5, 1.0);
    let r0 = step(a, 5.0, 10.0);
    let l1 = step(a, l0, 2.0);
    let r1 = step(a, r0, 20.0);
    assert_eq!(samples, bits_buf(&[l0, r0, l1, r1]));
    assert_eq!(scratch, bits_buf(&[l0, r0, l1, r1]));
}

#[test]
fn filter_mono_partial_range_keeps_scratch_tail() {
    let mut samples = bits_buf(&[1.0, 1.0, 9.0]);
    let mut scratch = bits_buf(&[0.25, 0.5, 0.75, 0.875]);
    let rc = rc_of(2.0);
    let dt = 0.125f32;
    low_pass::filter_mono(&mut samples, &mut scratch, 2, dt.to_bits(), rc.to_bits());

    let a = rc / (rc + dt);
    let y0 = step(a, 0.5, 1.0);
    let y1 = step(a, y0, 1.0);
    assert_eq!(samples, bits_buf(&[y0, y1, 9.0]));
    assert_eq!(scratch, bits_buf(&[y0, y1, 0.75, 0.875]));
}

#[test]
fn step_and_coefficients_match_native_f32() {
    let rc = rc_of(3.0);
    let dt = 0.125f32;
    assert_eq!(
        low_pass::mono_coeff_bits(rc.to_bits(), dt.to_bits()),
        (rc / (rc + dt)).to_bits()
    );
    assert_eq!(
        low_pass::stereo_coeff_bits(rc.to_bits(), dt.to_bits()),
        (dt / (rc + dt)).to_bits()
    );
    assert_eq!(
        low_pass::lp_step_bits(0.25f32.to_bits(), 0.5f32.to_bits(), 2.0f32.to_bits()),
        step(0.25, 0.5, 2.0).to_bits()
    );
    assert_eq!(
        low_pass::recip_two_pi_bits(3.0f32.to_bits()),
        (1.0f32 / (two_pi() * 3.0)).to_bits()
    );
    assert_eq!(low_pass::dt_of_rate_bits(44100), (1.0f32 / 44100.0).to_bits());
}

#[test]
fn shared_handles_reach_the_same_source() {
    let source = CountingSource { format: AudioFormat::Mono(8), next: 0.0 };
    let handle = SharedSource::new(source);
    let mut other = handle.share();

    let mut filter = LowPass::new(handle, 2.0f32.to_bits());
    let mut buf = vec![0u32; 4];
    assert_eq!(filter.read(&mut buf), StreamState::Good);

    // The filter consumed samples 0..4 from the shared source, so a read
    // through the other handle continues at 4.
    let mut raw = vec![0u32; 2];
    assert_eq!(other.read(&mut raw), StreamState::Good);
    assert_eq!(raw, bits_buf(&[4.0, 5.0]));
}

#[test]
fn low_pass_is_itself_a_source_and_nests() {
    let source = ConstSource { format: AudioFormat::Mono(8), value: 1.0 };
    let inner = LowPass::new(source, 2.0f32.to_bits());
    let mut outer = LowPass::new(inner, 2.0f32.to_bits());
    let mut buf = vec![0u32; 4];
    assert_eq!(outer.read(&mut buf), StreamState::Good);

    let mut inner_model = Model::new(2.0, 8, false);
    let mut outer_model = Model::new(2.0, 8, false);
    let mut expected = vec![1.0f32; 4];
    inner_model.read(&mut expected, 4);
    outer_model.read(&mut expected, 4);
    assert_eq!(buf, bits_buf(&expected));
}
