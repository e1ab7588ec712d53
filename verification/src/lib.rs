//! A streaming one-pole (RC) low-pass filter stage for a pull-based audio
//! pipeline. A filter wraps a shared upstream source, pulls samples into the
//! caller's buffer, and rewrites the valid prefix in place with a one-pole
//! IIR recurrence, keeping its state in a private scratch buffer so that
//! filtering is continuous across read calls of arbitrary and varying
//! length. Samples are IEEE 754 single-precision values carried as their
//! `u32` bit patterns.

mod laws;
mod low_pass;
mod sample;
mod shared;
mod stream;

pub use laws::lemma_grown_keeps_state;
pub use laws::lemma_mono_continuity;
pub use laws::lemma_next_read_seeded_with_last_output;
pub use laws::lemma_stereo_channel_independence;

pub use shared::SharedSource;
pub use low_pass::LowPass;
pub use low_pass::filter_mono;
pub use low_pass::filter_stereo;
pub use low_pass::frame_aligned;
pub use low_pass::grown;

pub use low_pass::lemma_mono_outputs_index;
pub use low_pass::lemma_mono_outputs_len;
pub use low_pass::lemma_stereo_outputs_index;
pub use low_pass::lemma_stereo_outputs_len;
pub use low_pass::mono_outputs;
pub use low_pass::stereo_outputs;

pub use sample::ONE_BITS;
pub use sample::TWO_PI_BITS;
pub use sample::dt_of_rate;
pub use sample::dt_of_rate_bits;
pub use sample::f32_add;
pub use sample::f32_div;
pub use sample::f32_mul;
pub use sample::f32_of_uint;
pub use sample::f32_sub;
pub use sample::lp_step;
pub use sample::lp_step_bits;
pub use sample::mono_coeff;
pub use sample::mono_coeff_bits;
pub use sample::recip_two_pi;
pub use sample::recip_two_pi_bits;
pub use sample::stereo_coeff;
pub use sample::stereo_coeff_bits;
pub use stream::AudioFormat;
pub use stream::AudioSource;
pub use stream::StreamState;
pub use stream::valid_count;
