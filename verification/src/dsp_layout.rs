//! Channel bookkeeping of the DSP nodes.

use vstd::prelude::*;

verus! {

/// Direct-path attenuation node (scalar gain, no delay line). It maps each
/// input channel to the output channel of the same number.
pub struct AirAbsorptionOcclusionNode {
    input_channels: u16,
    output_channels: u16,
}

impl AirAbsorptionOcclusionNode {
    /// Channels the node reads.
    pub closed spec fn inputs(&self) -> u16 {
        self.input_channels
    }

    /// Channels the node writes.
    pub closed spec fn outputs(&self) -> u16 {
        self.output_channels
    }

    /// Create a node for `input_channels` channels (as many out as in). The
    /// sample rate and maximum delay (in the renderer's scalar type) are
    /// accepted for the delay stage and do not affect the channels.
    pub fn new<S>(input_channels: u16, _sample_rate: S, _max_delay_secs: S) -> (r: Self)
        ensures
            r.inputs() == input_channels,
            r.outputs() == input_channels,
    {
        AirAbsorptionOcclusionNode { input_channels, output_channels: input_channels }
    }

    /// Number of input channels.
    pub fn input_channels(&self) -> (r: u16)
        ensures
            r == self.inputs(),
    {
        self.input_channels
    }

    /// Number of output channels.
    pub fn output_channels(&self) -> (r: u16)
        ensures
            r == self.outputs(),
    {
        self.output_channels
    }
}

/// Speaker layout for amplitude panning; custom directions are in the
/// renderer's scalar type `F`.
#[derive(Clone, Debug)]
pub enum SpeakerLayout<F> {
    /// Two speakers at ±30°.
    Stereo,
    /// 5.1 surround.
    Surround51,
    /// 7.1.4 surround.
    Surround714,
    /// Four speakers at ±45° and ±135°.
    Quad,
    /// Arbitrary speaker directions.
    Custom {
        /// Speaker directions (unit vectors).
        positions: Vec<[F; 3]>,
    },
}

/// Decoding mode of the master output.
#[derive(Clone, Debug)]
pub enum DecoderMode<F> {
    /// Binaural rendering via HRTF.
    BinauralHrtf,
    /// Vector-based amplitude panning onto a speaker array.
    Vbap {
        /// The speaker array.
        layout: SpeakerLayout<F>,
    },
    /// Higher-order ambisonics decoding.
    AmbisonicDecode {
        /// Ambisonic order.
        order: u32,
    },
}

/// Output channels of a decoding mode: 2 for binaural; per speaker layout
/// 2 (stereo), 6 (5.1), 8 (7.1.4), 4 (quad) or the number of custom speakers
/// (kept to 16 bits); `(order + 1)²` (kept to 16 bits) for ambisonics.
pub open spec fn channels_for_mode<F>(mode: DecoderMode<F>) -> u16 {
    match mode {
        DecoderMode::BinauralHrtf => 2,
        DecoderMode::Vbap { layout } => match layout {
            SpeakerLayout::Stereo => 2,
            SpeakerLayout::Surround51 => 6,
            SpeakerLayout::Surround714 => 8,
            SpeakerLayout::Quad => 4,
            SpeakerLayout::Custom { positions } => positions@.len() as u16,
        },
        DecoderMode::AmbisonicDecode { order } => ((order + 1) * (order + 1)) as u16,
    }
}

/// Number of output channels the master decoder produces for `mode`.
pub fn output_channels_for_mode<F>(mode: &DecoderMode<F>) -> (r: u16)
    requires
        mode matches DecoderMode::AmbisonicDecode { order } ==> (order + 1) * (order + 1) <= u32::MAX,
    ensures
        r == channels_for_mode(*mode),
{
    match mode {
        DecoderMode::BinauralHrtf => 2,
        DecoderMode::Vbap { layout } => match layout {
            SpeakerLayout::Stereo => 2,
            SpeakerLayout::Surround51 => 6,
            SpeakerLayout::Surround714 => 8,
            SpeakerLayout::Quad => 4,
            SpeakerLayout::Custom { positions } => #[verifier::truncate] (positions.len() as u16),
        },
        DecoderMode::AmbisonicDecode { order } => {
            assert(*order + 1 <= (*order + 1) * (*order + 1)) by (nonlinear_arith)
                requires
                    *order >= 0,
            ;
            let side = *order + 1;
            #[verifier::truncate] ((side * side) as u16)
        },
    }
}

} // verus!
