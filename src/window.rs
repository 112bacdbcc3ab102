//! Window extraction: mono selection from interleaved samples, the mel-bin
//! configurations the feature filters exist for, and the shape of the
//! feature tensor built from one window.
use vstd::prelude::*;
use crate::capture::{downsample, every_nth};

verus! {

/// The batch dimension of every feature tensor.
pub const FEATURE_BATCH: usize = 1;

/// The mel-bin counts for which a filterbank exists.
#[derive(PartialEq, Eq, Structural, Clone, Copy, Debug)]
pub enum MelBins {
    Bins80,
    Bins128,
}

/// A configuration that the pipeline cannot run with.
#[derive(PartialEq, Eq, Structural, Clone, Copy, Debug)]
pub enum ConfigError {
    /// The model asks for a mel-bin count with no filterbank.
    UnsupportedMelBins(usize),
    /// The input stream reports zero channels.
    NoChannels,
}

/// The number of mel bins `b` stands for.
pub open spec fn bin_count(b: MelBins) -> nat {
    match b {
        MelBins::Bins80 => 80,
        MelBins::Bins128 => 128,
    }
}

impl MelBins {
    /// Selects the filterbank for a model's mel-bin count: 80 and 128 are
    /// supported, any other count is a configuration error.
    pub fn from_count(n: usize) -> (r: Result<MelBins, ConfigError>)
        ensures
            n == 80 <==> r == Ok::<MelBins, ConfigError>(MelBins::Bins80),
            n == 128 <==> r == Ok::<MelBins, ConfigError>(MelBins::Bins128),
            n != 80 && n != 128 <==> r == Err::<MelBins, ConfigError>(
                ConfigError::UnsupportedMelBins(n),
            ),
    {
        if n == 80 {
            Ok(MelBins::Bins80)
        } else if n == 128 {
            Ok(MelBins::Bins128)
        } else {
            Err(ConfigError::UnsupportedMelBins(n))
        }
    }

    /// The number of mel bins.
    pub fn count(&self) -> (r: usize)
        ensures
            r == bin_count(*self),
    {
        match self {
            MelBins::Bins80 => 80,
            MelBins::Bins128 => 128,
        }
    }
}

/// Checks the channel count reported by the input stream: zero is an error.
pub fn check_channels(channels: usize) -> (r: Result<usize, ConfigError>)
    ensures
        channels > 0 <==> r == Ok::<usize, ConfigError>(channels),
        channels == 0 <==> r == Err::<usize, ConfigError>(ConfigError::NoChannels),
{
    if channels == 0 {
        Err(ConfigError::NoChannels)
    } else {
        Ok(channels)
    }
}

/// Mono samples from an interleaved window: the first channel's sample of
/// each frame, that is the samples at indices `0, channels, 2 * channels, ...`.
/// The other channels are dropped, not averaged in.
pub fn downmix(samples: &[i16], channels: usize) -> (r: Vec<i16>)
    requires
        channels > 0,
    ensures
        r@ == every_nth(samples@, channels as nat),
        r@.len() * channels >= samples@.len(),
        forall|i: int| 0 <= i < r@.len() ==> #[trigger] r@[i] == samples@[i * channels],
{
    let r = downsample(samples, channels);
    proof {
        let n = samples@.len() as int;
        let c = channels as int;
        assert(((n + c - 1) / c) * c >= n) by (nonlinear_arith)
            requires
                n >= 0,
                c > 0,
        ;
    }
    r
}

/// The shape `(batch, mel_bins, frames)` of a feature tensor.
#[derive(PartialEq, Eq, Structural, Clone, Copy, Debug)]
pub struct FeatureShape {
    pub batch: usize,
    pub mel_bins: usize,
    pub frames: usize,
}

/// The tensor shape for `feature_len` features over `mel_bins` bins: one
/// batch, `mel_bins` rows, and as many whole frames as fit; trailing
/// features that do not fill a frame are dropped.
pub fn feature_shape(mel_bins: usize, feature_len: usize) -> (r: FeatureShape)
    requires
        mel_bins > 0,
    ensures
        r == (FeatureShape { batch: 1, mel_bins, frames: feature_len / mel_bins }),
{
    FeatureShape { batch: FEATURE_BATCH, mel_bins, frames: feature_len / mel_bins }
}

/// How many of `feature_len` features fill whole frames of `mel_bins`: the
/// features past that count are dropped.
pub fn kept_features(mel_bins: usize, feature_len: usize) -> (r: usize)
    requires
        mel_bins > 0,
    ensures
        r == (feature_len / mel_bins) * mel_bins,
        r <= feature_len,
        feature_len - r < mel_bins,
{
    proof {
        let n = feature_len as int;
        let b = mel_bins as int;
        assert((n / b) * b <= n && n - (n / b) * b < b) by (nonlinear_arith)
            requires
                n >= 0,
                b > 0,
        ;
    }
    (feature_len / mel_bins) * mel_bins
}

} // verus!
