//! Choosing input and output stream configurations from what a device
//! supports, by a preference ladder.
use crate::config::AudioConfig;
use vstd::prelude::*;

verus! {

/// Sample formats a device may offer; `Other` stands for any the engine
/// cannot write.
#[derive(Clone, Copy, Debug, PartialEq, Eq, Structural)]
pub enum SampleFormat {
    I16,
    F32,
    Other,
}

/// Errors the engine reports.
#[derive(Clone, Copy, Debug, PartialEq, Eq, Structural)]
pub enum EngineError {
    /// No default device, or no input configuration on the ladder.
    DeviceUnavailable,
    /// The output device offers no format the engine can write.
    ConfigUnsupported,
    /// The socket could not be opened or the handshake not sent.
    NetworkUnreachable,
    /// A read or write failed mid-session.
    NetworkClosed,
    /// A device stream could not be built or started.
    Internal,
}

/// One supported configuration range of a device.
#[derive(Clone, Copy, Debug, PartialEq, Eq, Structural)]
pub struct ConfigRange {
    pub channels: u16,
    pub format: SampleFormat,
    pub min_rate: u32,
    pub max_rate: u32,
}

/// The concrete stream configuration chosen for a device.
#[derive(Clone, Copy, Debug, PartialEq, Eq, Structural)]
pub struct StreamChoice {
    pub channels: u16,
    pub sample_rate: u32,
    pub format: SampleFormat,
}

/// The sample rate taken from a range: the wanted rate if the range holds
/// it, else the range's maximum.
pub open spec fn rate_for(r: ConfigRange, wanted: u32) -> u32 {
    if r.min_rate <= wanted && wanted <= r.max_rate {
        wanted
    } else {
        r.max_rate
    }
}

/// The stream configuration taken from a range.
pub open spec fn choice_for(r: ConfigRange, wanted: u32) -> StreamChoice {
    StreamChoice { channels: r.channels, sample_rate: rate_for(r, wanted), format: r.format }
}

pub open spec fn fits(r: ConfigRange, channels: u16, format: SampleFormat) -> bool {
    r.channels == channels && r.format == format
}

pub open spec fn has_fit(rs: Seq<ConfigRange>, channels: u16, format: SampleFormat) -> bool {
    exists|i: int| 0 <= i < rs.len() && fits(#[trigger] rs[i], channels, format)
}

pub open spec fn is_first_fit(
    rs: Seq<ConfigRange>,
    channels: u16,
    format: SampleFormat,
    i: int,
) -> bool {
    &&& 0 <= i < rs.len()
    &&& fits(rs[i], channels, format)
    &&& forall|j: int| 0 <= j < i ==> !fits(#[trigger] rs[j], channels, format)
}

/// Index of the first range with the given channels and format.
pub open spec fn first_fit(rs: Seq<ConfigRange>, channels: u16, format: SampleFormat) -> int {
    choose|i: int| is_first_fit(rs, channels, format, i)
}

/// A range that fits and has no fitting range before it is the first fit.
pub proof fn lemma_first_fit_unique(
    rs: Seq<ConfigRange>,
    channels: u16,
    format: SampleFormat,
    i: int,
)
    requires
        is_first_fit(rs, channels, format, i),
    ensures
        first_fit(rs, channels, format) == i,
{
    let k = first_fit(rs, channels, format);
    assert(is_first_fit(rs, channels, format, k));
    if k < i {
        assert(!fits(rs[k], channels, format));
    } else if i < k {
        assert(!fits(rs[i], channels, format));
    }
}

/// The ladder step's choice, if the step matches anything.
pub open spec fn step_choice(
    rs: Seq<ConfigRange>,
    channels: u16,
    format: SampleFormat,
    wanted: u32,
) -> Option<StreamChoice> {
    if has_fit(rs, channels, format) {
        Some(choice_for(rs[first_fit(rs, channels, format)], wanted))
    } else {
        None
    }
}

/// The input ladder: the wire's channel count in I16, then stereo I16.
pub open spec fn input_choice(rs: Seq<ConfigRange>, cfg: AudioConfig) -> Result<
    StreamChoice,
    EngineError,
> {
    if let Some(c) = step_choice(rs, cfg.channels, SampleFormat::I16, cfg.sample_rate) {
        Ok(c)
    } else if let Some(c) = step_choice(rs, 2, SampleFormat::I16, cfg.sample_rate) {
        Ok(c)
    } else {
        Err(EngineError::DeviceUnavailable)
    }
}

/// The output ladder: I16 before F32, the wire's channel count before
/// stereo, then the first range of any kind; a format the engine cannot
/// write, or no range at all, is unsupported.
pub open spec fn output_choice(rs: Seq<ConfigRange>, cfg: AudioConfig) -> Result<
    StreamChoice,
    EngineError,
> {
    let w = cfg.sample_rate;
    if let Some(c) = step_choice(rs, cfg.channels, SampleFormat::I16, w) {
        Ok(c)
    } else if let Some(c) = step_choice(rs, 2, SampleFormat::I16, w) {
        Ok(c)
    } else if let Some(c) = step_choice(rs, cfg.channels, SampleFormat::F32, w) {
        Ok(c)
    } else if let Some(c) = step_choice(rs, 2, SampleFormat::F32, w) {
        Ok(c)
    } else if rs.len() > 0 && rs[0].format != SampleFormat::Other {
        Ok(choice_for(rs[0], w))
    } else {
        Err(EngineError::ConfigUnsupported)
    }
}

/// The sample rate to open a range with.
pub fn choose_rate(range: &ConfigRange, wanted: u32) -> (r: u32)
    ensures
        r == rate_for(*range, wanted),
{
    if range.min_rate <= wanted && wanted <= range.max_rate {
        wanted
    } else {
        range.max_rate
    }
}

/// The first range with the given channel count and format, configured
/// for the wanted rate.
pub fn find_step(ranges: &Vec<ConfigRange>, channels: u16, format: SampleFormat, wanted: u32) -> (r:
    Option<StreamChoice>)
    ensures
        r == step_choice(ranges@, channels, format, wanted),
{
    let mut i: usize = 0;
    while i < ranges.len()
        invariant
            i <= ranges@.len(),
            forall|j: int| 0 <= j < i ==> !fits(#[trigger] ranges@[j], channels, format),
        decreases ranges@.len() - i,
    {
        let r = ranges[i];
        if r.channels == channels && r.format == format {
            proof {
                assert(is_first_fit(ranges@, channels, format, i as int));
                lemma_first_fit_unique(ranges@, channels, format, i as int);
            }
            return Some(
                StreamChoice {
                    channels: r.channels,
                    sample_rate: choose_rate(&r, wanted),
                    format: r.format,
                },
            );
        }
        i = i + 1;
    }
    None
}

/// The input stream configuration, by the input ladder.
pub fn select_input(ranges: &Vec<ConfigRange>, cfg: &AudioConfig) -> (r: Result<
    StreamChoice,
    EngineError,
>)
    ensures
        r == input_choice(ranges@, *cfg),
{
    if let Some(c) = find_step(ranges, cfg.channels, SampleFormat::I16, cfg.sample_rate) {
        return Ok(c);
    }
    if let Some(c) = find_step(ranges, 2, SampleFormat::I16, cfg.sample_rate) {
        return Ok(c);
    }
    Err(EngineError::DeviceUnavailable)
}

/// The output stream configuration, by the output ladder.
pub fn select_output(ranges: &Vec<ConfigRange>, cfg: &AudioConfig) -> (r: Result<
    StreamChoice,
    EngineError,
>)
    ensures
        r == output_choice(ranges@, *cfg),
{
    let w = cfg.sample_rate;
    if let Some(c) = find_step(ranges, cfg.channels, SampleFormat::I16, w) {
        return Ok(c);
    }
    if let Some(c) = find_step(ranges, 2, SampleFormat::I16, w) {
        return Ok(c);
    }
    if let Some(c) = find_step(ranges, cfg.channels, SampleFormat::F32, w) {
        return Ok(c);
    }
    if let Some(c) = find_step(ranges, 2, SampleFormat::F32, w) {
        return Ok(c);
    }
    if ranges.len() > 0 && ranges[0].format != SampleFormat::Other {
        let r = ranges[0];
        return Ok(
            StreamChoice { channels: r.channels, sample_rate: choose_rate(&r, w), format: r.format },
        );
    }
    Err(EngineError::ConfigUnsupported)
}

} // verus!
