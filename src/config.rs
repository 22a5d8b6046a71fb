use vstd::prelude::*;

verus! {

/// Why a configuration was refused before the simulation could start.
#[derive(Clone, Copy, Debug, PartialEq, Eq, Structural)]
pub enum ConfigError {
    /// The configuration asks for no bodies at all.
    NoBodies,
    /// The configuration asks for more bodies than can be addressed.
    TooManyBodies,
    /// The frame rate is zero.
    NoFrameRate,
}

/// Nanoseconds in one second.
pub const NANOS_PER_SECOND: u32 = 1_000_000_000;

/// The pause between two frames at `rate` frames per second, in whole
/// nanoseconds; a rate of zero is refused.
pub fn frame_interval_nanos(rate: u32) -> (r: Result<u32, ConfigError>)
    ensures
        rate == 0 <==> r == Err::<u32, ConfigError>(ConfigError::NoFrameRate),
        rate > 0 ==> r == Ok::<u32, ConfigError>((NANOS_PER_SECOND / rate) as u32),
{
    if rate == 0 {
        Err(ConfigError::NoFrameRate)
    } else {
        Ok(NANOS_PER_SECOND / rate)
    }
}

} // verus!
