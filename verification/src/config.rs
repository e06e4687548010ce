//! Validation of an allocator's window inside the working-RAM region.

use vstd::prelude::*;
use crate::region::EWRAM_SIZE;

verus! {

/// Why a pair of offset and limit does not describe a heap window.
#[derive(Clone, Copy, Debug, PartialEq, Eq, Structural)]
pub enum ConfigError {
    /// The window would begin before the start of the region.
    NegativeOffset,
    /// The window would have a negative length.
    NegativeLimit,
    /// The window would reach past the end of the region.
    ExceedsRegion,
}

/// A window of `limit` bytes that begins `offset` bytes into the region lies
/// inside the region.
pub open spec fn valid_config(offset: int, limit: int) -> bool {
    0 <= offset && 0 <= limit && offset + limit <= EWRAM_SIZE
}

/// The first rule that `offset` and `limit` break, if any: the offset is
/// looked at first, then the limit, then their sum.
pub open spec fn config_error(offset: int, limit: int) -> Option<ConfigError> {
    if offset < 0 {
        Some(ConfigError::NegativeOffset)
    } else if limit < 0 {
        Some(ConfigError::NegativeLimit)
    } else if offset + limit > EWRAM_SIZE {
        Some(ConfigError::ExceedsRegion)
    } else {
        None
    }
}

/// A configuration is valid exactly when it breaks no rule.
pub proof fn lemma_valid_iff_no_error(offset: int, limit: int)
    ensures
        valid_config(offset, limit) <==> config_error(offset, limit) is None,
{
}

/// Checks `offset` and `limit` and names the first rule they break.
pub fn check_config(offset: isize, limit: isize) -> (r: Result<(), ConfigError>)
    ensures
        r is Ok <==> valid_config(offset as int, limit as int),
        match r {
            Ok(_) => config_error(offset as int, limit as int) is None,
            Err(e) => config_error(offset as int, limit as int) == Some(e),
        },
{
    if offset < 0 {
        Err(ConfigError::NegativeOffset)
    } else if limit < 0 {
        Err(ConfigError::NegativeLimit)
    } else if limit > EWRAM_SIZE as isize - offset {
        Err(ConfigError::ExceedsRegion)
    } else {
        Ok(())
    }
}

impl ConfigError {
    /// The sentence that reports this error.
    pub fn message(&self) -> (s: &'static str)
        ensures
            s@ == (match *self {
                ConfigError::NegativeOffset => "heap cannot begin before 0x2000000"@,
                ConfigError::NegativeLimit => "limit cannot be less than 0"@,
                ConfigError::ExceedsRegion => "offset + limit cannot exceed 256K"@,
            }),
    {
        match self {
            ConfigError::NegativeOffset => "heap cannot begin before 0x2000000",
            ConfigError::NegativeLimit => "limit cannot be less than 0",
            ConfigError::ExceedsRegion => "offset + limit cannot exceed 256K",
        }
    }
}

} // verus!
