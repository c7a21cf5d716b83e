//! Source caching configuration.

use vstd::prelude::*;

verus! {

pub const DEFAULT_ENCODED_CHUNK_SIZE: usize = 4096;

pub const DEFAULT_DECODED_CHUNK_SIZE: usize = 4096;

#[derive(Clone, Copy, Debug, PartialEq, Eq, Structural)]
pub enum CacheLevel {
    Uncached,
    Encoded,
    Decoded,
}

#[derive(Clone, Copy, Debug, PartialEq, Eq, Structural)]
pub struct CacheConfig {
    pub level: CacheLevel,
    pub chunk_size: usize,
    pub max_bytes: Option<usize>,
}

#[derive(Clone, Copy, Debug, PartialEq, Eq, Structural)]
pub enum CachePolicy {
    Uncached,
    Encoded { chunk_size: usize },
    Decoded { chunk_size: usize, max_bytes: Option<usize> },
}

impl Default for CachePolicy {
    fn default() -> (r: Self)
        ensures
            r == CachePolicy::Uncached,
    {
        CachePolicy::Uncached
    }
}

impl CacheConfig {
    /// Cache encoded bytes in default-size chunks, without a byte limit.
    pub fn encoded() -> (r: Self)
        ensures
            r == (CacheConfig {
                level: CacheLevel::Encoded,
                chunk_size: DEFAULT_ENCODED_CHUNK_SIZE,
                max_bytes: None,
            }),
    {
        CacheConfig { level: CacheLevel::Encoded, chunk_size: DEFAULT_ENCODED_CHUNK_SIZE, max_bytes: None }
    }

    /// Cache decoded images in default-size chunks, without a byte limit.
    pub fn decoded() -> (r: Self)
        ensures
            r == (CacheConfig {
                level: CacheLevel::Decoded,
                chunk_size: DEFAULT_DECODED_CHUNK_SIZE,
                max_bytes: None,
            }),
    {
        CacheConfig { level: CacheLevel::Decoded, chunk_size: DEFAULT_DECODED_CHUNK_SIZE, max_bytes: None }
    }

    /// The policy this configuration describes; the byte limit applies to
    /// decoded caches only.
    pub fn policy(self) -> (r: CachePolicy)
        ensures
            r == match self.level {
                CacheLevel::Uncached => CachePolicy::Uncached,
                CacheLevel::Encoded => CachePolicy::Encoded { chunk_size: self.chunk_size },
                CacheLevel::Decoded => CachePolicy::Decoded {
                    chunk_size: self.chunk_size,
                    max_bytes: self.max_bytes,
                },
            },
    {
        match self.level {
            CacheLevel::Uncached => CachePolicy::Uncached,
            CacheLevel::Encoded => CachePolicy::Encoded { chunk_size: self.chunk_size },
            CacheLevel::Decoded => CachePolicy::Decoded {
                chunk_size: self.chunk_size,
                max_bytes: self.max_bytes,
            },
        }
    }
}

} // verus!
