//! The configuration record that one compression run receives.

use vstd::prelude::*;

verus! {

/// Settings for one compression run: JPEG quality (1-100), the largest
/// dimension a patched image may keep, and whether the generic pass may strip
/// metadata. Immutable for the whole run.
#[derive(Clone, Copy, Debug, PartialEq, Eq, Structural)]
pub struct CompressionConfig {
    pub jpeg_quality: u8,
    pub max_dimension: u32,
    pub remove_metadata: bool,
}

impl CompressionConfig {
    /// A configuration the engine accepts: quality on the 1-100 scale and a
    /// positive dimension budget.
    pub open spec fn valid(self) -> bool {
        &&& 1 <= self.jpeg_quality <= 100
        &&& 1 <= self.max_dimension
    }

    /// The clamped form of this configuration: each field moved to the
    /// nearest end of its accepted range.
    pub open spec fn spec_normalized(self) -> CompressionConfig {
        CompressionConfig {
            jpeg_quality: if self.jpeg_quality < 1 {
                1
            } else if self.jpeg_quality > 100 {
                100
            } else {
                self.jpeg_quality
            },
            max_dimension: if self.max_dimension < 1 {
                1
            } else {
                self.max_dimension
            },
            remove_metadata: self.remove_metadata,
        }
    }

    /// Clamps the fields into their accepted ranges; a valid configuration
    /// passes through unchanged.
    pub fn normalized(self) -> (r: Self)
        ensures
            r == self.spec_normalized(),
            r.valid(),
            self.valid() ==> r == self,
            r.remove_metadata == self.remove_metadata,
            r.max_dimension >= self.max_dimension,
    {
        let jpeg_quality: u8 = if self.jpeg_quality < 1 {
            1
        } else if self.jpeg_quality > 100 {
            100
        } else {
            self.jpeg_quality
        };
        let max_dimension: u32 = if self.max_dimension < 1 {
            1
        } else {
            self.max_dimension
        };
        CompressionConfig { jpeg_quality, max_dimension, remove_metadata: self.remove_metadata }
    }
}

impl Default for CompressionConfig {
    fn default() -> (r: Self)
        ensures
            r.jpeg_quality == 30,
            r.max_dimension == 600,
            r.remove_metadata == true,
            r.valid(),
    {
        CompressionConfig { jpeg_quality: 30, max_dimension: 600, remove_metadata: true }
    }
}

/// The default JPEG quality applied when a request names none.
pub fn default_quality() -> (r: u8)
    ensures
        r == 30,
{
    30
}

/// The default dimension budget applied when a request names none.
pub fn default_max_dim() -> (r: u32)
    ensures
        r == 600,
{
    600
}

/// By default the generic pass may strip metadata.
pub fn default_remove_metadata() -> (r: bool)
    ensures
        r == true,
{
    true
}

/// The per-request knobs a transport layer accepts; mirrors
/// `CompressionConfig` field for field.
#[derive(Clone, Copy, Debug, PartialEq, Eq, Structural)]
pub struct CompressionQueryParams {
    pub quality: u8,
    pub max_dimension: u32,
    pub remove_metadata: bool,
}

impl CompressionQueryParams {
    /// The configuration record these parameters ask for.
    pub fn to_config(self) -> (r: CompressionConfig)
        ensures
            r.jpeg_quality == self.quality,
            r.max_dimension == self.max_dimension,
            r.remove_metadata == self.remove_metadata,
    {
        CompressionConfig {
            jpeg_quality: self.quality,
            max_dimension: self.max_dimension,
            remove_metadata: self.remove_metadata,
        }
    }
}

impl Default for CompressionQueryParams {
    fn default() -> (r: Self)
        ensures
            r.quality == 30,
            r.max_dimension == 600,
            r.remove_metadata == true,
    {
        CompressionQueryParams { quality: 30, max_dimension: 600, remove_metadata: true }
    }
}

} // verus!
