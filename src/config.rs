//! What the pipeline is configured with, its checks, and the sizes and
//! workgroup counts derived from it.

use vstd::prelude::*;

verus! {

/// Largest side of a 2-D texture that a default WebGPU device accepts.
pub const MAX_TEXTURE_DIMENSION: u32 = 8192;

/// Largest workgroup count of one dispatch dimension on a default device.
pub const MAX_WORKGROUPS_PER_DIMENSION: u32 = 65535;

/// Bytes of one corner record: two 32-bit fields, x and y.
pub const CORNER_RECORD_BYTES: u64 = 8;

/// Bytes of one descriptor: 256 bits, eight 32-bit words.
pub const DESCRIPTOR_BYTES: u64 = 32;

/// Bytes of one match record.
pub const MATCH_RECORD_BYTES: u64 = 4;

/// Bytes of an append counter.
pub const COUNTER_BYTES: u64 = 4;

/// Lanes per workgroup of the per-feature kernels.
pub const FEATURE_WORKGROUP_SIZE: u32 = 64;

/// Side of the square workgroup of the corner detector.
pub const DETECTOR_WORKGROUP_SIDE: u32 = 8;

/// What the pipeline is built for: the frame size, the capacities of the
/// corner and match lists, and the two acceptance thresholds.
pub struct OrbConfig {
    pub width: u32,
    pub height: u32,
    pub max_features: u32,
    pub max_matches: u32,
    /// A pixel is a corner when its score is above this value.
    pub corner_threshold: u32,
    /// A pair of descriptors matches when their Hamming distance is at most this value.
    pub match_threshold: u32,
}

/// What one processing cycle is asked to do besides detection.
#[derive(Clone, Copy, PartialEq, Eq, Structural)]
pub struct OrbParams {
    pub record_keyframe: bool,
    pub compute_matches: bool,
}

#[derive(Clone, Copy, Debug, PartialEq, Eq, Structural)]
pub enum ConfigError {
    /// A side is zero, or larger than a texture may be.
    InvalidDimensions,
    /// A capacity is zero, or too large for the dispatch or the match record.
    InvalidCapacity,
}

pub open spec fn dimension_ok(side: u32) -> bool {
    1 <= side <= MAX_TEXTURE_DIMENSION
}

/// Match records pack two feature indices into 16 bits each, and the
/// matcher dispatches one workgroup row per feature.
pub open spec fn capacity_ok(max_features: u32, max_matches: u32) -> bool {
    &&& 1 <= max_features <= MAX_WORKGROUPS_PER_DIMENSION
    &&& 1 <= max_matches
}

pub open spec fn config_result(c: OrbConfig) -> Result<(), ConfigError> {
    if !dimension_ok(c.width) || !dimension_ok(c.height) {
        Err(ConfigError::InvalidDimensions)
    } else if !capacity_ok(c.max_features, c.max_matches) {
        Err(ConfigError::InvalidCapacity)
    } else {
        Ok(())
    }
}

pub open spec fn valid_config(c: OrbConfig) -> bool {
    config_result(c) is Ok
}

/// Number of groups of `group` lanes that cover `n` lanes.
pub open spec fn groups_covering(n: int, group: int) -> int {
    (n + group - 1) / group
}

impl OrbConfig {
    /// Checks the configuration: both sides in `1..=MAX_TEXTURE_DIMENSION`,
    /// then `1..=MAX_WORKGROUPS_PER_DIMENSION` features and at least one match.
    pub fn check(&self) -> (r: Result<(), ConfigError>)
        ensures
            r == config_result(*self),
    {
        if self.width < 1 || self.width > MAX_TEXTURE_DIMENSION || self.height < 1
            || self.height > MAX_TEXTURE_DIMENSION {
            Err(ConfigError::InvalidDimensions)
        } else if self.max_features < 1 || self.max_features > MAX_WORKGROUPS_PER_DIMENSION
            || self.max_matches < 1 {
            Err(ConfigError::InvalidCapacity)
        } else {
            Ok(())
        }
    }

    /// Bytes of one corner list.
    pub fn corner_buffer_bytes(&self) -> (r: u64)
        ensures
            r == self.max_features * CORNER_RECORD_BYTES,
    {
        self.max_features as u64 * CORNER_RECORD_BYTES
    }

    /// Bytes of one descriptor table: one descriptor per corner slot.
    pub fn descriptor_buffer_bytes(&self) -> (r: u64)
        ensures
            r == self.max_features * DESCRIPTOR_BYTES,
    {
        self.max_features as u64 * DESCRIPTOR_BYTES
    }

    /// Bytes of the match list.
    pub fn match_buffer_bytes(&self) -> (r: u64)
        ensures
            r == self.max_matches * MATCH_RECORD_BYTES,
    {
        self.max_matches as u64 * MATCH_RECORD_BYTES
    }

    /// Bytes of one frame: four bytes per pixel.
    pub fn frame_bytes(&self) -> (r: u64)
        requires
            valid_config(*self),
        ensures
            r == 4 * (self.width * self.height),
    {
        proof {
            let (w, h) = (self.width as int, self.height as int);
            assert(w * h <= 8192 * 8192) by (nonlinear_arith)
                requires
                    0 <= w <= 8192,
                    0 <= h <= 8192,
            ;
        }
        4 * (self.width as u64 * self.height as u64)
    }

    /// Workgroups of the corner detector: one 8x8 group per block of the
    /// full-size grayscale surface, rounding up, so that every frame pixel
    /// is a candidate.
    pub fn detector_workgroups(&self) -> (r: (u32, u32))
        ensures
            r.0 == groups_covering(self.width as int, DETECTOR_WORKGROUP_SIDE as int),
            r.1 == groups_covering(self.height as int, DETECTOR_WORKGROUP_SIDE as int),
            r.0 * DETECTOR_WORKGROUP_SIDE >= self.width,
            r.1 * DETECTOR_WORKGROUP_SIDE >= self.height,
    {
        (((self.width as u64 + 7) / 8) as u32, ((self.height as u64 + 7) / 8) as u32)
    }

    /// Workgroups of a per-feature kernel. They cover the whole capacity of
    /// the corner list: the counter is not known on the host when the pass
    /// is recorded.
    pub fn feature_workgroups(&self) -> (r: u32)
        ensures
            r == groups_covering(self.max_features as int, FEATURE_WORKGROUP_SIZE as int),
            r * FEATURE_WORKGROUP_SIZE >= self.max_features,
    {
        ((self.max_features as u64 + 63) / 64) as u32
    }
}

} // verus!
