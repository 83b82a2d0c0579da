//! The passes of a cycle and the order in which they read and write.

use vstd::prelude::*;
use crate::config::{groups_covering, OrbConfig, OrbParams, COUNTER_BYTES, CORNER_RECORD_BYTES, DESCRIPTOR_BYTES, MATCH_RECORD_BYTES, FEATURE_WORKGROUP_SIZE, DETECTOR_WORKGROUP_SIDE};
use crate::resources::{BufferId, Kernel, Surface};
use crate::stages::{bindings, Binding};

verus! {

/// One step of a cycle's command submission.
#[derive(Clone, Copy, Debug, PartialEq, Eq, Structural)]
pub enum Pass {
    /// Zero a buffer.
    ClearBuffer(BufferId),
    /// Run a render kernel over the whole of its target surface.
    Draw { kernel: Kernel, target: Surface },
    /// Run a compute kernel over `x * y * z` workgroups.
    Dispatch { kernel: Kernel, x: u32, y: u32, z: u32 },
    /// Copy the first `size` bytes of one buffer into another.
    CopyBuffer { src: BufferId, dst: BufferId, size: u64 },
    /// Copy a buffer into its staging mirror.
    CopyToStaging { buffer: BufferId, size: u64 },
}

/// A GPU resource that a pass reads or writes.
#[derive(Clone, Copy, Debug, PartialEq, Eq, Structural)]
pub enum Res {
    Tex(Surface),
    Buf(BufferId),
}

/// Resources whose content comes from outside the cycle: the frame, written
/// by the host, and the keyframe snapshot, kept from an earlier cycle.
pub open spec fn persistent(r: Res) -> bool {
    match r {
        Res::Tex(Surface::InputImage) => true,
        Res::Buf(BufferId::PreviousCorners) => true,
        Res::Buf(BufferId::PreviousCornersCounter) => true,
        Res::Buf(BufferId::PreviousDescriptors) => true,
        _ => false,
    }
}

pub open spec fn is_counter(b: BufferId) -> bool {
    match b {
        BufferId::LatestCornersCounter | BufferId::PreviousCornersCounter | BufferId::MatchesCounter => true,
        _ => false,
    }
}

/// What kernel `k` reads: its textures, its read-only storage, and the
/// counters that it increments.
pub open spec fn kernel_reads(k: Kernel, r: Res) -> bool {
    match k {
        Kernel::ColorToGrayscale => r == Res::Tex(Surface::InputImage),
        Kernel::GaussianBlurX => r == Res::Tex(Surface::Grayscale),
        Kernel::GaussianBlurY => r == Res::Tex(Surface::BlurX),
        Kernel::CornerDetector => r == Res::Tex(Surface::Grayscale) || r == Res::Buf(
            BufferId::LatestCornersCounter,
        ),
        Kernel::FeatureDescriptors => r == Res::Tex(Surface::Blur) || r == Res::Tex(Surface::Grayscale)
            || r == Res::Buf(BufferId::LatestCorners) || r == Res::Buf(BufferId::LatestCornersCounter),
        Kernel::FeatureMatching => r == Res::Buf(BufferId::LatestDescriptors) || r == Res::Buf(
            BufferId::PreviousDescriptors,
        ) || r == Res::Buf(BufferId::LatestCornersCounter) || r == Res::Buf(
            BufferId::PreviousCornersCounter,
        ) || r == Res::Buf(BufferId::MatchesCounter),
    }
}

/// What compute kernel `k` writes: its writable storage.
pub open spec fn kernel_writes(k: Kernel, r: Res) -> bool {
    match k {
        Kernel::CornerDetector => r == Res::Buf(BufferId::LatestCorners) || r == Res::Buf(
            BufferId::LatestCornersCounter,
        ),
        Kernel::FeatureDescriptors => r == Res::Buf(BufferId::LatestDescriptors),
        Kernel::FeatureMatching => r == Res::Buf(BufferId::Matches) || r == Res::Buf(
            BufferId::MatchesCounter,
        ),
        _ => false,
    }
}

pub open spec fn reads(p: Pass, r: Res) -> bool {
    match p {
        Pass::ClearBuffer(_) => false,
        Pass::Draw { kernel, .. } | Pass::Dispatch { kernel, .. } => kernel_reads(kernel, r),
        Pass::CopyBuffer { src, .. } => r == Res::Buf(src),
        Pass::CopyToStaging { buffer, .. } => r == Res::Buf(buffer),
    }
}

pub open spec fn writes(p: Pass, r: Res) -> bool {
    match p {
        Pass::ClearBuffer(b) => r == Res::Buf(b),
        Pass::Draw { target, .. } => r == Res::Tex(target),
        Pass::Dispatch { kernel, .. } => kernel_writes(kernel, r),
        Pass::CopyBuffer { dst, .. } => r == Res::Buf(dst),
        Pass::CopyToStaging { .. } => false,
    }
}

/// Whether some pass of `s` writes `r`.
pub open spec fn written_by(s: Seq<Pass>, r: Res) -> bool {
    exists|i: int| 0 <= i < s.len() && writes(#[trigger] s[i], r)
}

/// Pass `p` may follow `s`: each per-cycle resource it reads was written
/// by an earlier pass, and no earlier pass overwrote a persistent one it reads.
pub open spec fn ready(s: Seq<Pass>, p: Pass) -> bool {
    forall|r: Res| #[trigger] reads(p, r) ==> (if persistent(r) {
        !written_by(s, r)
    } else {
        written_by(s, r)
    })
}

/// Every pass of `s` is ready after the passes before it.
pub open spec fn ordered(s: Seq<Pass>) -> bool {
    forall|j: int| 0 <= j < s.len() ==> ready(s.take(j), #[trigger] s[j])
}

pub open spec fn feature_groups(c: OrbConfig) -> u32 {
    groups_covering(c.max_features as int, FEATURE_WORKGROUP_SIZE as int) as u32
}

/// The passes of one cycle, in submission order.
pub open spec fn cycle_plan(c: OrbConfig, params: OrbParams) -> Seq<Pass> {
    let corners = (c.max_features * CORNER_RECORD_BYTES) as u64;
    let descriptors = (c.max_features * DESCRIPTOR_BYTES) as u64;
    let matches = (c.max_matches * MATCH_RECORD_BYTES) as u64;
    let detect = seq![
        Pass::ClearBuffer(BufferId::LatestCornersCounter),
        Pass::ClearBuffer(BufferId::MatchesCounter),
        Pass::Draw { kernel: Kernel::ColorToGrayscale, target: Surface::Grayscale },
        Pass::Draw { kernel: Kernel::GaussianBlurX, target: Surface::BlurX },
        Pass::Draw { kernel: Kernel::GaussianBlurY, target: Surface::Blur },
        Pass::Dispatch {
            kernel: Kernel::CornerDetector,
            x: groups_covering(c.width as int, DETECTOR_WORKGROUP_SIDE as int) as u32,
            y: groups_covering(c.height as int, DETECTOR_WORKGROUP_SIDE as int) as u32,
            z: 1,
        },
        Pass::Dispatch { kernel: Kernel::FeatureDescriptors, x: feature_groups(c), y: 1, z: 1 },
    ];
    let matching = if params.compute_matches {
        seq![Pass::Dispatch { kernel: Kernel::FeatureMatching, x: c.max_features, y: feature_groups(c), z: 1 }]
    } else {
        Seq::empty()
    };
    let commit = if params.record_keyframe {
        seq![
            Pass::CopyBuffer { src: BufferId::LatestCorners, dst: BufferId::PreviousCorners, size: corners },
            Pass::CopyBuffer { src: BufferId::LatestCornersCounter, dst: BufferId::PreviousCornersCounter, size: COUNTER_BYTES },
            Pass::CopyBuffer { src: BufferId::LatestDescriptors, dst: BufferId::PreviousDescriptors, size: descriptors },
        ]
    } else {
        Seq::empty()
    };
    let stage = seq![
        Pass::CopyToStaging { buffer: BufferId::LatestCornersCounter, size: COUNTER_BYTES },
        Pass::CopyToStaging { buffer: BufferId::LatestCorners, size: corners },
        Pass::CopyToStaging { buffer: BufferId::LatestDescriptors, size: descriptors },
    ];
    let stage_matches = if params.compute_matches {
        seq![
            Pass::CopyToStaging { buffer: BufferId::MatchesCounter, size: COUNTER_BYTES },
            Pass::CopyToStaging { buffer: BufferId::Matches, size: matches },
        ]
    } else {
        Seq::empty()
    };
    detect + matching + commit + stage + stage_matches
}

/// Appends a pass that is ready after those already in `plan`.
pub fn push_pass(plan: &mut Vec<Pass>, p: Pass)
    requires
        ordered(old(plan)@),
        ready(old(plan)@, p),
    ensures
        final(plan)@ == old(plan)@.push(p),
        ordered(final(plan)@),
        forall|r: Res| #[trigger] written_by(final(plan)@, r) == (written_by(old(plan)@, r) || writes(p, r)),
{
    let ghost s = plan@;
    plan.push(p);
    proof {
        assert forall|j: int| 0 <= j < plan@.len() implies ready(plan@.take(j), #[trigger] plan@[j]) by {
            if j < s.len() {
                assert(plan@.take(j) =~= s.take(j));
            } else {
                assert(plan@.take(j) =~= s);
            }
        }
        assert forall|r: Res| #[trigger] written_by(plan@, r) == (written_by(s, r) || writes(p, r)) by {
            if written_by(s, r) {
                let i = choose|i: int| 0 <= i < s.len() && writes(#[trigger] s[i], r);
                assert(plan@[i] == s[i]);
            }
            if writes(p, r) {
                assert(plan@[s.len() as int] == p);
            }
        }
    }
}

/// Whether the access that binding `b` grants kernel `k` is one that the
/// hazard model counts.
pub open spec fn binding_counted(k: Kernel, b: Binding) -> bool {
    match b {
        Binding::Sampler => true,
        Binding::Texture(s) => kernel_reads(k, Res::Tex(s)),
        Binding::Storage { buffer, read_only } => if read_only {
            kernel_reads(k, Res::Buf(buffer))
        } else {
            kernel_writes(k, Res::Buf(buffer)) && (is_counter(buffer) ==> kernel_reads(k, Res::Buf(buffer)))
        },
    }
}

/// The hazard model misses no access of a bind group: every texture and
/// read-only buffer that a kernel binds is among its reads, every writable
/// buffer among its writes, and a writable counter among both.
pub proof fn lemma_bindings_counted(k: Kernel)
    ensures
        forall|i: int| 0 <= i < bindings(k).len() ==> binding_counted(k, #[trigger] bindings(k)[i]),
{
    assert forall|i: int| 0 <= i < bindings(k).len() implies binding_counted(k, #[trigger] bindings(k)[i]) by {
        assert(i == 0 || i == 1 || i == 2 || i == 3 || i == 4 || i == 5);
    }
}

} // verus!
