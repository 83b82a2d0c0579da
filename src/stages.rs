//! The stage kernels' bind groups and render targets.

use vstd::prelude::*;
use crate::resources::{BufferId, Kernel, Surface};

verus! {

/// One entry of a kernel's bind group.
#[derive(Clone, Copy, Debug, PartialEq, Eq, Structural)]
pub enum Binding {
    Sampler,
    Texture(Surface),
    Storage { buffer: BufferId, read_only: bool },
}

pub open spec fn is_render(k: Kernel) -> bool {
    match k {
        Kernel::ColorToGrayscale | Kernel::GaussianBlurX | Kernel::GaussianBlurY => true,
        _ => false,
    }
}

/// The surface a render kernel draws into.
pub open spec fn render_target(k: Kernel) -> Surface {
    match k {
        Kernel::ColorToGrayscale => Surface::Grayscale,
        Kernel::GaussianBlurX => Surface::BlurX,
        _ => Surface::Blur,
    }
}

pub open spec fn bindings(k: Kernel) -> Seq<Binding> {
    match k {
        Kernel::ColorToGrayscale => seq![Binding::Sampler, Binding::Texture(Surface::InputImage)],
        Kernel::GaussianBlurX => seq![Binding::Sampler, Binding::Texture(Surface::Grayscale)],
        Kernel::GaussianBlurY => seq![Binding::Sampler, Binding::Texture(Surface::BlurX)],
        Kernel::CornerDetector => seq![
            Binding::Texture(Surface::Grayscale),
            Binding::Storage { buffer: BufferId::LatestCorners, read_only: false },
            Binding::Storage { buffer: BufferId::LatestCornersCounter, read_only: false },
        ],
        Kernel::FeatureDescriptors => seq![
            Binding::Texture(Surface::Blur),
            Binding::Storage { buffer: BufferId::LatestCorners, read_only: true },
            Binding::Storage { buffer: BufferId::LatestCornersCounter, read_only: true },
            Binding::Storage { buffer: BufferId::LatestDescriptors, read_only: false },
            Binding::Texture(Surface::Grayscale),
        ],
        Kernel::FeatureMatching => seq![
            Binding::Storage { buffer: BufferId::LatestDescriptors, read_only: true },
            Binding::Storage { buffer: BufferId::PreviousDescriptors, read_only: true },
            Binding::Storage { buffer: BufferId::LatestCornersCounter, read_only: true },
            Binding::Storage { buffer: BufferId::PreviousCornersCounter, read_only: true },
            Binding::Storage { buffer: BufferId::Matches, read_only: false },
            Binding::Storage { buffer: BufferId::MatchesCounter, read_only: false },
        ],
    }
}

/// Whether kernel `k` is a full-frame draw rather than a compute dispatch.
pub fn kernel_is_render(k: Kernel) -> (r: bool)
    ensures
        r == is_render(k),
{
    match k {
        Kernel::ColorToGrayscale | Kernel::GaussianBlurX | Kernel::GaussianBlurY => true,
        _ => false,
    }
}

/// The surface that render kernel `k` draws into.
pub fn kernel_render_target(k: Kernel) -> (r: Surface)
    ensures
        r == render_target(k),
{
    match k {
        Kernel::ColorToGrayscale => Surface::Grayscale,
        Kernel::GaussianBlurX => Surface::BlurX,
        _ => Surface::Blur,
    }
}

/// The bind group of kernel `k`, in binding order.
pub fn kernel_bindings(k: Kernel) -> (r: Vec<Binding>)
    ensures
        r@ == bindings(k),
{
    let v = match k {
        Kernel::ColorToGrayscale => vec![Binding::Sampler, Binding::Texture(Surface::InputImage)],
        Kernel::GaussianBlurX => vec![Binding::Sampler, Binding::Texture(Surface::Grayscale)],
        Kernel::GaussianBlurY => vec![Binding::Sampler, Binding::Texture(Surface::BlurX)],
        Kernel::CornerDetector => vec![
            Binding::Texture(Surface::Grayscale),
            Binding::Storage { buffer: BufferId::LatestCorners, read_only: false },
            Binding::Storage { buffer: BufferId::LatestCornersCounter, read_only: false },
        ],
        Kernel::FeatureDescriptors => vec![
            Binding::Texture(Surface::Blur),
            Binding::Storage { buffer: BufferId::LatestCorners, read_only: true },
            Binding::Storage { buffer: BufferId::LatestCornersCounter, read_only: true },
            Binding::Storage { buffer: BufferId::LatestDescriptors, read_only: false },
            Binding::Texture(Surface::Grayscale),
        ],
        Kernel::FeatureMatching => vec![
            Binding::Storage { buffer: BufferId::LatestDescriptors, read_only: true },
            Binding::Storage { buffer: BufferId::PreviousDescriptors, read_only: true },
            Binding::Storage { buffer: BufferId::LatestCornersCounter, read_only: true },
            Binding::Storage { buffer: BufferId::PreviousCornersCounter, read_only: true },
            Binding::Storage { buffer: BufferId::Matches, read_only: false },
            Binding::Storage { buffer: BufferId::MatchesCounter, read_only: false },
        ],
    };
    proof {
        assert(v@ =~= bindings(k));
    }
    v
}

} // verus!
