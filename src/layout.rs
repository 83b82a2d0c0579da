//! The full list of resources that a configuration declares, in order.

use vstd::prelude::*;
use crate::config::{
    valid_config, OrbConfig, COUNTER_BYTES, CORNER_RECORD_BYTES, DESCRIPTOR_BYTES, MATCH_RECORD_BYTES,
};
use crate::resources::{
    buffer_index, has_name, kernel_index, BufferId, Kernel, ResourceDecl, ResourceName, ResourceStore,
    Shape, Surface, TextureFormat, Usage,
};

verus! {

pub open spec fn usage_of(
    storage: bool,
    copy_src: bool,
    copy_dst: bool,
    texture_binding: bool,
    render_attachment: bool,
) -> Usage {
    Usage { storage, copy_src, copy_dst, texture_binding, render_attachment }
}

pub open spec fn no_usage() -> Usage {
    usage_of(false, false, false, false, false)
}

/// The place of a name in the order in which `OrbProgram::init` declares
/// resources; declaring in increasing order keeps names unique.
pub open spec fn decl_rank(n: ResourceName) -> int {
    match n {
        ResourceName::Module(k) => kernel_index(k),
        ResourceName::Texture(s) => match s {
            Surface::InputImage => 6,
            Surface::Grayscale => 7,
            Surface::BlurX => 8,
            Surface::Blur => 9,
        },
        ResourceName::Sampler => 10,
        ResourceName::Buffer(b) => 11 + buffer_index(b),
        ResourceName::Staging(b) => 19 + buffer_index(b),
        ResourceName::BindGroup(k) => 30 + 2 * kernel_index(k),
        ResourceName::Pipeline(k) => 31 + 2 * kernel_index(k),
    }
}

pub open spec fn ranks_below(s: Seq<ResourceDecl>, r: int) -> bool {
    forall|i: int| 0 <= i < s.len() ==> decl_rank((#[trigger] s[i]).name) < r
}

pub open spec fn other_decl(n: ResourceName) -> ResourceDecl {
    ResourceDecl { name: n, shape: Shape::Other, usage: no_usage() }
}

pub open spec fn texture_decl(s: Surface, width: u32, height: u32, format: TextureFormat, usage: Usage) -> ResourceDecl {
    ResourceDecl { name: ResourceName::Texture(s), shape: Shape::Texture { width, height, format }, usage }
}

pub open spec fn buffer_decl(b: BufferId, size: u64, usage: Usage) -> ResourceDecl {
    ResourceDecl { name: ResourceName::Buffer(b), shape: Shape::Buffer { size }, usage }
}

/// A staging mirror: host-readable, filled by a copy.
pub open spec fn staging_decl(b: BufferId, size: u64) -> ResourceDecl {
    ResourceDecl {
        name: ResourceName::Staging(b),
        shape: Shape::Buffer { size },
        usage: usage_of(false, false, true, false, false),
    }
}

pub open spec fn surface_usage() -> Usage {
    usage_of(false, false, false, true, true)
}

pub open spec fn input_usage() -> Usage {
    usage_of(false, true, true, true, false)
}

/// Written by kernels, copied out; never cleared.
pub open spec fn list_usage() -> Usage {
    usage_of(true, true, false, false, false)
}

/// Cleared at the start of each cycle and copied out.
pub open spec fn counter_usage() -> Usage {
    usage_of(true, true, true, false, false)
}

/// A keyframe buffer: only ever the target of a copy.
pub open spec fn snapshot_usage() -> Usage {
    usage_of(true, false, true, false, false)
}

pub open spec fn kernel_decls(k: Kernel) -> Seq<ResourceDecl> {
    seq![other_decl(ResourceName::BindGroup(k)), other_decl(ResourceName::Pipeline(k))]
}

/// Every resource that the pipeline declares for configuration `c`, in order.
pub open spec fn pipeline_decls(c: OrbConfig) -> Seq<ResourceDecl> {
    let corners = (c.max_features * CORNER_RECORD_BYTES) as u64;
    let descriptors = (c.max_features * DESCRIPTOR_BYTES) as u64;
    let matches = (c.max_matches * MATCH_RECORD_BYTES) as u64;
    seq![
        other_decl(ResourceName::Module(Kernel::ColorToGrayscale)),
        other_decl(ResourceName::Module(Kernel::GaussianBlurX)),
        other_decl(ResourceName::Module(Kernel::GaussianBlurY)),
        other_decl(ResourceName::Module(Kernel::CornerDetector)),
        other_decl(ResourceName::Module(Kernel::FeatureDescriptors)),
        other_decl(ResourceName::Module(Kernel::FeatureMatching)),
        texture_decl(Surface::InputImage, c.width, c.height, TextureFormat::Rgba8Unorm, input_usage()),
        texture_decl(Surface::Grayscale, c.width, c.height, TextureFormat::R16Float, surface_usage()),
        texture_decl(Surface::BlurX, c.width, c.height, TextureFormat::R16Float, surface_usage()),
        texture_decl(Surface::Blur, c.width, c.height, TextureFormat::R16Float, surface_usage()),
        other_decl(ResourceName::Sampler),
        buffer_decl(BufferId::LatestCorners, corners, list_usage()),
        buffer_decl(BufferId::LatestCornersCounter, COUNTER_BYTES, counter_usage()),
        buffer_decl(BufferId::LatestDescriptors, descriptors, list_usage()),
        buffer_decl(BufferId::PreviousCorners, corners, snapshot_usage()),
        buffer_decl(BufferId::PreviousCornersCounter, COUNTER_BYTES, snapshot_usage()),
        buffer_decl(BufferId::PreviousDescriptors, descriptors, snapshot_usage()),
        buffer_decl(BufferId::Matches, matches, list_usage()),
        buffer_decl(BufferId::MatchesCounter, COUNTER_BYTES, counter_usage()),
        staging_decl(BufferId::LatestCorners, corners),
        staging_decl(BufferId::LatestCornersCounter, COUNTER_BYTES),
        staging_decl(BufferId::LatestDescriptors, descriptors),
        staging_decl(BufferId::Matches, matches),
        staging_decl(BufferId::MatchesCounter, COUNTER_BYTES),
    ] + kernel_decls(Kernel::ColorToGrayscale) + kernel_decls(Kernel::GaussianBlurX)
        + kernel_decls(Kernel::GaussianBlurY) + kernel_decls(Kernel::CornerDetector)
        + kernel_decls(Kernel::FeatureDescriptors) + kernel_decls(Kernel::FeatureMatching)
}

fn usage(
    storage: bool,
    copy_src: bool,
    copy_dst: bool,
    texture_binding: bool,
    render_attachment: bool,
) -> (r: Usage)
    ensures
        r == usage_of(storage, copy_src, copy_dst, texture_binding, render_attachment),
{
    Usage { storage, copy_src, copy_dst, texture_binding, render_attachment }
}

/// Adds `decl` to a store whose names all come earlier in the declaration order.
fn declare(store: &mut ResourceStore, decl: ResourceDecl)
    requires
        old(store).wf(),
        ranks_below(old(store)@, decl_rank(decl.name)),
    ensures
        final(store).wf(),
        final(store)@ == old(store)@.push(decl),
        ranks_below(final(store)@, decl_rank(decl.name) + 1),
{
    let _ = store.create(decl);
    proof {
        if has_name(old(store)@, decl.name) {
            let i = choose|i: int| 0 <= i < old(store)@.len() && (#[trigger] old(store)@[i]).name == decl.name;
            assert(decl_rank(old(store)@[i].name) < decl_rank(decl.name));
        }
    }
}

fn declare_other(store: &mut ResourceStore, name: ResourceName)
    requires
        old(store).wf(),
        ranks_below(old(store)@, decl_rank(name)),
    ensures
        final(store).wf(),
        final(store)@ == old(store)@.push(other_decl(name)),
        ranks_below(final(store)@, decl_rank(name) + 1),
{
    declare(store, ResourceDecl { name, shape: Shape::Other, usage: usage(false, false, false, false, false) });
}

fn declare_texture(store: &mut ResourceStore, s: Surface, width: u32, height: u32, format: TextureFormat, u: Usage)
    requires
        old(store).wf(),
        ranks_below(old(store)@, decl_rank(ResourceName::Texture(s))),
    ensures
        final(store).wf(),
        final(store)@ == old(store)@.push(texture_decl(s, width, height, format, u)),
        ranks_below(final(store)@, decl_rank(ResourceName::Texture(s)) + 1),
{
    declare(store, ResourceDecl { name: ResourceName::Texture(s), shape: Shape::Texture { width, height, format }, usage: u });
}

fn declare_buffer(store: &mut ResourceStore, b: BufferId, size: u64, u: Usage)
    requires
        old(store).wf(),
        ranks_below(old(store)@, decl_rank(ResourceName::Buffer(b))),
    ensures
        final(store).wf(),
        final(store)@ == old(store)@.push(buffer_decl(b, size, u)),
        ranks_below(final(store)@, decl_rank(ResourceName::Buffer(b)) + 1),
{
    declare(store, ResourceDecl { name: ResourceName::Buffer(b), shape: Shape::Buffer { size }, usage: u });
}

fn declare_staging(store: &mut ResourceStore, b: BufferId, size: u64)
    requires
        old(store).wf(),
        ranks_below(old(store)@, decl_rank(ResourceName::Staging(b))),
    ensures
        final(store).wf(),
        final(store)@ == old(store)@.push(staging_decl(b, size)),
        ranks_below(final(store)@, decl_rank(ResourceName::Staging(b)) + 1),
{
    let u = usage(false, false, true, false, false);
    declare(store, ResourceDecl { name: ResourceName::Staging(b), shape: Shape::Buffer { size }, usage: u });
}

/// Declares every resource of the pipeline for a valid configuration.
pub fn declare_all(config: &OrbConfig) -> (s: ResourceStore)
    requires
    valid_config(*config),
    ensures
    s.wf(),
    s@ == pipeline_decls(*config),
{
    let corners = config.corner_buffer_bytes();
    let descriptors = config.descriptor_buffer_bytes();
    let matches = config.match_buffer_bytes();
    let mut s = ResourceStore::new();
    declare_other(&mut s, ResourceName::Module(Kernel::ColorToGrayscale));
    declare_other(&mut s, ResourceName::Module(Kernel::GaussianBlurX));
    declare_other(&mut s, ResourceName::Module(Kernel::GaussianBlurY));
    declare_other(&mut s, ResourceName::Module(Kernel::CornerDetector));
    declare_other(&mut s, ResourceName::Module(Kernel::FeatureDescriptors));
    declare_other(&mut s, ResourceName::Module(Kernel::FeatureMatching));
    let surface = usage(false, false, false, true, true);
    declare_texture(&mut s, Surface::InputImage, config.width, config.height, TextureFormat::Rgba8Unorm, usage(false, true, true, true, false));
    declare_texture(&mut s, Surface::Grayscale, config.width, config.height, TextureFormat::R16Float, surface);
    declare_texture(&mut s, Surface::BlurX, config.width, config.height, TextureFormat::R16Float, surface);
    declare_texture(&mut s, Surface::Blur, config.width, config.height, TextureFormat::R16Float, surface);
    declare_other(&mut s, ResourceName::Sampler);
    let list = usage(true, true, false, false, false);
    let counter = usage(true, true, true, false, false);
    let snapshot = usage(true, false, true, false, false);
    declare_buffer(&mut s, BufferId::LatestCorners, corners, list);
    declare_buffer(&mut s, BufferId::LatestCornersCounter, COUNTER_BYTES, counter);
    declare_buffer(&mut s, BufferId::LatestDescriptors, descriptors, list);
    declare_buffer(&mut s, BufferId::PreviousCorners, corners, snapshot);
    declare_buffer(&mut s, BufferId::PreviousCornersCounter, COUNTER_BYTES, snapshot);
    declare_buffer(&mut s, BufferId::PreviousDescriptors, descriptors, snapshot);
    declare_buffer(&mut s, BufferId::Matches, matches, list);
    declare_buffer(&mut s, BufferId::MatchesCounter, COUNTER_BYTES, counter);
    declare_staging(&mut s, BufferId::LatestCorners, corners);
    declare_staging(&mut s, BufferId::LatestCornersCounter, COUNTER_BYTES);
    declare_staging(&mut s, BufferId::LatestDescriptors, descriptors);
    declare_staging(&mut s, BufferId::Matches, matches);
    declare_staging(&mut s, BufferId::MatchesCounter, COUNTER_BYTES);
    declare_other(&mut s, ResourceName::BindGroup(Kernel::ColorToGrayscale));
    declare_other(&mut s, ResourceName::Pipeline(Kernel::ColorToGrayscale));
    declare_other(&mut s, ResourceName::BindGroup(Kernel::GaussianBlurX));
    declare_other(&mut s, ResourceName::Pipeline(Kernel::GaussianBlurX));
    declare_other(&mut s, ResourceName::BindGroup(Kernel::GaussianBlurY));
    declare_other(&mut s, ResourceName::Pipeline(Kernel::GaussianBlurY));
    declare_other(&mut s, ResourceName::BindGroup(Kernel::CornerDetector));
    declare_other(&mut s, ResourceName::Pipeline(Kernel::CornerDetector));
    declare_other(&mut s, ResourceName::BindGroup(Kernel::FeatureDescriptors));
    declare_other(&mut s, ResourceName::Pipeline(Kernel::FeatureDescriptors));
    declare_other(&mut s, ResourceName::BindGroup(Kernel::FeatureMatching));
    declare_other(&mut s, ResourceName::Pipeline(Kernel::FeatureMatching));
    proof {
        assert(s@ =~= pipeline_decls(*config));
    }
    s
}

} // verus!
