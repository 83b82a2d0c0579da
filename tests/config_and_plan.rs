use orb::config::{ConfigError, OrbConfig, OrbParams};
use orb::plan::Pass;
use orb::program::{FrameError, OrbProgram};
use orb::stages::{kernel_bindings, kernel_is_render, kernel_render_target, Binding};
use orb::readback::{mirror_step, MirrorEvent, MirrorState, ReadbackError};
use orb::resources::{
    BufferId, Kernel, ResourceDecl, ResourceName, ResourceStore, Shape, StoreError, Surface,
    TextureFormat, Usage,
};

fn config(width: u32, height: u32, max_features: u32, max_matches: u32) -> OrbConfig {
    OrbConfig { width, height, max_features, max_matches, corner_threshold: 10, match_threshold: 20 }
}

fn params(record_keyframe: bool, compute_matches: bool) -> OrbParams {
    OrbParams { record_keyframe, compute_matches }
}

#[test]
fn check_accepts_valid_config() {
    assert_eq!(config(64, 64, 100, 50).check(), Ok(()));
    assert_eq!(config(2, 2, 1, 1).check(), Ok(()));
    assert_eq!(config(1, 64, 1, 1).check(), Ok(()));
    assert_eq!(config(1, 1, 1, 1).check(), Ok(()));
    assert_eq!(config(8192, 8192, 65535, 1).check(), Ok(()));
}

#[test]
fn check_rejects_bad_dimensions() {
    assert_eq!(config(64, 0, 100, 50).check(), Err(ConfigError::InvalidDimensions));
    assert_eq!(config(8193, 64, 100, 50).check(), Err(ConfigError::InvalidDimensions));
    assert_eq!(config(64, 8193, 100, 50).check(), Err(ConfigError::InvalidDimensions));
}

#[test]
fn check_rejects_bad_capacities() {
    assert_eq!(config(64, 64, 0, 50).check(), Err(ConfigError::InvalidCapacity));
    assert_eq!(config(64, 64, 65536, 50).check(), Err(ConfigError::InvalidCapacity));
    assert_eq!(config(64, 64, 100, 0).check(), Err(ConfigError::InvalidCapacity));
}

#[test]
fn derived_sizes() {
    let c = config(640, 480, 100, 50);
    assert_eq!(c.corner_buffer_bytes(), 800);
    assert_eq!(c.descriptor_buffer_bytes(), 3200);
    assert_eq!(c.match_buffer_bytes(), 200);
    assert_eq!(c.frame_bytes(), 4 * 640 * 480);
    assert_eq!(c.detector_workgroups(), (80, 60));
    assert_eq!(c.feature_workgroups(), 2);
    assert_eq!(config(66, 2, 64, 1).detector_workgroups(), (9, 1));
    assert_eq!(config(64, 64, 65, 1).feature_workgroups(), 2);
    assert_eq!(config(64, 64, 64, 1).feature_workgroups(), 1);
}

fn buffer(b: BufferId, size: u64) -> ResourceDecl {
    ResourceDecl {
        name: ResourceName::Buffer(b),
        shape: Shape::Buffer { size },
        usage: Usage { storage: true, copy_src: true, copy_dst: false, texture_binding: false, render_attachment: false },
    }
}

#[test]
fn store_create_and_get() {
    let mut s = ResourceStore::new();
    assert_eq!(s.get(ResourceName::Sampler), Err(StoreError::NotFound));
    assert_eq!(s.create(buffer(BufferId::LatestCorners, 8)), Ok(0));
    assert_eq!(s.create(buffer(BufferId::Matches, 4)), Ok(1));
    assert_eq!(s.create(buffer(BufferId::LatestCorners, 16)), Err(StoreError::Duplicate));
    assert_eq!(s.len(), 2);
    assert_eq!(s.get(ResourceName::Buffer(BufferId::Matches)), Ok(1));
    assert_eq!(s.decl(0).shape, Shape::Buffer { size: 8 });
    assert_eq!(s.get(ResourceName::Staging(BufferId::Matches)), Err(StoreError::NotFound));
}

#[test]
fn init_declares_every_resource() {
    let p = OrbProgram::init(config(64, 48, 100, 50)).ok().unwrap();
    let s = p.resources();
    assert_eq!(s.len(), 36);
    let h = s.get(ResourceName::Buffer(BufferId::LatestDescriptors)).unwrap();
    assert_eq!(s.decl(h).shape, Shape::Buffer { size: 3200 });
    let h = s.get(ResourceName::Staging(BufferId::Matches)).unwrap();
    assert_eq!(s.decl(h).shape, Shape::Buffer { size: 200 });
    let h = s.get(ResourceName::Texture(Surface::Grayscale)).unwrap();
    assert_eq!(s.decl(h).shape, Shape::Texture { width: 64, height: 48, format: TextureFormat::R16Float });
    let h = s.get(ResourceName::Texture(Surface::InputImage)).unwrap();
    assert_eq!(s.decl(h).shape, Shape::Texture { width: 64, height: 48, format: TextureFormat::Rgba8Unorm });
    assert!(s.get(ResourceName::Pipeline(Kernel::FeatureMatching)).is_ok());
    assert_eq!(p.mirror_state(BufferId::LatestCorners), MirrorState::Idle);
}

#[test]
fn init_rejects_invalid_config() {
    assert_eq!(OrbProgram::init(config(64, 64, 0, 50)).err(), Some(ConfigError::InvalidCapacity));
    assert_eq!(OrbProgram::init(config(0, 64, 10, 50)).err(), Some(ConfigError::InvalidDimensions));
}

#[test]
fn run_plans_detection_only() {
    let mut p = OrbProgram::init(config(64, 64, 100, 50)).ok().unwrap();
    let plan = p.run(params(false, false)).unwrap();
    assert_eq!(plan.len(), 10);
    assert_eq!(plan[0], Pass::ClearBuffer(BufferId::LatestCornersCounter));
    assert_eq!(plan[1], Pass::ClearBuffer(BufferId::MatchesCounter));
    assert_eq!(plan[2], Pass::Draw { kernel: Kernel::ColorToGrayscale, target: Surface::Grayscale });
    assert_eq!(plan[5], Pass::Dispatch { kernel: Kernel::CornerDetector, x: 8, y: 8, z: 1 });
    assert_eq!(plan[6], Pass::Dispatch { kernel: Kernel::FeatureDescriptors, x: 2, y: 1, z: 1 });
    assert_eq!(plan[7], Pass::CopyToStaging { buffer: BufferId::LatestCornersCounter, size: 4 });
    assert_eq!(p.mirror_state(BufferId::LatestCorners), MirrorState::Copied);
    assert_eq!(p.mirror_state(BufferId::Matches), MirrorState::Idle);
}

#[test]
fn run_plans_matching_and_commit() {
    let mut p = OrbProgram::init(config(64, 64, 100, 50)).ok().unwrap();
    let plan = p.run(params(true, true)).unwrap();
    assert_eq!(plan.len(), 16);
    assert_eq!(plan[7], Pass::Dispatch { kernel: Kernel::FeatureMatching, x: 100, y: 2, z: 1 });
    assert_eq!(
        plan[8],
        Pass::CopyBuffer { src: BufferId::LatestCorners, dst: BufferId::PreviousCorners, size: 800 }
    );
    assert_eq!(
        plan[10],
        Pass::CopyBuffer { src: BufferId::LatestDescriptors, dst: BufferId::PreviousDescriptors, size: 3200 }
    );
    assert_eq!(plan[15], Pass::CopyToStaging { buffer: BufferId::Matches, size: 200 });
    assert_eq!(p.mirror_state(BufferId::MatchesCounter), MirrorState::Copied);
}

#[test]
fn run_refuses_mapped_mirror() {
    let mut p = OrbProgram::init(config(64, 64, 100, 50)).ok().unwrap();
    p.run(params(false, false)).unwrap();
    assert_eq!(p.mirror_event(BufferId::LatestCorners, MirrorEvent::MapRequested), Ok(()));
    assert_eq!(p.run(params(false, false)).err(), Some(ReadbackError::MirrorBusy));
    assert_eq!(p.mirror_event(BufferId::LatestCorners, MirrorEvent::MapSucceeded), Ok(()));
    assert_eq!(p.run(params(false, false)).err(), Some(ReadbackError::MirrorBusy));
    assert_eq!(p.mirror_event(BufferId::LatestCorners, MirrorEvent::Unmapped), Ok(()));
    assert!(p.run(params(false, false)).is_ok());
}

#[test]
fn mirror_protocol_steps() {
    assert_eq!(mirror_step(MirrorState::Idle, MirrorEvent::CopyRecorded), Ok(MirrorState::Copied));
    assert_eq!(mirror_step(MirrorState::Copied, MirrorEvent::MapRequested), Ok(MirrorState::Mapping));
    assert_eq!(mirror_step(MirrorState::Mapping, MirrorEvent::MapSucceeded), Ok(MirrorState::Mapped));
    assert_eq!(mirror_step(MirrorState::Mapping, MirrorEvent::MapFailed), Ok(MirrorState::Idle));
    assert_eq!(mirror_step(MirrorState::Mapped, MirrorEvent::Unmapped), Ok(MirrorState::Idle));
    assert_eq!(mirror_step(MirrorState::Mapped, MirrorEvent::CopyRecorded), Err(ReadbackError::MirrorBusy));
    assert_eq!(mirror_step(MirrorState::Mapping, MirrorEvent::MapRequested), Err(ReadbackError::MirrorBusy));
    assert_eq!(mirror_step(MirrorState::Idle, MirrorEvent::MapRequested), Err(ReadbackError::OutOfOrder));
    assert_eq!(mirror_step(MirrorState::Copied, MirrorEvent::DeviceLost), Ok(MirrorState::Lost));
    assert_eq!(mirror_step(MirrorState::Lost, MirrorEvent::CopyRecorded), Err(ReadbackError::DeviceLost));
}

#[test]
fn mirror_event_out_of_order_changes_nothing() {
    let mut p = OrbProgram::init(config(64, 64, 100, 50)).ok().unwrap();
    assert_eq!(p.mirror_event(BufferId::Matches, MirrorEvent::Unmapped), Err(ReadbackError::OutOfOrder));
    assert_eq!(p.mirror_state(BufferId::Matches), MirrorState::Idle);
    assert_eq!(p.mirror_event(BufferId::Matches, MirrorEvent::DeviceLost), Ok(()));
    assert_eq!(p.run(params(false, true)).err(), Some(ReadbackError::DeviceLost));
}

#[test]
fn write_input_image_layout() {
    let p = OrbProgram::init(config(64, 32, 100, 50)).ok().unwrap();
    let l = p.write_input_image(&vec![0u8; 64 * 32 * 4]).unwrap();
    assert_eq!((l.width, l.height, l.bytes_per_row), (64, 32, 256));
    assert_eq!(p.write_input_image(&vec![0u8; 64 * 32 * 3]).err(), Some(FrameError::WrongLength));
}

#[test]
fn kernel_bind_groups() {
    assert!(kernel_is_render(Kernel::GaussianBlurY));
    assert!(!kernel_is_render(Kernel::CornerDetector));
    assert_eq!(kernel_render_target(Kernel::GaussianBlurX), Surface::BlurX);
    assert_eq!(
        kernel_bindings(Kernel::CornerDetector),
        vec![
            Binding::Texture(Surface::Grayscale),
            Binding::Storage { buffer: BufferId::LatestCorners, read_only: false },
            Binding::Storage { buffer: BufferId::LatestCornersCounter, read_only: false },
        ]
    );
    assert_eq!(kernel_bindings(Kernel::FeatureMatching).len(), 6);
}

#[test]
fn init_accepts_one_pixel_side() {
    let p = OrbProgram::init(config(1, 64, 1, 1)).ok().unwrap();
    let s = p.resources();
    let h = s.get(ResourceName::Texture(Surface::Grayscale)).unwrap();
    assert_eq!(s.decl(h).shape, Shape::Texture { width: 1, height: 64, format: TextureFormat::R16Float });
    assert_eq!(p.config().detector_workgroups(), (1, 8));
}
