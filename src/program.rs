//! The host's side of the GPU pipeline: it declares the resources, plans
//! each cycle's passes, tracks the staging mirrors and decodes what is
//! read back.

use vstd::prelude::*;
use crate::config::{config_result, valid_config, ConfigError, OrbConfig, OrbParams, COUNTER_BYTES};
use crate::layout::{declare_all, pipeline_decls};
use crate::plan::{cycle_plan, ordered, push_pass, Pass};
use crate::readback::{
    clamp_count, corner_at, decode_corners, decode_count, decode_descriptors, decode_matches,
    descriptor_at, le_word, mirror_next, mirror_step, Corner, MirrorEvent, MirrorState, ReadbackError,
};
use crate::descriptor::Descriptor;
use crate::matching::{record_latest, record_previous};
use crate::resources::{buffer_index, buffer_index_of, BufferId, Kernel, ResourceDecl, ResourceStore, Surface};

verus! {

/// The mirror states of a cycle's staged buffers must all allow a new copy;
/// the first that does not, in staging order, gives the error.
pub open spec fn cycle_blocked(m: Seq<MirrorState>, params: OrbParams) -> Result<(), ReadbackError> {
    let check = |b: BufferId| mirror_next(m[buffer_index(b)], MirrorEvent::CopyRecorded);
    if check(BufferId::LatestCornersCounter) is Err {
        Err(check(BufferId::LatestCornersCounter)->Err_0)
    } else if check(BufferId::LatestCorners) is Err {
        Err(check(BufferId::LatestCorners)->Err_0)
    } else if check(BufferId::LatestDescriptors) is Err {
        Err(check(BufferId::LatestDescriptors)->Err_0)
    } else if params.compute_matches && check(BufferId::MatchesCounter) is Err {
        Err(check(BufferId::MatchesCounter)->Err_0)
    } else if params.compute_matches && check(BufferId::Matches) is Err {
        Err(check(BufferId::Matches)->Err_0)
    } else {
        Ok(())
    }
}

/// Whether a cycle run with `params` copies buffer `b` into its mirror.
pub open spec fn staged(params: OrbParams, b: BufferId) -> bool {
    match b {
        BufferId::LatestCornersCounter | BufferId::LatestCorners | BufferId::LatestDescriptors => true,
        BufferId::MatchesCounter | BufferId::Matches => params.compute_matches,
        _ => false,
    }
}

/// How a frame is laid out for the copy into the input texture.
#[derive(Clone, Copy, Debug, PartialEq, Eq, Structural)]
pub struct FrameLayout {
    pub width: u32,
    pub height: u32,
    pub bytes_per_row: u32,
}

#[derive(Clone, Copy, Debug, PartialEq, Eq, Structural)]
pub enum FrameError {
    /// The frame does not hold four bytes for each pixel of the configured size.
    WrongLength,
}

/// The host's side of the pipeline: its configuration, the resources that
/// the GPU side creates from it, and the state of each staging mirror.
pub struct OrbProgram {
    config: OrbConfig,
    resources: ResourceStore,
    mirrors: Vec<MirrorState>,
}

impl OrbProgram {
    pub closed spec fn spec_config(&self) -> OrbConfig {
        self.config
    }

    pub closed spec fn spec_resources(&self) -> Seq<ResourceDecl> {
        self.resources@
    }

    /// The states of the mirrors, by buffer index.
    pub closed spec fn mirrors(&self) -> Seq<MirrorState> {
        self.mirrors@
    }

    pub open spec fn mirror(&self, b: BufferId) -> MirrorState {
        self.mirrors()[buffer_index(b)]
    }

    pub closed spec fn wf(&self) -> bool {
        &&& valid_config(self.config)
        &&& self.resources.wf()
        &&& self.mirrors@.len() == 8
    }

    pub fn config(&self) -> (r: &OrbConfig)
        ensures
            *r == self.spec_config(),
            self.wf() ==> valid_config(*r),
    {
        &self.config
    }

    pub fn resources(&self) -> (r: &ResourceStore)
        ensures
            r@ == self.spec_resources(),
            self.wf() ==> r.wf(),
    {
        &self.resources
    }

    pub fn mirror_state(&self, b: BufferId) -> (r: MirrorState)
        requires
            self.wf(),
        ensures
            r == self.mirror(b),
    {
        self.mirrors[buffer_index_of(b)]
    }

    /// Checks `config` and declares every module, surface, buffer, staging
    /// mirror, bind group and pipeline of the pipeline; all mirrors start idle.
    pub fn init(config: OrbConfig) -> (r: Result<OrbProgram, ConfigError>)
        ensures
            match r {
                Ok(p) => {
                    &&& valid_config(config)
                    &&& p.wf()
                    &&& p.spec_config() == config
                    &&& p.spec_resources() == pipeline_decls(config)
                    &&& forall|b: BufferId| #[trigger] p.mirror(b) == MirrorState::Idle
                },
                Err(e) => config_result(config) == Err::<(), ConfigError>(e),
            },
    {
        if let Err(e) = config.check() {
            return Err(e);
        }
        let resources = declare_all(&config);
        let mirrors = vec![MirrorState::Idle; 8];
        Ok(OrbProgram { config, resources, mirrors })
    }

    fn copy_check(&self, b: BufferId) -> (r: Result<(), ReadbackError>)
        requires
            self.wf(),
        ensures
            r is Ok <==> mirror_next(self.mirror(b), MirrorEvent::CopyRecorded) is Ok,
            r is Err ==> r->Err_0 == mirror_next(self.mirror(b), MirrorEvent::CopyRecorded)->Err_0,
    {
        match mirror_step(self.mirrors[buffer_index_of(b)], MirrorEvent::CopyRecorded) {
            Ok(_) => Ok(()),
            Err(e) => Err(e),
        }
    }

    /// Plans one processing cycle: counter reset, grayscale, two blur
    /// passes, corner detection, descriptors over the whole corner capacity,
    /// matching if asked, the keyframe commit if asked, then the copies into
    /// the staging mirrors. Every pass comes after the passes that write what
    /// it reads, and matching reads the keyframe before any commit in the
    /// same cycle overwrites it. A cycle whose mirrors are still mapped is
    /// refused, and nothing changes.
    pub fn run(&mut self, params: OrbParams) -> (r: Result<Vec<Pass>, ReadbackError>)
        requires
            old(self).wf(),
        ensures
            final(self).wf(),
            final(self).spec_config() == old(self).spec_config(),
            final(self).spec_resources() == old(self).spec_resources(),
            match r {
                Ok(plan) => {
                    &&& cycle_blocked(old(self).mirrors(), params) is Ok
                    &&& plan@ == cycle_plan(old(self).spec_config(), params)
                    &&& forall|b: BufferId| staged(params, b) ==> #[trigger] old(self).mirror(b) == MirrorState::Idle
                        || old(self).mirror(b) == MirrorState::Copied
                    &&& ordered(plan@)
                    &&& forall|b: BufferId| #[trigger] final(self).mirror(b) == if staged(params, b) {
                        MirrorState::Copied
                    } else {
                        old(self).mirror(b)
                    }
                },
                Err(e) => {
                    &&& cycle_blocked(old(self).mirrors(), params) == Err::<(), ReadbackError>(e)
                    &&& final(self).mirrors() == old(self).mirrors()
                },
            },
    {
        if let Err(e) = self.copy_check(BufferId::LatestCornersCounter) {
            return Err(e);
        }
        if let Err(e) = self.copy_check(BufferId::LatestCorners) {
            return Err(e);
        }
        if let Err(e) = self.copy_check(BufferId::LatestDescriptors) {
            return Err(e);
        }
        if params.compute_matches {
            if let Err(e) = self.copy_check(BufferId::MatchesCounter) {
                return Err(e);
            }
            if let Err(e) = self.copy_check(BufferId::Matches) {
                return Err(e);
            }
        }
        let c = &self.config;
        let (dx, dy) = c.detector_workgroups();
        let fx = c.feature_workgroups();
        let corners = c.corner_buffer_bytes();
        let descriptors = c.descriptor_buffer_bytes();
        let matches = c.match_buffer_bytes();
        let mut plan: Vec<Pass> = Vec::new();
        push_pass(&mut plan, Pass::ClearBuffer(BufferId::LatestCornersCounter));
        push_pass(&mut plan, Pass::ClearBuffer(BufferId::MatchesCounter));
        push_pass(&mut plan, Pass::Draw { kernel: Kernel::ColorToGrayscale, target: Surface::Grayscale });
        push_pass(&mut plan, Pass::Draw { kernel: Kernel::GaussianBlurX, target: Surface::BlurX });
        push_pass(&mut plan, Pass::Draw { kernel: Kernel::GaussianBlurY, target: Surface::Blur });
        push_pass(&mut plan, Pass::Dispatch { kernel: Kernel::CornerDetector, x: dx, y: dy, z: 1 });
        push_pass(&mut plan, Pass::Dispatch { kernel: Kernel::FeatureDescriptors, x: fx, y: 1, z: 1 });
        if params.compute_matches {
            push_pass(&mut plan, Pass::Dispatch { kernel: Kernel::FeatureMatching, x: c.max_features, y: fx, z: 1 });
        }
        if params.record_keyframe {
            push_pass(&mut plan, Pass::CopyBuffer { src: BufferId::LatestCorners, dst: BufferId::PreviousCorners, size: corners });
            push_pass(&mut plan, Pass::CopyBuffer { src: BufferId::LatestCornersCounter, dst: BufferId::PreviousCornersCounter, size: COUNTER_BYTES });
            push_pass(&mut plan, Pass::CopyBuffer { src: BufferId::LatestDescriptors, dst: BufferId::PreviousDescriptors, size: descriptors });
        }
        push_pass(&mut plan, Pass::CopyToStaging { buffer: BufferId::LatestCornersCounter, size: COUNTER_BYTES });
        push_pass(&mut plan, Pass::CopyToStaging { buffer: BufferId::LatestCorners, size: corners });
        push_pass(&mut plan, Pass::CopyToStaging { buffer: BufferId::LatestDescriptors, size: descriptors });
        if params.compute_matches {
            push_pass(&mut plan, Pass::CopyToStaging { buffer: BufferId::MatchesCounter, size: COUNTER_BYTES });
            push_pass(&mut plan, Pass::CopyToStaging { buffer: BufferId::Matches, size: matches });
        }
        proof {
            assert(plan@ =~= cycle_plan(self.config, params));
        }
        self.mirrors.set(1, MirrorState::Copied);
        self.mirrors.set(0, MirrorState::Copied);
        self.mirrors.set(2, MirrorState::Copied);
        if params.compute_matches {
            self.mirrors.set(7, MirrorState::Copied);
            self.mirrors.set(6, MirrorState::Copied);
        }
        Ok(plan)
    }

    /// Applies an event of the read-back protocol to the mirror of `b`; an
    /// event that the mirror's state does not allow changes nothing.
    pub fn mirror_event(&mut self, b: BufferId, e: MirrorEvent) -> (r: Result<(), ReadbackError>)
        requires
            old(self).wf(),
        ensures
            final(self).wf(),
            final(self).spec_config() == old(self).spec_config(),
            final(self).spec_resources() == old(self).spec_resources(),
            match mirror_next(old(self).mirror(b), e) {
                Ok(n) => r is Ok && final(self).mirrors() == old(self).mirrors().update(buffer_index(b), n),
                Err(x) => r == Err::<(), ReadbackError>(x) && final(self).mirrors() == old(self).mirrors(),
            },
    {
        let k = buffer_index_of(b);
        match mirror_step(self.mirrors[k], e) {
            Ok(n) => {
                self.mirrors.set(k, n);
                Ok(())
            },
            Err(x) => Err(x),
        }
    }

    /// Checks a frame against the configured size and gives the layout of
    /// its copy into the input texture: rows of four bytes per pixel.
    pub fn write_input_image(&self, bytes: &Vec<u8>) -> (r: Result<FrameLayout, FrameError>)
        requires
            self.wf(),
        ensures
            bytes@.len() == 4 * (self.spec_config().width * self.spec_config().height) <==> r is Ok,
            r is Err ==> r->Err_0 == FrameError::WrongLength,
            r matches Ok(l) ==> l == (FrameLayout {
                width: self.spec_config().width,
                height: self.spec_config().height,
                bytes_per_row: (4 * self.spec_config().width) as u32,
            }),
    {
        if bytes.len() as u64 != self.config.frame_bytes() {
            return Err(FrameError::WrongLength);
        }
        Ok(FrameLayout { width: self.config.width, height: self.config.height, bytes_per_row: 4 * self.config.width })
    }

    /// The corners of the last cycle, from the read-back counter and corner
    /// list. The counter is clamped to the corner capacity, so no slot past
    /// the capacity is read and at most `max_features` corners come back.
    pub fn read_corners(&self, counter_bytes: &Vec<u8>, corner_bytes: &Vec<u8>) -> (r: Result<Vec<Corner>, ReadbackError>)
        requires
            self.wf(),
        ensures
            counter_bytes@.len() < 4 ==> r == Err::<Vec<Corner>, ReadbackError>(ReadbackError::ShortBuffer),
            counter_bytes@.len() >= 4 ==> {
                let n = clamp_count(le_word(counter_bytes@, 0), self.spec_config().max_features);
                &&& corner_bytes@.len() < 8 * n ==> r is Err && r->Err_0 == ReadbackError::ShortBuffer
                &&& corner_bytes@.len() >= 8 * n ==> r is Ok && r->Ok_0@ == Seq::new(n as nat, |k: int| corner_at(corner_bytes@, k))
            },
            r matches Ok(v) ==> v@.len() <= self.spec_config().max_features,
    {
        let n = decode_count(counter_bytes, self.config.max_features)?;
        decode_corners(corner_bytes, n)
    }

    /// The descriptors of the first `count` corners of the last cycle, the
    /// count clamped to the corner capacity; the slots past the corner count
    /// hold no valid descriptor and are not read.
    pub fn read_descriptors(&self, count: u32, bytes: &Vec<u8>) -> (r: Result<Vec<Descriptor>, ReadbackError>)
        requires
            self.wf(),
        ensures
            ({
                let n = clamp_count(count, self.spec_config().max_features);
                &&& bytes@.len() < 32 * n ==> r is Err && r->Err_0 == ReadbackError::ShortBuffer
                &&& bytes@.len() >= 32 * n ==> r is Ok && r->Ok_0@.len() == n && forall|k: int|
                    0 <= k < n ==> (#[trigger] r->Ok_0@[k])@ == descriptor_at(bytes@, k)
            }),
    {
        let n = if count <= self.config.max_features { count } else { self.config.max_features };
        decode_descriptors(bytes, n)
    }

    /// The matches of the last cycle as (latest, previous) index pairs, from
    /// the read-back counter and match list, clamped to the match capacity.
    pub fn read_matches(&self, counter_bytes: &Vec<u8>, match_bytes: &Vec<u8>) -> (r: Result<Vec<(u32, u32)>, ReadbackError>)
        requires
            self.wf(),
        ensures
            counter_bytes@.len() < 4 ==> r == Err::<Vec<(u32, u32)>, ReadbackError>(ReadbackError::ShortBuffer),
            counter_bytes@.len() >= 4 ==> {
                let n = clamp_count(le_word(counter_bytes@, 0), self.spec_config().max_matches);
                &&& match_bytes@.len() < 4 * n ==> r is Err && r->Err_0 == ReadbackError::ShortBuffer
                &&& match_bytes@.len() >= 4 * n ==> r is Ok && r->Ok_0@ == Seq::new(
                    n as nat,
                    |k: int| (record_latest(le_word(match_bytes@, 4 * k)) as u32, record_previous(le_word(match_bytes@, 4 * k)) as u32),
                )
            },
            r matches Ok(v) ==> v@.len() <= self.spec_config().max_matches,
    {
        let n = decode_count(counter_bytes, self.config.max_matches)?;
        decode_matches(match_bytes, n)
    }
}

} // verus!
