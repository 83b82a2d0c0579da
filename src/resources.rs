//! The names of the pipeline's GPU resources and a registry of their
//! declarations, unique per name and kind.

use vstd::prelude::*;

verus! {

/// The 2-D surfaces of the pipeline.
#[derive(Clone, Copy, Debug, PartialEq, Eq, Structural)]
pub enum Surface {
    InputImage,
    Grayscale,
    BlurX,
    Blur,
}

/// The GPU buffers of the pipeline. `Latest*` are rewritten every cycle,
/// `Previous*` form the keyframe snapshot.
#[derive(Clone, Copy, Debug, PartialEq, Eq, Structural)]
pub enum BufferId {
    LatestCorners,
    LatestCornersCounter,
    LatestDescriptors,
    PreviousCorners,
    PreviousCornersCounter,
    PreviousDescriptors,
    Matches,
    MatchesCounter,
}

/// The stage kernels.
#[derive(Clone, Copy, Debug, PartialEq, Eq, Structural)]
pub enum Kernel {
    ColorToGrayscale,
    GaussianBlurX,
    GaussianBlurY,
    CornerDetector,
    FeatureDescriptors,
    FeatureMatching,
}

#[derive(Clone, Copy, Debug, PartialEq, Eq, Structural)]
pub enum TextureFormat {
    Rgba8Unorm,
    R16Float,
}

/// Usage flags of a texture or buffer.
#[derive(Clone, Copy, Debug, PartialEq, Eq, Structural)]
pub struct Usage {
    pub storage: bool,
    pub copy_src: bool,
    pub copy_dst: bool,
    pub texture_binding: bool,
    pub render_attachment: bool,
}

/// A resource's name; the variant is its kind, so that a name is unique per kind.
#[derive(Clone, Copy, Debug, PartialEq, Eq, Structural)]
pub enum ResourceName {
    Texture(Surface),
    Buffer(BufferId),
    /// The host-readable mirror of a buffer.
    Staging(BufferId),
    Sampler,
    Module(Kernel),
    BindGroup(Kernel),
    Pipeline(Kernel),
}

#[derive(Clone, Copy, Debug, PartialEq, Eq, Structural)]
pub enum Shape {
    Texture { width: u32, height: u32, format: TextureFormat },
    Buffer { size: u64 },
    Other,
}

#[derive(Clone, Copy, Debug, PartialEq, Eq, Structural)]
pub struct ResourceDecl {
    pub name: ResourceName,
    pub shape: Shape,
    pub usage: Usage,
}

#[derive(Clone, Copy, Debug, PartialEq, Eq, Structural)]
pub enum StoreError {
    NotFound,
    Duplicate,
}

pub open spec fn has_name(s: Seq<ResourceDecl>, n: ResourceName) -> bool {
    exists|i: int| 0 <= i < s.len() && (#[trigger] s[i]).name == n
}

pub open spec fn names_unique(s: Seq<ResourceDecl>) -> bool {
    forall|i: int, j: int|
        0 <= i < s.len() && 0 <= j < s.len() && i != j ==> (#[trigger] s[i]).name
            != (#[trigger] s[j]).name
}

/// A registry of resource declarations by name. It owns no access rights:
/// callers keep their own read and write sets apart.
pub struct ResourceStore {
    decls: Vec<ResourceDecl>,
}

impl ResourceStore {
    pub closed spec fn view(&self) -> Seq<ResourceDecl> {
        self.decls@
    }

    pub open spec fn wf(&self) -> bool {
        names_unique(self@)
    }

    pub fn new() -> (r: ResourceStore)
        ensures
            r@ == Seq::<ResourceDecl>::empty(),
            r.wf(),
    {
        ResourceStore { decls: Vec::new() }
    }

    pub fn len(&self) -> (r: usize)
        ensures
            r == self@.len(),
    {
        self.decls.len()
    }

    /// The handle of the resource called `name`.
    pub fn get(&self, name: ResourceName) -> (r: Result<usize, StoreError>)
        ensures
            match r {
                Ok(h) => h < self@.len() && self@[h as int].name == name,
                Err(e) => e == StoreError::NotFound && !has_name(self@, name),
            },
    {
        let mut i: usize = 0;
        while i < self.decls.len()
            invariant
                0 <= i <= self.decls@.len(),
                forall|k: int| 0 <= k < i ==> (#[trigger] self.decls@[k]).name != name,
            decreases self.decls@.len() - i,
        {
            if self.decls[i].name == name {
                return Ok(i);
            }
            i = i + 1;
        }
        Err(StoreError::NotFound)
    }

    /// The declaration behind a handle.
    pub fn decl(&self, handle: usize) -> (r: ResourceDecl)
        requires
            handle < self@.len(),
        ensures
            r == self@[handle as int],
    {
        self.decls[handle]
    }

    /// Declares a resource; a second one of the same name and kind is refused.
    pub fn create(&mut self, decl: ResourceDecl) -> (r: Result<usize, StoreError>)
        requires
            old(self).wf(),
        ensures
            final(self).wf(),
            match r {
                Ok(h) => {
                    &&& !has_name(old(self)@, decl.name)
                    &&& final(self)@ == old(self)@.push(decl)
                    &&& h == old(self)@.len()
                },
                Err(e) => {
                    &&& e == StoreError::Duplicate
                    &&& has_name(old(self)@, decl.name)
                    &&& final(self)@ == old(self)@
                },
            },
    {
        match self.get(decl.name) {
            Ok(_) => Err(StoreError::Duplicate),
            Err(_) => {
                let h = self.decls.len();
                self.decls.push(decl);
                proof {
                    assert forall|i: int, j: int|
                        0 <= i < self@.len() && 0 <= j < self@.len() && i != j implies (
                        #[trigger] self@[i]).name != (#[trigger] self@[j]).name by {
                        if i == h as int {
                            assert(old(self)@[j] == self@[j]);
                        } else if j == h as int {
                            assert(old(self)@[i] == self@[i]);
                        }
                    }
                }
                Ok(h)
            },
        }
    }
}

pub open spec fn kernel_index(k: Kernel) -> int {
    match k {
        Kernel::ColorToGrayscale => 0,
        Kernel::GaussianBlurX => 1,
        Kernel::GaussianBlurY => 2,
        Kernel::CornerDetector => 3,
        Kernel::FeatureDescriptors => 4,
        Kernel::FeatureMatching => 5,
    }
}

pub open spec fn buffer_index(b: BufferId) -> int {
    match b {
        BufferId::LatestCorners => 0,
        BufferId::LatestCornersCounter => 1,
        BufferId::LatestDescriptors => 2,
        BufferId::PreviousCorners => 3,
        BufferId::PreviousCornersCounter => 4,
        BufferId::PreviousDescriptors => 5,
        BufferId::Matches => 6,
        BufferId::MatchesCounter => 7,
    }
}

/// The index of a buffer among the eight.
pub fn buffer_index_of(b: BufferId) -> (r: usize)
    ensures
        r == buffer_index(b),
        r < 8,
{
    match b {
        BufferId::LatestCorners => 0,
        BufferId::LatestCornersCounter => 1,
        BufferId::LatestDescriptors => 2,
        BufferId::PreviousCorners => 3,
        BufferId::PreviousCornersCounter => 4,
        BufferId::PreviousDescriptors => 5,
        BufferId::Matches => 6,
        BufferId::MatchesCounter => 7,
    }
}

} // verus!
