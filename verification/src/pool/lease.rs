//! Leases: the right to use one pooled object until it is released.

use super::key::{BlendMode, ComputeMode, GraphicsMode};
use vstd::prelude::*;

verus! {

/// The constructors of compute pipelines.
#[derive(Clone, Copy, Debug, PartialEq, Eq, Structural)]
pub enum ComputeCtor {
    CalcVertexAttrs,
    DecodeRgbRgba,
}

/// The constructors of graphics pipelines.
#[derive(Clone, Copy, Debug, PartialEq, Eq, Structural)]
pub enum GraphicsCtor {
    /// Blends two layers in the given mode.
    Blend(BlendMode),
    DrawLine,
    DrawMesh,
    DrawPointLight,
    DrawRectLight,
    DrawSpotlight,
    DrawSunlight,
    Font,
    FontOutline,
    Gradient,
    GradientTransparency,
    Texture,
}

impl ComputeMode {
    /// The constructor that builds a pipeline of this mode.
    pub open spec fn ctor_of(self) -> ComputeCtor {
        match self {
            ComputeMode::CalculateVertexAttributes => ComputeCtor::CalcVertexAttrs,
            ComputeMode::DecodeRgbRgba => ComputeCtor::DecodeRgbRgba,
        }
    }

    /// Picks the constructor that builds a pipeline of this mode.
    pub fn ctor(self) -> (ctor: ComputeCtor)
        ensures
            ctor == self.ctor_of(),
    {
        match self {
            ComputeMode::CalculateVertexAttributes => ComputeCtor::CalcVertexAttrs,
            ComputeMode::DecodeRgbRgba => ComputeCtor::DecodeRgbRgba,
        }
    }
}

impl GraphicsMode {
    /// The constructor that builds a pipeline of this mode. Every mode has
    /// one; a blend mode has the blend constructor of that mode.
    pub open spec fn ctor_of(self) -> GraphicsCtor {
        match self {
            GraphicsMode::Blend(mode) => GraphicsCtor::Blend(mode),
            GraphicsMode::DrawLine => GraphicsCtor::DrawLine,
            GraphicsMode::DrawMesh => GraphicsCtor::DrawMesh,
            GraphicsMode::DrawPointLight => GraphicsCtor::DrawPointLight,
            GraphicsMode::DrawRectLight => GraphicsCtor::DrawRectLight,
            GraphicsMode::DrawSpotlight => GraphicsCtor::DrawSpotlight,
            GraphicsMode::DrawSunlight => GraphicsCtor::DrawSunlight,
            GraphicsMode::Font => GraphicsCtor::Font,
            GraphicsMode::FontOutline => GraphicsCtor::FontOutline,
            GraphicsMode::Gradient => GraphicsCtor::Gradient,
            GraphicsMode::GradientTransparency => GraphicsCtor::GradientTransparency,
            GraphicsMode::Texture => GraphicsCtor::Texture,
        }
    }

    /// Picks the constructor that builds a pipeline of this mode.
    pub fn ctor(self) -> (ctor: GraphicsCtor)
        ensures
            ctor == self.ctor_of(),
    {
        match self {
            GraphicsMode::Blend(mode) => GraphicsCtor::Blend(mode),
            GraphicsMode::DrawLine => GraphicsCtor::DrawLine,
            GraphicsMode::DrawMesh => GraphicsCtor::DrawMesh,
            GraphicsMode::DrawPointLight => GraphicsCtor::DrawPointLight,
            GraphicsMode::DrawRectLight => GraphicsCtor::DrawRectLight,
            GraphicsMode::DrawSpotlight => GraphicsCtor::DrawSpotlight,
            GraphicsMode::DrawSunlight => GraphicsCtor::DrawSunlight,
            GraphicsMode::Font => GraphicsCtor::Font,
            GraphicsMode::FontOutline => GraphicsCtor::FontOutline,
            GraphicsMode::Gradient => GraphicsCtor::Gradient,
            GraphicsMode::GradientTransparency => GraphicsCtor::GradientTransparency,
            GraphicsMode::Texture => GraphicsCtor::Texture,
        }
    }
}

/// What the holder of a new lease has to do with the driver before the
/// leased object can be used.
#[derive(Clone, Copy, Debug, PartialEq, Eq, Structural)]
pub enum Build {
    /// The object comes from the queue and is used as it is.
    Reuse,
    /// The object comes from the queue and is reset before use.
    Reset,
    /// The object is new: it is constructed from the requested parameters.
    Create,
    /// The object is new: it is constructed and then reset.
    CreateAndReset,
    /// The object is new, and so is a second one like it, which waits in the
    /// queue under the number `spare`: both are constructed.
    CreateWithSpare { spare: usize },
    /// The object is a new compute pipeline, made by `compute`.
    CreateCompute { compute: ComputeCtor },
    /// The object is a new graphics pipeline, made by `graphics` for a subpass of
    /// the render pass that the registry holds at `pass`. Where `pass_is_new`
    /// is set the render pass is constructed first.
    CreateGraphics { graphics: GraphicsCtor, pass: usize, pass_is_new: bool },
}

impl Build {
    /// Whether the object is constructed.
    pub open spec fn constructs(self) -> bool {
        !(self is Reuse || self is Reset)
    }

    /// Whether the object is reset before use.
    pub open spec fn resets(self) -> bool {
        self is Reset || self is CreateAndReset
    }
}

/// A lease as a mathematical value.
pub struct LeaseView {
    /// The leased object's number in the pool.
    pub id: usize,
    /// The idle queue to which the object returns.
    pub slot: usize,
    /// What the object can hold.
    pub capacity: u64,
    /// What has to be done before the object is used.
    pub build: Build,
}

/// The exclusive right to use one pooled object. It names the object and
/// the idle queue to which the object returns on release.
#[derive(Debug)]
pub struct Lease {
    id: usize,
    slot: usize,
    capacity: u64,
    build: Build,
}

impl View for Lease {
    type V = LeaseView;

    closed spec fn view(&self) -> LeaseView {
        LeaseView { id: self.id, slot: self.slot, capacity: self.capacity, build: self.build }
    }
}

impl Lease {
    /// A lease of the object `item`, which returns to `queue` when the lease
    /// ends. Only the pool issues leases, and one at a time for an object.
    pub(crate) fn new(item: usize, queue: usize, capacity: u64, build: Build) -> (lease: Lease)
        ensures
            lease@ == (LeaseView { id: item, slot: queue, capacity, build }),
    {
        Lease { id: item, slot: queue, capacity, build }
    }

    /// The leased object's number in the pool.
    pub fn id(&self) -> (id: usize)
        ensures
            id == self@.id,
    {
        self.id
    }

    /// The idle queue to which the object returns.
    pub fn queue(&self) -> (slot: usize)
        ensures
            slot == self@.slot,
    {
        self.slot
    }

    /// What the leased object can hold.
    pub fn capacity(&self) -> (capacity: u64)
        ensures
            capacity == self@.capacity,
    {
        self.capacity
    }

    /// What has to be done before the object is used.
    pub fn build(&self) -> (build: Build)
        ensures
            build == self@.build,
    {
        self.build
    }

    /// Whether the leased object is new and has to be constructed.
    pub fn is_fresh(&self) -> (fresh: bool)
        ensures
            fresh == self@.build.constructs(),
    {
        match self.build {
            Build::Reuse => false,
            Build::Reset => false,
            _ => true,
        }
    }

    /// Whether the leased object has to be reset before use.
    pub fn needs_reset(&self) -> (reset: bool)
        ensures
            reset == self@.build.resets(),
    {
        match self.build {
            Build::Reset => true,
            Build::CreateAndReset => true,
            _ => false,
        }
    }
}

} // verus!
