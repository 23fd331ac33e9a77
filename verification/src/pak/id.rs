//! Numbers by which the items of an archive are found.

use vstd::prelude::*;

verus! {

/// Number of an animation within its archive.
#[derive(Clone, Copy, Debug, Eq, Hash, PartialEq, Structural)]
pub struct AnimationId(pub u16);

/// Number of a bitmap font within its archive.
#[derive(Clone, Copy, Debug, Eq, Hash, PartialEq, Structural)]
pub struct BitmapFontId(pub u16);

/// Number of a bitmap within its archive.
#[derive(Clone, Copy, Debug, Eq, Hash, PartialEq, Structural)]
pub struct BitmapId(pub u16);

/// Number of a blob within its archive.
#[derive(Clone, Copy, Debug, Eq, Hash, PartialEq, Structural)]
pub struct BlobId(pub u16);

/// Number of a material within its archive.
#[derive(Clone, Copy, Debug, Eq, Hash, PartialEq, Structural)]
pub struct MaterialId(pub u16);

/// Number of a model within its archive.
#[derive(Clone, Copy, Debug, Eq, Hash, PartialEq, Structural)]
pub struct ModelId(pub u16);

/// Number of a scene within its archive.
#[derive(Clone, Copy, Debug, Eq, Hash, PartialEq, Structural)]
pub struct SceneId(pub u16);

/// Number of a text within its archive.
#[derive(Clone, Copy, Debug, Eq, Hash, PartialEq, Structural)]
pub struct TextId(pub u16);

/// What a key of an archive stands for.
#[derive(Clone, Copy, Debug, Eq, Hash, PartialEq, Structural)]
pub enum Id {
    Animation(AnimationId),
    Bitmap(BitmapId),
    BitmapFont(BitmapFontId),
    Blob(BlobId),
    Material(MaterialId),
    Model(ModelId),
    Scene(SceneId),
    Text(TextId),
}

} // verus!
