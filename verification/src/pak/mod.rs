//! Archives of packed assets.
//!
//! An archive is a run of bytes with an index. The index says what each key
//! stands for and where each item lies; the items themselves are stored
//! packed. Reading an item means cutting its bytes out of the archive and
//! unpacking them; turning the unpacked bytes of an animation, a bitmap, a
//! font, a model or a scene into a value is left to the caller.

pub mod codec;
pub mod id;
pub mod pak_buf;

use self::codec::{
    bincode_bytes, bincode_reader, brotli_reader, brotli_writer, max_buf_size, snap_read,
    snap_reader, snap_writer, snap_written,
};
use self::id::{
    AnimationId, BitmapFontId, BitmapId, BlobId, Id, MaterialId, ModelId, SceneId, TextId,
};
use self::pak_buf::{span_at, PakBuf, PakBufView, Span};
use vstd::pervasive::unreached;
use vstd::prelude::*;
use vstd::slice::{slice_subrange, slice_to_vec};

verus! {

/// Why an item could not be read.
#[derive(Clone, Copy, Debug, PartialEq, Eq, Structural)]
pub enum PakError {
    /// The index holds no item with that number.
    UnknownId,
    /// The item's bytes lie outside the archive's data.
    OutOfBounds,
    /// The buffer asked for is larger than a buffer can be.
    BufferSize,
    /// The bytes could not be unpacked.
    Compression,
    /// The unpacked bytes do not encode what was asked for.
    Encoding,
}

/// The parameters of brotli streams.
#[derive(Clone, Copy, Debug, PartialEq, Eq, Structural)]
pub struct BrotliCompression {
    pub buf_size: usize,
    pub quality: u32,
    pub window_size: u32,
}

impl Default for BrotliCompression {
    fn default() -> (params: BrotliCompression)
        ensures
            params == (BrotliCompression { buf_size: 4096, quality: 10, window_size: 20 }),
    {
        BrotliCompression { buf_size: 4096, quality: 10, window_size: 20 }
    }
}

/// How the items of an archive are packed.
#[derive(Clone, Copy, Debug, PartialEq, Eq, Structural)]
pub enum Compression {
    Brotli(BrotliCompression),
    Snap,
}

impl Default for Compression {
    fn default() -> (compression: Compression)
        ensures
            compression == Compression::Brotli(
                BrotliCompression { buf_size: 4096, quality: 10, window_size: 20 },
            ),
    {
        Compression::Brotli(BrotliCompression::default())
    }
}

impl PakError {
    /// What the outcome of a compression stream means: its bytes, or
    /// `Compression` where the stream failed.
    pub fn unpacked(outcome: Option<Vec<u8>>) -> (bytes: Result<Vec<u8>, PakError>)
        ensures
            bytes == match outcome {
                Some(read) => Ok::<Vec<u8>, PakError>(read),
                None => Err(PakError::Compression),
            },
    {
        match outcome {
            Some(read) => Ok(read),
            None => Err(PakError::Compression),
        }
    }

    /// What the outcome of decoding means: the decoded bytes, or `Encoding`
    /// where nothing could be decoded.
    pub fn decoded(outcome: Option<Vec<u8>>) -> (bytes: Result<Vec<u8>, PakError>)
        ensures
            bytes == match outcome {
                Some(decoded) => Ok::<Vec<u8>, PakError>(decoded),
                None => Err(PakError::Encoding),
            },
    {
        match outcome {
            Some(decoded) => Ok(decoded),
            None => Err(PakError::Encoding),
        }
    }
}

/// The outcome of a byte transform as a mathematical value.
pub open spec fn bytes_view(outcome: Result<Vec<u8>, PakError>) -> Result<Seq<u8>, PakError> {
    match outcome {
        Ok(bytes) => Ok(bytes@),
        Err(e) => Err(e),
    }
}

impl Compression {
    /// Whether `outcome` can come of reading `bytes` through the reader of
    /// `compression`. Without compression the bytes come out as they are, and
    /// a Snappy stream yields one thing for given bytes. A brotli stream is
    /// refused with `BufferSize` exactly where its buffer would be too
    /// large; otherwise it yields some bytes or fails with `Compression`.
    pub open spec fn reads(
        compression: Option<Compression>,
        bytes: Seq<u8>,
        outcome: Result<Seq<u8>, PakError>,
    ) -> bool {
        match compression {
            None => outcome == Ok::<Seq<u8>, PakError>(bytes),
            Some(Compression::Snap) => outcome == match snap_read(bytes) {
                Some(read) => Ok::<Seq<u8>, PakError>(read),
                None => Err(PakError::Compression),
            },
            Some(Compression::Brotli(b)) => if b.buf_size > max_buf_size() {
                outcome == Err::<Seq<u8>, PakError>(PakError::BufferSize)
            } else {
                outcome is Err ==> outcome == Err::<Seq<u8>, PakError>(PakError::Compression)
            },
        }
    }

    /// Whether `outcome` can come of writing `bytes` through the writer of
    /// `compression`; as for reading.
    pub open spec fn writes(
        compression: Option<Compression>,
        bytes: Seq<u8>,
        outcome: Result<Seq<u8>, PakError>,
    ) -> bool {
        match compression {
            None => outcome == Ok::<Seq<u8>, PakError>(bytes),
            Some(Compression::Snap) => outcome == match snap_written(bytes) {
                Some(written) => Ok::<Seq<u8>, PakError>(written),
                None => Err(PakError::Compression),
            },
            Some(Compression::Brotli(b)) => if b.buf_size > max_buf_size() {
                outcome == Err::<Seq<u8>, PakError>(PakError::BufferSize)
            } else {
                outcome is Err ==> outcome == Err::<Seq<u8>, PakError>(PakError::Compression)
            },
        }
    }

    /// Reads `bytes` through the reader that belongs to `compression`.
    pub fn reader(compression: Option<Compression>, bytes: &[u8]) -> (out: Result<Vec<u8>, PakError>)
        ensures
            Compression::reads(compression, bytes@, bytes_view(out)),
    {
        match compression {
            Some(compression) => match compression {
                Compression::Brotli(b) => {
                    if b.buf_size > usize::MAX / 2 {
                        return Err(PakError::BufferSize);
                    }
                    PakError::unpacked(brotli_reader(bytes, b.buf_size, b.quality, b.window_size))
                },
                Compression::Snap => PakError::unpacked(snap_reader(bytes)),
            },
            _ => Ok(slice_to_vec(bytes)),
        }
    }

    /// Writes `bytes` through the writer that belongs to `compression`.
    pub fn writer(compression: Option<Compression>, bytes: &[u8]) -> (out: Result<Vec<u8>, PakError>)
        ensures
            Compression::writes(compression, bytes@, bytes_view(out)),
    {
        match compression {
            Some(compression) => match compression {
                Compression::Brotli(b) => {
                    if b.buf_size > usize::MAX / 2 {
                        return Err(PakError::BufferSize);
                    }
                    PakError::unpacked(brotli_writer(bytes, b.buf_size, b.quality, b.window_size))
                },
                Compression::Snap => PakError::unpacked(snap_writer(bytes)),
            },
            _ => Ok(slice_to_vec(bytes)),
        }
    }
}

/// The width of the indices of a mesh.
#[derive(Clone, Copy, Debug, Eq, Hash, PartialEq, Structural)]
pub enum IndexType {
    U16,
    U32,
}

/// The bitmaps that make up a material.
#[derive(Clone, Copy, Debug, PartialEq, Eq, Structural)]
pub struct Material {
    pub color: BitmapId,
    pub metal_rough: BitmapId,
    pub normal: BitmapId,
}

/// Copies `len` bytes of `data`, beginning at `pos`.
fn read_exact(data: &Vec<u8>, pos: u64, len: usize) -> (buf: Vec<u8>)
    requires
        pos + len <= data@.len(),
    ensures
        buf@ == data@.subrange(pos as int, pos + len),
{
    let total = data.len();
    assert(pos + len <= total);
    let start = pos as usize;
    slice_to_vec(slice_subrange(data.as_slice(), start, start + len))
}

/// An open archive: its index, how its items are packed, and its data.
pub struct Pak {
    buf: PakBuf,
    compression: Option<Compression>,
    data: Vec<u8>,
}

/// An archive as a mathematical value.
pub struct PakView {
    pub buf: PakBufView,
    pub compression: Option<Compression>,
    pub data: Seq<u8>,
}

impl PakView {
    /// The id of the wanted kind that `key` stands for.
    pub open spec fn animation_id(self, key: Seq<char>) -> Option<AnimationId> {
        match self.buf.id(key) {
            Some(Id::Animation(id)) => Some(id),
            _ => None,
        }
    }

    pub open spec fn bitmap_id(self, key: Seq<char>) -> Option<BitmapId> {
        match self.buf.id(key) {
            Some(Id::Bitmap(id)) => Some(id),
            _ => None,
        }
    }

    pub open spec fn bitmap_font_id(self, key: Seq<char>) -> Option<BitmapFontId> {
        match self.buf.id(key) {
            Some(Id::BitmapFont(id)) => Some(id),
            _ => None,
        }
    }

    pub open spec fn blob_id(self, key: Seq<char>) -> Option<BlobId> {
        match self.buf.id(key) {
            Some(Id::Blob(id)) => Some(id),
            _ => None,
        }
    }

    pub open spec fn material_id(self, key: Seq<char>) -> Option<MaterialId> {
        match self.buf.id(key) {
            Some(Id::Material(id)) => Some(id),
            _ => None,
        }
    }

    pub open spec fn model_id(self, key: Seq<char>) -> Option<ModelId> {
        match self.buf.id(key) {
            Some(Id::Model(id)) => Some(id),
            _ => None,
        }
    }

    pub open spec fn scene_id(self, key: Seq<char>) -> Option<SceneId> {
        match self.buf.id(key) {
            Some(Id::Scene(id)) => Some(id),
            _ => None,
        }
    }

    pub open spec fn text_id(self, key: Seq<char>) -> Option<TextId> {
        match self.buf.id(key) {
            Some(Id::Text(id)) => Some(id),
            _ => None,
        }
    }

    /// The packed bytes of an item of the index, as they lie in the data:
    /// `UnknownId` where the index has no such item, `OutOfBounds` where the
    /// item does not lie within the data.
    pub open spec fn packed(self, span: Option<Span>) -> Result<Seq<u8>, PakError> {
        match span {
            None => Err(PakError::UnknownId),
            Some(span) => if span.pos + span.len > self.data.len() {
                Err(PakError::OutOfBounds)
            } else {
                Ok(self.data.subrange(span.pos as int, span.pos + span.len))
            },
        }
    }

    /// Whether `outcome` can come of reading an item of the index: the
    /// error of cutting it out of the data, else what can come of reading
    /// its packed bytes through the archive's reader.
    pub open spec fn reads(self, span: Option<Span>, outcome: Result<Seq<u8>, PakError>) -> bool {
        match self.packed(span) {
            Ok(bytes) => Compression::reads(self.compression, bytes, outcome),
            Err(e) => outcome == Err::<Seq<u8>, PakError>(e),
        }
    }

    /// What the unpacked bytes of a blob encode.
    pub open spec fn blob_of(unpacked: Result<Seq<u8>, PakError>) -> Result<Seq<u8>, PakError> {
        match unpacked {
            Ok(bytes) => match bincode_bytes(bytes) {
                Some(blob) => Ok(blob),
                None => Err(PakError::Encoding),
            },
            Err(e) => Err(e),
        }
    }

    /// Whether `outcome` can come of reading a blob: what is encoded in
    /// something that can come of reading the item.
    pub open spec fn reads_blob(self, id: BlobId, outcome: Result<Seq<u8>, PakError>) -> bool {
        exists|unpacked: Result<Seq<u8>, PakError>|
            self.reads(span_at(self.buf.blobs, id.0), unpacked) && outcome == #[trigger] Self::blob_of(
                unpacked,
            )
    }

    /// The packed bytes of the index of an archive, which begins `skip`
    /// bytes into the data and runs to their end.
    pub open spec fn packed_index(data: Seq<u8>, skip: u32) -> Result<Seq<u8>, PakError> {
        if skip > data.len() {
            Err(PakError::OutOfBounds)
        } else {
            Ok(data.subrange(skip as int, data.len() as int))
        }
    }

    /// Whether `outcome` can come of unpacking the index of an archive.
    pub open spec fn reads_index(
        data: Seq<u8>,
        skip: u32,
        compression: Option<Compression>,
        outcome: Result<Seq<u8>, PakError>,
    ) -> bool {
        match Self::packed_index(data, skip) {
            Ok(bytes) => Compression::reads(compression, bytes, outcome),
            Err(e) => outcome == Err::<Seq<u8>, PakError>(e),
        }
    }
}

impl View for Pak {
    type V = PakView;

    closed spec fn view(&self) -> PakView {
        PakView { buf: self.buf@, compression: self.compression, data: self.data@ }
    }
}

impl Pak {
    /// Cuts the packed index out of an archive's data. The index begins
    /// `skip` bytes into the data and runs to their end.
    pub fn packed_index(data: &Vec<u8>, skip: u32) -> (bytes: Result<Vec<u8>, PakError>)
        ensures
            bytes_view(bytes) == PakView::packed_index(data@, skip),
    {
        if skip as usize > data.len() {
            return Err(PakError::OutOfBounds);
        }
        Ok(slice_to_vec(slice_subrange(data.as_slice(), skip as usize, data.len())))
    }

    /// Unpacks the index of an archive.
    pub fn index(data: &Vec<u8>, skip: u32, compression: Option<Compression>) -> (index: Result<
        Vec<u8>,
        PakError,
    >)
        ensures
            PakView::reads_index(data@, skip, compression, bytes_view(index)),
    {
        match Self::packed_index(data, skip) {
            Ok(bytes) => Compression::reader(compression, bytes.as_slice()),
            Err(e) => Err(e),
        }
    }

    /// Opens an archive from its data and its index.
    pub fn open(data: Vec<u8>, compression: Option<Compression>, buf: PakBuf) -> (pak: Pak)
        ensures
            pak@ == (PakView { buf: buf@, compression, data: data@ }),
    {
        Pak { buf, compression, data }
    }

    /// The index of the archive.
    pub fn buf(&self) -> (buf: &PakBuf)
        ensures
            buf@ == self@.buf,
    {
        &self.buf
    }

    pub fn animation_id(&self, key: &str) -> (id: Option<AnimationId>)
        ensures
            id == self@.animation_id(key@),
    {
        if let Some(Id::Animation(id)) = self.buf.id(key) {
            Some(id)
        } else {
            None
        }
    }

    pub fn bitmap_id(&self, key: &str) -> (id: Option<BitmapId>)
        ensures
            id == self@.bitmap_id(key@),
    {
        if let Some(Id::Bitmap(id)) = self.buf.id(key) {
            Some(id)
        } else {
            None
        }
    }

    pub fn bitmap_font_id(&self, key: &str) -> (id: Option<BitmapFontId>)
        ensures
            id == self@.bitmap_font_id(key@),
    {
        if let Some(Id::BitmapFont(id)) = self.buf.id(key) {
            Some(id)
        } else {
            None
        }
    }

    pub fn blob_id(&self, key: &str) -> (id: Option<BlobId>)
        ensures
            id == self@.blob_id(key@),
    {
        if let Some(Id::Blob(id)) = self.buf.id(key) {
            Some(id)
        } else {
            None
        }
    }

    pub fn material_id(&self, key: &str) -> (id: Option<MaterialId>)
        ensures
            id == self@.material_id(key@),
    {
        if let Some(Id::Material(id)) = self.buf.id(key) {
            Some(id)
        } else {
            None
        }
    }

    /// The material that `key` stands for.
    pub fn material(&self, key: &str) -> (material: Material)
        requires
            self@.material_id(key@) is Some,
            self@.material_id(key@).unwrap().0 < self@.buf.materials.len(),
        ensures
            material == self@.buf.materials[self@.material_id(key@).unwrap().0 as int],
    {
        match self.material_id(key) {
            Some(id) => self.material_with_id(id),
            None => unreached(),
        }
    }

    /// The material with the given number.
    pub fn material_with_id(&self, id: MaterialId) -> (material: Material)
        requires
            id.0 < self@.buf.materials.len(),
        ensures
            material == self@.buf.materials[id.0 as int],
    {
        self.buf.material(id)
    }

    pub fn model_id(&self, key: &str) -> (id: Option<ModelId>)
        ensures
            id == self@.model_id(key@),
    {
        if let Some(Id::Model(id)) = self.buf.id(key) {
            Some(id)
        } else {
            None
        }
    }

    pub fn scene_id(&self, key: &str) -> (id: Option<SceneId>)
        ensures
            id == self@.scene_id(key@),
    {
        if let Some(Id::Scene(id)) = self.buf.id(key) {
            Some(id)
        } else {
            None
        }
    }

    /// The text under `key` in the locale `en-US`.
    pub fn text(&self, key: &str) -> (text: &str)
        requires
            self@.buf.inv(),
            self@.buf.has_localized(key@, "en-US"@),
        ensures
            text@ == self@.buf.localized(key@, "en-US"@)@,
    {
        self.buf.text_locale(key, "en-US")
    }

    pub fn text_id(&self, key: &str) -> (id: Option<TextId>)
        ensures
            id == self@.text_id(key@),
    {
        if let Some(Id::Text(id)) = self.buf.id(key) {
            Some(id)
        } else {
            None
        }
    }

    /// The text under `key` in the given locale.
    pub fn text_locale(&self, key: &str, locale: &str) -> (text: &str)
        requires
            self@.buf.inv(),
            self@.buf.has_localized(key@, locale@),
        ensures
            text@ == self@.buf.localized(key@, locale@)@,
    {
        self.buf.text_locale(key, locale)
    }

    /// The text under `key` that belongs to no locale.
    pub fn text_raw(&self, key: &str) -> (text: &str)
        requires
            self@.buf.texts.contains_key(key@),
        ensures
            text@ == self@.buf.texts[key@]@,
    {
        self.buf.text(key)
    }

    /// Cuts the packed bytes of an item out of the data.
    pub fn packed(&self, span: Option<Span>) -> (bytes: Result<Vec<u8>, PakError>)
        ensures
            bytes_view(bytes) == self@.packed(span),
    {
        match span {
            None => Err(PakError::UnknownId),
            Some(span) => {
                if span.pos > self.data.len() as u64 || span.len > self.data.len() - span.pos as usize {
                    return Err(PakError::OutOfBounds);
                }
                Ok(read_exact(&self.data, span.pos, span.len))
            },
        }
    }

    /// Cuts an item out of the data and unpacks it.
    fn read(&self, span: Option<Span>) -> (bytes: Result<Vec<u8>, PakError>)
        ensures
            self@.reads(span, bytes_view(bytes)),
    {
        match self.packed(span) {
            Ok(buf) => Compression::reader(self.compression, buf.as_slice()),
            Err(e) => Err(e),
        }
    }

    /// The unpacked bytes of an animation.
    pub fn read_animation(&self, id: AnimationId) -> (bytes: Result<Vec<u8>, PakError>)
        ensures
            self@.reads(span_at(self@.buf.anims, id.0), bytes_view(bytes)),
    {
        self.read(self.buf.animation(id))
    }

    /// The unpacked bytes of a bitmap.
    pub fn read_bitmap(&self, id: BitmapId) -> (bytes: Result<Vec<u8>, PakError>)
        ensures
            self@.reads(span_at(self@.buf.bitmaps, id.0), bytes_view(bytes)),
    {
        self.read(self.buf.bitmap(id))
    }

    /// The unpacked bytes of a bitmap font.
    pub fn read_bitmap_font(&self, id: BitmapFontId) -> (bytes: Result<Vec<u8>, PakError>)
        ensures
            self@.reads(span_at(self@.buf.bitmap_fonts, id.0), bytes_view(bytes)),
    {
        self.read(self.buf.bitmap_font(id))
    }

    /// The contents of a blob.
    pub fn read_blob(&self, id: BlobId) -> (blob: Result<Vec<u8>, PakError>)
        ensures
            self@.reads_blob(id, bytes_view(blob)),
    {
        match self.read(self.buf.blob(id)) {
            Ok(bytes) => {
                let ghost unpacked = Ok::<Seq<u8>, PakError>(bytes@);
                let blob = Self::decode_blob(bytes);
                assert(bytes_view(blob) == PakView::blob_of(unpacked));
                blob
            },
            Err(e) => {
                assert(bytes_view(Err::<Vec<u8>, PakError>(e)) == PakView::blob_of(
                    Err::<Seq<u8>, PakError>(e),
                ));
                Err(e)
            },
        }
    }

    /// Decodes the unpacked bytes of a blob.
    pub fn decode_blob(bytes: Vec<u8>) -> (blob: Result<Vec<u8>, PakError>)
        ensures
            bytes_view(blob) == match bincode_bytes(bytes@) {
                Some(decoded) => Ok::<Seq<u8>, PakError>(decoded),
                None => Err(PakError::Encoding),
            },
    {
        PakError::decoded(bincode_reader(bytes.as_slice()))
    }

    /// The unpacked bytes of a model.
    pub fn read_model(&self, id: ModelId) -> (bytes: Result<Vec<u8>, PakError>)
        ensures
            self@.reads(span_at(self@.buf.models, id.0), bytes_view(bytes)),
    {
        self.read(self.buf.model(id))
    }

    /// The unpacked bytes of a scene.
    pub fn read_scene(&self, id: SceneId) -> (bytes: Result<Vec<u8>, PakError>)
        ensures
            self@.reads(span_at(self@.buf.scenes, id.0), bytes_view(bytes)),
    {
        self.read(self.buf.scene(id))
    }
}

} // verus!
