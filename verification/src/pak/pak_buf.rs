//! The index of an archive: what its keys stand for and where its items lie.

use super::id::{
    AnimationId, BitmapFontId, BitmapId, BlobId, Id, MaterialId, ModelId, SceneId,
};
use super::Material;
use vstd::hash_map::StringHashMap;
use vstd::pervasive::unreached;
use vstd::prelude::*;

verus! {

/// Where an item lies in the archive's data: its first byte and its length.
#[derive(Clone, Copy, Debug, Eq, Hash, PartialEq, Structural)]
pub struct Span {
    pub pos: u64,
    pub len: usize,
}

/// The texts of one locale.
struct Locale {
    name: String,
    texts: StringHashMap<String>,
}

/// The texts of one locale, as a mathematical value.
pub struct LocaleView {
    pub name: Seq<char>,
    pub texts: Map<Seq<char>, String>,
}

/// The index of an archive.
pub struct PakBuf {
    ids: StringHashMap<Id>,
    texts: StringHashMap<String>,
    locales: Vec<Locale>,
    anims: Vec<Span>,
    bitmap_fonts: Vec<Span>,
    bitmaps: Vec<Span>,
    blobs: Vec<Span>,
    materials: Vec<Material>,
    models: Vec<Span>,
    scenes: Vec<Span>,
}

/// The index of an archive as a mathematical value.
pub struct PakBufView {
    /// What each key stands for.
    pub ids: Map<Seq<char>, Id>,
    /// The texts that belong to no locale, by key.
    pub texts: Map<Seq<char>, String>,
    /// The texts of each locale, in the order in which the locales were added.
    pub locales: Seq<LocaleView>,
    pub anims: Seq<Span>,
    pub bitmap_fonts: Seq<Span>,
    pub bitmaps: Seq<Span>,
    pub blobs: Seq<Span>,
    pub materials: Seq<Material>,
    pub models: Seq<Span>,
    pub scenes: Seq<Span>,
}

impl PakBufView {
    /// What holds of every index: each locale is there once.
    pub open spec fn inv(self) -> bool {
        forall|i: int, j: int|
            0 <= i < j < self.locales.len() ==> (#[trigger] self.locales[i]).name != (
            #[trigger] self.locales[j]).name
    }

    /// The index that holds nothing.
    pub open spec fn empty() -> PakBufView {
        PakBufView {
            ids: Map::empty(),
            texts: Map::empty(),
            locales: Seq::empty(),
            anims: Seq::empty(),
            bitmap_fonts: Seq::empty(),
            bitmaps: Seq::empty(),
            blobs: Seq::empty(),
            materials: Seq::empty(),
            models: Seq::empty(),
            scenes: Seq::empty(),
        }
    }

    /// What `key` stands for, if anything.
    pub open spec fn id(self, key: Seq<char>) -> Option<Id> {
        if self.ids.contains_key(key) {
            Some(self.ids[key])
        } else {
            None
        }
    }

    /// The place of the locale `name`; the number of locales if it is not there.
    pub open spec fn locale_of(self, name: Seq<char>) -> int {
        if exists|i: int| 0 <= i < self.locales.len() && (#[trigger] self.locales[i]).name == name {
            choose|i: int| 0 <= i < self.locales.len() && (#[trigger] self.locales[i]).name == name
        } else {
            self.locales.len() as int
        }
    }

    /// Whether the locale has a text under `key`.
    pub open spec fn has_localized(self, key: Seq<char>, locale: Seq<char>) -> bool {
        &&& self.locale_of(locale) < self.locales.len()
        &&& self.locales[self.locale_of(locale)].texts.contains_key(key)
    }

    /// The text of the locale under `key`.
    pub open spec fn localized(self, key: Seq<char>, locale: Seq<char>) -> String {
        self.locales[self.locale_of(locale)].texts[key]
    }

    /// The index with `value` as the text of the locale under `key`.
    pub open spec fn with_localized(self, locale: Seq<char>, key: Seq<char>, value: String) -> PakBufView {
        let at = self.locale_of(locale);
        if at < self.locales.len() {
            PakBufView {
                locales: self.locales.update(
                    at,
                    LocaleView { name: locale, texts: self.locales[at].texts.insert(key, value) },
                ),
                ..self
            }
        } else {
            PakBufView {
                locales: self.locales.push(
                    LocaleView { name: locale, texts: Map::<Seq<char>, String>::empty().insert(key, value) },
                ),
                ..self
            }
        }
    }
}

/// The span with the given number, if the list has that many.
pub open spec fn span_at(spans: Seq<Span>, id: u16) -> Option<Span> {
    if id < spans.len() {
        Some(spans[id as int])
    } else {
        None
    }
}

/// Looking for a locale finds the one place that has its name.
pub proof fn lemma_locale_of(buf: PakBufView, name: Seq<char>, at: int)
    requires
        buf.inv(),
        0 <= at < buf.locales.len(),
        buf.locales[at].name == name,
    ensures
        buf.locale_of(name) == at,
{
    let found = buf.locale_of(name);
    if found != at {
        if found < at {
            assert(buf.locales[found].name != buf.locales[at].name);
        } else {
            assert(buf.locales[at].name != buf.locales[found].name);
        }
    }
}

/// Adds a span to a list and returns its number; nothing where the list
/// already holds as many spans as can be numbered.
fn push_span(spans: &mut Vec<Span>, pos: u64, len: usize) -> (id: Option<u16>)
    ensures
        match id {
            Some(id) => {
                &&& id == old(spans)@.len()
                &&& final(spans)@ == old(spans)@.push(Span { pos, len })
            },
            None => old(spans)@.len() > u16::MAX && final(spans)@ == old(spans)@,
        },
{
    let at = spans.len();
    if at > 0xffff {
        None
    } else {
        spans.push(Span { pos, len });
        Some(at as u16)
    }
}

/// Looks up the span with the given number.
fn get_span(spans: &Vec<Span>, id: u16) -> (span: Option<Span>)
    ensures
        span == span_at(spans@, id),
{
    if (id as usize) < spans.len() {
        Some(spans[id as usize])
    } else {
        None
    }
}

impl View for PakBuf {
    type V = PakBufView;

    closed spec fn view(&self) -> PakBufView {
        PakBufView {
            ids: self.ids@,
            texts: self.texts@,
            locales: Seq::new(
                self.locales@.len(),
                |i: int| LocaleView { name: self.locales@[i].name@, texts: self.locales@[i].texts@ },
            ),
            anims: self.anims@,
            bitmap_fonts: self.bitmap_fonts@,
            bitmaps: self.bitmaps@,
            blobs: self.blobs@,
            materials: self.materials@,
            models: self.models@,
            scenes: self.scenes@,
        }
    }
}

impl PakBuf {
    /// An index that holds nothing.
    pub fn new() -> (buf: PakBuf)
        ensures
            buf@ == PakBufView::empty(),
            buf@.inv(),
    {
        let buf = PakBuf {
            ids: StringHashMap::new(),
            texts: StringHashMap::new(),
            locales: Vec::new(),
            anims: Vec::new(),
            bitmap_fonts: Vec::new(),
            bitmaps: Vec::new(),
            blobs: Vec::new(),
            materials: Vec::new(),
            models: Vec::new(),
            scenes: Vec::new(),
        };
        assert(buf@.locales =~= Seq::empty());
        buf
    }

    /// Lets `key` stand for `id` from now on.
    pub fn insert_id(&mut self, key: String, id: Id)
        ensures
            final(self)@ == (PakBufView { ids: old(self)@.ids.insert(key@, id), ..old(self)@ }),
    {
        self.ids.insert(key, id);
    }

    /// Stores `value` as the text under `key` that belongs to no locale.
    pub fn insert_text(&mut self, key: String, value: String)
        ensures
            final(self)@ == (PakBufView { texts: old(self)@.texts.insert(key@, value), ..old(self)@ }),
    {
        self.texts.insert(key, value);
    }

    /// Finds the place of a locale.
    fn find_locale(&self, locale: &str) -> (at: usize)
        requires
            self@.inv(),
        ensures
            at == self@.locale_of(locale@),
            at <= self.locales@.len(),
    {
        let name = locale.to_owned();
        let mut at: usize = 0;
        while at < self.locales.len()
            invariant
                at <= self.locales.len(),
                name@ == locale@,
                self@.inv(),
                forall|i: int| 0 <= i < at ==> (#[trigger] self@.locales[i]).name != locale@,
            decreases self.locales.len() - at,
        {
            if self.locales[at].name == name {
                proof {
                    assert(self@.locales[at as int].name == locale@);
                    lemma_locale_of(self@, locale@, at as int);
                }
                return at;
            }
            at = at + 1;
        }
        at
    }

    /// Stores `value` as the text of `locale` under `key`.
    pub fn insert_localized(&mut self, locale: &str, key: String, value: String)
        requires
            old(self)@.inv(),
        ensures
            final(self)@ == old(self)@.with_localized(locale@, key@, value),
            final(self)@.inv(),
    {
        let ghost before = self@;
        let at = self.find_locale(locale);
        if at < self.locales.len() {
            self.locales[at].texts.insert(key, value);
            proof {
                assert(self@.locales =~= before.with_localized(locale@, key@, value).locales);
            }
        } else {
            let mut texts: StringHashMap<String> = StringHashMap::new();
            texts.insert(key, value);
            self.locales.push(Locale { name: locale.to_owned(), texts });
            proof {
                assert(self@.locales =~= before.with_localized(locale@, key@, value).locales);
                assert forall|i: int, j: int| 0 <= i < j < self@.locales.len() implies (
                #[trigger] self@.locales[i]).name != (#[trigger] self@.locales[j]).name by {
                    if j == before.locales.len() {
                        assert(before.locales[i].name != locale@);
                    } else {
                        assert(before.locales[i].name != before.locales[j].name);
                    }
                }
            }
        }
    }

    /// Adds an animation that lies at `pos` and is `len` bytes long.
    pub fn push_animation(&mut self, pos: u64, len: usize) -> (id: Option<AnimationId>)
        ensures
            match id {
                Some(id) => id.0 == old(self)@.anims.len() && final(self)@ == (PakBufView {
                    anims: old(self)@.anims.push(Span { pos, len }),
                    ..old(self)@
                }),
                None => old(self)@.anims.len() > u16::MAX && final(self)@ == old(self)@,
            },
    {
        match push_span(&mut self.anims, pos, len) {
            Some(id) => Some(AnimationId(id)),
            None => None,
        }
    }

    /// Adds a bitmap that lies at `pos` and is `len` bytes long.
    pub fn push_bitmap(&mut self, pos: u64, len: usize) -> (id: Option<BitmapId>)
        ensures
            match id {
                Some(id) => id.0 == old(self)@.bitmaps.len() && final(self)@ == (PakBufView {
                    bitmaps: old(self)@.bitmaps.push(Span { pos, len }),
                    ..old(self)@
                }),
                None => old(self)@.bitmaps.len() > u16::MAX && final(self)@ == old(self)@,
            },
    {
        match push_span(&mut self.bitmaps, pos, len) {
            Some(id) => Some(BitmapId(id)),
            None => None,
        }
    }

    /// Adds a bitmap font that lies at `pos` and is `len` bytes long.
    pub fn push_bitmap_font(&mut self, pos: u64, len: usize) -> (id: Option<BitmapFontId>)
        ensures
            match id {
                Some(id) => id.0 == old(self)@.bitmap_fonts.len() && final(self)@ == (PakBufView {
                    bitmap_fonts: old(self)@.bitmap_fonts.push(Span { pos, len }),
                    ..old(self)@
                }),
                None => old(self)@.bitmap_fonts.len() > u16::MAX && final(self)@ == old(self)@,
            },
    {
        match push_span(&mut self.bitmap_fonts, pos, len) {
            Some(id) => Some(BitmapFontId(id)),
            None => None,
        }
    }

    /// Adds a blob that lies at `pos` and is `len` bytes long.
    pub fn push_blob(&mut self, pos: u64, len: usize) -> (id: Option<BlobId>)
        ensures
            match id {
                Some(id) => id.0 == old(self)@.blobs.len() && final(self)@ == (PakBufView {
                    blobs: old(self)@.blobs.push(Span { pos, len }),
                    ..old(self)@
                }),
                None => old(self)@.blobs.len() > u16::MAX && final(self)@ == old(self)@,
            },
    {
        match push_span(&mut self.blobs, pos, len) {
            Some(id) => Some(BlobId(id)),
            None => None,
        }
    }

    /// Adds a model that lies at `pos` and is `len` bytes long.
    pub fn push_model(&mut self, pos: u64, len: usize) -> (id: Option<ModelId>)
        ensures
            match id {
                Some(id) => id.0 == old(self)@.models.len() && final(self)@ == (PakBufView {
                    models: old(self)@.models.push(Span { pos, len }),
                    ..old(self)@
                }),
                None => old(self)@.models.len() > u16::MAX && final(self)@ == old(self)@,
            },
    {
        match push_span(&mut self.models, pos, len) {
            Some(id) => Some(ModelId(id)),
            None => None,
        }
    }

    /// Adds a scene that lies at `pos` and is `len` bytes long.
    pub fn push_scene(&mut self, pos: u64, len: usize) -> (id: Option<SceneId>)
        ensures
            match id {
                Some(id) => id.0 == old(self)@.scenes.len() && final(self)@ == (PakBufView {
                    scenes: old(self)@.scenes.push(Span { pos, len }),
                    ..old(self)@
                }),
                None => old(self)@.scenes.len() > u16::MAX && final(self)@ == old(self)@,
            },
    {
        match push_span(&mut self.scenes, pos, len) {
            Some(id) => Some(SceneId(id)),
            None => None,
        }
    }

    /// Adds a material.
    pub fn push_material(&mut self, material: Material) -> (id: Option<MaterialId>)
        ensures
            match id {
                Some(id) => id.0 == old(self)@.materials.len() && final(self)@ == (PakBufView {
                    materials: old(self)@.materials.push(material),
                    ..old(self)@
                }),
                None => old(self)@.materials.len() > u16::MAX && final(self)@ == old(self)@,
            },
    {
        let at = self.materials.len();
        if at > 0xffff {
            None
        } else {
            self.materials.push(material);
            Some(MaterialId(at as u16))
        }
    }

    /// What `key` stands for, if anything.
    pub fn id(&self, key: &str) -> (id: Option<Id>)
        ensures
            id == self@.id(key@),
    {
        match self.ids.get(key) {
            Some(id) => Some(*id),
            None => None,
        }
    }

    /// Whether a text that belongs to no locale is stored under `key`.
    pub fn has_text(&self, key: &str) -> (has: bool)
        ensures
            has == self@.texts.contains_key(key@),
    {
        self.texts.contains_key(key)
    }

    /// The text under `key` that belongs to no locale.
    pub fn text(&self, key: &str) -> (text: &str)
        requires
            self@.texts.contains_key(key@),
        ensures
            text@ == self@.texts[key@]@,
    {
        match self.texts.get(key) {
            Some(text) => text.as_str(),
            None => unreached(),
        }
    }

    /// Whether `locale` has a text under `key`.
    pub fn has_text_locale(&self, key: &str, locale: &str) -> (has: bool)
        requires
            self@.inv(),
        ensures
            has == self@.has_localized(key@, locale@),
    {
        let at = self.find_locale(locale);
        at < self.locales.len() && self.locales[at].texts.contains_key(key)
    }

    /// The text of `locale` under `key`.
    pub fn text_locale(&self, key: &str, locale: &str) -> (text: &str)
        requires
            self@.inv(),
            self@.has_localized(key@, locale@),
        ensures
            text@ == self@.localized(key@, locale@)@,
    {
        let at = self.find_locale(locale);
        match self.locales[at].texts.get(key) {
            Some(text) => text.as_str(),
            None => unreached(),
        }
    }

    /// Where the animation with the given number lies.
    pub fn animation(&self, id: AnimationId) -> (span: Option<Span>)
        ensures
            span == span_at(self@.anims, id.0),
    {
        get_span(&self.anims, id.0)
    }

    /// Where the bitmap with the given number lies.
    pub fn bitmap(&self, id: BitmapId) -> (span: Option<Span>)
        ensures
            span == span_at(self@.bitmaps, id.0),
    {
        get_span(&self.bitmaps, id.0)
    }

    /// Where the bitmap font with the given number lies.
    pub fn bitmap_font(&self, id: BitmapFontId) -> (span: Option<Span>)
        ensures
            span == span_at(self@.bitmap_fonts, id.0),
    {
        get_span(&self.bitmap_fonts, id.0)
    }

    /// Where the blob with the given number lies.
    pub fn blob(&self, id: BlobId) -> (span: Option<Span>)
        ensures
            span == span_at(self@.blobs, id.0),
    {
        get_span(&self.blobs, id.0)
    }

    /// Where the model with the given number lies.
    pub fn model(&self, id: ModelId) -> (span: Option<Span>)
        ensures
            span == span_at(self@.models, id.0),
    {
        get_span(&self.models, id.0)
    }

    /// Where the scene with the given number lies.
    pub fn scene(&self, id: SceneId) -> (span: Option<Span>)
        ensures
            span == span_at(self@.scenes, id.0),
    {
        get_span(&self.scenes, id.0)
    }

    /// Whether the index holds a material with the given number.
    pub fn has_material(&self, id: MaterialId) -> (has: bool)
        ensures
            has == (id.0 < self@.materials.len()),
    {
        (id.0 as usize) < self.materials.len()
    }

    /// The material with the given number.
    pub fn material(&self, id: MaterialId) -> (material: Material)
        requires
            id.0 < self@.materials.len(),
        ensures
            material == self@.materials[id.0 as int],
    {
        self.materials[id.0 as usize]
    }
}

} // verus!
