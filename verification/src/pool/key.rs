//! Keys of the idle queues: what a pooled object was created from.

use vstd::prelude::*;

verus! {

/// The compute pipelines the renderer knows.
#[derive(Clone, Copy, Debug, PartialEq, Eq, Hash, Structural)]
pub enum ComputeMode {
    CalculateVertexAttributes,
    DecodeRgbRgba,
}

/// How two layers are mixed when one is drawn over the other.
#[derive(Clone, Copy, Debug, PartialEq, Eq, Hash, Structural)]
pub enum BlendMode {
    Add,
    AlphaAdd,
    ColorBurn,
    ColorDodge,
    Color,
    Darken,
    DarkenColor,
    Difference,
    Divide,
    Exclusion,
    HardLight,
    HardMix,
    LinearBurn,
    Multiply,
    Normal,
    Overlay,
    Screen,
    Subtract,
    VividLight,
}

/// The graphics pipelines the renderer knows.
#[derive(Clone, Copy, Debug, PartialEq, Eq, Hash, Structural)]
pub enum GraphicsMode {
    Blend(BlendMode),
    DrawLine,
    DrawMesh,
    DrawPointLight,
    DrawRectLight,
    DrawSpotlight,
    DrawSunlight,
    Font,
    FontOutline,
    Gradient,
    GradientTransparency,
    Texture,
}

/// Parameters of a render pass that writes one color attachment.
#[derive(Clone, Copy, Debug, PartialEq, Eq, Hash, Structural)]
pub struct ColorRenderPassMode {
    /// Format code of the attachment.
    pub fmt: u32,
    /// Whether the previous contents of the attachment are kept.
    pub preserve: bool,
}

/// Parameters of the render pass that draws a lit scene.
#[derive(Clone, Copy, Debug, PartialEq, Eq, Hash, Structural)]
pub struct DrawRenderPassMode {
    /// Format code of the depth attachment.
    pub depth: u32,
    /// Format code of the geometry buffer.
    pub geom_buf: u32,
    /// Format code of the light accumulation attachment.
    pub light: u32,
    /// Format code of the output attachment.
    pub output: u32,
}

/// The render passes the renderer knows.
#[derive(Clone, Copy, Debug, PartialEq, Eq, Hash, Structural)]
pub enum RenderPassMode {
    Color(ColorRenderPassMode),
    Draw(DrawRenderPassMode),
}

/// Width and height of an image, in texels.
#[derive(Clone, Copy, Debug, PartialEq, Eq, Hash, Structural)]
pub struct Extent {
    pub x: u32,
    pub y: u32,
}

/// A number of descriptors of one type, as requested from a descriptor pool.
#[derive(Clone, Copy, Debug, PartialEq, Eq, Hash, Structural)]
pub struct DescriptorRange {
    /// Code of the descriptor type.
    pub ty: u32,
    /// How many descriptors of that type.
    pub count: usize,
}

impl DescriptorRange {
    /// The order in which ranges stand in a key: by type, then by count.
    pub open spec fn precedes(self, other: DescriptorRange) -> bool {
        self.ty < other.ty || (self.ty == other.ty && self.count < other.count)
    }

    /// Compares two ranges by type, then by count.
    pub fn is_before(&self, other: &DescriptorRange) -> (before: bool)
        ensures
            before == self.precedes(*other),
    {
        self.ty < other.ty || (self.ty == other.ty && self.count < other.count)
    }
}

/// Each range stands before all ranges that follow it.
pub open spec fn strictly_ascending(ranges: Seq<DescriptorRange>) -> bool {
    forall|i: int, j: int| 0 <= i < j < ranges.len() ==> (#[trigger] ranges[i]).precedes(#[trigger] ranges[j])
}

/// `key` holds exactly the ranges of `ranges`, each once, in ascending order.
pub open spec fn is_canonical(key: Seq<DescriptorRange>, ranges: Seq<DescriptorRange>) -> bool {
    &&& strictly_ascending(key)
    &&& forall|r: DescriptorRange| key.contains(r) <==> ranges.contains(r)
}

/// The sorted set of the given ranges: the form in which they key a queue.
pub open spec fn canonical_ranges(ranges: Seq<DescriptorRange>) -> Seq<DescriptorRange> {
    choose|key: Seq<DescriptorRange>| is_canonical(key, ranges)
}

/// Two ascending sequences that hold the same ranges are the same sequence.
pub proof fn lemma_ascending_unique(a: Seq<DescriptorRange>, b: Seq<DescriptorRange>)
    requires
        strictly_ascending(a),
        strictly_ascending(b),
        forall|r: DescriptorRange| a.contains(r) <==> b.contains(r),
    ensures
        a == b,
    decreases a.len(),
{
    if a.len() == 0 {
        if b.len() > 0 {
            assert(b.contains(b[0]));
            assert(a.contains(b[0]));
        }
        assert(a =~= b);
    } else {
        let la = a.last();
        assert(a.contains(la));
        assert(b.contains(la));
        let lb = b.last();
        assert(b.contains(lb));
        assert(a.contains(lb));
        let i = choose|i: int| 0 <= i < a.len() && a[i] == lb;
        let j = choose|j: int| 0 <= j < b.len() && b[j] == la;
        assert(la == lb) by {
            if i < a.len() - 1 {
                assert(a[i].precedes(a[a.len() - 1]));
            }
            if j < b.len() - 1 {
                assert(b[j].precedes(b[b.len() - 1]));
            }
        }
        let a0 = a.drop_last();
        let b0 = b.drop_last();
        assert forall|r: DescriptorRange| a0.contains(r) <==> b0.contains(r) by {
            if a0.contains(r) {
                let k = choose|k: int| 0 <= k < a0.len() && a0[k] == r;
                assert(a[k] == r);
                assert(a[k].precedes(a[a.len() - 1]));
                assert(a.contains(r));
                let m = choose|m: int| 0 <= m < b.len() && b[m] == r;
                assert(m < b.len() - 1);
                assert(b0[m] == r);
            }
            if b0.contains(r) {
                let k = choose|k: int| 0 <= k < b0.len() && b0[k] == r;
                assert(b[k] == r);
                assert(b[k].precedes(b[b.len() - 1]));
                assert(b.contains(r));
                let m = choose|m: int| 0 <= m < a.len() && a[m] == r;
                assert(m < a.len() - 1);
                assert(a0[m] == r);
            }
        }
        lemma_ascending_unique(a0, b0);
        assert(a =~= a0.push(la));
        assert(b =~= b0.push(lb));
    }
}

/// Where `r` belongs in an ascending sequence: behind the last range that
/// stands before it.
pub open spec fn place_of(key: Seq<DescriptorRange>, r: DescriptorRange) -> int
    decreases key.len(),
{
    if key.len() == 0 {
        0
    } else if key.last().precedes(r) {
        key.len() as int
    } else {
        place_of(key.drop_last(), r)
    }
}

/// The ranges before the place of `r` stand before `r`, the others do not.
pub proof fn lemma_place_of(key: Seq<DescriptorRange>, r: DescriptorRange)
    requires
        strictly_ascending(key),
    ensures
        0 <= place_of(key, r) <= key.len(),
        forall|k: int| 0 <= k < place_of(key, r) ==> (#[trigger] key[k]).precedes(r),
        forall|k: int| place_of(key, r) <= k < key.len() ==> !(#[trigger] key[k]).precedes(r),
    decreases key.len(),
{
    if key.len() > 0 {
        if key.last().precedes(r) {
            assert forall|k: int| 0 <= k < key.len() implies (#[trigger] key[k]).precedes(r) by {
                if k < key.len() - 1 {
                    assert(key[k].precedes(key[key.len() - 1]));
                }
            }
        } else {
            let rest = key.drop_last();
            assert forall|i: int, j: int| 0 <= i < j < rest.len() implies (#[trigger] rest[i]).precedes(
                #[trigger] rest[j],
            ) by {
                assert(key[i].precedes(key[j]));
            }
            lemma_place_of(rest, r);
            assert forall|k: int| 0 <= k < place_of(key, r) implies (#[trigger] key[k]).precedes(r) by {
                assert(rest[k] == key[k]);
            }
            assert forall|k: int| place_of(key, r) <= k < key.len() implies !(#[trigger] key[k]).precedes(
                r,
            ) by {
                if k < rest.len() {
                    assert(rest[k] == key[k]);
                }
            }
        }
    }
}

/// Every list of ranges has a sorted set.
pub proof fn lemma_canonical_exists(ranges: Seq<DescriptorRange>)
    ensures
        exists|key: Seq<DescriptorRange>| is_canonical(key, ranges),
        is_canonical(canonical_ranges(ranges), ranges),
    decreases ranges.len(),
{
    if ranges.len() == 0 {
        let key = Seq::<DescriptorRange>::empty();
        assert(is_canonical(key, ranges));
    } else {
        let seen = ranges.drop_last();
        let r = ranges.last();
        lemma_canonical_exists(seen);
        let before = canonical_ranges(seen);
        lemma_place_of(before, r);
        let at = place_of(before, r);
        let present = at < before.len() && before[at] == r;
        let key = if present {
            before
        } else {
            before.insert(at, r)
        };
        assert(strictly_ascending(key)) by {
            if !present {
                assert forall|i: int, j: int| 0 <= i < j < key.len() implies (#[trigger] key[i]).precedes(
                    #[trigger] key[j],
                ) by {
                    if j == at {
                        assert(key[i] == before[i]);
                    } else if i == at {
                        assert(key[j] == before[j - 1]);
                        assert(!before[at].precedes(r));
                        if j - 1 > at {
                            assert(before[at].precedes(before[j - 1]));
                        }
                    } else {
                        let bi = if i < at {
                            i
                        } else {
                            i - 1
                        };
                        let bj = if j < at {
                            j
                        } else {
                            j - 1
                        };
                        assert(key[i] == before[bi]);
                        assert(key[j] == before[bj]);
                        assert(before[bi].precedes(before[bj]));
                    }
                }
            }
        }
        assert forall|x: DescriptorRange| key.contains(x) <==> ranges.contains(x) by {
            if key.contains(x) {
                let k = choose|k: int| 0 <= k < key.len() && key[k] == x;
                if present {
                    assert(before.contains(x));
                } else if k != at {
                    let bk = if k < at {
                        k
                    } else {
                        k - 1
                    };
                    assert(before[bk] == x);
                    assert(before.contains(x));
                }
                if x == r {
                    assert(ranges[ranges.len() - 1] == x);
                } else {
                    assert(seen.contains(x));
                    let m = choose|m: int| 0 <= m < seen.len() && seen[m] == x;
                    assert(ranges[m] == x);
                }
            }
            if ranges.contains(x) {
                let m = choose|m: int| 0 <= m < ranges.len() && ranges[m] == x;
                if m == ranges.len() - 1 {
                    assert(key[at] == r);
                } else {
                    assert(seen[m] == x);
                    assert(seen.contains(x));
                    assert(before.contains(x));
                    let k = choose|k: int| 0 <= k < before.len() && before[k] == x;
                    if present {
                        assert(key[k] == x);
                    } else {
                        let nk = if k < at {
                            k
                        } else {
                            k + 1
                        };
                        assert(key[nk] == x);
                    }
                }
            }
        }
        assert(is_canonical(key, ranges));
    }
}

/// Ranges given in any order, and any number of times, make the same key:
/// the key of a list depends only on which ranges the list holds.
pub proof fn law_key_by_content(a: Seq<DescriptorRange>, b: Seq<DescriptorRange>)
    requires
        forall|r: DescriptorRange| a.contains(r) <==> b.contains(r),
    ensures
        canonical_ranges(a) == canonical_ranges(b),
{
    lemma_canonical_exists(a);
    lemma_canonical_exists(b);
    lemma_ascending_unique(canonical_ranges(a), canonical_ranges(b));
}

/// Lists that hold different ranges make different keys.
pub proof fn law_key_tells_content(a: Seq<DescriptorRange>, b: Seq<DescriptorRange>, r: DescriptorRange)
    requires
        a.contains(r),
        !b.contains(r),
    ensures
        canonical_ranges(a) != canonical_ranges(b),
{
    lemma_canonical_exists(a);
    lemma_canonical_exists(b);
}

/// Sorts the ranges and drops repeated ones.
pub fn sorted_ranges(ranges: &Vec<DescriptorRange>) -> (key: Vec<DescriptorRange>)
    ensures
        is_canonical(key@, ranges@),
        key@ == canonical_ranges(ranges@),
{
    let mut key: Vec<DescriptorRange> = Vec::new();
    let mut n: usize = 0;
    while n < ranges.len()
        invariant
            n <= ranges.len(),
            strictly_ascending(key@),
            forall|r: DescriptorRange| key@.contains(r) <==> ranges@.subrange(0, n as int).contains(r),
        decreases ranges.len() - n,
    {
        let r = ranges[n];
        let ghost before = key@;
        let ghost seen = ranges@.subrange(0, n as int);
        let mut at: usize = 0;
        while at < key.len() && key[at].is_before(&r)
            invariant
                at <= key.len(),
                key@ == before,
                forall|k: int| 0 <= k < at ==> (#[trigger] key@[k]).precedes(r),
            decreases key.len() - at,
        {
            at = at + 1;
        }
        let present = at < key.len() && key[at].ty == r.ty && key[at].count == r.count;
        if !present {
            key.insert(at, r);
            proof {
                assert forall|i: int, j: int| 0 <= i < j < key@.len() implies (#[trigger] key@[i]).precedes(
                    #[trigger] key@[j],
                ) by {
                    if j == at {
                        assert(key@[i] == before[i]);
                    } else if i == at {
                        assert(key@[j] == before[j - 1]);
                        assert(!before[at as int].precedes(r));
                        if j - 1 > at {
                            assert(before[at as int].precedes(before[j - 1]));
                        }
                    } else {
                        let bi = if i < at { i } else { i - 1 };
                        let bj = if j < at { j } else { j - 1 };
                        assert(key@[i] == before[bi]);
                        assert(key@[j] == before[bj]);
                    }
                }
            }
        }
        proof {
            let next = ranges@.subrange(0, n as int + 1);
            assert(next =~= seen.push(r));
            assert forall|x: DescriptorRange| key@.contains(x) <==> next.contains(x) by {
                if key@.contains(x) {
                    let k = choose|k: int| 0 <= k < key@.len() && key@[k] == x;
                    if present {
                        assert(before.contains(x));
                    } else if k == at {
                        assert(x == r);
                    } else {
                        let bk = if k < at { k } else { k - 1 };
                        assert(before[bk] == x);
                        assert(before.contains(x));
                    }
                    if x == r {
                        assert(next[n as int] == r);
                    } else {
                        assert(seen.contains(x));
                        let m = choose|m: int| 0 <= m < seen.len() && seen[m] == x;
                        assert(next[m] == x);
                    }
                }
                if next.contains(x) {
                    let m = choose|m: int| 0 <= m < next.len() && next[m] == x;
                    if m == n {
                        if present {
                            assert(key@[at as int] == r);
                        } else {
                            assert(key@[at as int] == r);
                        }
                    } else {
                        assert(seen[m] == x);
                        assert(seen.contains(x));
                        assert(before.contains(x));
                        let k = choose|k: int| 0 <= k < before.len() && before[k] == x;
                        if present {
                            assert(key@[k] == x);
                        } else {
                            let nk = if k < at { k } else { k + 1 };
                            assert(key@[nk] == x);
                        }
                    }
                }
            }
        }
        n = n + 1;
    }
    proof {
        assert(ranges@.subrange(0, n as int) =~= ranges@);
        assert(is_canonical(key@, ranges@));
        let chosen = canonical_ranges(ranges@);
        assert(is_canonical(chosen, ranges@));
        lemma_ascending_unique(key@, chosen);
    }
    key
}

/// Whether two lists hold the same ranges in the same order.
fn same_ranges(a: &Vec<DescriptorRange>, b: &Vec<DescriptorRange>) -> (same: bool)
    ensures
        same == (a@ == b@),
{
    if a.len() != b.len() {
        return false;
    }
    let mut n: usize = 0;
    while n < a.len()
        invariant
            n <= a.len(),
            a.len() == b.len(),
            forall|k: int| 0 <= k < n ==> a@[k] == b@[k],
        decreases a.len() - n,
    {
        if a[n].ty != b[n].ty || a[n].count != b[n].count {
            return false;
        }
        n = n + 1;
    }
    assert(a@ =~= b@);
    true
}

/// What an idle queue is keyed by: the kind of object it holds and the
/// creation parameters that objects of one queue share.
#[derive(Debug)]
pub enum PoolKey {
    /// Command pools of one queue family.
    CommandPool { family: usize },
    /// Shader compilers.
    Compiler,
    /// Compute pipelines of one mode.
    Compute { mode: ComputeMode },
    /// Data buffers of one usage (a set of flag bits).
    Data { usage: u32 },
    /// Descriptor pools over one sorted set of descriptor ranges.
    DescriptorPool { ranges: Vec<DescriptorRange> },
    /// Fences.
    Fence,
    /// Graphics pipelines of one mode, built for one subpass of one render pass.
    Graphics { graphics_mode: GraphicsMode, render_pass_mode: RenderPassMode, subpass_idx: u8 },
    /// Device memory blocks of one memory type.
    Memory { mem_type: usize },
    /// Two-dimensional images of one size, format, usage and shape.
    Texture { dims: Extent, fmt: u32, layers: u16, mips: u8, samples: u8, usage: u32 },
}

/// A key as a mathematical value.
pub enum PoolKeyView {
    CommandPool { family: usize },
    Compiler,
    Compute { mode: ComputeMode },
    Data { usage: u32 },
    DescriptorPool { ranges: Seq<DescriptorRange> },
    Fence,
    Graphics { graphics_mode: GraphicsMode, render_pass_mode: RenderPassMode, subpass_idx: u8 },
    Memory { mem_type: usize },
    Texture { dims: Extent, fmt: u32, layers: u16, mips: u8, samples: u8, usage: u32 },
}

impl View for PoolKey {
    type V = PoolKeyView;

    open spec fn view(&self) -> PoolKeyView {
        match *self {
            PoolKey::CommandPool { family } => PoolKeyView::CommandPool { family },
            PoolKey::Compiler => PoolKeyView::Compiler,
            PoolKey::Compute { mode } => PoolKeyView::Compute { mode },
            PoolKey::Data { usage } => PoolKeyView::Data { usage },
            PoolKey::DescriptorPool { ranges } => PoolKeyView::DescriptorPool { ranges: ranges@ },
            PoolKey::Fence => PoolKeyView::Fence,
            PoolKey::Graphics { graphics_mode, render_pass_mode, subpass_idx } => PoolKeyView::Graphics {
                graphics_mode,
                render_pass_mode,
                subpass_idx,
            },
            PoolKey::Memory { mem_type } => PoolKeyView::Memory { mem_type },
            PoolKey::Texture { dims, fmt, layers, mips, samples, usage } => PoolKeyView::Texture {
                dims,
                fmt,
                layers,
                mips,
                samples,
                usage,
            },
        }
    }
}

impl PoolKey {
    /// Whether two keys name the same queue.
    pub fn same(&self, other: &PoolKey) -> (same: bool)
        ensures
            same == (self@ == other@),
    {
        match (self, other) {
            (PoolKey::CommandPool { family: a }, PoolKey::CommandPool { family: b }) => *a == *b,
            (PoolKey::Compiler, PoolKey::Compiler) => true,
            (PoolKey::Compute { mode: a }, PoolKey::Compute { mode: b }) => *a == *b,
            (PoolKey::Data { usage: a }, PoolKey::Data { usage: b }) => *a == *b,
            (PoolKey::DescriptorPool { ranges: a }, PoolKey::DescriptorPool { ranges: b }) => same_ranges(
                a,
                b,
            ),
            (PoolKey::Fence, PoolKey::Fence) => true,
            (
                PoolKey::Graphics { graphics_mode: ga, render_pass_mode: ra, subpass_idx: sa },
                PoolKey::Graphics { graphics_mode: gb, render_pass_mode: rb, subpass_idx: sb },
            ) => *ga == *gb && *ra == *rb && *sa == *sb,
            (PoolKey::Memory { mem_type: a }, PoolKey::Memory { mem_type: b }) => *a == *b,
            (
                PoolKey::Texture { dims: da, fmt: fa, layers: la, mips: ma, samples: sa, usage: ua },
                PoolKey::Texture { dims: db, fmt: fb, layers: lb, mips: mb, samples: sb, usage: ub },
            ) => *da == *db && *fa == *fb && *la == *lb && *ma == *mb && *sa == *sb && *ua == *ub,
            _ => false,
        }
    }
}

} // verus!
