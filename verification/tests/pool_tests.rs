use gpu_lease::pool::drain::Drain;
use gpu_lease::pool::key::{
    sorted_ranges, BlendMode, ColorRenderPassMode, ComputeMode, DescriptorRange,
    DrawRenderPassMode, Extent, GraphicsMode, PoolKey, RenderPassMode,
};
use gpu_lease::pool::lease::{Build, ComputeCtor, GraphicsCtor};
use gpu_lease::pool::model::Status;
use gpu_lease::pool::queue::{remove_last_by, Idle};
use gpu_lease::pool::{Pool, RenderPassRef, DEFAULT_LRU_THRESHOLD};
use std::collections::VecDeque;

fn idle(id: usize, capacity: u64) -> Idle {
    Idle { id, capacity, released: 0 }
}

fn color_pass() -> RenderPassMode {
    RenderPassMode::Color(ColorRenderPassMode { fmt: 37, preserve: false })
}

fn draw_pass() -> RenderPassMode {
    RenderPassMode::Draw(DrawRenderPassMode { depth: 126, geom_buf: 97, light: 109, output: 37 })
}

fn drained(mut drain: Drain) -> Vec<Idle> {
    let mut out = Vec::new();
    while let Some(e) = drain.next() {
        out.push(e);
    }
    out
}

#[test]
fn data_buffer_is_built_once_and_reused() {
    let mut pool = Pool::default();
    let first = pool.data(1024);
    assert!(first.is_fresh());
    assert_eq!(first.build(), Build::Create);
    assert!(first.capacity() >= 1024);
    let id = first.id();
    assert!(pool.holds(&first));
    assert_eq!(pool.issued(), 1);
    pool.release(first);

    let second = pool.data(512);
    assert_eq!(second.id(), id);
    assert_eq!(second.capacity(), 1024);
    assert_eq!(second.build(), Build::Reuse);
    assert!(!second.is_fresh());
    assert_eq!(pool.issued(), 1);
}

#[test]
fn default_pool_is_empty_with_threshold_of_eight() {
    let pool = Pool::default();
    assert_eq!(DEFAULT_LRU_THRESHOLD, 8);
    assert_eq!(pool.lru_threshold(), 8);
    assert_eq!(pool.issued(), 0);
    assert_eq!(pool.queue_count(), 0);
    assert_eq!(pool.frame(), 0);
    assert_eq!(pool.status(0), None);
}

#[test]
fn two_live_leases_never_name_one_object() {
    let mut pool = Pool::new(8);
    let a = pool.data(64);
    let b = pool.data(64);
    let c = pool.memory(0, 64);
    let d = pool.texture(Extent { x: 4, y: 4 }, 37, 6, 1, 1, 1);
    let ids = [a.id(), b.id(), c.id(), d.id()];
    for i in 0..ids.len() {
        for j in 0..ids.len() {
            if i != j {
                assert_ne!(ids[i], ids[j]);
            }
        }
    }
    assert!(pool.holds(&a) && pool.holds(&b) && pool.holds(&c) && pool.holds(&d));
    let a_id = a.id();
    pool.release(a);
    assert_eq!(pool.status(a_id), Some(Status::Idle));
    let e = pool.data(64);
    assert_eq!(e.id(), a_id);
    assert_ne!(e.id(), b.id());
    assert!(pool.holds(&e) && pool.holds(&b));
}

#[test]
fn a_released_object_is_idle_until_it_is_leased_again() {
    let mut pool = Pool::new(8);
    let a = pool.data(64);
    let id = a.id();
    assert_eq!(pool.status(id), Some(Status::Leased { slot: 0, capacity: 64 }));
    pool.release(a);
    assert_eq!(pool.status(id), Some(Status::Idle));
    let b = pool.data(64);
    assert_eq!(b.id(), id);
    assert_eq!(pool.status(id), Some(Status::Leased { slot: 0, capacity: 64 }));
    assert!(pool.holds(&b));
}

#[test]
fn a_lease_of_another_pool_is_not_held() {
    let mut one = Pool::new(8);
    let mut other = Pool::new(8);
    let a = one.data(64);
    assert!(!other.holds(&a));
    let b = other.data(128);
    assert!(!one.holds(&b));
}

#[test]
fn request_larger_than_every_idle_object_builds_a_new_one() {
    let mut pool = Pool::new(8);
    let small = pool.data(100);
    let small_id = small.id();
    pool.release(small);
    let big = pool.data(101);
    assert_ne!(big.id(), small_id);
    assert_eq!(big.capacity(), 101);
    assert_eq!(big.build(), Build::Create);
    assert_eq!(pool.issued(), 2);
    assert_eq!(pool.status(small_id), Some(Status::Idle));
    let exact = pool.data(100);
    assert_eq!(exact.id(), small_id);
    assert_eq!(pool.issued(), 2);
}

#[test]
fn most_recently_released_fitting_object_is_taken() {
    let mut pool = Pool::new(8);
    let a = pool.data(1024);
    let b = pool.data(2048);
    let c = pool.data(256);
    let (a_id, b_id, c_id) = (a.id(), b.id(), c.id());
    pool.release(a);
    pool.release(b);
    pool.release(c);
    // Queue from front to back: 1024, 2048, 256.
    let got = pool.data(512);
    assert_eq!(got.id(), b_id);
    assert_eq!(got.capacity(), 2048);
    let next = pool.data(512);
    assert_eq!(next.id(), a_id);
    let last = pool.data(1);
    assert_eq!(last.id(), c_id);
    assert_eq!(pool.issued(), 3);
}

#[test]
fn usage_keys_separate_queues() {
    let mut pool = Pool::new(8);
    let plain = pool.data(64);
    let plain_id = plain.id();
    pool.release(plain);
    let vertex = pool.data_usage(64, 0x80);
    assert_ne!(vertex.id(), plain_id);
    assert!(vertex.is_fresh());
    assert_ne!(vertex.queue(), 0);
    let again = pool.data_usage(64, 0);
    assert_eq!(again.id(), plain_id);
    assert_eq!(again.queue(), 0);
}

#[test]
fn command_pool_is_always_reset() {
    let mut pool = Pool::new(8);
    let fresh = pool.cmd_pool(3);
    assert_eq!(fresh.build(), Build::CreateAndReset);
    assert!(fresh.needs_reset());
    assert!(fresh.is_fresh());
    let id = fresh.id();
    pool.release(fresh);
    let reused = pool.cmd_pool(3);
    assert_eq!(reused.id(), id);
    assert_eq!(reused.build(), Build::Reset);
    assert!(reused.needs_reset());
    assert!(!reused.is_fresh());
    let other_family = pool.cmd_pool(4);
    assert_eq!(other_family.build(), Build::CreateAndReset);
    assert_ne!(other_family.id(), id);
}

#[test]
fn fence_is_reset_only_when_reused() {
    let mut pool = Pool::new(8);
    let fresh = pool.fence();
    assert_eq!(fresh.build(), Build::Create);
    assert!(!fresh.needs_reset());
    let id = fresh.id();
    pool.release(fresh);
    let reused = pool.fence();
    assert_eq!(reused.id(), id);
    assert_eq!(reused.build(), Build::Reset);
    assert!(reused.needs_reset());
}

#[test]
fn compiler_round_trip() {
    let mut pool = Pool::new(8);
    let a = pool.compiler();
    assert_eq!(a.build(), Build::Create);
    let id = a.id();
    pool.release(a);
    let b = pool.compiler();
    assert_eq!(b.id(), id);
    assert_eq!(b.build(), Build::Reuse);
}

#[test]
fn compute_pipelines_by_mode_and_sets() {
    let mut pool = Pool::new(8);
    let a = pool.compute(ComputeMode::DecodeRgbRgba);
    assert_eq!(a.build(), Build::CreateCompute { compute: ComputeCtor::DecodeRgbRgba });
    assert_eq!(a.capacity(), 1);
    let a_id = a.id();
    pool.release(a);
    let b = pool.compute_sets(ComputeMode::DecodeRgbRgba, 4);
    assert_eq!(b.build(), Build::CreateCompute { compute: ComputeCtor::DecodeRgbRgba });
    assert_eq!(b.capacity(), 4);
    assert_ne!(b.id(), a_id);
    let b_id = b.id();
    pool.release(b);
    let c = pool.compute(ComputeMode::DecodeRgbRgba);
    assert_eq!(c.id(), b_id);
    assert_eq!(c.build(), Build::Reuse);
    let d = pool.compute(ComputeMode::CalculateVertexAttributes);
    assert_eq!(d.build(), Build::CreateCompute { compute: ComputeCtor::CalcVertexAttrs });
    assert_eq!(ComputeMode::CalculateVertexAttributes.ctor(), ComputeCtor::CalcVertexAttrs);
}

#[test]
fn memory_by_type_and_size() {
    let mut pool = Pool::new(8);
    let a = pool.memory(2, 4096);
    assert_eq!(a.build(), Build::Create);
    let id = a.id();
    pool.release(a);
    let other_type = pool.memory(1, 16);
    assert!(other_type.is_fresh());
    let b = pool.memory(2, 4096);
    assert_eq!(b.id(), id);
    pool.release(b);
    let too_big = pool.memory(2, 4097);
    assert!(too_big.is_fresh());
    assert_eq!(too_big.capacity(), 4097);
}

#[test]
fn descriptor_pool_key_ignores_order_and_repeats() {
    let mut pool = Pool::new(8);
    let a = DescriptorRange { ty: 1, count: 2 };
    let b = DescriptorRange { ty: 0, count: 7 };
    let c = DescriptorRange { ty: 1, count: 1 };
    let first = pool.desc_pool(4, &vec![a, b, c]);
    assert_eq!(first.build(), Build::Create);
    assert_eq!(first.capacity(), 4);
    let id = first.id();
    pool.release(first);
    let second = pool.desc_pool(3, &vec![c, a, b, a]);
    assert_eq!(second.id(), id);
    assert_eq!(second.build(), Build::Reuse);
    pool.release(second);
    let third = pool.desc_pool(5, &vec![b, c, a]);
    assert!(third.is_fresh());
    assert_eq!(third.queue(), 0);
    let other = pool.desc_pool(1, &vec![a, b]);
    assert!(other.is_fresh());
    assert_eq!(other.queue(), 1);
}

#[test]
fn sorted_ranges_sorts_by_type_then_count_and_drops_repeats() {
    let r = |ty, count| DescriptorRange { ty, count };
    let key = sorted_ranges(&vec![r(2, 1), r(0, 9), r(2, 1), r(1, 5), r(1, 2), r(0, 9)]);
    assert_eq!(key, vec![r(0, 9), r(1, 2), r(1, 5), r(2, 1)]);
    assert_eq!(sorted_ranges(&vec![]), vec![]);
    assert!(r(1, 2).is_before(&r(1, 3)));
    assert!(r(0, 9).is_before(&r(1, 0)));
    assert!(!r(1, 2).is_before(&r(1, 2)));
    assert!(!r(2, 0).is_before(&r(1, 9)));
}

#[test]
fn pool_keys_compare_by_content() {
    let a = PoolKey::DescriptorPool { ranges: vec![DescriptorRange { ty: 1, count: 2 }] };
    let b = PoolKey::DescriptorPool { ranges: vec![DescriptorRange { ty: 1, count: 2 }] };
    let c = PoolKey::DescriptorPool { ranges: vec![DescriptorRange { ty: 1, count: 3 }] };
    let d = PoolKey::DescriptorPool { ranges: vec![] };
    assert!(a.same(&b));
    assert!(!a.same(&c));
    assert!(!a.same(&d));
    assert!(PoolKey::Fence.same(&PoolKey::Fence));
    assert!(!PoolKey::Fence.same(&PoolKey::Compiler));
    assert!(PoolKey::Data { usage: 3 }.same(&PoolKey::Data { usage: 3 }));
    assert!(!PoolKey::Data { usage: 3 }.same(&PoolKey::Data { usage: 4 }));
    assert!(!PoolKey::Data { usage: 3 }.same(&PoolKey::Memory { mem_type: 3 }));
    let t = |x| PoolKey::Texture { dims: Extent { x, y: 2 }, fmt: 1, layers: 1, mips: 1, samples: 1, usage: 0 };
    assert!(t(2).same(&t(2)));
    assert!(!t(2).same(&t(3)));
    let g = |s| PoolKey::Graphics {
        graphics_mode: GraphicsMode::Font,
        render_pass_mode: color_pass(),
        subpass_idx: s,
    };
    assert!(g(0).same(&g(0)));
    assert!(!g(0).same(&g(1)));
}

#[test]
fn texture_miss_builds_a_spare() {
    let mut pool = Pool::new(8);
    let dims = Extent { x: 640, y: 480 };
    let first = pool.texture(dims, 37, 6, 1, 1, 1);
    assert_eq!(first.id(), 0);
    assert_eq!(first.build(), Build::CreateWithSpare { spare: 1 });
    assert_eq!(pool.issued(), 2);
    assert_eq!(pool.status(0), Some(Status::Leased { slot: 0, capacity: 0 }));
    assert_eq!(pool.status(1), Some(Status::Idle));
    assert_eq!(pool.idle_count(0), 1);
    assert_eq!(pool.idle_at(0, 0), Idle { id: 1, capacity: 0, released: 0 });

    let second = pool.texture(dims, 37, 6, 1, 1, 1);
    assert_eq!(second.id(), 1);
    assert_eq!(second.build(), Build::Reuse);
    assert_eq!(pool.issued(), 2);

    let third = pool.texture(dims, 37, 6, 1, 1, 1);
    assert_eq!(third.build(), Build::CreateWithSpare { spare: 3 });
    assert_eq!(pool.issued(), 4);
}

#[test]
fn released_texture_is_taken_before_the_spare() {
    let mut pool = Pool::new(8);
    let dims = Extent { x: 8, y: 8 };
    let first = pool.texture(dims, 37, 6, 1, 1, 1);
    let id = first.id();
    pool.release(first);
    let again = pool.texture(dims, 37, 6, 1, 1, 1);
    assert_eq!(again.id(), id);
    assert_eq!(again.build(), Build::Reuse);
    let spare = pool.texture(dims, 37, 6, 1, 1, 1);
    assert_eq!(spare.id(), 1);
}

#[test]
fn textures_differ_by_every_part_of_the_key() {
    let mut pool = Pool::new(8);
    let dims = Extent { x: 8, y: 8 };
    let base = pool.texture(dims, 37, 6, 1, 1, 1);
    assert_eq!(base.queue(), 0);
    assert_eq!(pool.texture(Extent { x: 9, y: 8 }, 37, 6, 1, 1, 1).queue(), 1);
    assert_eq!(pool.texture(dims, 38, 6, 1, 1, 1).queue(), 2);
    assert_eq!(pool.texture(dims, 37, 7, 1, 1, 1).queue(), 3);
    assert_eq!(pool.texture(dims, 37, 6, 2, 1, 1).queue(), 4);
    assert_eq!(pool.texture(dims, 37, 6, 1, 2, 1).queue(), 5);
    assert_eq!(pool.texture(dims, 37, 6, 1, 1, 2).queue(), 6);
    assert_eq!(pool.texture(dims, 37, 6, 1, 1, 1).queue(), 0);
    assert_eq!(pool.queue_count(), 7);
}

#[test]
fn graphics_pipeline_brings_its_render_pass() {
    let mut pool = Pool::new(8);
    let a = pool.graphics(GraphicsMode::DrawMesh, draw_pass(), 0);
    assert_eq!(
        a.build(),
        Build::CreateGraphics { graphics: GraphicsCtor::DrawMesh, pass: 0, pass_is_new: true }
    );
    assert_eq!(a.capacity(), 1);
    let b = pool.graphics(GraphicsMode::DrawLine, draw_pass(), 1);
    assert_eq!(
        b.build(),
        Build::CreateGraphics { graphics: GraphicsCtor::DrawLine, pass: 0, pass_is_new: false }
    );
    let c = pool.graphics_sets(GraphicsMode::Blend(BlendMode::Normal), color_pass(), 0, 3);
    assert_eq!(
        c.build(),
        Build::CreateGraphics {
            graphics: GraphicsCtor::Blend(BlendMode::Normal),
            pass: 1,
            pass_is_new: true
        }
    );
    assert_eq!(c.capacity(), 3);
    let a_id = a.id();
    pool.release(a);
    let again = pool.graphics(GraphicsMode::DrawMesh, draw_pass(), 0);
    assert_eq!(again.id(), a_id);
    assert_eq!(again.build(), Build::Reuse);
}

#[test]
fn graphics_constructors_by_mode() {
    let blends = [
        BlendMode::Add,
        BlendMode::AlphaAdd,
        BlendMode::ColorBurn,
        BlendMode::ColorDodge,
        BlendMode::Color,
        BlendMode::Darken,
        BlendMode::DarkenColor,
        BlendMode::Difference,
        BlendMode::Divide,
        BlendMode::Exclusion,
        BlendMode::HardLight,
        BlendMode::HardMix,
        BlendMode::LinearBurn,
        BlendMode::Multiply,
        BlendMode::Normal,
        BlendMode::Overlay,
        BlendMode::Screen,
        BlendMode::Subtract,
        BlendMode::VividLight,
    ];
    for mode in blends {
        assert_eq!(GraphicsMode::Blend(mode).ctor(), GraphicsCtor::Blend(mode));
    }
    assert_eq!(GraphicsMode::DrawLine.ctor(), GraphicsCtor::DrawLine);
    assert_eq!(GraphicsMode::DrawMesh.ctor(), GraphicsCtor::DrawMesh);
    assert_eq!(GraphicsMode::DrawPointLight.ctor(), GraphicsCtor::DrawPointLight);
    assert_eq!(GraphicsMode::DrawRectLight.ctor(), GraphicsCtor::DrawRectLight);
    assert_eq!(GraphicsMode::DrawSpotlight.ctor(), GraphicsCtor::DrawSpotlight);
    assert_eq!(GraphicsMode::DrawSunlight.ctor(), GraphicsCtor::DrawSunlight);
    assert_eq!(GraphicsMode::Font.ctor(), GraphicsCtor::Font);
    assert_eq!(GraphicsMode::FontOutline.ctor(), GraphicsCtor::FontOutline);
    assert_eq!(GraphicsMode::Gradient.ctor(), GraphicsCtor::Gradient);
    assert_eq!(GraphicsMode::GradientTransparency.ctor(), GraphicsCtor::GradientTransparency);
    assert_eq!(GraphicsMode::Texture.ctor(), GraphicsCtor::Texture);
}

#[test]
fn every_blend_mode_gets_a_pipeline() {
    let mut pool = Pool::new(8);
    let screen = pool.graphics(GraphicsMode::Blend(BlendMode::Screen), color_pass(), 0);
    assert_eq!(
        screen.build(),
        Build::CreateGraphics {
            graphics: GraphicsCtor::Blend(BlendMode::Screen),
            pass: 0,
            pass_is_new: true
        }
    );
    let add = pool.graphics_sets(GraphicsMode::Blend(BlendMode::Add), color_pass(), 0, 2);
    assert_eq!(
        add.build(),
        Build::CreateGraphics {
            graphics: GraphicsCtor::Blend(BlendMode::Add),
            pass: 0,
            pass_is_new: false
        }
    );
    assert_ne!(add.queue(), screen.queue());
    assert_eq!(pool.issued(), 2);
    let id = screen.id();
    pool.release(screen);
    let again = pool.graphics(GraphicsMode::Blend(BlendMode::Screen), color_pass(), 0);
    assert_eq!(again.id(), id);
    assert_eq!(again.build(), Build::Reuse);
}

#[test]
fn render_pass_is_registered_once() {
    let mut pool = Pool::new(8);
    assert_eq!(pool.render_pass(color_pass()), RenderPassRef { index: 0, is_new: true });
    assert_eq!(pool.render_pass(draw_pass()), RenderPassRef { index: 1, is_new: true });
    assert_eq!(pool.render_pass(color_pass()), RenderPassRef { index: 0, is_new: false });
    assert_eq!(pool.render_pass(draw_pass()), RenderPassRef { index: 1, is_new: false });
    let preserved = RenderPassMode::Color(ColorRenderPassMode { fmt: 37, preserve: true });
    assert_eq!(pool.render_pass(preserved), RenderPassRef { index: 2, is_new: true });
}

#[test]
fn release_marks_the_frame() {
    let mut pool = Pool::new(8);
    let a = pool.data(10);
    pool.advance_frame();
    pool.advance_frame();
    assert_eq!(pool.frame(), 2);
    pool.release(a);
    assert_eq!(pool.idle_at(0, 0), Idle { id: 0, capacity: 10, released: 2 });
}

#[test]
fn drain_evicts_what_was_idle_for_more_than_the_threshold() {
    let mut pool = Pool::new(2);
    let a = pool.data(10);
    let b = pool.data(20);
    let c = pool.memory(0, 30);
    let held = pool.data(40);
    pool.release(a); // released in frame 0
    pool.advance_frame();
    pool.release(c); // released in frame 1
    pool.advance_frame();
    pool.release(b); // released in frame 2
    pool.advance_frame(); // frame 3: ages 3, 2, 1

    let out = drained(pool.drain());
    assert_eq!(out, vec![Idle { id: 0, capacity: 10, released: 0 }]);
    assert_eq!(pool.status(0), Some(Status::Gone));
    assert_eq!(pool.status(1), Some(Status::Idle));
    assert_eq!(pool.status(2), Some(Status::Idle));
    assert!(pool.holds(&held));
    assert_eq!(pool.idle_count(0), 1);
    assert_eq!(pool.idle_at(0, 0).id, 1);

    pool.advance_frame(); // frame 4: ages 3 (memory), 2 (data)
    let mut drain = pool.drain();
    assert_eq!(drain.remaining(), 1);
    assert_eq!(drain.next(), Some(Idle { id: 2, capacity: 30, released: 1 }));
    assert_eq!(drain.remaining(), 0);
    assert_eq!(drain.next(), None);
    assert_eq!(pool.idle_count(1), 0);

    let fresh = pool.data(5);
    assert_eq!(fresh.id(), 1);
    let built = pool.data(5);
    assert_eq!(built.id(), 4);
    assert!(built.is_fresh());
}

#[test]
fn drain_yields_queue_by_queue_from_front_to_back() {
    let mut pool = Pool::new(0);
    let a = pool.data(1);
    let b = pool.memory(7, 2);
    let c = pool.data(3);
    let d = pool.data(4);
    pool.release(d);
    pool.release(b);
    pool.release(a);
    pool.advance_frame();
    pool.release(c);
    let out = drained(pool.drain());
    assert_eq!(
        out,
        vec![
            Idle { id: 3, capacity: 4, released: 0 },
            Idle { id: 0, capacity: 1, released: 0 },
            Idle { id: 1, capacity: 2, released: 0 },
        ]
    );
    assert_eq!(pool.idle_count(0), 1);
    assert_eq!(pool.idle_at(0, 0), Idle { id: 2, capacity: 3, released: 1 });
    assert_eq!(pool.idle_count(1), 0);
}

#[test]
fn drain_of_a_fresh_pool_yields_nothing() {
    let mut pool = Pool::default();
    let mut drain = pool.drain();
    assert_eq!(drain.remaining(), 0);
    assert_eq!(drain.next(), None);
}

#[test]
fn threshold_can_be_changed() {
    let mut pool = Pool::default();
    let a = pool.data(1);
    pool.release(a);
    for _ in 0..8 {
        pool.advance_frame();
    }
    assert_eq!(drained(pool.drain()), vec![]);
    pool.set_lru_threshold(7);
    assert_eq!(pool.lru_threshold(), 7);
    assert_eq!(drained(pool.drain()), vec![Idle { id: 0, capacity: 1, released: 0 }]);
}

#[test]
fn forgotten_object_is_never_handed_out() {
    let mut pool = Pool::new(8);
    let a = pool.data(64);
    let id = a.id();
    pool.forget(a);
    assert_eq!(pool.status(id), Some(Status::Gone));
    assert_eq!(pool.idle_count(0), 0);
    let b = pool.data(64);
    assert_ne!(b.id(), id);
    assert!(b.is_fresh());
}

#[test]
fn forgotten_texture_takes_its_waiting_spare_along() {
    let mut pool = Pool::new(8);
    let dims = Extent { x: 2, y: 2 };
    let a = pool.texture(dims, 1, 1, 1, 1, 1);
    assert_eq!(a.build(), Build::CreateWithSpare { spare: 1 });
    pool.forget(a);
    assert_eq!(pool.status(0), Some(Status::Gone));
    assert_eq!(pool.status(1), Some(Status::Gone));
    assert_eq!(pool.idle_count(0), 0);

    let b = pool.texture(dims, 1, 1, 1, 1, 1);
    assert_eq!(b.build(), Build::CreateWithSpare { spare: 3 });
    let spare = pool.texture(dims, 1, 1, 1, 1, 1);
    assert_eq!(spare.id(), 3);
    pool.forget(b);
    assert_eq!(pool.status(2), Some(Status::Gone));
    assert!(pool.holds(&spare));
}

#[test]
fn remove_last_by_takes_the_match_nearest_to_the_back() {
    let mut items: VecDeque<Idle> = VecDeque::new();
    items.push_back(idle(0, 5));
    items.push_back(idle(1, 9));
    items.push_back(idle(2, 7));
    items.push_back(idle(3, 1));
    let found = remove_last_by(&mut items, |e: &Idle| e.capacity >= 6);
    assert_eq!(found, Some(idle(2, 7)));
    assert_eq!(items, VecDeque::from(vec![idle(0, 5), idle(1, 9), idle(3, 1)]));
    let found = remove_last_by(&mut items, |e: &Idle| e.capacity >= 6);
    assert_eq!(found, Some(idle(1, 9)));
    let found = remove_last_by(&mut items, |e: &Idle| e.capacity >= 6);
    assert_eq!(found, None);
    assert_eq!(items, VecDeque::from(vec![idle(0, 5), idle(3, 1)]));
}

#[test]
fn remove_last_by_on_other_items() {
    let mut words: VecDeque<&str> = VecDeque::from(vec!["a", "bb", "cc", "d"]);
    assert_eq!(remove_last_by(&mut words, |w: &&str| w.len() == 2), Some("cc"));
    assert_eq!(remove_last_by(&mut words, |w: &&str| w.len() == 3), None);
    assert_eq!(words, VecDeque::from(vec!["a", "bb", "d"]));
    let mut none: VecDeque<u8> = VecDeque::new();
    assert_eq!(remove_last_by(&mut none, |_: &u8| true), None);
}

#[test]
fn advance_frame_counts_one_frame() {
    let mut pool = Pool::new(8);
    pool.advance_frame();
    assert_eq!(pool.frame(), 1);
}
