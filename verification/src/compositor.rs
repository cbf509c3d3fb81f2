//! The per-frame compositing pass: drain every pending renderable, resolve
//! draw order by explicit layer with a stable sort, resolve each entity's
//! placement (UI-anchored or world-space through the active camera) and
//! emit the frame's draw calls in order.

use vstd::prelude::*;
use vstd::seq_lib::group_to_multiset_ensures;
use crate::camera::{Zoom, spec_world_to_screen_axis, world_to_screen};
use crate::geom::{Rect, Vec2};
use crate::render::{Anchor, DrawParam, Renderable, ScreenSize, spec_anchor_position};
use crate::scene::{ActiveCamera, Entity, Scene, with_renderable};

verus! {

/// One fully resolved drawing request, in final draw order.
///
/// The drawing surface is to place the built drawable at `dest`, scaled by
/// `scale` times the rational `zoom` on both axes; when `origin` is set, it
/// first subtracts that anchor of the drawable's own measured bounding box
/// from `dest` (`Anchor::get_postion` computes the offset).
#[derive(Clone, Debug)]
pub struct DrawCall {
    pub instruction: crate::render::RenderInstruction,
    pub dest: Vec2,
    pub scale: Vec2,
    pub zoom: Zoom,
    pub origin: Option<Anchor>,
}

/// A drained renderable awaiting draw-order resolution: the entity it came
/// from and that entity's explicit layer (0 when absent).
#[derive(Clone, Debug)]
pub struct PendingRenderable {
    pub entity: usize,
    pub layer: i64,
    pub renderable: Renderable,
}

/// An entity's draw-order layer, defaulting to 0.
pub open spec fn spec_layer_of(e: Entity) -> int {
    match e.layer {
        Some(l) => l.0 as int,
        None => 0,
    }
}

/// The frame's pending renderables in entity order: one item per entity
/// that carries a renderable.
pub open spec fn spec_pending(s: Seq<Entity>) -> Seq<PendingRenderable>
    decreases s.len(),
{
    if s.len() == 0 {
        Seq::empty()
    } else {
        let pre = spec_pending(s.drop_last());
        match s.last().renderable {
            Some(r) => pre.push(
                PendingRenderable {
                    entity: (s.len() - 1) as usize,
                    layer: spec_layer_of(s.last()) as i64,
                    renderable: r,
                },
            ),
            None => pre,
        }
    }
}

/// The draw order: lower layers first; within a layer, entity (drain)
/// order — that tie-break is exactly sort stability.
pub open spec fn key_le(a: PendingRenderable, b: PendingRenderable) -> bool {
    a.layer < b.layer || (a.layer == b.layer && a.entity <= b.entity)
}

/// Non-decreasing under the draw order.
pub open spec fn sorted_by_key(s: Seq<PendingRenderable>) -> bool {
    forall|i: int, j: int| 0 <= i < j < s.len() ==> key_le(s[i], s[j])
}

/// Inserts one item behind every element it does not precede, so equal
/// keys keep their arrival order.
pub open spec fn spec_insert_sorted(s: Seq<PendingRenderable>, x: PendingRenderable) -> Seq<PendingRenderable>
    decreases s.len(),
{
    if s.len() == 0 {
        seq![x]
    } else if key_le(s.last(), x) {
        s.push(x)
    } else {
        spec_insert_sorted(s.drop_last(), x).push(s.last())
    }
}

/// Insertion sort over the pending list: the stable sort the compositor
/// orders draws by.
pub open spec fn spec_sort(s: Seq<PendingRenderable>) -> Seq<PendingRenderable>
    decreases s.len(),
{
    if s.len() == 0 {
        Seq::empty()
    } else {
        spec_insert_sorted(spec_sort(s.drop_last()), s.last())
    }
}

proof fn lemma_insert_sorted_props(s: Seq<PendingRenderable>, x: PendingRenderable)
    requires
        sorted_by_key(s),
    ensures
        sorted_by_key(spec_insert_sorted(s, x)),
        spec_insert_sorted(s, x).to_multiset() =~= s.to_multiset().insert(x),
        spec_insert_sorted(s, x).len() == s.len() + 1,
    decreases s.len(),
{
    broadcast use group_to_multiset_ensures;

    let t = spec_insert_sorted(s, x);
    if s.len() == 0 {
        assert(Seq::<PendingRenderable>::empty().push(x) =~= seq![x]);
        assert(seq![x].to_multiset() =~= Seq::<PendingRenderable>::empty().to_multiset().insert(x));
    } else if key_le(s.last(), x) {
        assert forall|i: int| 0 <= i < s.len() implies key_le(#[trigger] s[i], x) by {
            if i < s.len() - 1 {
                assert(key_le(s[i], s[s.len() - 1]));
            }
        }
        assert(sorted_by_key(t));
    } else {
        let d = s.drop_last();
        assert(forall|i: int, j: int| 0 <= i < j < d.len() ==> key_le(#[trigger] d[i], #[trigger] d[j]));
        lemma_insert_sorted_props(d, x);
        let u = spec_insert_sorted(d, x);
        // every element of u is either from d or is x, and both precede s.last()
        assert forall|i: int| 0 <= i < u.len() implies key_le(#[trigger] u[i], s.last()) by {
            assert(u.to_multiset().contains(u[i]));
            if u[i] != x {
                assert(d.to_multiset().contains(u[i]));
                let j = choose|j: int| 0 <= j < d.len() && d[j] == u[i];
                assert(key_le(s[j], s.last()));
            }
        }
        assert(sorted_by_key(t)) by {
            assert(forall|i: int| 0 <= i < u.len() ==> #[trigger] t[i] == u[i]);
            assert(t.last() == s.last());
        }
        assert(s =~= d.push(s.last()));
        assert(t.to_multiset() =~= s.to_multiset().insert(x)) by {
            assert(t =~= u.push(s.last()));
            assert(t.to_multiset() =~= u.to_multiset().insert(s.last()));
            assert(s.to_multiset() =~= d.to_multiset().insert(s.last()));
        }
    }
}

/// The compositor's draw-order law: sorting the pending list loses and
/// invents nothing (same multiset), orders draws by ascending layer, and is
/// stable — items on the same layer stay in entity (drain) order, since the
/// order compares `(layer, entity)` lexicographically.
pub proof fn lemma_draw_order(s: Seq<PendingRenderable>)
    ensures
        sorted_by_key(spec_sort(s)),
        spec_sort(s).to_multiset() =~= s.to_multiset(),
        spec_sort(s).len() == s.len(),
    decreases s.len(),
{
    broadcast use group_to_multiset_ensures;

    if s.len() != 0 {
        let d = s.drop_last();
        lemma_draw_order(d);
        lemma_insert_sorted_props(spec_sort(d), s.last());
        assert(s =~= d.push(s.last()));
        assert(s.to_multiset() =~= d.to_multiset().insert(s.last()));
    }
}

proof fn lemma_insert_sorted_at(s: Seq<PendingRenderable>, x: PendingRenderable, j: int)
    requires
        sorted_by_key(s),
        0 <= j <= s.len(),
        forall|i: int| 0 <= i < j ==> key_le(#[trigger] s[i], x),
        forall|i: int| j <= i < s.len() ==> !key_le(#[trigger] s[i], x),
    ensures
        spec_insert_sorted(s, x) =~= s.take(j).push(x) + s.skip(j),
    decreases s.len(),
{
    if s.len() == 0 {
        assert(spec_insert_sorted(s, x) =~= s.take(j).push(x) + s.skip(j));
    } else if j == s.len() {
        assert(key_le(s.last(), x));
        assert(s.take(j) =~= s);
        assert(spec_insert_sorted(s, x) =~= s.take(j).push(x) + s.skip(j));
    } else {
        assert(!key_le(s[s.len() - 1], x));
        let d = s.drop_last();
        assert(forall|i: int| 0 <= i < d.len() ==> #[trigger] d[i] == s[i]);
        lemma_insert_sorted_at(d, x, j);
        assert(d.take(j) =~= s.take(j));
        assert(spec_insert_sorted(s, x) =~= s.take(j).push(x) + s.skip(j)) by {
            assert(spec_insert_sorted(s, x) == spec_insert_sorted(d, x).push(s.last()));
            assert(spec_insert_sorted(d, x) =~= d.take(j).push(x) + d.skip(j));
        }
    }
}

/// The components of the active camera, when the reference names an entity
/// that actually carries a camera and a position; otherwise the pass has no
/// camera and renders nothing.
pub open spec fn spec_active_camera(s: Seq<Entity>, active: ActiveCamera) -> Option<(Vec2, Zoom)> {
    match active.0 {
        None => None,
        Some(ci) => if ci < s.len() && s[ci as int].camera is Some && s[ci as int].position is Some {
            Some((s[ci as int].position.unwrap().0, s[ci as int].camera.unwrap().zoom))
        } else {
            None
        },
    }
}

fn find_active_camera(scene: &Scene, active: &ActiveCamera) -> (r: Option<(Vec2, Zoom)>)
    ensures
        r == spec_active_camera(scene.entities@, *active),
{
    match active.0 {
        None => None,
        Some(ci) => {
            if ci < scene.entities.len() {
                let e = &scene.entities[ci];
                match (e.camera, e.position) {
                    (Some(c), Some(p)) => Some((p.0, c.zoom)),
                    _ => None,
                }
            } else {
                None
            }
        }
    }
}

/// The placement rule for one drained renderable (spec side).
///
/// The entity's own `Position`, if any, supersedes the instruction's
/// destination; a UI-anchored entity is then placed purely from the
/// viewport and its anchor (camera ignored, origin offset left for the
/// surface to subtract), while a world entity is placed through the camera
/// transform and scaled by the camera zoom.
pub open spec fn spec_resolve(s: Seq<Entity>, p: PendingRenderable, cam_pos: Vec2, zoom: Zoom, screen: Vec2) -> DrawCall {
    let e = s[p.entity as int];
    let p0 = p.renderable.draw_param.unwrap_or(
        DrawParam { dest: Vec2 { x: 0, y: 0 }, scale: Vec2 { x: 1, y: 1 } },
    );
    let dest0 = match e.position {
        Some(pos) => pos.0,
        None => p0.dest,
    };
    match e.ui {
        Some(u) => {
            let a = u.anchor.unwrap_or(Anchor::Center);
            let ap = spec_anchor_position(a, Rect { x: 0, y: 0, w: screen.x, h: screen.y });
            DrawCall {
                instruction: p.renderable.instruction,
                dest: Vec2 { x: ap.0 as i64, y: ap.1 as i64 },
                scale: p0.scale,
                zoom: Zoom { num: 1, den: 1 },
                origin: u.origin,
            }
        },
        None => DrawCall {
            instruction: p.renderable.instruction,
            dest: Vec2 {
                x: spec_world_to_screen_axis(dest0.x as int, cam_pos.x as int, zoom.num as int, zoom.den as int, screen.x as int) as i64,
                y: spec_world_to_screen_axis(dest0.y as int, cam_pos.y as int, zoom.num as int, zoom.den as int, screen.y as int) as i64,
            },
            scale: p0.scale,
            zoom: zoom,
            origin: None,
        },
    }
}

/// The draw calls for a whole ordered list of pending renderables.
pub open spec fn spec_resolve_all(s: Seq<Entity>, items: Seq<PendingRenderable>, cam_pos: Vec2, zoom: Zoom, screen: Vec2) -> Seq<DrawCall>
    decreases items.len(),
{
    if items.len() == 0 {
        Seq::empty()
    } else {
        spec_resolve_all(s, items.drop_last(), cam_pos, zoom, screen)
            .push(spec_resolve(s, items.last(), cam_pos, zoom, screen))
    }
}

/// What the drain leaves behind: the same entities, renderables gone.
pub open spec fn spec_drained(s: Seq<Entity>) -> Seq<Entity> {
    Seq::new(s.len(), |i: int| with_renderable(s[i], None))
}

/// The draw calls one pass over a scene emits, in order.
pub open spec fn spec_render_pass(s: Seq<Entity>, active: ActiveCamera, screen: Vec2) -> Seq<DrawCall> {
    match spec_active_camera(s, active) {
        Some(cam) => spec_resolve_all(s, spec_sort(spec_pending(s)), cam.0, cam.1, screen),
        None => Seq::empty(),
    }
}

fn key_after(a: &PendingRenderable, x: &PendingRenderable) -> (r: bool)
    ensures
        r == !key_le(*a, *x),
{
    a.layer > x.layer || (a.layer == x.layer && a.entity > x.entity)
}

/// Items a drain can produce from a well-formed scene of `n` entities.
pub open spec fn item_wf(p: PendingRenderable, n: int) -> bool {
    &&& p.entity < n
    &&& (p.renderable.draw_param matches Some(dp) ==> dp.dest.in_range())
}

/// The compositing pass. If the active camera reference does not name an
/// entity with both a camera and a position, nothing is drawn and the scene
/// is left untouched. Otherwise every pending renderable is drained (each
/// frame starts the next accumulation empty), stably sorted by layer, and
/// resolved to a draw call; the calls come back in final draw order.
pub fn render_pass(scene: &mut Scene, active: &ActiveCamera, screen_size: &ScreenSize) -> (calls: Vec<DrawCall>)
    requires
        old(scene).wf(),
        screen_size.0.in_range(),
        screen_size.0.x >= 0,
        screen_size.0.y >= 0,
    ensures
        final(scene).wf(),
        calls@ =~= spec_render_pass(old(scene).entities@, *active, screen_size.0),
        (match spec_active_camera(old(scene).entities@, *active) {
            Some(cam) => final(scene).entities@ =~= spec_drained(old(scene).entities@),
            None => final(scene).entities@ == old(scene).entities@,
        }),
{
    let screen = screen_size.0;
    let cam = find_active_camera(scene, active);
    let (cam_pos, zoom) = match cam {
        None => {
            return Vec::new();
        },
        Some(c) => c,
    };
    let ghost s0 = scene.entities@;
    proof {
        let ghost ci = active.0.unwrap();
        assert(s0[ci as int].wf());
    }

    // 1. Drain: collect pending renderables in entity order, leaving none
    //    behind.
    let n = scene.entities.len();
    let mut pending: Vec<PendingRenderable> = Vec::new();
    let mut i: usize = 0;
    while i < n
        invariant
            n == scene.entities@.len(),
            s0.len() == n,
            i <= n,
            forall|j: int| 0 <= j < n ==> (#[trigger] s0[j]).wf(),
            forall|j: int| 0 <= j < i ==> #[trigger] scene.entities@[j] == with_renderable(s0[j], None),
            forall|j: int| i <= j < n ==> #[trigger] scene.entities@[j] == s0[j],
            pending@ =~= spec_pending(s0.take(i as int)),
            forall|j: int| 0 <= j < pending@.len() ==> item_wf(#[trigger] pending@[j], n as int),
        decreases n - i,
    {
        let mut tmp = Entity::empty();
        scene.entities.set_and_swap(i, &mut tmp);
        let r = tmp.renderable.take();
        let lay: i64 = match tmp.layer {
            Some(l) => l.0,
            None => 0,
        };
        proof {
            assert(s0.take(i + 1).drop_last() =~= s0.take(i as int));
            assert(s0.take(i + 1).last() == s0[i as int]);
        }
        match r {
            Some(r) => {
                pending.push(PendingRenderable { entity: i, layer: lay, renderable: r });
            },
            None => {},
        }
        scene.entities.set_and_swap(i, &mut tmp);
        i = i + 1;
    }
    proof {
        assert(s0.take(n as int) =~= s0);
        assert(scene.entities@ =~= spec_drained(s0));
    }

    // 2. Stable sort by layer: insertion sort against the lexicographic
    //    (layer, entity) order.
    let ghost pending0 = pending@;
    let plen = pending.len();
    let mut rev: Vec<PendingRenderable> = Vec::new();
    proof {
        assert(pending0.take(plen as int) =~= pending0);
    }
    while pending.len() > 0
        invariant
            pending0.len() == plen,
            pending@.len() + rev@.len() == plen,
            pending@ =~= pending0.take(pending@.len() as int),
            forall|j: int| 0 <= j < rev@.len() ==> #[trigger] rev@[j] == pending0[plen - 1 - j],
        decreases pending.len(),
    {
        proof {
            assert(pending0.take(pending@.len() as int).drop_last()
                =~= pending0.take(pending@.len() - 1));
        }
        let x = pending.pop().unwrap();
        rev.push(x);
    }
    let mut sorted_items: Vec<PendingRenderable> = Vec::new();
    while rev.len() > 0
        invariant
            rev@.len() <= plen,
            pending0.len() == plen,
            forall|j: int| 0 <= j < rev@.len() ==> #[trigger] rev@[j] == pending0[plen - 1 - j],
            forall|j: int| 0 <= j < pending0.len() ==> item_wf(#[trigger] pending0[j], n as int),
            sorted_items@ =~= spec_sort(pending0.take(plen - rev@.len())),
            sorted_by_key(sorted_items@),
            forall|j: int| 0 <= j < sorted_items@.len()
                ==> item_wf(#[trigger] sorted_items@[j], n as int),
        decreases rev.len(),
    {
        let ghost k = plen - rev@.len();
        let x = rev.pop().unwrap();
        proof {
            assert(x == pending0[k]);
            assert(item_wf(x, n as int));
        }
        // find the stable insertion point from the right
        let mut j: usize = sorted_items.len();
        while j > 0 && key_after(&sorted_items[j - 1], &x)
            invariant
                j <= sorted_items@.len(),
                sorted_by_key(sorted_items@),
                forall|l: int| j <= l < sorted_items@.len()
                    ==> !key_le(#[trigger] sorted_items@[l], x),
            decreases j,
        {
            j = j - 1;
        }
        proof {
            assert forall|l: int| 0 <= l < j implies key_le(#[trigger] sorted_items@[l], x) by {
                assert(key_le(sorted_items@[j - 1], x));
                if l < j - 1 {
                    assert(key_le(sorted_items@[l], sorted_items@[j - 1]));
                }
            }
            lemma_insert_sorted_at(sorted_items@, x, j as int);
            lemma_insert_sorted_props(sorted_items@, x);
        }
        let ghost before = sorted_items@;
        sorted_items.insert(j, x);
        proof {
            assert(sorted_items@ =~= before.take(j as int).push(x) + before.skip(j as int));
            assert(sorted_items@ =~= spec_insert_sorted(before, x));
            assert(pending0.take(k + 1).drop_last() =~= pending0.take(k));
            assert(pending0.take(k + 1).last() == pending0[k]);
            assert(sorted_items@ =~= spec_sort(pending0.take(k + 1)));
            assert forall|l: int| 0 <= l < sorted_items@.len()
                implies item_wf(#[trigger] sorted_items@[l], n as int) by {
                broadcast use group_to_multiset_ensures;
                assert(sorted_items@.to_multiset().contains(sorted_items@[l]));
                assert(spec_sort(pending0.take(k + 1)).to_multiset()
                    =~= pending0.take(k + 1).to_multiset()) by {
                    lemma_draw_order(pending0.take(k + 1));
                }
                let m = choose|m: int| 0 <= m < pending0.take(k + 1).len()
                    && #[trigger] pending0.take(k + 1)[m] == sorted_items@[l];
                assert(item_wf(pending0[m], n as int));
            }
        }
    }
    proof {
        assert(pending0.take(plen as int) =~= pending0);
    }

    // 3. Resolve placement in sorted order and emit the draw calls.
    let ghost sorted0 = sorted_items@;
    let slen = sorted_items.len();
    let mut srev: Vec<PendingRenderable> = Vec::new();
    proof {
        assert(sorted0.take(slen as int) =~= sorted0);
    }
    while sorted_items.len() > 0
        invariant
            sorted0.len() == slen,
            sorted_items@.len() + srev@.len() == slen,
            sorted_items@ =~= sorted0.take(sorted_items@.len() as int),
            forall|j: int| 0 <= j < srev@.len() ==> #[trigger] srev@[j] == sorted0[slen - 1 - j],
        decreases sorted_items.len(),
    {
        proof {
            assert(sorted0.take(sorted_items@.len() as int).drop_last()
                =~= sorted0.take(sorted_items@.len() - 1));
        }
        let x = sorted_items.pop().unwrap();
        srev.push(x);
    }
    let mut calls: Vec<DrawCall> = Vec::new();
    while srev.len() > 0
        invariant
            srev@.len() <= slen,
            sorted0.len() == slen,
            n == scene.entities@.len(),
            s0.len() == n,
            zoom.valid(),
            cam_pos.in_range(),
            screen == screen_size.0,
            screen.in_range(),
            screen.x >= 0,
            screen.y >= 0,
            forall|j: int| 0 <= j < n ==> #[trigger] scene.entities@[j] == with_renderable(s0[j], None),
            forall|j: int| 0 <= j < n ==> (#[trigger] s0[j]).wf(),
            forall|j: int| 0 <= j < srev@.len() ==> #[trigger] srev@[j] == sorted0[slen - 1 - j],
            forall|j: int| 0 <= j < sorted0.len() ==> item_wf(#[trigger] sorted0[j], n as int),
            calls@ =~= spec_resolve_all(s0, sorted0.take(slen - srev@.len()), cam_pos, zoom, screen),
        decreases srev.len(),
    {
        let ghost k = slen - srev@.len();
        let x = srev.pop().unwrap();
        proof {
            assert(x == sorted0[k]);
            assert(item_wf(x, n as int));
            assert(scene.entities@[x.entity as int] == with_renderable(s0[x.entity as int], None));
            assert(s0[x.entity as int].wf());
        }
        let e = &scene.entities[x.entity];
        let p0: DrawParam = match &x.renderable.draw_param {
            Some(dp) => *dp,
            None => DrawParam { dest: Vec2 { x: 0, y: 0 }, scale: Vec2 { x: 1, y: 1 } },
        };
        let dest0: Vec2 = match e.position {
            Some(pos) => pos.0,
            None => p0.dest,
        };
        let call = match e.ui {
            Some(u) => {
                let a = match u.anchor {
                    Some(a) => a,
                    None => Anchor::Center,
                };
                let dest = a.get_postion(Rect { x: 0, y: 0, w: screen.x, h: screen.y });
                DrawCall {
                    instruction: x.renderable.instruction,
                    dest,
                    scale: p0.scale,
                    zoom: Zoom { num: 1, den: 1 },
                    origin: u.origin,
                }
            },
            None => {
                let dest = world_to_screen(dest0, cam_pos, zoom, screen);
                DrawCall {
                    instruction: x.renderable.instruction,
                    dest,
                    scale: p0.scale,
                    zoom,
                    origin: None,
                }
            },
        };
        calls.push(call);
        proof {
            assert(sorted0.take(k + 1).drop_last() =~= sorted0.take(k));
            assert(sorted0.take(k + 1).last() == sorted0[k]);
            assert(calls@ =~= spec_resolve_all(s0, sorted0.take(k + 1), cam_pos, zoom, screen));
        }
    }
    proof {
        assert(sorted0.take(slen as int) =~= sorted0);
        assert(calls@ =~= spec_render_pass(s0, *active, screen));
        assert forall|j: int| 0 <= j < scene.entities@.len()
            implies (#[trigger] scene.entities@[j]).wf() by {
            assert(scene.entities@[j] == with_renderable(s0[j], None));
            assert(s0[j].wf());
        }
    }
    calls
}

/// Drain idempotence: a scene the pass has just drained has nothing
/// pending, so a second pass — with no renderables re-attached in between —
/// resolves to an empty draw list, whatever the camera and viewport.
pub proof fn lemma_drain_idempotent(s: Seq<Entity>, cam_pos: Vec2, zoom: Zoom, screen: Vec2)
    requires
        forall|i: int| 0 <= i < s.len() ==> (#[trigger] s[i]).renderable is None,
    ensures
        spec_pending(s) =~= Seq::<PendingRenderable>::empty(),
        spec_resolve_all(s, spec_sort(spec_pending(s)), cam_pos, zoom, screen)
            =~= Seq::<DrawCall>::empty(),
    decreases s.len(),
{
    if s.len() != 0 {
        let d = s.drop_last();
        assert(forall|i: int| 0 <= i < d.len() ==> #[trigger] d[i] == s[i]);
        lemma_drain_idempotent(d, cam_pos, zoom, screen);
    }
}

} // verus!
