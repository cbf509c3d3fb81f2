//! The per-frame update systems: renderer systems that re-attach render
//! instructions, the camera's scroll-zoom and mouse-pan systems, and the
//! overlay updaters. Each walks the scene once and touches exactly the
//! entities that carry its components.

use vstd::prelude::*;
use crate::camera::{apply_scroll, pan_position, spec_pan_delta_axis, spec_zoom_scrolled};
use crate::geom::{COORD_LIMIT, Vec2, clamp_coord, spec_clamp_coord};
use crate::input::{InputResource, MouseMotion, MouseWheel, spec_is_down};
use crate::overlay::{
    ColumnGraph, Text, UpdateFpsDisplay, column_graph_renderable, spec_column_sprites,
    spec_window_step, text_renderable,
};
use crate::render::{ImageBuilder, Color, RenderInstruction};
use crate::scene::{
    Entity, Scene, with_camera, with_column_graph, with_position, with_renderable, with_text,
};

verus! {

/// What the text renderer does to one entity: an entity with a `Text`
/// component gets a fresh text renderable (and nothing else changes);
/// every other entity is untouched.
pub open spec fn text_rendered_rel(e0: Entity, e1: Entity) -> bool {
    match e0.text {
        Some(t) => {
            &&& e1 == with_renderable(e0, e1.renderable)
            &&& (e1.renderable matches Some(r) && r.draw_param is None
                && (r.instruction matches RenderInstruction::Text { text, font, scale }
                    && text@ == t.text@ && font@ == t.font@ && scale == t.scale))
        },
        None => e1 == e0,
    }
}

/// Re-attaches a text renderable to every entity carrying a `Text`
/// component, so it is drawn this frame.
pub fn run_text_renderer(scene: &mut Scene)
    requires
        old(scene).wf(),
    ensures
        final(scene).wf(),
        final(scene).entities@.len() == old(scene).entities@.len(),
        forall|i: int| 0 <= i < old(scene).entities@.len()
            ==> text_rendered_rel(old(scene).entities@[i], #[trigger] final(scene).entities@[i]),
{
    let ghost s0 = scene.entities@;
    let n = scene.entities.len();
    let mut i: usize = 0;
    while i < n
        invariant
            n == scene.entities@.len(),
            s0.len() == n,
            i <= n,
            forall|j: int| 0 <= j < n ==> (#[trigger] s0[j]).wf(),
            forall|j: int| 0 <= j < i
                ==> text_rendered_rel(s0[j], #[trigger] scene.entities@[j])
                    && scene.entities@[j].wf(),
            forall|j: int| i <= j < n ==> #[trigger] scene.entities@[j] == s0[j],
        decreases n - i,
    {
        let r_opt = match &scene.entities[i].text {
            Some(t) => Some(text_renderable(t)),
            None => None,
        };
        match r_opt {
            Some(r) => {
                let mut tmp = Entity::empty();
                scene.entities.set_and_swap(i, &mut tmp);
                tmp.renderable = Some(r);
                scene.entities.set_and_swap(i, &mut tmp);
            },
            None => {},
        }
        i = i + 1;
    }
}

/// What the column-graph renderer does to one entity: an entity with a
/// `ColumnGraph` gets a sprite-batch renderable of its columns; every other
/// entity is untouched.
pub open spec fn column_graph_rendered_rel(e0: Entity, e1: Entity) -> bool {
    match e0.column_graph {
        Some(g) => {
            &&& e1 == with_renderable(e0, e1.renderable)
            &&& (e1.renderable matches Some(r) && r.draw_param is None
                && (r.instruction matches RenderInstruction::SpriteBatch { image_builder, sprites }
                    && image_builder == (ImageBuilder::Solid {
                        size: 1u16,
                        color: Color { r: 0u8, g: 0u8, b: 0u8, a: 255u8 },
                    })
                    && sprites@ =~= spec_column_sprites(g.columns@, g.size as int)))
        },
        None => e1 == e0,
    }
}

/// Re-attaches a column-graph renderable to every entity carrying a
/// `ColumnGraph`, so its current window is drawn this frame.
pub fn run_column_graph_renderer(scene: &mut Scene)
    requires
        old(scene).wf(),
    ensures
        final(scene).wf(),
        final(scene).entities@.len() == old(scene).entities@.len(),
        forall|i: int| 0 <= i < old(scene).entities@.len()
            ==> column_graph_rendered_rel(old(scene).entities@[i], #[trigger] final(scene).entities@[i]),
{
    let ghost s0 = scene.entities@;
    let n = scene.entities.len();
    let mut i: usize = 0;
    while i < n
        invariant
            n == scene.entities@.len(),
            s0.len() == n,
            i <= n,
            forall|j: int| 0 <= j < n ==> (#[trigger] s0[j]).wf(),
            forall|j: int| 0 <= j < i
                ==> column_graph_rendered_rel(s0[j], #[trigger] scene.entities@[j])
                    && scene.entities@[j].wf(),
            forall|j: int| i <= j < n ==> #[trigger] scene.entities@[j] == s0[j],
        decreases n - i,
    {
        let r_opt = match &scene.entities[i].column_graph {
            Some(g) => Some(column_graph_renderable(g)),
            None => None,
        };
        match r_opt {
            Some(r) => {
                let mut tmp = Entity::empty();
                scene.entities.set_and_swap(i, &mut tmp);
                tmp.renderable = Some(r);
                scene.entities.set_and_swap(i, &mut tmp);
            },
            None => {},
        }
        i = i + 1;
    }
}

/// A frame-time sample clamped into the coordinate range, so the column it
/// becomes can always be drawn.
pub open spec fn spec_clamped_sample(delta_ms: u64) -> u64 {
    if delta_ms > COORD_LIMIT as u64 {
        COORD_LIMIT as u64
    } else {
        delta_ms
    }
}

/// What a frame-time sampler does to one entity: the marked entities'
/// column graphs take the sample (evicting the oldest when full); every
/// other entity is untouched. `marked` selects which marker component the
/// system targets.
pub open spec fn sample_recorded_rel(e0: Entity, e1: Entity, marked: bool, sample: u64) -> bool {
    match e0.column_graph {
        Some(g) => if marked {
            &&& e1 == with_column_graph(e0, e1.column_graph)
            &&& (e1.column_graph matches Some(g1)
                && g1.columns@ =~= spec_window_step(g.columns@, sample)
                && g1.size == g.size)
        } else {
            e1 == e0
        },
        None => e1 == e0,
    }
}

fn record_samples(scene: &mut Scene, delta_ms: u64, use_performance_marker: bool)
    requires
        old(scene).wf(),
    ensures
        final(scene).wf(),
        final(scene).entities@.len() == old(scene).entities@.len(),
        forall|i: int| 0 <= i < old(scene).entities@.len()
            ==> sample_recorded_rel(
                old(scene).entities@[i],
                #[trigger] final(scene).entities@[i],
                if use_performance_marker {
                    old(scene).entities@[i].performance_graph
                } else {
                    old(scene).entities@[i].fps_counter
                },
                spec_clamped_sample(delta_ms),
            ),
{
    let sample: u64 = if delta_ms > COORD_LIMIT as u64 {
        COORD_LIMIT as u64
    } else {
        delta_ms
    };
    let ghost s0 = scene.entities@;
    let n = scene.entities.len();
    let mut i: usize = 0;
    while i < n
        invariant
            n == scene.entities@.len(),
            s0.len() == n,
            i <= n,
            sample == spec_clamped_sample(delta_ms),
            forall|j: int| 0 <= j < n ==> (#[trigger] s0[j]).wf(),
            forall|j: int| 0 <= j < i
                ==> sample_recorded_rel(
                    s0[j],
                    #[trigger] scene.entities@[j],
                    if use_performance_marker { s0[j].performance_graph } else { s0[j].fps_counter },
                    sample,
                ) && scene.entities@[j].wf(),
            forall|j: int| i <= j < n ==> #[trigger] scene.entities@[j] == s0[j],
        decreases n - i,
    {
        let e = &scene.entities[i];
        let marked = if use_performance_marker {
            e.performance_graph
        } else {
            e.fps_counter
        };
        let has_graph = e.column_graph.is_some();
        if marked && has_graph {
            let mut tmp = Entity::empty();
            scene.entities.set_and_swap(i, &mut tmp);
            match &mut tmp.column_graph {
                Some(g) => {
                    g.record(sample);
                },
                None => {},
            }
            scene.entities.set_and_swap(i, &mut tmp);
        }
        i = i + 1;
    }
}

/// The FPS counter's sampler: appends the frame time in milliseconds to
/// the column graph of every entity marked `fps_counter`.
pub fn run_update_fps(scene: &mut Scene, delta_ms: u64)
    requires
        old(scene).wf(),
    ensures
        final(scene).wf(),
        final(scene).entities@.len() == old(scene).entities@.len(),
        forall|i: int| 0 <= i < old(scene).entities@.len()
            ==> sample_recorded_rel(
                old(scene).entities@[i],
                #[trigger] final(scene).entities@[i],
                old(scene).entities@[i].fps_counter,
                spec_clamped_sample(delta_ms),
            ),
{
    record_samples(scene, delta_ms, false);
}

/// The performance graph's sampler: appends the frame time in milliseconds
/// to the column graph of every entity marked `performance_graph`.
pub fn run_update_performance_graph(scene: &mut Scene, delta_ms: u64)
    requires
        old(scene).wf(),
    ensures
        final(scene).wf(),
        final(scene).entities@.len() == old(scene).entities@.len(),
        forall|i: int| 0 <= i < old(scene).entities@.len()
            ==> sample_recorded_rel(
                old(scene).entities@[i],
                #[trigger] final(scene).entities@[i],
                old(scene).entities@[i].performance_graph,
                spec_clamped_sample(delta_ms),
            ),
{
    record_samples(scene, delta_ms, true);
}

/// Scroll ticks clamped to the range one `apply_scroll` call accepts.
pub open spec fn spec_clamped_ticks(y: int) -> int {
    if y > 0x10000 {
        0x10000
    } else if y < -0x10000 {
        -0x10000
    } else {
        y
    }
}

/// What the scroll-zoom system does to one entity: every camera's zoom is
/// scrolled by the wheel's vertical delta; everything else is untouched.
pub open spec fn scroll_zoomed_rel(e0: Entity, e1: Entity, ticks: int) -> bool {
    match e0.camera {
        Some(c) => {
            &&& e1 == with_camera(e0, e1.camera)
            &&& (e1.camera matches Some(c1) && c1.zoom == spec_zoom_scrolled(c.zoom, ticks))
        },
        None => e1 == e0,
    }
}

/// The scroll-wheel zoom system: a pending wheel delta with a nonzero
/// vertical component multiplies every camera's zoom by the per-tick ratio
/// raised to that many ticks; a purely horizontal scroll (or none) changes
/// nothing.
pub fn run_scroll_zoom(scene: &mut Scene, wheel: &MouseWheel)
    requires
        old(scene).wf(),
    ensures
        final(scene).wf(),
        final(scene).entities@.len() == old(scene).entities@.len(),
        (match wheel.0 {
            Some(w) => if w.y != 0 {
                forall|i: int| 0 <= i < old(scene).entities@.len()
                    ==> scroll_zoomed_rel(
                        old(scene).entities@[i],
                        #[trigger] final(scene).entities@[i],
                        spec_clamped_ticks(w.y as int),
                    )
            } else {
                final(scene).entities@ == old(scene).entities@
            },
            None => final(scene).entities@ == old(scene).entities@,
        }),
{
    let w = match wheel.0 {
        Some(w) => w,
        None => {
            return ;
        },
    };
    // The wheel delta can be 0 in y if the user scrolls horizontally.
    if w.y == 0 {
        return ;
    }
    let ticks: i64 = if w.y > 0x10000 {
        0x10000
    } else if w.y < -0x10000 {
        -0x10000
    } else {
        w.y
    };
    let ghost s0 = scene.entities@;
    let n = scene.entities.len();
    let mut i: usize = 0;
    while i < n
        invariant
            n == scene.entities@.len(),
            s0.len() == n,
            i <= n,
            ticks == spec_clamped_ticks(w.y as int),
            -0x10000 <= ticks <= 0x10000,
            forall|j: int| 0 <= j < n ==> (#[trigger] s0[j]).wf(),
            forall|j: int| 0 <= j < i
                ==> scroll_zoomed_rel(s0[j], #[trigger] scene.entities@[j], ticks as int)
                    && scene.entities@[j].wf(),
            forall|j: int| i <= j < n ==> #[trigger] scene.entities@[j] == s0[j],
        decreases n - i,
    {
        if scene.entities[i].camera.is_some() {
            let mut tmp = Entity::empty();
            scene.entities.set_and_swap(i, &mut tmp);
            match &mut tmp.camera {
                Some(c) => {
                    apply_scroll(c, ticks);
                },
                None => {},
            }
            scene.entities.set_and_swap(i, &mut tmp);
        }
        i = i + 1;
    }
}

/// What the mouse-pan system does to one entity: an entity with both a
/// camera and a position has its position moved opposite the drag, divided
/// by its zoom; everything else is untouched.
pub open spec fn panned_rel(e0: Entity, e1: Entity, motion: Vec2) -> bool {
    match (e0.camera, e0.position) {
        (Some(c), Some(p)) => {
            &&& e1 == with_position(e0, e1.position)
            &&& (e1.position matches Some(p1)
                && p1.0.x == spec_clamp_coord(
                    p.0.x - spec_pan_delta_axis(
                        spec_clamp_coord(motion.x as int),
                        c.zoom.num as int,
                        c.zoom.den as int,
                    ))
                && p1.0.y == spec_clamp_coord(
                    p.0.y - spec_pan_delta_axis(
                        spec_clamp_coord(motion.y as int),
                        c.zoom.num as int,
                        c.zoom.den as int,
                    )))
        },
        _ => e1 == e0,
    }
}

/// The middle-button pan system: while the pan button is down, a pending
/// mouse-motion delta drags every camera's world position opposite the
/// motion, scaled down by that camera's zoom.
pub fn run_mouse_pan(scene: &mut Scene, buttons: &InputResource, pan_button: u64, motion: &MouseMotion)
    requires
        old(scene).wf(),
        buttons.wf(),
    ensures
        final(scene).wf(),
        final(scene).entities@.len() == old(scene).entities@.len(),
        (if spec_is_down(buttons@, pan_button) && motion.0 is Some {
            forall|i: int| 0 <= i < old(scene).entities@.len()
                ==> panned_rel(
                    old(scene).entities@[i],
                    #[trigger] final(scene).entities@[i],
                    motion.0.unwrap(),
                )
        } else {
            final(scene).entities@ == old(scene).entities@
        }),
{
    if !buttons.is_down(pan_button) {
        return ;
    }
    let m = match motion.0 {
        Some(m) => m,
        None => {
            return ;
        },
    };
    let clamped = Vec2 { x: clamp_coord(m.x), y: clamp_coord(m.y) };
    let ghost s0 = scene.entities@;
    let n = scene.entities.len();
    let mut i: usize = 0;
    while i < n
        invariant
            n == scene.entities@.len(),
            s0.len() == n,
            i <= n,
            clamped.x == spec_clamp_coord(m.x as int),
            clamped.y == spec_clamp_coord(m.y as int),
            clamped.in_range(),
            forall|j: int| 0 <= j < n ==> (#[trigger] s0[j]).wf(),
            forall|j: int| 0 <= j < i
                ==> panned_rel(s0[j], #[trigger] scene.entities@[j], m)
                    && scene.entities@[j].wf(),
            forall|j: int| i <= j < n ==> #[trigger] scene.entities@[j] == s0[j],
        decreases n - i,
    {
        let e = &scene.entities[i];
        if e.camera.is_some() && e.position.is_some() {
            let zoom = match e.camera {
                Some(c) => c.zoom,
                None => crate::camera::Zoom { num: 1, den: 1 },
            };
            let mut tmp = Entity::empty();
            scene.entities.set_and_swap(i, &mut tmp);
            match &mut tmp.position {
                Some(p) => {
                    pan_position(&mut p.0, clamped, zoom);
                },
                None => {},
            }
            scene.entities.set_and_swap(i, &mut tmp);
        }
        i = i + 1;
    }
}

/// The decimal digits of a number, most significant first.
pub open spec fn spec_digits(n: nat) -> Seq<char>
    decreases n,
{
    if n < 10 {
        seq![spec_digit_char(n)]
    } else {
        spec_digits(n / 10).push(spec_digit_char(n % 10))
    }
}

/// The character for one decimal digit.
pub open spec fn spec_digit_char(d: nat) -> char {
    if d == 0 {
        '0'
    } else if d == 1 {
        '1'
    } else if d == 2 {
        '2'
    } else if d == 3 {
        '3'
    } else if d == 4 {
        '4'
    } else if d == 5 {
        '5'
    } else if d == 6 {
        '6'
    } else if d == 7 {
        '7'
    } else if d == 8 {
        '8'
    } else {
        '9'
    }
}

/// A rate in tenths rendered with one decimal place: `605` becomes `60.5`.
pub open spec fn spec_tenths_text(tenths: nat) -> Seq<char> {
    spec_digits(tenths / 10) + seq!['.', spec_digit_char(tenths % 10)]
}

/// Relies on alloc's `format!` to print `u64` values in decimal; the
/// whole-part digits and the single tenths digit are joined with a dot.
#[verifier::external_body]
fn format_tenths(tenths: u64) -> (r: String)
    ensures
        r@ == spec_tenths_text(tenths as nat),
{
    format!("{}.{}", tenths / 10, tenths % 10)
}

/// What publishing a new frame rate does to one entity: an entity marked
/// `fps_display` with a `Text` component has its text replaced by the rate
/// with one decimal place; everything else is untouched.
pub open spec fn fps_text_rel(e0: Entity, e1: Entity, tenths: nat) -> bool {
    match e0.text {
        Some(t) => if e0.fps_display {
            &&& e1 == with_text(e0, e1.text)
            &&& (e1.text matches Some(t1)
                && t1.text@ == spec_tenths_text(tenths)
                && t1.font@ == t.font@
                && t1.scale == t.scale)
        } else {
            e1 == e0
        },
        None => e1 == e0,
    }
}

/// The FPS display system: counts the frame and, once the update interval
/// has elapsed, writes the smoothed frame rate into the text of every
/// entity marked `fps_display`. Returns the published rate in tenths when
/// an update happened, so the caller knows to reset its elapsed clock.
pub fn run_update_fps_display(
    display: &mut UpdateFpsDisplay,
    elapsed_ms: u64,
    scene: &mut Scene,
) -> (published: Option<u64>)
    requires
        old(scene).wf(),
    ensures
        final(scene).wf(),
        final(scene).entities@.len() == old(scene).entities@.len(),
        ({
            let f: nat = if old(display).frames_since_last_update == u64::MAX {
                u64::MAX as nat
            } else {
                (old(display).frames_since_last_update + 1) as nat
            };
            if elapsed_ms > crate::overlay::FPS_UPDATE_INTERVAL_MS {
                &&& published == Some(crate::overlay::spec_fps_tenths(f, elapsed_ms as nat) as u64)
                &&& final(display).frames_since_last_update == 0
                &&& forall|i: int| 0 <= i < old(scene).entities@.len()
                    ==> fps_text_rel(
                        old(scene).entities@[i],
                        #[trigger] final(scene).entities@[i],
                        published.unwrap() as nat,
                    )
            } else {
                &&& published is None
                &&& final(display).frames_since_last_update == f
                &&& final(scene).entities@ == old(scene).entities@
            }
        }),
{
    let tenths = match display.tick(elapsed_ms) {
        Some(t) => t,
        None => {
            return None;
        },
    };
    let rendered = format_tenths(tenths);
    let ghost s0 = scene.entities@;
    let n = scene.entities.len();
    let mut i: usize = 0;
    while i < n
        invariant
            n == scene.entities@.len(),
            s0.len() == n,
            i <= n,
            rendered@ == spec_tenths_text(tenths as nat),
            forall|j: int| 0 <= j < n ==> (#[trigger] s0[j]).wf(),
            forall|j: int| 0 <= j < i
                ==> fps_text_rel(s0[j], #[trigger] scene.entities@[j], tenths as nat)
                    && scene.entities@[j].wf(),
            forall|j: int| i <= j < n ==> #[trigger] scene.entities@[j] == s0[j],
        decreases n - i,
    {
        let e = &scene.entities[i];
        if e.fps_display && e.text.is_some() {
            let mut tmp = Entity::empty();
            scene.entities.set_and_swap(i, &mut tmp);
            let new_text = match tmp.text {
                Some(t) => Some(Text { text: rendered.clone(), font: t.font, scale: t.scale }),
                None => None,
            };
            tmp.text = new_text;
            scene.entities.set_and_swap(i, &mut tmp);
        }
        i = i + 1;
    }
    Some(tenths)
}

} // verus!
