//! The per-frame entity store: one record per entity holding its optional
//! components, the explicit table design behind the compositor and the
//! frame systems.

use vstd::prelude::*;
use crate::camera::Camera;
use crate::overlay::{ColumnGraph, Text};
use crate::render::{Layer, Position, Renderable, UiElement};

verus! {

/// One entity's components; `None` (or `false` for markers) means the
/// entity does not carry that component.
#[derive(Clone, Debug)]
pub struct Entity {
    pub renderable: Option<Renderable>,
    pub position: Option<Position>,
    pub ui: Option<UiElement>,
    pub layer: Option<Layer>,
    pub camera: Option<Camera>,
    pub text: Option<Text>,
    pub column_graph: Option<ColumnGraph>,
    pub fps_display: bool,
    pub fps_counter: bool,
    pub performance_graph: bool,
}

/// The same entity with its renderable replaced.
pub open spec fn with_renderable(e: Entity, r: Option<Renderable>) -> Entity {
    Entity {
        renderable: r,
        position: e.position,
        ui: e.ui,
        layer: e.layer,
        camera: e.camera,
        text: e.text,
        column_graph: e.column_graph,
        fps_display: e.fps_display,
        fps_counter: e.fps_counter,
        performance_graph: e.performance_graph,
    }
}

/// The same entity with its camera replaced.
pub open spec fn with_camera(e: Entity, c: Option<Camera>) -> Entity {
    Entity {
        renderable: e.renderable,
        position: e.position,
        ui: e.ui,
        layer: e.layer,
        camera: c,
        text: e.text,
        column_graph: e.column_graph,
        fps_display: e.fps_display,
        fps_counter: e.fps_counter,
        performance_graph: e.performance_graph,
    }
}

/// The same entity with its position replaced.
pub open spec fn with_position(e: Entity, p: Option<Position>) -> Entity {
    Entity {
        renderable: e.renderable,
        position: p,
        ui: e.ui,
        layer: e.layer,
        camera: e.camera,
        text: e.text,
        column_graph: e.column_graph,
        fps_display: e.fps_display,
        fps_counter: e.fps_counter,
        performance_graph: e.performance_graph,
    }
}

/// The same entity with its column graph replaced.
pub open spec fn with_column_graph(e: Entity, g: Option<ColumnGraph>) -> Entity {
    Entity {
        renderable: e.renderable,
        position: e.position,
        ui: e.ui,
        layer: e.layer,
        camera: e.camera,
        text: e.text,
        column_graph: g,
        fps_display: e.fps_display,
        fps_counter: e.fps_counter,
        performance_graph: e.performance_graph,
    }
}

/// The same entity with its text replaced.
pub open spec fn with_text(e: Entity, t: Option<Text>) -> Entity {
    Entity {
        renderable: e.renderable,
        position: e.position,
        ui: e.ui,
        layer: e.layer,
        camera: e.camera,
        text: t,
        column_graph: e.column_graph,
        fps_display: e.fps_display,
        fps_counter: e.fps_counter,
        performance_graph: e.performance_graph,
    }
}

impl Entity {
    /// The bounds every stored component obeys, so the compositor's
    /// arithmetic stays exact: positions and destinations within the
    /// coordinate range, a valid camera zoom, a well-formed column graph.
    pub open spec fn wf(self) -> bool {
        &&& (self.position matches Some(p) ==> p.0.in_range())
        &&& (self.camera matches Some(c) ==> c.zoom.valid())
        &&& (self.renderable matches Some(r)
            ==> (r.draw_param matches Some(dp) ==> dp.dest.in_range()))
        &&& (self.column_graph matches Some(g) ==> g.wf())
    }

    /// An entity with no components at all.
    pub fn empty() -> (r: Entity)
        ensures
            r == spec_empty_entity(),
    {
        Entity {
            renderable: None,
            position: None,
            ui: None,
            layer: None,
            camera: None,
            text: None,
            column_graph: None,
            fps_display: false,
            fps_counter: false,
            performance_graph: false,
        }
    }
}

/// The componentless entity `Entity::empty` returns.
pub open spec fn spec_empty_entity() -> Entity {
    Entity {
        renderable: None,
        position: None,
        ui: None,
        layer: None,
        camera: None,
        text: None,
        column_graph: None,
        fps_display: false,
        fps_counter: false,
        performance_graph: false,
    }
}

/// A reference to the entity currently used as the viewing camera; at most
/// one per scene, and `None` means nothing is rendered.
#[derive(Clone, Copy, Debug, PartialEq, Eq, Structural)]
pub struct ActiveCamera(pub Option<usize>);

impl Default for ActiveCamera {
    fn default() -> (r: ActiveCamera)
        ensures
            r.0 is None,
    {
        ActiveCamera(None)
    }
}

/// All entities of the world, indexed by their id in creation order.
pub struct Scene {
    pub entities: Vec<Entity>,
}

impl Scene {
    /// Every entity is within the library's bounds.
    pub open spec fn wf(self) -> bool {
        forall|i: int| 0 <= i < self.entities@.len() ==> (#[trigger] self.entities@[i]).wf()
    }

    /// An empty scene.
    pub fn new() -> (r: Scene)
        ensures
            r.wf(),
            r.entities@ =~= Seq::<Entity>::empty(),
    {
        Scene { entities: Vec::new() }
    }

    /// Adds an entity and returns its id.
    pub fn add_entity(&mut self, e: Entity) -> (id: usize)
        requires
            e.wf(),
            old(self).wf(),
        ensures
            final(self).wf(),
            final(self).entities@ =~= old(self).entities@.push(e),
            id == old(self).entities@.len(),
    {
        let id = self.entities.len();
        self.entities.push(e);
        id
    }

    /// Replaces entity `id`'s renderable, leaving its other components as
    /// they are.
    pub fn set_renderable(&mut self, id: usize, r: Option<Renderable>)
        requires
            old(self).wf(),
            id < old(self).entities@.len(),
            (r matches Some(rr) ==> (rr.draw_param matches Some(dp) ==> dp.dest.in_range())),
        ensures
            final(self).wf(),
            final(self).entities@
                =~= old(self).entities@.update(id as int, with_renderable(old(self).entities@[id as int], r)),
    {
        let mut tmp = Entity::empty();
        self.entities.set_and_swap(id, &mut tmp);
        tmp.renderable = r;
        self.entities.set_and_swap(id, &mut tmp);
    }
}

} // verus!
