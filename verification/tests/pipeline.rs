use planet::camera::{world_to_screen, screen_to_world, zoom_in, zoom_out, apply_scroll, Camera, Zoom};
use planet::compositor::{render_pass, DrawCall};
use planet::geom::{Rect, Vec2};
use planet::input::{InputResource, MouseMotion, MouseWheel};
use planet::overlay::{ColumnGraph, Text, UpdateFpsDisplay, COLUMNS};
use planet::render::{
    Anchor, Color, DrawParam, Fonts, ImageBuilder, Layer, Position, Renderable,
    RenderInstruction, ScreenSize, UiElement,
};
use planet::scene::{ActiveCamera, Entity, Scene};
use planet::systems::{
    run_column_graph_renderer, run_mouse_pan, run_scroll_zoom, run_text_renderer,
    run_update_fps, run_update_fps_display,
};

fn screen() -> ScreenSize {
    ScreenSize(Vec2 { x: 800, y: 600 })
}

fn camera_entity() -> Entity {
    let mut e = Entity::empty();
    e.camera = Some(Camera::default());
    e.position = Some(Position(Vec2 { x: 0, y: 0 }));
    e
}

fn solid_renderable(size: u16) -> Renderable {
    Renderable {
        instruction: RenderInstruction::Image(ImageBuilder::Solid { size, color: Color::black() }),
        draw_param: None,
    }
}

fn solid_size(call: &DrawCall) -> u16 {
    match &call.instruction {
        RenderInstruction::Image(ImageBuilder::Solid { size, .. }) => *size,
        _ => panic!("expected a solid image instruction"),
    }
}

#[test]
fn transform_round_trip_integer_zoom() {
    let p = Vec2 { x: 123, y: -456 };
    let c = Vec2 { x: 10, y: 20 };
    let zoom = Zoom { num: 2, den: 1 };
    let s = Vec2 { x: 800, y: 600 };
    let q = world_to_screen(p, c, zoom, s);
    assert_eq!(screen_to_world(q, c, zoom, s), p);
}

#[test]
fn transform_round_trip_fractional_zoom_on_even_offsets() {
    // zoom 1/2: offsets divisible by 2 survive the round trip exactly
    let p = Vec2 { x: 124, y: -456 };
    let c = Vec2 { x: 10, y: 20 };
    let zoom = Zoom { num: 1, den: 2 };
    let s = Vec2 { x: 800, y: 600 };
    let q = world_to_screen(p, c, zoom, s);
    assert_eq!(screen_to_world(q, c, zoom, s), p);
}

#[test]
fn transform_formula_exact() {
    // (10 - 0) * 2 + 800/2 = 420, (20 - 0) * 2 + 600/2 = 340
    let q = world_to_screen(
        Vec2 { x: 10, y: 20 },
        Vec2 { x: 0, y: 0 },
        Zoom { num: 2, den: 1 },
        Vec2 { x: 800, y: 600 },
    );
    assert_eq!(q, Vec2 { x: 420, y: 340 });
}

#[test]
fn input_lifecycle() {
    let sym = 42u64;
    let mut keys = InputResource::default();
    assert!(!keys.is_down(sym));

    keys.record_down(sym);
    assert!(keys.is_pressed(sym));
    assert!(keys.is_down(sym));
    assert!(!keys.is_held(sym));
    assert!(!keys.is_released(sym));

    keys.update();
    assert!(keys.is_held(sym));
    assert!(keys.is_down(sym));
    assert!(!keys.is_pressed(sym));

    keys.update();
    assert!(keys.is_held(sym));

    keys.record_up(sym);
    assert!(keys.is_released(sym));
    assert!(!keys.is_down(sym));

    keys.update();
    assert!(!keys.is_down(sym));
    assert!(!keys.is_released(sym));
}

#[test]
fn input_down_overwrites_released() {
    let sym = 7u64;
    let mut keys = InputResource::default();
    keys.record_down(sym);
    keys.record_up(sym);
    keys.record_down(sym);
    assert!(keys.is_pressed(sym));
    keys.update();
    assert!(keys.is_held(sym));
}

#[test]
fn mouse_motion_accumulates_and_clears() {
    let mut motion = MouseMotion::default();
    motion.accumulate(Some(Vec2 { x: 3, y: -4 }));
    motion.accumulate(Some(Vec2 { x: 10, y: 1 }));
    assert_eq!(motion.0, Some(Vec2 { x: 13, y: -3 }));
    motion.accumulate(None);
    assert_eq!(motion.0, None);
}

#[test]
fn rolling_window_is_bounded_and_keeps_last_samples() {
    let mut graph = ColumnGraph::new(5);
    // append COLUMNS + 7 samples
    for i in 0..(COLUMNS + 7) {
        graph.record(i as u64);
    }
    assert_eq!(graph.columns.len(), COLUMNS);
    // the window is the last COLUMNS appended values, in append order
    for (j, v) in graph.columns.iter().enumerate() {
        assert_eq!(*v, (7 + j) as u64);
    }
}

#[test]
fn anchors_at_800_by_600() {
    let bounds = Rect { x: 0, y: 0, w: 800, h: 600 };
    assert_eq!(Anchor::TopLeft.get_postion(bounds), Vec2 { x: 0, y: 0 });
    assert_eq!(Anchor::BottomRight.get_postion(bounds), Vec2 { x: 800, y: 600 });
    assert_eq!(Anchor::Center.get_postion(bounds), Vec2 { x: 400, y: 300 });
}

#[test]
fn zoom_in_then_out_restores_identity() {
    let z = Zoom { num: 1, den: 1 };
    let z2 = zoom_in(z);
    assert_eq!(z2, Zoom { num: 11, den: 10 });
    let z3 = zoom_out(z2);
    assert_eq!(z3, Zoom { num: 1, den: 1 });
}

#[test]
fn zoom_stays_positive_under_any_scrolling() {
    let mut cam = Camera::default();
    for delta in [-3i64, 5, -40, 0, 1, -1, 7, -200, 12000, -12000] {
        apply_scroll(&mut cam, delta);
        assert!(cam.zoom.num >= 1);
        assert!(cam.zoom.den >= 1);
    }
}

#[test]
fn font_lookup_falls_back_to_default() {
    let mut fonts = Fonts::new(0);
    fonts.add(String::from("roboto"), 3);
    assert_eq!(fonts.resolve(&String::from("roboto")), 3);
    // an unknown name substitutes the default font instead of failing
    assert_eq!(fonts.resolve(&String::from("nonexistent")), 0);
}

#[test]
fn render_pass_without_camera_is_a_no_op() {
    let mut scene = Scene::new();
    let mut e = Entity::empty();
    e.renderable = Some(solid_renderable(1));
    scene.add_entity(e);

    let calls = render_pass(&mut scene, &ActiveCamera(None), &screen());
    assert!(calls.is_empty());
    // nothing was drained either
    assert!(scene.entities[0].renderable.is_some());
}

#[test]
fn render_pass_drains_and_second_pass_draws_nothing() {
    let mut scene = Scene::new();
    let cam = scene.add_entity(camera_entity());
    let mut e = Entity::empty();
    e.renderable = Some(solid_renderable(1));
    scene.add_entity(e);
    let active = ActiveCamera(Some(cam));

    let first = render_pass(&mut scene, &active, &screen());
    assert_eq!(first.len(), 1);

    let second = render_pass(&mut scene, &active, &screen());
    assert!(second.is_empty());
}

#[test]
fn layer_sort_is_stable() {
    let mut scene = Scene::new();
    let cam = scene.add_entity(camera_entity());
    // A, B, C with layers [1, 1, 0]
    let mut a = Entity::empty();
    a.renderable = Some(solid_renderable(10));
    a.layer = Some(Layer(1));
    scene.add_entity(a);
    let mut b = Entity::empty();
    b.renderable = Some(solid_renderable(20));
    b.layer = Some(Layer(1));
    scene.add_entity(b);
    let mut c = Entity::empty();
    c.renderable = Some(solid_renderable(30));
    c.layer = Some(Layer(0));
    scene.add_entity(c);

    let calls = render_pass(&mut scene, &ActiveCamera(Some(cam)), &screen());
    let order: Vec<u16> = calls.iter().map(solid_size).collect();
    // C first (layer 0), then A before B (equal layer, insertion order kept)
    assert_eq!(order, vec![30, 10, 20]);
}

#[test]
fn missing_layer_defaults_to_zero() {
    let mut scene = Scene::new();
    let cam = scene.add_entity(camera_entity());
    let mut a = Entity::empty();
    a.renderable = Some(solid_renderable(10));
    a.layer = Some(Layer(-1));
    scene.add_entity(a);
    let mut b = Entity::empty();
    b.renderable = Some(solid_renderable(20));
    scene.add_entity(b);
    let mut c = Entity::empty();
    c.renderable = Some(solid_renderable(30));
    c.layer = Some(Layer(1));
    scene.add_entity(c);

    let calls = render_pass(&mut scene, &ActiveCamera(Some(cam)), &screen());
    let order: Vec<u16> = calls.iter().map(solid_size).collect();
    assert_eq!(order, vec![10, 20, 30]);
}

#[test]
fn ui_entities_anchor_to_the_viewport() {
    let mut scene = Scene::new();
    let cam = scene.add_entity(camera_entity());
    let mut e = Entity::empty();
    e.renderable = Some(solid_renderable(1));
    e.ui = Some(UiElement { anchor: Some(Anchor::BottomRight), origin: Some(Anchor::TopLeft) });
    scene.add_entity(e);

    let calls = render_pass(&mut scene, &ActiveCamera(Some(cam)), &screen());
    assert_eq!(calls.len(), 1);
    assert_eq!(calls[0].dest, Vec2 { x: 800, y: 600 });
    // UI placement ignores the camera: unit zoom
    assert_eq!(calls[0].zoom, Zoom { num: 1, den: 1 });
    assert_eq!(calls[0].origin, Some(Anchor::TopLeft));
}

#[test]
fn ui_anchor_defaults_to_center() {
    let mut scene = Scene::new();
    let cam = scene.add_entity(camera_entity());
    let mut e = Entity::empty();
    e.renderable = Some(solid_renderable(1));
    e.ui = Some(UiElement { anchor: None, origin: None });
    scene.add_entity(e);

    let calls = render_pass(&mut scene, &ActiveCamera(Some(cam)), &screen());
    assert_eq!(calls[0].dest, Vec2 { x: 400, y: 300 });
}

#[test]
fn world_entities_go_through_the_camera() {
    let mut scene = Scene::new();
    let mut camera = camera_entity();
    camera.camera = Some(Camera { zoom: Zoom { num: 2, den: 1 } });
    let cam = scene.add_entity(camera);
    let mut e = Entity::empty();
    e.renderable = Some(solid_renderable(1));
    e.position = Some(Position(Vec2 { x: 10, y: 20 }));
    scene.add_entity(e);

    let calls = render_pass(&mut scene, &ActiveCamera(Some(cam)), &screen());
    assert_eq!(calls.len(), 1);
    assert_eq!(calls[0].dest, Vec2 { x: 420, y: 340 });
    assert_eq!(calls[0].zoom, Zoom { num: 2, den: 1 });
    assert_eq!(calls[0].origin, None);
}

#[test]
fn position_component_supersedes_draw_param_destination() {
    let mut scene = Scene::new();
    let cam = scene.add_entity(camera_entity());
    let mut e = Entity::empty();
    e.renderable = Some(Renderable {
        instruction: RenderInstruction::Image(ImageBuilder::Solid { size: 1, color: Color::black() }),
        draw_param: Some(DrawParam { dest: Vec2 { x: 999, y: 999 }, scale: Vec2 { x: 2, y: 3 } }),
    });
    e.position = Some(Position(Vec2 { x: 1, y: 2 }));
    scene.add_entity(e);

    let calls = render_pass(&mut scene, &ActiveCamera(Some(cam)), &screen());
    // zoom 1: dest = position + screen/2, not the draw param's destination
    assert_eq!(calls[0].dest, Vec2 { x: 401, y: 302 });
    // the explicit scale is kept
    assert_eq!(calls[0].scale, Vec2 { x: 2, y: 3 });
}

#[test]
fn scroll_zoom_system_multiplies_camera_zoom() {
    let mut scene = Scene::new();
    scene.add_entity(camera_entity());

    run_scroll_zoom(&mut scene, &MouseWheel(Some(Vec2 { x: 0, y: 1 })));
    assert_eq!(scene.entities[0].camera.as_ref().unwrap().zoom, Zoom { num: 11, den: 10 });

    // horizontal scroll changes nothing
    run_scroll_zoom(&mut scene, &MouseWheel(Some(Vec2 { x: 5, y: 0 })));
    assert_eq!(scene.entities[0].camera.as_ref().unwrap().zoom, Zoom { num: 11, den: 10 });

    run_scroll_zoom(&mut scene, &MouseWheel(Some(Vec2 { x: 0, y: -1 })));
    assert_eq!(scene.entities[0].camera.as_ref().unwrap().zoom, Zoom { num: 1, den: 1 });
}

#[test]
fn mouse_pan_moves_camera_against_the_drag() {
    let middle = 2u64;
    let mut scene = Scene::new();
    scene.add_entity(camera_entity());
    let mut buttons = InputResource::default();
    buttons.record_down(middle);

    run_mouse_pan(&mut scene, &buttons, middle, &MouseMotion(Some(Vec2 { x: 10, y: -20 })));
    assert_eq!(scene.entities[0].position.unwrap().0, Vec2 { x: -10, y: 20 });

    // without the button held, nothing moves
    let idle = InputResource::default();
    run_mouse_pan(&mut scene, &idle, middle, &MouseMotion(Some(Vec2 { x: 5, y: 5 })));
    assert_eq!(scene.entities[0].position.unwrap().0, Vec2 { x: -10, y: 20 });
}

#[test]
fn text_renderer_attaches_text_instruction() {
    let mut scene = Scene::new();
    let mut e = Entity::empty();
    e.text = Some(Text { text: String::from("hi"), font: String::from("roboto"), scale: 48 });
    scene.add_entity(e);

    run_text_renderer(&mut scene);
    match &scene.entities[0].renderable {
        Some(r) => match &r.instruction {
            RenderInstruction::Text { text, font, scale } => {
                assert_eq!(text.as_str(), "hi");
                assert_eq!(font.as_str(), "roboto");
                assert_eq!(*scale, 48);
            }
            _ => panic!("expected a text instruction"),
        },
        None => panic!("expected a renderable"),
    }
}

#[test]
fn column_graph_renderer_builds_one_sprite_per_sample() {
    let mut scene = Scene::new();
    let mut graph = ColumnGraph::new(5);
    graph.record(3);
    graph.record(7);
    let mut e = Entity::empty();
    e.column_graph = Some(graph);
    scene.add_entity(e);

    run_column_graph_renderer(&mut scene);
    match &scene.entities[0].renderable {
        Some(r) => match &r.instruction {
            RenderInstruction::SpriteBatch { image_builder, sprites } => {
                assert_eq!(
                    *image_builder,
                    ImageBuilder::Solid { size: 1, color: Color { r: 0, g: 0, b: 0, a: 255 } }
                );
                assert_eq!(sprites.len(), 2);
                assert_eq!(sprites[0].dest, Vec2 { x: 0, y: 0 });
                assert_eq!(sprites[0].scale, Vec2 { x: 5, y: -3 });
                assert_eq!(sprites[1].dest, Vec2 { x: 5, y: 0 });
                assert_eq!(sprites[1].scale, Vec2 { x: 5, y: -7 });
            }
            _ => panic!("expected a sprite batch"),
        },
        None => panic!("expected a renderable"),
    }
}

#[test]
fn update_fps_records_frame_time_on_marked_entities() {
    let mut scene = Scene::new();
    let mut e = Entity::empty();
    e.fps_counter = true;
    e.column_graph = Some(ColumnGraph::new(5));
    scene.add_entity(e);
    let mut unmarked = Entity::empty();
    unmarked.column_graph = Some(ColumnGraph::new(5));
    scene.add_entity(unmarked);

    run_update_fps(&mut scene, 16);
    assert_eq!(scene.entities[0].column_graph.as_ref().unwrap().columns, vec![16]);
    assert!(scene.entities[1].column_graph.as_ref().unwrap().columns.is_empty());
}

#[test]
fn fps_display_publishes_smoothed_average() {
    let mut display = UpdateFpsDisplay::default();
    let mut scene = Scene::new();
    let mut e = Entity::empty();
    e.fps_display = true;
    e.text = Some(Text { text: String::new(), font: String::from("roboto"), scale: 48 });
    scene.add_entity(e);

    // below the interval: only counts
    assert_eq!(run_update_fps_display(&mut display, 100, &mut scene), None);
    assert_eq!(scene.entities[0].text.as_ref().unwrap().text.as_str(), "");

    // over the interval after a second frame: 2 frames / 0.501 s = 3.9 fps
    let published = run_update_fps_display(&mut display, 501, &mut scene);
    assert_eq!(published, Some(39));
    assert_eq!(scene.entities[0].text.as_ref().unwrap().text.as_str(), "3.9");
    assert_eq!(display.frames_since_last_update, 0);
}

#[test]
fn defaults_match_the_documented_values() {
    assert_eq!(Camera::default().zoom, Zoom { num: 1, den: 1 });
    assert_eq!(ScreenSize::default().0, Vec2 { x: 800, y: 600 });
    assert_eq!(
        DrawParam::default(),
        DrawParam { dest: Vec2 { x: 0, y: 0 }, scale: Vec2 { x: 1, y: 1 } }
    );
    assert_eq!(Anchor::default(), Anchor::Center);
    assert_eq!(ActiveCamera::default(), ActiveCamera(None));
}
