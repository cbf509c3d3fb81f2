//! Declarative render instructions — what to draw, independent of how and
//! when — plus the screen-anchor vocabulary for UI placement and the named
//! font table with its default fallback.

use vstd::prelude::*;
use crate::geom::{Vec2, Rect};

verus! {

/// An RGBA color, eight bits per channel.
#[derive(Clone, Copy, Debug, PartialEq, Eq, Structural)]
pub struct Color {
    pub r: u8,
    pub g: u8,
    pub b: u8,
    pub a: u8,
}

impl Color {
    /// Opaque black.
    pub fn black() -> (c: Color)
        ensures
            c == (Color { r: 0u8, g: 0u8, b: 0u8, a: 255u8 }),
    {
        Color { r: 0, g: 0, b: 0, a: 255 }
    }
}

/// A description from which the drawing surface can construct an image.
#[derive(Clone, Debug, PartialEq, Eq, Structural)]
pub enum ImageBuilder {
    /// A `size` x `size` square of one solid color.
    Solid { size: u16, color: Color },
}

/// Where and how scaled one drawable (or one sprite of a batch) is placed.
///
/// `scale` is in whole units; the compositor multiplies it further by the
/// camera zoom for world-anchored drawables. Rotation is not part of this
/// design.
#[derive(Clone, Copy, Debug, PartialEq, Eq, Structural)]
pub struct DrawParam {
    pub dest: Vec2,
    pub scale: Vec2,
}

impl Default for DrawParam {
    /// Destination at the origin, unit scale.
    fn default() -> (r: DrawParam)
        ensures
            r == (DrawParam { dest: Vec2 { x: 0, y: 0 }, scale: Vec2 { x: 1, y: 1 } }),
    {
        DrawParam { dest: Vec2 { x: 0, y: 0 }, scale: Vec2 { x: 1, y: 1 } }
    }
}

/// A closed set of drawable descriptions. Building the actual drawable
/// resource from one is deferred to draw time and is the drawing surface's
/// business; the instruction itself is pure data.
#[derive(Clone, Debug)]
pub enum RenderInstruction {
    /// A single image.
    Image(ImageBuilder),
    /// Many positioned copies of one image.
    SpriteBatch { image_builder: ImageBuilder, sprites: Vec<DrawParam> },
    /// A closed polygon, by its vertices.
    Mesh(Vec<Vec2>),
    /// A string of text in a named font at a pixel scale.
    Text { text: String, font: String, scale: u32 },
}

/// Attached to an entity to have it drawn this frame; the compositor drains
/// every `Renderable` each pass, so a system must re-attach one every update
/// cycle it wants the entity drawn.
#[derive(Clone, Debug)]
pub struct Renderable {
    pub instruction: RenderInstruction,
    pub draw_param: Option<DrawParam>,
}

/// An entity's explicit draw-order layer: lower layers are drawn first;
/// entities without one default to layer 0.
#[derive(Clone, Copy, Debug, PartialEq, Eq, Structural)]
pub struct Layer(pub i64);

/// World-space location of an entity.
#[derive(Clone, Copy, Debug, PartialEq, Eq, Structural)]
pub struct Position(pub Vec2);

/// The current viewport dimensions in pixels.
#[derive(Clone, Copy, Debug, PartialEq, Eq, Structural)]
pub struct ScreenSize(pub Vec2);

impl Default for ScreenSize {
    /// The window's initial 800 x 600 size.
    fn default() -> (r: ScreenSize)
        ensures
            r.0 == (Vec2 { x: 800, y: 600 }),
    {
        ScreenSize(Vec2 { x: 800, y: 600 })
    }
}

/// One of the nine compass positions of a rectangle.
#[derive(Clone, Copy, Debug, PartialEq, Eq, Structural)]
pub enum Anchor {
    TopLeft,
    TopCenter,
    TopRight,
    CenterLeft,
    Center,
    CenterRight,
    BottomLeft,
    BottomCenter,
    BottomRight,
}

/// The point of `bounds` an anchor names; widths and heights are halved by
/// exact integer division.
pub open spec fn spec_anchor_position(a: Anchor, bounds: Rect) -> (int, int) {
    match a {
        Anchor::TopLeft => (bounds.x as int, bounds.y as int),
        Anchor::TopCenter => (bounds.x + bounds.w / 2, bounds.y as int),
        Anchor::TopRight => (bounds.x + bounds.w, bounds.y as int),
        Anchor::CenterLeft => (bounds.x as int, bounds.y + bounds.h / 2),
        Anchor::Center => (bounds.x + bounds.w / 2, bounds.y + bounds.h / 2),
        Anchor::CenterRight => (bounds.x + bounds.w, bounds.y + bounds.h / 2),
        Anchor::BottomLeft => (bounds.x as int, bounds.y + bounds.h),
        Anchor::BottomCenter => (bounds.x + bounds.w / 2, bounds.y + bounds.h),
        Anchor::BottomRight => (bounds.x + bounds.w, bounds.y + bounds.h),
    }
}

impl Anchor {
    /// Resolves the anchor against a rectangle — the viewport for placement,
    /// or a drawable's own bounding box for an origin offset.
    pub fn get_postion(self, bounds: Rect) -> (r: Vec2)
        requires
            bounds.in_range(),
        ensures
            r.x == spec_anchor_position(self, bounds).0,
            r.y == spec_anchor_position(self, bounds).1,
    {
        let half_w: i64 = bounds.w / 2;
        let half_h: i64 = bounds.h / 2;
        match self {
            Anchor::TopLeft => Vec2 { x: bounds.x, y: bounds.y },
            Anchor::TopCenter => Vec2 { x: bounds.x + half_w, y: bounds.y },
            Anchor::TopRight => Vec2 { x: bounds.x + bounds.w, y: bounds.y },
            Anchor::CenterLeft => Vec2 { x: bounds.x, y: bounds.y + half_h },
            Anchor::Center => Vec2 { x: bounds.x + half_w, y: bounds.y + half_h },
            Anchor::CenterRight => Vec2 { x: bounds.x + bounds.w, y: bounds.y + half_h },
            Anchor::BottomLeft => Vec2 { x: bounds.x, y: bounds.y + bounds.h },
            Anchor::BottomCenter => Vec2 { x: bounds.x + half_w, y: bounds.y + bounds.h },
            Anchor::BottomRight => Vec2 { x: bounds.x + bounds.w, y: bounds.y + bounds.h },
        }
    }
}

impl Default for Anchor {
    /// The center of the rectangle.
    fn default() -> (r: Anchor)
        ensures
            r == Anchor::Center,
    {
        Anchor::Center
    }
}

/// Marks an entity's renderable as screen-anchored rather than
/// world-anchored: placed at `anchor` on the viewport (camera ignored),
/// optionally shifted back by `origin` resolved against the drawable's own
/// measured bounding box.
#[derive(Clone, Copy, Debug, PartialEq, Eq, Structural)]
pub struct UiElement {
    pub anchor: Option<Anchor>,
    pub origin: Option<Anchor>,
}

impl Default for UiElement {
    fn default() -> (r: UiElement)
        ensures
            r.anchor is None,
            r.origin is None,
    {
        UiElement { anchor: None, origin: None }
    }
}

/// First match in a font table, by name.
pub open spec fn spec_font_lookup(s: Seq<(Seq<char>, u64)>, name: Seq<char>) -> Option<u64>
    decreases s.len(),
{
    if s.len() == 0 {
        None
    } else if s[0].0 == name {
        Some(s[0].1)
    } else {
        spec_font_lookup(s.drop_first(), name)
    }
}

/// The font handle a name resolves to: its table entry, or the default
/// fallback font when the name is unknown.
pub open spec fn spec_font_resolve(s: Seq<(Seq<char>, u64)>, name: Seq<char>, default_font: u64) -> u64 {
    match spec_font_lookup(s, name) {
        Some(f) => f,
        None => default_font,
    }
}

/// The table of loaded fonts, by name, with the fallback the drawing
/// surface guarantees to have. Font handles are whatever identifiers the
/// host application assigns its loaded fonts.
pub struct Fonts {
    entries: Vec<(String, u64)>,
    default_font: u64,
}

impl Fonts {
    /// The names and handles registered so far, in registration order.
    pub closed spec fn entries_view(&self) -> Seq<(Seq<char>, u64)> {
        self.entries@.map_values(|e: (String, u64)| (e.0@, e.1))
    }

    /// The fallback font handle.
    pub closed spec fn default_view(&self) -> u64 {
        self.default_font
    }

    /// An empty table whose lookups all fall back to `default_font`.
    pub fn new(default_font: u64) -> (r: Fonts)
        ensures
            r.entries_view() =~= Seq::<(Seq<char>, u64)>::empty(),
            r.default_view() == default_font,
    {
        Fonts { entries: Vec::new(), default_font }
    }

    /// Registers a font under a name; earlier registrations of the same
    /// name keep priority.
    pub fn add(&mut self, name: String, font: u64)
        ensures
            final(self).entries_view() =~= old(self).entries_view().push((name@, font)),
            final(self).default_view() == old(self).default_view(),
    {
        self.entries.push((name, font));
    }

    /// Looks a font up by name, substituting the default fallback font for
    /// an unknown name rather than failing.
    pub fn resolve(&self, name: &String) -> (r: u64)
        ensures
            r == spec_font_resolve(self.entries_view(), name@, self.default_view()),
    {
        let ghost ev = self.entries_view();
        proof {
            assert(ev.skip(0) =~= ev);
        }
        let n = self.entries.len();
        let mut i: usize = 0;
        while i < n
            invariant
                n == self.entries@.len(),
                ev == self.entries_view(),
                i <= n,
                spec_font_lookup(ev, name@) == spec_font_lookup(ev.skip(i as int), name@),
            decreases n - i,
        {
            proof {
                assert(ev.skip(i as int)[0] == ev[i as int]);
                assert(ev[i as int] == (self.entries@[i as int].0@, self.entries@[i as int].1));
            }
            if self.entries[i].0.eq(name) {
                proof {
                    assert(ev.skip(i as int).len() > 0);
                    assert(ev.skip(i as int)[0].0 == name@);
                    assert(spec_font_lookup(ev.skip(i as int), name@) == Some(ev[i as int].1));
                }
                return self.entries[i].1;
            }
            proof {
                assert(ev.skip(i as int).len() > 0);
                assert(ev.skip(i as int)[0].0 != name@);
                assert(ev.skip(i as int).drop_first() =~= ev.skip(i + 1));
                assert(spec_font_lookup(ev.skip(i as int), name@)
                    == spec_font_lookup(ev.skip(i as int).drop_first(), name@));
            }
            i = i + 1;
        }
        proof {
            assert(ev.skip(n as int).len() == 0);
        }
        self.default_font
    }
}

} // verus!
