//! The camera: an exact rational zoom factor, the world/screen coordinate
//! transform, multiplicative scroll-wheel zooming and middle-button panning.

use vstd::prelude::*;
use vstd::arithmetic::div_mod::{
    lemma_fundamental_div_mod, lemma_div_multiples_vanish, lemma_mod_multiples_basic,
    lemma_small_mod, lemma_mod_self_0,
};
use crate::geom::{Vec2, COORD_LIMIT, clamp_coord, spec_clamp_coord};

verus! {

/// Zoom numerators and denominators are kept at or below this bound, so the
/// transform's intermediate products always fit in `i64`.
pub const ZOOM_LIMIT: u32 = 0x10000;

/// Per scroll tick the zoom is multiplied (or divided) by
/// `ZOOM_STEP_NUM / ZOOM_STEP_DEN`.
pub const ZOOM_STEP_NUM: u32 = 11;
pub const ZOOM_STEP_DEN: u32 = 10;

/// A strictly positive rational zoom factor `num / den`.
#[derive(Clone, Copy, Debug, PartialEq, Eq, Structural)]
pub struct Zoom {
    pub num: u32,
    pub den: u32,
}

impl Zoom {
    /// Positive and within the bound that keeps transform arithmetic exact.
    pub open spec fn valid(self) -> bool {
        1 <= self.num <= ZOOM_LIMIT && 1 <= self.den <= ZOOM_LIMIT
    }

    /// The identity zoom factor 1.
    pub fn one() -> (r: Zoom)
        ensures
            r == (Zoom { num: 1u32, den: 1u32 }),
            r.valid(),
    {
        Zoom { num: 1, den: 1 }
    }
}

/// The viewing camera component: its world position lives in a separate
/// `Position` component, as with any other entity.
#[derive(Clone, Copy, Debug, PartialEq, Eq, Structural)]
pub struct Camera {
    pub zoom: Zoom,
}

impl Default for Camera {
    /// A fresh camera starts at zoom 1.
    fn default() -> (r: Camera)
        ensures
            r.zoom == (Zoom { num: 1u32, den: 1u32 }),
            r.zoom.valid(),
    {
        Camera { zoom: Zoom { num: 1, den: 1 } }
    }
}

/// One axis of the world-to-screen transform:
/// `(p - c) * zoom + screen/2`, with the rational zoom applied exactly and
/// the final value rounded down to a whole pixel.
pub open spec fn spec_world_to_screen_axis(p: int, c: int, num: int, den: int, s: int) -> int {
    ((p - c) * num) / den + s / 2
}

/// One axis of the screen-to-world transform:
/// `(q - screen/2) / zoom + c`, the inverse of `spec_world_to_screen_axis`.
pub open spec fn spec_screen_to_world_axis(q: int, c: int, num: int, den: int, s: int) -> int {
    ((q - s / 2) * den) / num + c
}

/// Arguments on which the transform's arithmetic stays in `i64`.
pub open spec fn transform_args_ok(from: Vec2, camera_pos: Vec2, zoom: Zoom, screen_size: Vec2) -> bool {
    from.in_range() && camera_pos.in_range() && zoom.valid() && screen_size.in_range()
        && screen_size.x >= 0 && screen_size.y >= 0
}

proof fn lemma_div_bound(t: int, den: int, b: int)
    requires
        den >= 1,
        0 <= b,
        -b <= t <= b,
    ensures
        -b <= t / den <= b,
{
    lemma_fundamental_div_mod(t, den);
    let q = t / den;
    let r = t % den;
    if q > b {
        assert(den * q >= q) by (nonlinear_arith)
            requires den >= 1, q >= 0;
        assert(t > b);
    }
    if q < -b {
        assert(den * q + r < den * (q + 1)) by (nonlinear_arith)
            requires r < den;
        assert(den * (q + 1) <= q + 1) by (nonlinear_arith)
            requires den >= 1, q + 1 <= 0;
        assert(t < -b);
    }
}

fn transform_axis(d: i64, num: u32, den: u32, s: i64) -> (r: i64)
    requires
        -0x1_0000_0000i64 <= d <= 0x1_0000_0000i64,
        1 <= num <= ZOOM_LIMIT,
        1 <= den <= ZOOM_LIMIT,
        0 <= s <= COORD_LIMIT,
    ensures
        r == (d * num) / (den as int) + s / 2,
        -0x2_0000_0000_0000i64 <= r <= 0x2_0000_0000_0000i64,
{
    proof {
        assert(-0x1_0000_0000_0000int <= d * (num as int) <= 0x1_0000_0000_0000int)
            by (nonlinear_arith)
            requires
                -0x1_0000_0000i64 <= d <= 0x1_0000_0000i64,
                1 <= num <= 0x10000u32;
    }
    let t: i64 = d * (num as i64);
    proof {
        lemma_div_bound(t as int, den as int, 0x1_0000_0000_0000int);
    }
    let q: i64 = t.checked_div_euclid(den as i64).unwrap();
    let half: i64 = s.checked_div_euclid(2).unwrap();
    q + half
}

/// Maps a world-space point to screen space for the given camera position,
/// zoom and viewport size.
pub fn world_to_screen(from: Vec2, camera_pos: Vec2, zoom: Zoom, screen_size: Vec2) -> (r: Vec2)
    requires
        transform_args_ok(from, camera_pos, zoom, screen_size),
    ensures
        r.x == spec_world_to_screen_axis(from.x as int, camera_pos.x as int, zoom.num as int, zoom.den as int, screen_size.x as int),
        r.y == spec_world_to_screen_axis(from.y as int, camera_pos.y as int, zoom.num as int, zoom.den as int, screen_size.y as int),
{
    let dx: i64 = from.x - camera_pos.x;
    let dy: i64 = from.y - camera_pos.y;
    Vec2 {
        x: transform_axis(dx, zoom.num, zoom.den, screen_size.x),
        y: transform_axis(dy, zoom.num, zoom.den, screen_size.y),
    }
}

/// Maps a screen-space point back to world space: the exact inverse of
/// `world_to_screen` wherever the forward transform lost no precision
/// (see `lemma_screen_world_round_trip`).
pub fn screen_to_world(from: Vec2, camera_pos: Vec2, zoom: Zoom, screen_size: Vec2) -> (r: Vec2)
    requires
        transform_args_ok(from, camera_pos, zoom, screen_size),
    ensures
        r.x == spec_screen_to_world_axis(from.x as int, camera_pos.x as int, zoom.num as int, zoom.den as int, screen_size.x as int),
        r.y == spec_screen_to_world_axis(from.y as int, camera_pos.y as int, zoom.num as int, zoom.den as int, screen_size.y as int),
{
    let half_x: i64 = screen_size.x.checked_div_euclid(2).unwrap();
    let half_y: i64 = screen_size.y.checked_div_euclid(2).unwrap();
    let dx: i64 = from.x - half_x;
    let dy: i64 = from.y - half_y;
    Vec2 {
        x: transform_axis(dx, zoom.den, zoom.num, 0) + camera_pos.x,
        y: transform_axis(dy, zoom.den, zoom.num, 0) + camera_pos.y,
    }
}

proof fn lemma_round_trip_axis(p: int, c: int, num: int, den: int, s: int)
    requires
        1 <= num,
        1 <= den,
        ((p - c) * num) % den == 0,
    ensures
        spec_screen_to_world_axis(
            spec_world_to_screen_axis(p, c, num, den, s), c, num, den, s) == p,
{
    let d = (p - c) * num;
    lemma_fundamental_div_mod(d, den);
    assert(d == den * (d / den));
    let q = spec_world_to_screen_axis(p, c, num, den, s);
    assert(q - s / 2 == d / den);
    assert((q - s / 2) * den == den * (d / den)) by (nonlinear_arith)
        requires q - s / 2 == d / den;
    assert((q - s / 2) * den == d);
    assert(d == num * (p - c)) by (nonlinear_arith)
        requires d == (p - c) * num;
    lemma_div_multiples_vanish(p - c, num);
    assert((num * (p - c)) / num == p - c);
    assert(spec_screen_to_world_axis(q, c, num, den, s) == (p - c) + c);
}

/// Greatest common divisor by Euclid's recursion; used to keep zoom
/// fractions reduced.
pub open spec fn spec_gcd(a: nat, b: nat) -> nat
    decreases b,
{
    if b == 0 {
        a
    } else {
        spec_gcd(b, a % b)
    }
}

proof fn lemma_gcd_divides(a: nat, b: nat)
    requires
        a >= 1,
    ensures
        spec_gcd(a, b) >= 1,
        a % spec_gcd(a, b) == 0,
        b % spec_gcd(a, b) == 0,
    decreases b,
{
    let g = spec_gcd(a, b);
    if b == 0 {
        lemma_mod_self_0(a as int);
        lemma_small_mod(0, a);
    } else {
        lemma_gcd_divides(b, a % b);
        assert(g == spec_gcd(b, a % b));
        assert(g >= 1);
        assert(b % g == 0);
        assert((a % b) % g == 0);
        lemma_fundamental_div_mod(a as int, b as int);
        assert(a == b * (a as int / b as int) + a % b);
        lemma_fundamental_div_mod(b as int, g as int);
        assert(b == g * (b as int / g as int));
        lemma_fundamental_div_mod((a % b) as int, g as int);
        assert(a % b == g * ((a % b) as int / g as int));
        let k = (b as int / g as int) * (a as int / b as int) + ((a % b) as int / g as int);
        assert(a as int == k * g) by (nonlinear_arith)
            requires
                a == b * (a as int / b as int) + a % b,
                b == g * (b as int / g as int),
                a % b == g * ((a % b) as int / g as int),
                k == (b as int / g as int) * (a as int / b as int) + ((a % b) as int / g as int);
        lemma_mod_multiples_basic(k, g as int);
        assert(a % g == 0);
    }
}

/// Computes `spec_gcd(a, b)` by Euclid's algorithm.
fn gcd(a: u64, b: u64) -> (g: u64)
    requires
        a >= 1,
    ensures
        g == spec_gcd(a as nat, b as nat),
        g >= 1,
        (a as nat) % (g as nat) == 0,
        (b as nat) % (g as nat) == 0,
{
    proof {
        lemma_gcd_divides(a as nat, b as nat);
    }
    let mut x: u64 = a;
    let mut y: u64 = b;
    while y != 0
        invariant
            x >= 1,
            spec_gcd(x as nat, y as nat) == spec_gcd(a as nat, b as nat),
        decreases y,
    {
        let t: u64 = x % y;
        x = y;
        y = t;
    }
    x
}

/// What one inward zoom tick yields: the fraction is multiplied by
/// `ZOOM_STEP_NUM / ZOOM_STEP_DEN`, reduced, and kept only if it stays
/// within `ZOOM_LIMIT`; otherwise the zoom is unchanged.
pub open spec fn spec_zoom_in(z: Zoom) -> Zoom {
    let n2 = z.num * ZOOM_STEP_NUM;
    let d2 = z.den * ZOOM_STEP_DEN;
    let g = spec_gcd(n2 as nat, d2 as nat);
    let rn = n2 as int / g as int;
    let rd = d2 as int / g as int;
    if rn <= ZOOM_LIMIT && rd <= ZOOM_LIMIT {
        Zoom { num: rn as u32, den: rd as u32 }
    } else {
        z
    }
}

/// What one outward zoom tick yields: multiplication by
/// `ZOOM_STEP_DEN / ZOOM_STEP_NUM`, under the same reduction and cap.
pub open spec fn spec_zoom_out(z: Zoom) -> Zoom {
    let n2 = z.num * ZOOM_STEP_DEN;
    let d2 = z.den * ZOOM_STEP_NUM;
    let g = spec_gcd(n2 as nat, d2 as nat);
    let rn = n2 as int / g as int;
    let rd = d2 as int / g as int;
    if rn <= ZOOM_LIMIT && rd <= ZOOM_LIMIT {
        Zoom { num: rn as u32, den: rd as u32 }
    } else {
        z
    }
}

proof fn lemma_reduced_component(v: nat, g: nat)
    requires
        v >= 1,
        g >= 1,
        v % g == 0,
    ensures
        1 <= v as int / g as int <= v,
{
    lemma_fundamental_div_mod(v as int, g as int);
    let q = v as int / g as int;
    assert(v == g * q);
    assert(q >= 1) by (nonlinear_arith)
        requires v == g * q, v >= 1, g >= 1;
    assert(q <= v) by (nonlinear_arith)
        requires v == g * q, g >= 1, q >= 1;
}

proof fn lemma_zoom_step_valid(n2: nat, d2: nat)
    requires
        n2 >= 1,
        d2 >= 1,
    ensures
        spec_gcd(n2, d2) >= 1,
        n2 % spec_gcd(n2, d2) == 0,
        d2 % spec_gcd(n2, d2) == 0,
        1 <= n2 as int / spec_gcd(n2, d2) as int <= n2,
        1 <= d2 as int / spec_gcd(n2, d2) as int <= d2,
{
    lemma_gcd_divides(n2, d2);
    let g = spec_gcd(n2, d2);
    lemma_reduced_component(n2, g);
    lemma_reduced_component(d2, g);
}

/// The result of a zoom tick is valid whenever the input zoom is.
pub proof fn lemma_spec_zoom_in_valid(z: Zoom)
    requires
        z.valid(),
    ensures
        spec_zoom_in(z).valid(),
{
    lemma_zoom_step_valid((z.num * ZOOM_STEP_NUM) as nat, (z.den * ZOOM_STEP_DEN) as nat);
}

/// The result of an outward zoom tick is valid whenever the input zoom is.
pub proof fn lemma_spec_zoom_out_valid(z: Zoom)
    requires
        z.valid(),
    ensures
        spec_zoom_out(z).valid(),
{
    lemma_zoom_step_valid((z.num * ZOOM_STEP_DEN) as nat, (z.den * ZOOM_STEP_NUM) as nat);
}

fn zoom_step(z: Zoom, step_num: u32, step_den: u32) -> (r: Zoom)
    requires
        z.valid(),
        1 <= step_num <= 16,
        1 <= step_den <= 16,
    ensures
        ({
            let n2 = z.num * step_num;
            let d2 = z.den * step_den;
            let g = spec_gcd(n2 as nat, d2 as nat);
            let rn = n2 as int / g as int;
            let rd = d2 as int / g as int;
            r == if rn <= ZOOM_LIMIT && rd <= ZOOM_LIMIT {
                Zoom { num: rn as u32, den: rd as u32 }
            } else {
                z
            }
        }),
        r.valid(),
{
    proof {
        assert(1 <= z.num * step_num <= 0x100000 && 1 <= z.den * step_den <= 0x100000)
            by (nonlinear_arith)
            requires
                1 <= z.num <= 0x10000u32,
                1 <= z.den <= 0x10000u32,
                1 <= step_num <= 16,
                1 <= step_den <= 16;
    }
    let n2: u64 = (z.num as u64) * (step_num as u64);
    let d2: u64 = (z.den as u64) * (step_den as u64);
    proof {
        lemma_zoom_step_valid(n2 as nat, d2 as nat);
    }
    let g: u64 = gcd(n2, d2);
    let rn: u64 = n2 / g;
    let rd: u64 = d2 / g;
    if rn <= ZOOM_LIMIT as u64 && rd <= ZOOM_LIMIT as u64 {
        Zoom { num: rn as u32, den: rd as u32 }
    } else {
        z
    }
}

/// One inward scroll tick.
pub fn zoom_in(z: Zoom) -> (r: Zoom)
    requires
        z.valid(),
    ensures
        r == spec_zoom_in(z),
        r.valid(),
{
    zoom_step(z, ZOOM_STEP_NUM, ZOOM_STEP_DEN)
}

/// One outward scroll tick.
pub fn zoom_out(z: Zoom) -> (r: Zoom)
    requires
        z.valid(),
    ensures
        r == spec_zoom_out(z),
        r.valid(),
{
    zoom_step(z, ZOOM_STEP_DEN, ZOOM_STEP_NUM)
}

/// The zoom after `n` ticks in one direction.
pub open spec fn spec_zoom_steps(z: Zoom, n: nat, inward: bool) -> Zoom
    decreases n,
{
    if n == 0 {
        z
    } else {
        spec_zoom_steps(if inward { spec_zoom_in(z) } else { spec_zoom_out(z) }, (n - 1) as nat, inward)
    }
}

/// Validity — and with it strict positivity of the zoom — is preserved by
/// any number of ticks in one direction.
pub proof fn lemma_zoom_steps_valid(z: Zoom, n: nat, inward: bool)
    requires
        z.valid(),
    ensures
        spec_zoom_steps(z, n, inward).valid(),
    decreases n,
{
    if n != 0 {
        if inward {
            lemma_spec_zoom_in_valid(z);
            lemma_zoom_steps_valid(spec_zoom_in(z), (n - 1) as nat, true);
        } else {
            lemma_spec_zoom_out_valid(z);
            lemma_zoom_steps_valid(spec_zoom_out(z), (n - 1) as nat, false);
        }
    }
}

/// The zoom a single wheel event leaves: `wheel_y` ticks inward when
/// positive, `-wheel_y` ticks outward when negative, unchanged at zero.
pub open spec fn spec_zoom_scrolled(z: Zoom, wheel_y: int) -> Zoom {
    if wheel_y >= 0 {
        spec_zoom_steps(z, wheel_y as nat, true)
    } else {
        spec_zoom_steps(z, (-wheel_y) as nat, false)
    }
}

/// Applies one scroll-wheel event to the camera's zoom, multiplicatively:
/// each tick scales the zoom by `ZOOM_STEP_NUM / ZOOM_STEP_DEN` (inward) or
/// its reciprocal (outward). A zero delta leaves the camera untouched.
pub fn apply_scroll(camera: &mut Camera, wheel_y: i64)
    requires
        old(camera).zoom.valid(),
        -0x10000i64 <= wheel_y <= 0x10000i64,
    ensures
        final(camera).zoom == spec_zoom_scrolled(old(camera).zoom, wheel_y as int),
        final(camera).zoom.valid(),
{
    let inward: bool = wheel_y >= 0;
    let n: u64 = if wheel_y >= 0 {
        wheel_y as u64
    } else {
        (-wheel_y) as u64
    };
    let mut z: Zoom = camera.zoom;
    let mut i: u64 = 0;
    while i < n
        invariant
            i <= n,
            z.valid(),
            spec_zoom_steps(z, (n - i) as nat, inward) == spec_zoom_scrolled(old(camera).zoom, wheel_y as int),
        decreases n - i,
    {
        z = if inward {
            zoom_in(z)
        } else {
            zoom_out(z)
        };
        i = i + 1;
    }
    camera.zoom = z;
}

/// The zoom after a whole sequence of scroll-wheel events.
pub open spec fn spec_zoom_after_scrolls(z: Zoom, wheel: Seq<int>) -> Zoom
    decreases wheel.len(),
{
    if wheel.len() == 0 {
        z
    } else {
        spec_zoom_after_scrolls(spec_zoom_scrolled(z, wheel[0]), wheel.drop_first())
    }
}

/// After any finite sequence of scroll-wheel deltas the zoom is still a
/// valid, strictly positive fraction: multiplicative adjustment can never
/// drive it to zero or below.
pub proof fn lemma_zoom_stays_positive(z: Zoom, wheel: Seq<int>)
    requires
        z.valid(),
    ensures
        spec_zoom_after_scrolls(z, wheel).valid(),
        spec_zoom_after_scrolls(z, wheel).num >= 1,
    decreases wheel.len(),
{
    if wheel.len() != 0 {
        let w = wheel[0];
        if w >= 0 {
            lemma_zoom_steps_valid(z, w as nat, true);
        } else {
            lemma_zoom_steps_valid(z, (-w) as nat, false);
        }
        lemma_zoom_stays_positive(spec_zoom_scrolled(z, w), wheel.drop_first());
    }
}

/// The world-space displacement a mouse drag of `motion` screen pixels pans
/// the camera by: the motion divided by the zoom, exactly as
/// `screen_to_world` undoes `world_to_screen`'s scaling, rounded toward
/// negative infinity.
pub open spec fn spec_pan_delta_axis(m: int, num: int, den: int) -> int {
    (m * den) / num
}

/// Moves a camera's world position opposite to a mouse drag, so the scene
/// follows the cursor; the result is clamped into the coordinate range.
pub fn pan_position(position: &mut Vec2, motion: Vec2, zoom: Zoom)
    requires
        old(position).in_range(),
        motion.in_range(),
        zoom.valid(),
    ensures
        final(position).x == spec_clamp_coord(
            old(position).x - spec_pan_delta_axis(motion.x as int, zoom.num as int, zoom.den as int)),
        final(position).y == spec_clamp_coord(
            old(position).y - spec_pan_delta_axis(motion.y as int, zoom.num as int, zoom.den as int)),
        final(position).in_range(),
{
    let dx: i64 = transform_axis(motion.x, zoom.den, zoom.num, 0);
    let dy: i64 = transform_axis(motion.y, zoom.den, zoom.num, 0);
    position.x = clamp_coord(position.x - dx);
    position.y = clamp_coord(position.y - dy);
}

/// Round-trip law for the camera transform: for every camera position, valid
/// zoom, screen size and point whose zoomed offset lands exactly on a pixel
/// (in particular for every point whenever `zoom.den == 1`), mapping to
/// screen space and back returns the original world point.
pub proof fn lemma_screen_world_round_trip(p: Vec2, c: Vec2, zoom: Zoom, s: Vec2)
    requires
        zoom.valid(),
        ((p.x - c.x) * zoom.num) % (zoom.den as int) == 0,
        ((p.y - c.y) * zoom.num) % (zoom.den as int) == 0,
    ensures
        spec_screen_to_world_axis(
            spec_world_to_screen_axis(p.x as int, c.x as int, zoom.num as int, zoom.den as int, s.x as int),
            c.x as int, zoom.num as int, zoom.den as int, s.x as int) == p.x,
        spec_screen_to_world_axis(
            spec_world_to_screen_axis(p.y as int, c.y as int, zoom.num as int, zoom.den as int, s.y as int),
            c.y as int, zoom.num as int, zoom.den as int, s.y as int) == p.y,
{
    lemma_round_trip_axis(p.x as int, c.x as int, zoom.num as int, zoom.den as int, s.x as int);
    lemma_round_trip_axis(p.y as int, c.y as int, zoom.num as int, zoom.den as int, s.y as int);
}

/// For whole-number zoom factors the round trip holds unconditionally: the
/// forward transform loses no precision on any point.
pub proof fn lemma_round_trip_integer_zoom(p: Vec2, c: Vec2, zoom: Zoom, s: Vec2)
    requires
        zoom.valid(),
        zoom.den == 1,
    ensures
        spec_screen_to_world_axis(
            spec_world_to_screen_axis(p.x as int, c.x as int, zoom.num as int, zoom.den as int, s.x as int),
            c.x as int, zoom.num as int, zoom.den as int, s.x as int) == p.x,
        spec_screen_to_world_axis(
            spec_world_to_screen_axis(p.y as int, c.y as int, zoom.num as int, zoom.den as int, s.y as int),
            c.y as int, zoom.num as int, zoom.den as int, s.y as int) == p.y,
{
    assert(((p.x - c.x) * zoom.num) % (zoom.den as int) == 0);
    assert(((p.y - c.y) * zoom.num) % (zoom.den as int) == 0);
    lemma_screen_world_round_trip(p, c, zoom, s);
}

} // verus!
