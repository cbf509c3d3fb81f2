//! Debug overlays: the rolling performance column graph and the smoothed
//! FPS text display, as data plus pure render-instruction builders.

use vstd::prelude::*;
use crate::geom::{Vec2, COORD_LIMIT};
use crate::render::{Color, DrawParam, ImageBuilder, Renderable, RenderInstruction};

verus! {

/// How many samples a rolling column graph retains.
pub const COLUMNS: usize = 50;

/// Width in pixels of one graph column.
pub const COLUMN_WIDTH: i64 = 5;

/// After this much elapsed time the FPS text is recomputed.
pub const FPS_UPDATE_INTERVAL_MS: u64 = 500;

/// A string of text some renderer keeps up to date, drawn each frame in the
/// named font at the given pixel scale.
#[derive(Clone, Debug)]
pub struct Text {
    pub text: String,
    pub font: String,
    pub scale: u32,
}

/// A bounded rolling window of recent samples (frame times in
/// milliseconds), drawn as unit-width columns whose height encodes the
/// sample value.
#[derive(Clone, Debug)]
pub struct ColumnGraph {
    pub columns: Vec<u64>,
    pub size: i64,
}

/// One append to a rolling window: evict the oldest sample first whenever
/// the window is full.
pub open spec fn spec_window_step(w: Seq<u64>, sample: u64) -> Seq<u64> {
    (if w.len() >= COLUMNS { w.drop_first() } else { w }).push(sample)
}

/// A whole sequence of appends folded over a window.
pub open spec fn spec_window_after(w: Seq<u64>, appends: Seq<u64>) -> Seq<u64>
    decreases appends.len(),
{
    if appends.len() == 0 {
        w
    } else {
        spec_window_after(spec_window_step(w, appends[0]), appends.drop_first())
    }
}

impl ColumnGraph {
    /// Samples bounded so a column's height stays a valid coordinate, the
    /// strict capacity bound, and a sane column width.
    pub open spec fn wf(self) -> bool {
        &&& self.columns@.len() <= COLUMNS
        &&& forall|i: int| 0 <= i < self.columns@.len() ==> #[trigger] self.columns@[i] <= COORD_LIMIT as u64
        &&& 1 <= self.size <= 0x100000
    }

    /// An empty graph with the given column width.
    pub fn new(size: i64) -> (r: ColumnGraph)
        requires
            1 <= size <= 0x100000,
        ensures
            r.wf(),
            r.columns@ =~= Seq::<u64>::empty(),
            r.size == size,
    {
        ColumnGraph { columns: Vec::new(), size }
    }

    /// Appends one sample, evicting the oldest first if the window is full,
    /// so that at most `COLUMNS` samples are ever stored.
    pub fn record(&mut self, sample: u64)
        requires
            old(self).wf(),
            sample <= COORD_LIMIT as u64,
        ensures
            final(self).wf(),
            final(self).columns@ =~= spec_window_step(old(self).columns@, sample),
            final(self).size == old(self).size,
    {
        if self.columns.len() >= COLUMNS {
            self.columns.remove(0);
            proof {
                assert(self.columns@ =~= old(self).columns@.drop_first());
            }
        }
        self.columns.push(sample);
    }
}

proof fn lemma_window_after_exact(w: Seq<u64>, appends: Seq<u64>)
    requires
        w.len() <= COLUMNS,
    ensures
        ({
            let total = w + appends;
            let keep = if total.len() <= COLUMNS { total.len() as int } else { COLUMNS as int };
            spec_window_after(w, appends) =~= total.skip(total.len() - keep)
        }),
    decreases appends.len(),
{
    let total = w + appends;
    let keep = if total.len() <= COLUMNS { total.len() as int } else { COLUMNS as int };
    if appends.len() == 0 {
        assert(total =~= w);
        assert(spec_window_after(w, appends) =~= total.skip(total.len() - keep));
    } else {
        let w1 = spec_window_step(w, appends[0]);
        assert(w1.len() <= COLUMNS);
        lemma_window_after_exact(w1, appends.drop_first());
        let total1 = w1 + appends.drop_first();
        let keep1 = if total1.len() <= COLUMNS { total1.len() as int } else { COLUMNS as int };
        assert(spec_window_after(w1, appends.drop_first()) =~= total1.skip(total1.len() - keep1));
        assert(spec_window_after(w, appends) == spec_window_after(w1, appends.drop_first()));
        // The two suffixes agree element for element.
        assert(total1.skip(total1.len() - keep1) =~= total.skip(total.len() - keep)) by {
            if w.len() >= COLUMNS {
                assert(w1 =~= w.drop_first().push(appends[0]));
                assert(total1 =~= total.drop_first());
            } else {
                assert(w1 =~= w.push(appends[0]));
                assert(total1 =~= total);
            }
        }
    }
}

/// The rolling-window law: the window never stores more than `COLUMNS`
/// samples, and once at least `COLUMNS` values have been appended, the
/// stored window is exactly the last `COLUMNS` appended values, in append
/// order.
pub proof fn lemma_rolling_window(w: Seq<u64>, appends: Seq<u64>)
    requires
        w.len() <= COLUMNS,
    ensures
        spec_window_after(w, appends).len() <= COLUMNS,
        appends.len() >= COLUMNS
            ==> spec_window_after(w, appends) =~= appends.skip(appends.len() - COLUMNS),
{
    lemma_window_after_exact(w, appends);
    let total = w + appends;
    let keep = if total.len() <= COLUMNS { total.len() as int } else { COLUMNS as int };
    assert(spec_window_after(w, appends).len() <= COLUMNS);
    if appends.len() >= COLUMNS {
        assert(total.skip(total.len() - keep) =~= appends.skip(appends.len() - COLUMNS));
    }
}

/// The sprite layout of a column graph: the `i`-th sample becomes a
/// unit-image sprite at `x = i * size`, stretched to `size` wide and
/// `sample` tall, growing upward (negative y scale).
pub open spec fn spec_column_sprites(columns: Seq<u64>, size: int) -> Seq<DrawParam> {
    Seq::new(
        columns.len(),
        |i: int| DrawParam {
            dest: Vec2 { x: (i * size) as i64, y: 0 },
            scale: Vec2 { x: size as i64, y: (-(columns[i] as int)) as i64 },
        },
    )
}

/// Renders a column graph as a sprite batch of stretched unit-size black
/// squares, one column per stored sample, in append order.
pub fn column_graph_renderable(graph: &ColumnGraph) -> (r: Renderable)
    requires
        graph.wf(),
    ensures
        r.draw_param is None,
        (r.instruction matches RenderInstruction::SpriteBatch { image_builder, sprites }
            && image_builder == (ImageBuilder::Solid {
                size: 1u16,
                color: Color { r: 0u8, g: 0u8, b: 0u8, a: 255u8 },
            })
            && sprites@ =~= spec_column_sprites(graph.columns@, graph.size as int)),
{
    let n = graph.columns.len();
    let mut sprites: Vec<DrawParam> = Vec::new();
    let mut i: usize = 0;
    while i < n
        invariant
            n == graph.columns@.len(),
            graph.wf(),
            i <= n,
            sprites@ =~= spec_column_sprites(graph.columns@, graph.size as int).take(i as int),
        decreases n - i,
    {
        proof {
            assert(0 <= i * graph.size <= 0x100000 * (COLUMNS as int)) by (nonlinear_arith)
                requires 0 <= i < COLUMNS as int, 1 <= graph.size <= 0x100000;
        }
        let x: i64 = (i as i64) * graph.size;
        let sample: u64 = graph.columns[i];
        sprites.push(DrawParam {
            dest: Vec2 { x, y: 0 },
            scale: Vec2 { x: graph.size, y: -(sample as i64) },
        });
        proof {
            let full = spec_column_sprites(graph.columns@, graph.size as int);
            assert(sprites@ =~= full.take(i + 1));
        }
        i = i + 1;
    }
    proof {
        let full = spec_column_sprites(graph.columns@, graph.size as int);
        assert(full.take(n as int) =~= full);
    }
    Renderable {
        instruction: RenderInstruction::SpriteBatch {
            image_builder: ImageBuilder::Solid { size: 1, color: Color::black() },
            sprites,
        },
        draw_param: None,
    }
}

/// Renders a text component as a text instruction, verbatim.
pub fn text_renderable(text: &Text) -> (r: Renderable)
    ensures
        r.draw_param is None,
        (r.instruction matches RenderInstruction::Text { text: t, font: f, scale: s }
            && t@ == text.text@ && f@ == text.font@ && s == text.scale),
{
    Renderable {
        instruction: RenderInstruction::Text {
            text: text.text.clone(),
            font: text.font.clone(),
            scale: text.scale,
        },
        draw_param: None,
    }
}

/// The smoothed frame rate in tenths of a frame per second: frames divided
/// by elapsed seconds, saturated at `u64::MAX`.
pub open spec fn spec_fps_tenths(frames: nat, elapsed_ms: nat) -> int {
    let v = (frames * 10000) as int / elapsed_ms as int;
    if v > u64::MAX {
        u64::MAX as int
    } else {
        v
    }
}

/// The FPS text overlay's frame counter. Each frame it is ticked with the
/// wall-clock time elapsed since its last reset; every
/// `FPS_UPDATE_INTERVAL_MS` it yields a smoothed average frame rate and
/// starts a fresh measurement.
#[derive(Clone, Copy, Debug, PartialEq, Eq, Structural)]
pub struct UpdateFpsDisplay {
    pub frames_since_last_update: u64,
}

impl Default for UpdateFpsDisplay {
    fn default() -> (r: UpdateFpsDisplay)
        ensures
            r.frames_since_last_update == 0,
    {
        UpdateFpsDisplay { frames_since_last_update: 0 }
    }
}

impl UpdateFpsDisplay {
    /// Counts the frame; once the update interval has elapsed, returns the
    /// average frame rate over the measurement window, in tenths of a frame
    /// per second, and resets the counter. The caller resets its elapsed
    /// clock exactly when `Some` is returned.
    pub fn tick(&mut self, elapsed_ms: u64) -> (r: Option<u64>)
        ensures
            ({
                let f: nat = if old(self).frames_since_last_update == u64::MAX {
                    u64::MAX as nat
                } else {
                    (old(self).frames_since_last_update + 1) as nat
                };
                if elapsed_ms > FPS_UPDATE_INTERVAL_MS {
                    r == Some(spec_fps_tenths(f, elapsed_ms as nat) as u64)
                        && final(self).frames_since_last_update == 0
                } else {
                    r is None && final(self).frames_since_last_update == f
                }
            }),
    {
        let f: u64 = self.frames_since_last_update.saturating_add(1);
        if elapsed_ms > FPS_UPDATE_INTERVAL_MS {
            let wide: u128 = (f as u128) * 10000 / (elapsed_ms as u128);
            let tenths: u64 = if wide > u64::MAX as u128 {
                u64::MAX
            } else {
                wide as u64
            };
            self.frames_since_last_update = 0;
            Some(tenths)
        } else {
            self.frames_since_last_update = f;
            None
        }
    }
}

} // verus!
