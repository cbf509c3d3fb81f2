//! Per-frame input tracking: a press/held/released state machine over
//! arbitrary input symbols, and accumulators for continuous mouse deltas.

use vstd::prelude::*;
use crate::geom::{Vec2, sat_add, spec_sat_add};

verus! {

/// The lifecycle state of one input symbol.
///
/// A symbol enters `Pressed` on its down event, is demoted to `Held` by the
/// frame-boundary `update`, and is marked `Released` on its up event; the
/// next `update` then drops it from the tracker entirely.
#[derive(Clone, Copy, Debug, PartialEq, Eq, Structural)]
pub enum InputState {
    Pressed,
    Held,
    Released,
}

/// The mapping an association list denotes; later entries win, though the
/// tracker keeps keys unique.
pub open spec fn entries_map(s: Seq<(u64, InputState)>) -> Map<u64, InputState>
    decreases s.len(),
{
    if s.len() == 0 {
        Map::empty()
    } else {
        entries_map(s.drop_last()).insert(s.last().0, s.last().1)
    }
}

/// No input symbol occurs twice.
pub open spec fn keys_unique(s: Seq<(u64, InputState)>) -> bool {
    forall|i: int, j: int| 0 <= i < j < s.len() ==> (#[trigger] s[i]).0 != (#[trigger] s[j]).0
}

proof fn lemma_entries_map_props(s: Seq<(u64, InputState)>)
    requires
        keys_unique(s),
    ensures
        forall|k: u64| #[trigger] entries_map(s).dom().contains(k)
            ==> exists|i: int| 0 <= i < s.len() && (#[trigger] s[i]).0 == k,
        forall|i: int| 0 <= i < s.len()
            ==> entries_map(s).dom().contains((#[trigger] s[i]).0)
                && entries_map(s)[s[i].0] == s[i].1,
    decreases s.len(),
{
    if s.len() != 0 {
        let d = s.drop_last();
        assert(forall|i: int| 0 <= i < d.len() ==> #[trigger] d[i] == s[i]);
        lemma_entries_map_props(d);
        assert forall|k: u64| #[trigger] entries_map(s).dom().contains(k)
            implies exists|i: int| 0 <= i < s.len() && (#[trigger] s[i]).0 == k by {
            if k == s.last().0 {
                assert((s[s.len() - 1]).0 == k);
            } else {
                assert(entries_map(d).dom().contains(k));
            }
        }
        assert forall|i: int| 0 <= i < s.len()
            implies entries_map(s).dom().contains((#[trigger] s[i]).0)
                && entries_map(s)[s[i].0] == s[i].1 by {
            if i < s.len() - 1 {
                assert(s[i].0 != s.last().0);
                assert(entries_map(d)[d[i].0] == d[i].1);
            }
        }
    }
}

proof fn lemma_entries_map_remove(s: Seq<(u64, InputState)>, i: int)
    requires
        keys_unique(s),
        0 <= i < s.len(),
    ensures
        entries_map(s.remove(i)) =~= entries_map(s).remove(s[i].0),
    decreases s.len(),
{
    lemma_entries_map_props(s);
    let k = s[i].0;
    let d = s.drop_last();
    assert(forall|j: int| 0 <= j < d.len() ==> #[trigger] d[j] == s[j]);
    if i == s.len() - 1 {
        assert(s.remove(i) =~= d);
        lemma_entries_map_props(d);
        assert(!entries_map(d).dom().contains(k)) by {
            if entries_map(d).dom().contains(k) {
                let j = choose|j: int| 0 <= j < d.len() && (#[trigger] d[j]).0 == k;
                assert(s[j].0 == s[i].0);
            }
        }
        assert(entries_map(d) =~= entries_map(d).insert(k, s[i].1).remove(k));
    } else {
        lemma_entries_map_remove(d, i);
        assert(s.remove(i).drop_last() =~= d.remove(i));
        assert(s.remove(i).last() == s.last());
        assert(entries_map(s.remove(i))
            == entries_map(d.remove(i)).insert(s.last().0, s.last().1));
        assert(k != s.last().0);
        assert(entries_map(d).remove(k).insert(s.last().0, s.last().1)
            =~= entries_map(d).insert(s.last().0, s.last().1).remove(k));
    }
}

/// What a frame-boundary update leaves of a state mapping: released symbols
/// are dropped, everything else is demoted to (or stays) `Held`.
pub open spec fn spec_advance(m: Map<u64, InputState>) -> Map<u64, InputState> {
    Map::new(
        |k: u64| m.dom().contains(k) && m[k] != InputState::Released,
        |k: u64| InputState::Held,
    )
}

/// The symbol was pressed this frame or is being held.
pub open spec fn spec_is_down(m: Map<u64, InputState>, k: u64) -> bool {
    m.dom().contains(k) && m[k] != InputState::Released
}

/// The symbol was pressed down this very frame.
pub open spec fn spec_is_pressed(m: Map<u64, InputState>, k: u64) -> bool {
    m.dom().contains(k) && m[k] == InputState::Pressed
}

/// The symbol has persisted past the frame it was pressed in.
pub open spec fn spec_is_held(m: Map<u64, InputState>, k: u64) -> bool {
    m.dom().contains(k) && m[k] == InputState::Held
}

/// The symbol was released this very frame.
pub open spec fn spec_is_released(m: Map<u64, InputState>, k: u64) -> bool {
    m.dom().contains(k) && m[k] == InputState::Released
}

/// Tracks the press state of every currently interesting input symbol.
///
/// Symbols are any discrete inputs (key codes, mouse buttons) encoded as
/// `u64`. Event callbacks feed `record_down` / `record_up`; gameplay systems
/// query with the `is_*` predicates *before* the once-per-frame `update`,
/// which resolves the edge states.
pub struct InputResource {
    entries: Vec<(u64, InputState)>,
}

impl View for InputResource {
    type V = Map<u64, InputState>;

    closed spec fn view(&self) -> Map<u64, InputState> {
        entries_map(self.entries@)
    }
}

impl Default for InputResource {
    /// An empty tracker: no symbol is down.
    fn default() -> (r: InputResource)
        ensures
            r.wf(),
            r@ == Map::<u64, InputState>::empty(),
    {
        InputResource { entries: Vec::new() }
    }
}

impl InputResource {
    /// The tracker's one internal invariant: keys are unique.
    pub closed spec fn wf(self) -> bool {
        keys_unique(self.entries@)
    }

    fn find_index(&self, symbol: u64) -> (r: Option<usize>)
        ensures
            match r {
                Some(i) => i < self.entries@.len() && self.entries@[i as int].0 == symbol,
                None => forall|i: int| 0 <= i < self.entries@.len()
                    ==> (#[trigger] self.entries@[i]).0 != symbol,
            },
    {
        let mut i: usize = 0;
        while i < self.entries.len()
            invariant
                i <= self.entries@.len(),
                forall|j: int| 0 <= j < i ==> (#[trigger] self.entries@[j]).0 != symbol,
            decreases self.entries@.len() - i,
        {
            if self.entries[i].0 == symbol {
                return Some(i);
            }
            i = i + 1;
        }
        None
    }

    fn record(&mut self, symbol: u64, state: InputState)
        requires
            old(self).wf(),
        ensures
            final(self).wf(),
            final(self)@ == old(self)@.insert(symbol, state),
    {
        proof {
            lemma_entries_map_props(self.entries@);
        }
        let ghost s0 = self.entries@;
        match self.find_index(symbol) {
            Some(i) => {
                proof {
                    lemma_entries_map_remove(s0, i as int);
                }
                self.entries.remove(i);
                self.entries.push((symbol, state));
                proof {
                    let s1 = s0.remove(i as int);
                    assert(self.entries@.drop_last() =~= s1);
                    assert(keys_unique(self.entries@)) by {
                        assert(forall|j: int| 0 <= j < s1.len()
                            ==> (#[trigger] s1[j]).0 != symbol) by {
                            assert(forall|j: int| 0 <= j < s1.len() ==> #[trigger] s1[j] == (
                                if j < i { s0[j] } else { s0[j + 1] }));
                        }
                    }
                    assert(final(self)@ =~= old(self)@.insert(symbol, state));
                }
            }
            None => {
                self.entries.push((symbol, state));
                proof {
                    assert(self.entries@.drop_last() =~= s0);
                    assert(final(self)@ == old(self)@.insert(symbol, state));
                }
            }
        }
    }

    /// Marks a symbol as pressed this frame (its down event arrived).
    pub fn record_down(&mut self, symbol: u64)
        requires
            old(self).wf(),
        ensures
            final(self).wf(),
            final(self)@ == old(self)@.insert(symbol, InputState::Pressed),
    {
        self.record(symbol, InputState::Pressed);
    }

    /// Marks a symbol as released this frame (its up event arrived).
    pub fn record_up(&mut self, symbol: u64)
        requires
            old(self).wf(),
        ensures
            final(self).wf(),
            final(self)@ == old(self)@.insert(symbol, InputState::Released),
    {
        self.record(symbol, InputState::Released);
    }

    /// The once-per-frame state resolution: every `Released` symbol is
    /// dropped and every remaining symbol is demoted to (or stays) `Held`.
    /// Call it after all systems have queried this frame's states.
    pub fn update(&mut self)
        requires
            old(self).wf(),
        ensures
            final(self).wf(),
            final(self)@ == spec_advance(old(self)@),
    {
        let ghost s0 = self.entries@;
        let mut out: Vec<(u64, InputState)> = Vec::new();
        let mut i: usize = 0;
        while i < self.entries.len()
            invariant
                i <= s0.len(),
                self.entries@ == s0,
                keys_unique(s0),
                keys_unique(out@),
                forall|j: int| 0 <= j < out@.len()
                    ==> exists|l: int| 0 <= l < i && (#[trigger] out@[j]).0 == (#[trigger] s0[l]).0,
                entries_map(out@) =~= spec_advance(entries_map(s0.take(i as int))),
            decreases s0.len() - i,
        {
            let entry = self.entries[i];
            let ghost out_pre = out@;
            proof {
                assert(s0.take(i + 1).drop_last() =~= s0.take(i as int));
                assert(s0.take(i + 1).last() == s0[i as int]);
                assert(forall|j: int| 0 <= j < out_pre.len()
                    ==> (#[trigger] out_pre[j]).0 != entry.0) by {
                    assert forall|j: int| 0 <= j < out_pre.len()
                        implies (#[trigger] out_pre[j]).0 != entry.0 by {
                        let l = choose|l: int| 0 <= l < i && out_pre[j].0 == (#[trigger] s0[l]).0;
                        assert(s0[l].0 != s0[i as int].0);
                    }
                }
                lemma_entries_map_props(out_pre);
            }
            if !matches!(entry.1, InputState::Released) {
                out.push((entry.0, InputState::Held));
                proof {
                    assert(out@.drop_last() =~= out_pre);
                    assert(entries_map(out@)
                        =~= spec_advance(entries_map(s0.take(i + 1))));
                }
            } else {
                proof {
                    assert(!entries_map(out_pre).dom().contains(entry.0));
                    assert(entries_map(out@)
                        =~= spec_advance(entries_map(s0.take(i + 1))));
                }
            }
            i = i + 1;
        }
        proof {
            assert(s0.take(s0.len() as int) =~= s0);
        }
        self.entries = out;
        proof {
            assert(final(self)@ =~= spec_advance(old(self)@));
        }
    }

    fn state_of(&self, input: u64) -> (r: Option<InputState>)
        requires
            self.wf(),
        ensures
            match r {
                Some(st) => self@.dom().contains(input) && self@[input] == st,
                None => !self@.dom().contains(input),
            },
    {
        proof {
            lemma_entries_map_props(self.entries@);
        }
        match self.find_index(input) {
            Some(i) => Some(self.entries[i].1),
            None => {
                proof {
                    if self@.dom().contains(input) {
                        let j = choose|j: int| 0 <= j < self.entries@.len()
                            && (#[trigger] self.entries@[j]).0 == input;
                        assert(self.entries@[j].0 == input);
                    }
                }
                None
            }
        }
    }

    /// True while the symbol is pressed or held (not yet released).
    pub fn is_down(&self, input: u64) -> (r: bool)
        requires
            self.wf(),
        ensures
            r == spec_is_down(self@, input),
    {
        match self.state_of(input) {
            Some(st) => !matches!(st, InputState::Released),
            None => false,
        }
    }

    /// True only on the update cycle of the symbol's down event.
    pub fn is_pressed(&self, input: u64) -> (r: bool)
        requires
            self.wf(),
        ensures
            r == spec_is_pressed(self@, input),
    {
        match self.state_of(input) {
            Some(st) => matches!(st, InputState::Pressed),
            None => false,
        }
    }

    /// True once the symbol has persisted past the frame it was pressed in.
    pub fn is_held(&self, input: u64) -> (r: bool)
        requires
            self.wf(),
        ensures
            r == spec_is_held(self@, input),
    {
        match self.state_of(input) {
            Some(st) => matches!(st, InputState::Held),
            None => false,
        }
    }

    /// True only on the update cycle of the symbol's up event.
    pub fn is_released(&self, input: u64) -> (r: bool)
        requires
            self.wf(),
        ensures
            r == spec_is_released(self@, input),
    {
        match self.state_of(input) {
            Some(st) => matches!(st, InputState::Released),
            None => false,
        }
    }
}

/// A down event makes the symbol pressed (and down) immediately; the next
/// `update` resolves it to held, where it then counts as down but no longer
/// as freshly pressed.
pub proof fn lemma_press_lifecycle(m: Map<u64, InputState>, k: u64)
    ensures
        spec_is_pressed(m.insert(k, InputState::Pressed), k),
        spec_is_down(m.insert(k, InputState::Pressed), k),
        spec_is_held(spec_advance(m.insert(k, InputState::Pressed)), k),
        !spec_is_pressed(spec_advance(m.insert(k, InputState::Pressed)), k),
        spec_is_down(spec_advance(m.insert(k, InputState::Pressed)), k),
{
}

/// A held symbol stays held (and down) across any number of updates until
/// its up event arrives.
pub proof fn lemma_held_persists(m: Map<u64, InputState>, k: u64)
    requires
        spec_is_held(m, k),
    ensures
        spec_is_held(spec_advance(m), k),
        spec_is_down(spec_advance(m), k),
{
}

/// An up event makes the symbol released exactly for the current cycle — it
/// no longer counts as down — and the next `update` removes it entirely.
pub proof fn lemma_release_lifecycle(m: Map<u64, InputState>, k: u64)
    ensures
        spec_is_released(m.insert(k, InputState::Released), k),
        !spec_is_down(m.insert(k, InputState::Released), k),
        !spec_advance(m.insert(k, InputState::Released)).dom().contains(k),
        !spec_is_down(spec_advance(m.insert(k, InputState::Released)), k),
{
}

/// One call into the tracker, for stating laws about whole histories.
#[derive(Clone, Copy, Debug, PartialEq, Eq, Structural)]
pub enum InputEvent {
    Down(u64),
    Up(u64),
    Advance,
}

/// What one call does to the whole mapping.
pub open spec fn spec_apply_event(m: Map<u64, InputState>, e: InputEvent) -> Map<u64, InputState> {
    match e {
        InputEvent::Down(k) => m.insert(k, InputState::Pressed),
        InputEvent::Up(k) => m.insert(k, InputState::Released),
        InputEvent::Advance => spec_advance(m),
    }
}

/// The mapping a whole history of calls leaves.
pub open spec fn spec_after_events(m: Map<u64, InputState>, es: Seq<InputEvent>) -> Map<u64, InputState>
    decreases es.len(),
{
    if es.len() == 0 {
        m
    } else {
        spec_after_events(spec_apply_event(m, es[0]), es.drop_first())
    }
}

/// The state of one symbol, if any, in a mapping.
pub open spec fn spec_state_of(m: Map<u64, InputState>, k: u64) -> Option<InputState> {
    if m.dom().contains(k) {
        Some(m[k])
    } else {
        None
    }
}

/// One symbol's own lifecycle step: its down event makes it pressed and
/// its up event released whatever came before; an update demotes pressed
/// and held to held and drops released; other symbols' events leave it
/// alone.
pub open spec fn spec_symbol_step(st: Option<InputState>, e: InputEvent, k: u64) -> Option<InputState> {
    match e {
        InputEvent::Down(k2) => if k2 == k {
            Some(InputState::Pressed)
        } else {
            st
        },
        InputEvent::Up(k2) => if k2 == k {
            Some(InputState::Released)
        } else {
            st
        },
        InputEvent::Advance => match st {
            Some(InputState::Pressed) => Some(InputState::Held),
            Some(InputState::Held) => Some(InputState::Held),
            Some(InputState::Released) => None,
            None => None,
        },
    }
}

/// One symbol's lifecycle folded over a whole history.
pub open spec fn spec_symbol_after(st: Option<InputState>, es: Seq<InputEvent>, k: u64) -> Option<InputState>
    decreases es.len(),
{
    if es.len() == 0 {
        st
    } else {
        spec_symbol_after(spec_symbol_step(st, es[0], k), es.drop_first(), k)
    }
}

/// The lifecycle law over whole histories: after any sequence of
/// `record_down` / `record_up` / `update` calls, each symbol's state is
/// exactly its own lifecycle fold — pressed precisely from its down call to
/// the next update, held from then until its up call, released precisely
/// from the up call to the next update, and absent after that. Symbols
/// never interfere with one another.
pub proof fn lemma_input_lifecycle(m: Map<u64, InputState>, es: Seq<InputEvent>, k: u64)
    ensures
        spec_state_of(spec_after_events(m, es), k) == spec_symbol_after(spec_state_of(m, k), es, k),
    decreases es.len(),
{
    if es.len() != 0 {
        let e = es[0];
        assert(spec_state_of(spec_apply_event(m, e), k) == spec_symbol_step(spec_state_of(m, k), e, k));
        lemma_input_lifecycle(spec_apply_event(m, e), es.drop_first(), k);
    }
}

/// The mouse cursor's current screen position.
#[derive(Clone, Copy, Debug, PartialEq, Eq, Structural)]
pub struct MousePosition(pub Vec2);

impl Default for MousePosition {
    fn default() -> (r: MousePosition)
        ensures
            r.0 == (Vec2 { x: 0, y: 0 }),
    {
        MousePosition(Vec2 { x: 0, y: 0 })
    }
}

/// How an accumulator value reacts to one event delivery: a delta is added
/// (saturating) onto whatever is pending, and a `None` delivery — the end of
/// frame flush — clears the accumulator.
pub open spec fn spec_accumulate(acc: Option<Vec2>, event: Option<Vec2>) -> Option<Vec2> {
    match event {
        None => None,
        Some(e) => Some(
            match acc {
                None => e,
                Some(m) => Vec2 {
                    x: spec_sat_add(m.x as int, e.x as int) as i64,
                    y: spec_sat_add(m.y as int, e.y as int) as i64,
                },
            },
        ),
    }
}

fn accumulate_vec(acc: &mut Option<Vec2>, event: Option<Vec2>)
    ensures
        *final(acc) == spec_accumulate(*old(acc), event),
{
    *acc = match event {
        None => None,
        Some(e) => Some(
            match *acc {
                None => e,
                Some(m) => Vec2 { x: sat_add(m.x, e.x), y: sat_add(m.y, e.y) },
            },
        ),
    };
}

/// Mouse motion deltas accumulated until a frame consumes them.
#[derive(Clone, Copy, Debug, PartialEq, Eq, Structural)]
pub struct MouseMotion(pub Option<Vec2>);

impl Default for MouseMotion {
    fn default() -> (r: MouseMotion)
        ensures
            r.0 is None,
    {
        MouseMotion(None)
    }
}

impl MouseMotion {
    /// Folds one motion event (or the end-of-frame `None` flush) into the
    /// pending accumulated delta.
    pub fn accumulate(&mut self, event: Option<Vec2>)
        ensures
            final(self).0 == spec_accumulate(old(self).0, event),
    {
        accumulate_vec(&mut self.0, event);
    }
}

/// Scroll-wheel deltas accumulated until a frame consumes them.
#[derive(Clone, Copy, Debug, PartialEq, Eq, Structural)]
pub struct MouseWheel(pub Option<Vec2>);

impl Default for MouseWheel {
    fn default() -> (r: MouseWheel)
        ensures
            r.0 is None,
    {
        MouseWheel(None)
    }
}

impl MouseWheel {
    /// Folds one wheel event (or the end-of-frame `None` flush) into the
    /// pending accumulated delta.
    pub fn accumulate(&mut self, event: Option<Vec2>)
        ensures
            final(self).0 == spec_accumulate(old(self).0, event),
    {
        accumulate_vec(&mut self.0, event);
    }
}

} // verus!
