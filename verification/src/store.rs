//! The window store: the ordered sequence of window records, and the
//! order-preserving edits that the manager makes to it.
//!
//! Tiled records always stand before floating ones, and no window is
//! recorded twice. Everything here is stated over `Seq<FullscreenWindow>`,
//! the view of the vector that holds the records.

use vstd::prelude::*;
use crate::types::{FloatOrTile, Geometry, Window};

verus! {

/// What the manager knows about one managed window.
#[derive(Debug, Clone, Copy, PartialEq, Eq, Structural)]
pub struct FullscreenWindow {
    /// The window.
    pub window: Window,
    /// The geometry with which the window is drawn.
    pub geometry: Geometry,
    /// The geometry that the window has whenever it floats.
    pub saved_geometry: Geometry,
    /// Whether the window floats or is tiled.
    pub float_or_tile: FloatOrTile,
    /// Whether the window covers the whole screen.
    pub fullscreen: bool,
    /// Whether the window is hidden.
    pub minimised: bool,
}

impl FullscreenWindow {
    /// The record is tiled.
    pub open spec fn tiled(self) -> bool {
        self.float_or_tile == FloatOrTile::Tile
    }

    /// The record floats.
    pub open spec fn floating(self) -> bool {
        self.float_or_tile == FloatOrTile::Float
    }

    /// The record takes part in the tiling: it is tiled, visible and does
    /// not cover the screen.
    pub open spec fn takes_tile(self) -> bool {
        self.tiled() && !self.minimised && !self.fullscreen
    }

    /// The record is tiled and visible.
    pub open spec fn shows_tile(self) -> bool {
        self.tiled() && !self.minimised
    }

    /// Whether the record takes part in the tiling.
    pub fn is_tile(&self) -> (b: bool)
        ensures
            b == self.takes_tile(),
    {
        self.float_or_tile == FloatOrTile::Tile && !self.minimised && !self.fullscreen
    }

    /// Whether the record is tiled and visible.
    pub fn is_visible_tile(&self) -> (b: bool)
        ensures
            b == self.shows_tile(),
    {
        self.float_or_tile == FloatOrTile::Tile && !self.minimised
    }

    /// Whether the record floats.
    pub fn is_float(&self) -> (b: bool)
        ensures
            b == self.floating(),
    {
        self.float_or_tile == FloatOrTile::Float
    }

    /// The same record, shown or hidden.
    pub open spec fn with_minimised(self, minimised: bool) -> FullscreenWindow {
        FullscreenWindow { minimised, ..self }
    }

    /// The same record, covering the screen or not.
    pub open spec fn with_fullscreen(self, fullscreen: bool) -> FullscreenWindow {
        FullscreenWindow { fullscreen, ..self }
    }

    /// The same record, drawn at `geometry`.
    pub open spec fn with_geometry(self, geometry: Geometry) -> FullscreenWindow {
        FullscreenWindow { geometry, ..self }
    }
}

/// Some record of `ws` names `w`.
pub open spec fn manages(ws: Seq<FullscreenWindow>, w: Window) -> bool {
    exists|i: int| 0 <= i < ws.len() && #[trigger] ws[i].window == w
}

/// A position at which `ws` records `w`; meaningful when `manages(ws, w)`.
pub open spec fn position(ws: Seq<FullscreenWindow>, w: Window) -> int {
    choose|i: int| 0 <= i < ws.len() && #[trigger] ws[i].window == w
}

/// The record of `w` in `ws`; meaningful when `manages(ws, w)`.
pub open spec fn record_of(ws: Seq<FullscreenWindow>, w: Window) -> FullscreenWindow {
    ws[position(ws, w)]
}

/// No window is recorded twice.
pub open spec fn distinct(ws: Seq<FullscreenWindow>) -> bool {
    forall|i: int, j: int|
        0 <= i < ws.len() && 0 <= j < ws.len() && i != j ==> #[trigger] ws[i].window
            != #[trigger] ws[j].window
}

/// Every tiled record stands before every floating one.
pub open spec fn partitioned(ws: Seq<FullscreenWindow>) -> bool {
    forall|i: int, j: int|
        #![trigger ws[i], ws[j]]
        0 <= i < ws.len() && 0 <= j < ws.len() && ws[i].tiled() && ws[j].floating() ==> i < j
}

/// The position of the first floating record at or after `from`, or the
/// length of `ws` if there is none.
pub open spec fn first_floating_from(ws: Seq<FullscreenWindow>, from: int) -> int
    decreases ws.len() - from,
{
    if from >= ws.len() {
        ws.len() as int
    } else if ws[from].floating() {
        from
    } else {
        first_floating_from(ws, from + 1)
    }
}

/// The position of the first floating record, or the length of `ws` if
/// nothing floats: where the floating part of the store begins.
pub open spec fn first_floating(ws: Seq<FullscreenWindow>) -> int {
    first_floating_from(ws, 0)
}

/// Where a new record of the given mode goes: a floating one at the end,
/// a tiled one just before the first floating record.
pub open spec fn slot_for(ws: Seq<FullscreenWindow>, mode: FloatOrTile) -> int {
    match mode {
        FloatOrTile::Float => ws.len() as int,
        FloatOrTile::Tile => first_floating(ws),
    }
}

/// `ws` with `r` put in at the place that its mode asks for.
pub open spec fn placed(ws: Seq<FullscreenWindow>, r: FullscreenWindow) -> Seq<FullscreenWindow> {
    ws.insert(slot_for(ws, r.float_or_tile), r)
}

/// `ws` with no record covering the screen.
pub open spec fn uncovered(ws: Seq<FullscreenWindow>) -> Seq<FullscreenWindow> {
    Seq::new(ws.len(), |i: int| ws[i].with_fullscreen(false))
}

/// `ws` with the record at `i` shown.
pub open spec fn revealed(ws: Seq<FullscreenWindow>, i: int) -> Seq<FullscreenWindow> {
    ws.update(i, ws[i].with_minimised(false))
}

/// `ws` with the records at `i` and `j` exchanged.
pub open spec fn exchanged(ws: Seq<FullscreenWindow>, i: int, j: int) -> Seq<FullscreenWindow> {
    ws.update(i, ws[j]).update(j, ws[i])
}

/// The function that takes a record to its window.
pub open spec fn window_of() -> spec_fn(FullscreenWindow) -> Window {
    |r: FullscreenWindow| r.window
}

/// The windows of `ws`, in store order.
pub open spec fn window_ids(ws: Seq<FullscreenWindow>) -> Seq<Window> {
    ws.map_values(window_of())
}

/// A record that names `w` shows that `w` is managed, and `position` then
/// finds a record of `w`.
pub proof fn lemma_position_found(ws: Seq<FullscreenWindow>, w: Window, i: int)
    requires
        0 <= i < ws.len(),
        ws[i].window == w,
    ensures
        manages(ws, w),
        0 <= position(ws, w) < ws.len(),
        ws[position(ws, w)].window == w,
        distinct(ws) ==> position(ws, w) == i,
{
}

/// What `first_floating_from` finds: nothing floats between `from` and the
/// result, and the result floats unless it is the length.
pub proof fn lemma_first_floating_from(ws: Seq<FullscreenWindow>, from: int)
    requires
        0 <= from <= ws.len(),
    ensures
        from <= first_floating_from(ws, from) <= ws.len(),
        first_floating_from(ws, from) < ws.len() ==> ws[first_floating_from(ws, from)].floating(),
        forall|k: int| from <= k < first_floating_from(ws, from) ==> !(#[trigger] ws[k]).floating(),
    decreases ws.len() - from,
{
    if from < ws.len() && !ws[from].floating() {
        lemma_first_floating_from(ws, from + 1);
    }
}

/// In a partitioned store the records before `first_floating` are exactly
/// the tiled ones.
pub proof fn lemma_first_floating(ws: Seq<FullscreenWindow>)
    ensures
        0 <= first_floating(ws) <= ws.len(),
        forall|k: int| 0 <= k < first_floating(ws) ==> (#[trigger] ws[k]).tiled(),
        first_floating(ws) < ws.len() ==> ws[first_floating(ws)].floating(),
        partitioned(ws) ==> forall|k: int|
            first_floating(ws) <= k < ws.len() ==> (#[trigger] ws[k]).floating(),
{
    lemma_first_floating_from(ws, 0);
    let p = first_floating(ws);
    if partitioned(ws) {
        assert forall|k: int| p <= k < ws.len() implies (#[trigger] ws[k]).floating() by {
            if ws[k].tiled() {
                assert(ws[p].floating());
            }
        }
    }
}

/// Putting a record of a new window in at its place keeps the store
/// distinct and partitioned, and leaves every other record's data as it was.
pub proof fn lemma_placed(ws: Seq<FullscreenWindow>, r: FullscreenWindow)
    requires
        distinct(ws),
        partitioned(ws),
        !manages(ws, r.window),
    ensures
        distinct(placed(ws, r)),
        partitioned(placed(ws, r)),
        placed(ws, r).len() == ws.len() + 1,
        0 <= slot_for(ws, r.float_or_tile) <= ws.len(),
        placed(ws, r)[slot_for(ws, r.float_or_tile)] == r,
        forall|i: int| 0 <= i < slot_for(ws, r.float_or_tile) ==> #[trigger] placed(ws, r)[i] == ws[i],
        forall|i: int|
            slot_for(ws, r.float_or_tile) <= i < ws.len() ==> #[trigger] placed(ws, r)[i + 1] == ws[i],
{
    lemma_first_floating(ws);
    let p = slot_for(ws, r.float_or_tile);
    let out = placed(ws, r);
    assert forall|i: int, j: int|
        0 <= i < out.len() && 0 <= j < out.len() && i != j implies #[trigger] out[i].window
        != #[trigger] out[j].window by {
        let a = if i < p { i } else { i - 1 };
        let b = if j < p { j } else { j - 1 };
        if i != p && j != p {
            assert(ws[a].window != ws[b].window);
        } else if i == p {
            assert(ws[b].window != r.window);
        } else {
            assert(ws[a].window != r.window);
        }
    }
    assert forall|i: int, j: int|
        #![trigger out[i], out[j]]
        0 <= i < out.len() && 0 <= j < out.len() && out[i].tiled() && out[j].floating() implies i
        < j by {
        let a = if i < p { i } else { i - 1 };
        let b = if j < p { j } else { j - 1 };
        if i != p && j != p {
            assert(ws[a].tiled() && ws[b].floating());
        } else if i == p && j != p {
            assert(ws[b].floating());
        } else if j == p && i != p {
            assert(ws[a].tiled());
        }
    }
}

/// Taking a record out keeps the store distinct and partitioned.
pub proof fn lemma_removed(ws: Seq<FullscreenWindow>, i: int)
    requires
        distinct(ws),
        partitioned(ws),
        0 <= i < ws.len(),
    ensures
        distinct(ws.remove(i)),
        partitioned(ws.remove(i)),
        !manages(ws.remove(i), ws[i].window),
        ws.remove(i).len() == ws.len() - 1,
        forall|k: int| 0 <= k < i ==> #[trigger] ws.remove(i)[k] == ws[k],
        forall|k: int| i <= k < ws.len() - 1 ==> #[trigger] ws.remove(i)[k] == ws[k + 1],
{
    let out = ws.remove(i);
    assert forall|a: int, b: int|
        0 <= a < out.len() && 0 <= b < out.len() && a != b implies #[trigger] out[a].window
        != #[trigger] out[b].window by {
        let a0 = if a < i { a } else { a + 1 };
        let b0 = if b < i { b } else { b + 1 };
        assert(ws[a0].window != ws[b0].window);
    }
    assert forall|a: int, b: int|
        #![trigger out[a], out[b]]
        0 <= a < out.len() && 0 <= b < out.len() && out[a].tiled() && out[b].floating() implies a
        < b by {
        let a0 = if a < i { a } else { a + 1 };
        let b0 = if b < i { b } else { b + 1 };
        assert(ws[a0].tiled() && ws[b0].floating());
    }
    if manages(out, ws[i].window) {
        let k = position(out, ws[i].window);
        let k0 = if k < i { k } else { k + 1 };
        assert(ws[k0].window == ws[i].window);
    }
}

/// An edit that keeps the number of records and the window of each manages
/// the same windows, and keeps the store distinct.
pub proof fn lemma_same_windows(ws: Seq<FullscreenWindow>, out: Seq<FullscreenWindow>)
    requires
        out.len() == ws.len(),
        forall|k: int| 0 <= k < ws.len() ==> (#[trigger] out[k]).window == ws[k].window,
    ensures
        forall|w: Window| #[trigger] manages(out, w) <==> manages(ws, w),
        distinct(ws) ==> distinct(out),
        forall|w: Window| distinct(ws) && manages(ws, w) ==> #[trigger] position(out, w) == position(ws, w),
{
    assert forall|w: Window| #[trigger] manages(out, w) <==> manages(ws, w) by {
        if manages(out, w) {
            let k = position(out, w);
            assert(ws[k].window == w);
        }
        if manages(ws, w) {
            let k = position(ws, w);
            assert(out[k].window == w);
        }
    }
    if distinct(ws) {
        assert forall|i: int, j: int|
            0 <= i < out.len() && 0 <= j < out.len() && i != j implies #[trigger] out[i].window
            != #[trigger] out[j].window by {
            assert(ws[i].window != ws[j].window);
        }
        assert forall|w: Window| manages(ws, w) implies #[trigger] position(out, w) == position(ws, w) by {
            let k = position(ws, w);
            assert(out[k].window == w);
            lemma_position_found(out, w, k);
        }
    }
}

/// After a record is taken out, the store manages the other windows.
pub proof fn lemma_removed_manages(ws: Seq<FullscreenWindow>, i: int)
    requires
        distinct(ws),
        0 <= i < ws.len(),
    ensures
        forall|w: Window| #[trigger]
            manages(ws.remove(i), w) <==> manages(ws, w) && w != ws[i].window,
{
    let out = ws.remove(i);
    assert forall|w: Window| #[trigger]
        manages(out, w) <==> manages(ws, w) && w != ws[i].window by {
        if manages(out, w) {
            let k = position(out, w);
            let k0 = if k < i { k } else { k + 1 };
            assert(ws[k0].window == w);
        }
        if manages(ws, w) && w != ws[i].window {
            let k0 = position(ws, w);
            let k = if k0 < i { k0 } else { k0 - 1 };
            assert(out[k].window == w);
        }
    }
}

/// After a record is put in, the store manages its window on top of the
/// others.
pub proof fn lemma_placed_manages(ws: Seq<FullscreenWindow>, r: FullscreenWindow)
    ensures
        forall|w: Window| #[trigger] manages(placed(ws, r), w) <==> manages(ws, w) || w == r.window,
{
    lemma_first_floating(ws);
    let p = slot_for(ws, r.float_or_tile);
    let out = placed(ws, r);
    assert forall|w: Window| #[trigger] manages(out, w) <==> manages(ws, w) || w == r.window by {
        if manages(out, w) && w != r.window {
            let k = position(out, w);
            let k0 = if k < p { k } else { k - 1 };
            assert(ws[k0].window == w);
        }
        if manages(ws, w) {
            let k0 = position(ws, w);
            let k = if k0 < p { k0 } else { k0 + 1 };
            assert(out[k].window == w);
        }
        if w == r.window {
            assert(out[p].window == w);
        }
    }
}

/// Exchanging two records of the same mode keeps the store distinct and
/// partitioned, and it manages the same windows.
pub proof fn lemma_exchanged(ws: Seq<FullscreenWindow>, i: int, j: int)
    requires
        distinct(ws),
        partitioned(ws),
        0 <= i < ws.len(),
        0 <= j < ws.len(),
        ws[i].float_or_tile == ws[j].float_or_tile,
    ensures
        distinct(exchanged(ws, i, j)),
        partitioned(exchanged(ws, i, j)),
        exchanged(ws, i, j).len() == ws.len(),
        forall|w: Window| #[trigger] manages(exchanged(ws, i, j), w) <==> manages(ws, w),
{
    let out = exchanged(ws, i, j);
    let other = |k: int| if k == i { j } else if k == j { i } else { k };
    assert forall|a: int| 0 <= a < out.len() implies #[trigger] out[a] == ws[other(a)] by {}
    assert forall|a: int, b: int|
        0 <= a < out.len() && 0 <= b < out.len() && a != b implies #[trigger] out[a].window
        != #[trigger] out[b].window by {
        assert(ws[other(a)].window != ws[other(b)].window);
    }
    assert forall|a: int, b: int|
        #![trigger out[a], out[b]]
        0 <= a < out.len() && 0 <= b < out.len() && out[a].tiled() && out[b].floating() implies a
        < b by {
        assert(ws[a].float_or_tile == out[a].float_or_tile);
        assert(ws[b].float_or_tile == out[b].float_or_tile);
    }
    assert forall|w: Window| #[trigger] manages(out, w) <==> manages(ws, w) by {
        if manages(out, w) {
            let k = position(out, w);
            assert(ws[other(k)].window == w);
        }
        if manages(ws, w) {
            let k = position(ws, w);
            assert(out[other(k)].window == w);
        }
    }
}

/// Finds the record of `w`.
pub fn find(ws: &Vec<FullscreenWindow>, w: Window) -> (found: Option<usize>)
    ensures
        found is Some <==> manages(ws@, w),
        found matches Some(i) ==> i < ws.len() && ws@[i as int].window == w && (distinct(ws@)
            ==> i == position(ws@, w)),
{
    let mut i: usize = 0;
    while i < ws.len()
        invariant
            i <= ws.len(),
            forall|k: int| 0 <= k < i ==> (#[trigger] ws@[k]).window != w,
        decreases ws.len() - i,
    {
        if ws[i].window == w {
            proof {
                lemma_position_found(ws@, w, i as int);
            }
            return Some(i);
        }
        i += 1;
    }
    None
}

/// Finds where the floating part of the store begins.
pub fn partition_index(ws: &Vec<FullscreenWindow>) -> (p: usize)
    ensures
        p == first_floating(ws@),
{
    let mut i: usize = 0;
    while i < ws.len() && !ws[i].is_float()
        invariant
            i <= ws.len(),
            first_floating_from(ws@, i as int) == first_floating(ws@),
        decreases ws.len() - i,
    {
        i += 1;
    }
    i
}

/// Puts `r` in at the place that its mode asks for, and says where that is.
pub fn place(ws: &mut Vec<FullscreenWindow>, r: FullscreenWindow) -> (p: usize)
    ensures
        final(ws)@ == placed(old(ws)@, r),
        p == slot_for(old(ws)@, r.float_or_tile),
{
    let p = match r.float_or_tile {
        FloatOrTile::Float => ws.len(),
        FloatOrTile::Tile => partition_index(ws),
    };
    proof {
        lemma_first_floating(ws@);
    }
    ws.insert(p, r);
    p
}

/// Lets no record cover the screen.
pub fn uncover(ws: &mut Vec<FullscreenWindow>)
    ensures
        final(ws)@ == uncovered(old(ws)@),
{
    let ghost before = ws@;
    let mut i: usize = 0;
    while i < ws.len()
        invariant
            i <= ws.len(),
            ws.len() == before.len(),
            forall|k: int| 0 <= k < i ==> #[trigger] ws@[k] == before[k].with_fullscreen(false),
            forall|k: int| i <= k < ws.len() ==> #[trigger] ws@[k] == before[k],
        decreases ws.len() - i,
    {
        let r = ws[i];
        ws.set(i, FullscreenWindow { fullscreen: false, ..r });
        i += 1;
    }
    assert(ws@ =~= uncovered(before));
}

/// Shows the record at `i`.
pub fn unminimise(ws: &mut Vec<FullscreenWindow>, i: usize)
    requires
        i < old(ws).len(),
    ensures
        final(ws)@ == revealed(old(ws)@, i as int),
{
    let r = ws[i];
    ws.set(i, FullscreenWindow { minimised: false, ..r });
}

/// Exchanges the records at `i` and `j`.
pub fn exchange(ws: &mut Vec<FullscreenWindow>, i: usize, j: usize)
    requires
        i < old(ws).len(),
        j < old(ws).len(),
    ensures
        final(ws)@ == exchanged(old(ws)@, i as int, j as int),
{
    let a = ws[i];
    let b = ws[j];
    ws.set(i, b);
    ws.set(j, a);
}

} // verus!
