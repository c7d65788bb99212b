//! The state of the window manager as a mathematical value, the invariants
//! that every reachable state satisfies, and each operation of the manager
//! as a function from state to state.

use vstd::prelude::*;
use crate::store::{
    distinct, exchanged, manages, partitioned, placed, position, record_of, revealed, uncovered,
    window_ids, FullscreenWindow,
};
use crate::tiling::{first_tile, retiled, step, tile_neighbour};
use crate::types::{Geometry, PrevOrNext, Screen, Window, WindowWithInfo};

verus! {

/// The focused window, if any, is managed and visible.
pub open spec fn focus_valid(ws: Seq<FullscreenWindow>, focused: Option<Window>) -> bool {
    focused matches Some(f) ==> manages(ws, f) && forall|k: int|
        0 <= k < ws.len() && (#[trigger] ws[k]).window == f ==> !ws[k].minimised
}

/// The ledger lists each minimised window once, and nothing else.
pub open spec fn ledger_matches(ws: Seq<FullscreenWindow>, ledger: Seq<Window>) -> bool {
    &&& ledger.no_duplicates()
    &&& forall|k: int|
        0 <= k < ws.len() ==> ((#[trigger] ws[k]).minimised <==> ledger.contains(ws[k].window))
    &&& forall|w: Window| #[trigger] ledger.contains(w) ==> manages(ws, w)
}

/// A record that covers the screen names the focused window; so at most one
/// record does.
pub open spec fn overlay_focused(ws: Seq<FullscreenWindow>, focused: Option<Window>) -> bool {
    forall|k: int|
        0 <= k < ws.len() && (#[trigger] ws[k]).fullscreen ==> focused == Some(ws[k].window)
}

/// The invariants that do not depend on how the records are drawn.
pub open spec fn sound(
    ws: Seq<FullscreenWindow>,
    ledger: Seq<Window>,
    focused: Option<Window>,
) -> bool {
    &&& distinct(ws)
    &&& partitioned(ws)
    &&& focus_valid(ws, focused)
    &&& ledger_matches(ws, ledger)
    &&& overlay_focused(ws, focused)
}

/// Some record of `ws` covers the screen.
pub open spec fn covered(ws: Seq<FullscreenWindow>) -> bool {
    exists|k: int| 0 <= k < ws.len() && (#[trigger] ws[k]).fullscreen
}

/// The position of a record of `ws` that covers the screen; meaningful
/// when `covered(ws)`.
pub open spec fn covering(ws: Seq<FullscreenWindow>) -> int {
    choose|k: int| 0 <= k < ws.len() && (#[trigger] ws[k]).fullscreen
}

/// What the layout shows of a record.
pub open spec fn entry(r: FullscreenWindow) -> (Window, Geometry) {
    (r.window, r.geometry)
}

/// The function that takes a record to what the layout shows of it.
pub open spec fn entry_of() -> spec_fn(FullscreenWindow) -> (Window, Geometry) {
    |r: FullscreenWindow| entry(r)
}

/// The records that are visible and do not name the window `skip`.
pub open spec fn visible_except(skip: Option<Window>) -> spec_fn(FullscreenWindow) -> bool {
    |r: FullscreenWindow| !r.minimised && skip != Some(r.window)
}

/// The records that float and are visible.
pub open spec fn floats_visibly() -> spec_fn(FullscreenWindow) -> bool {
    |r: FullscreenWindow| r.floating() && !r.minimised
}

/// What `get_window_info` reports of a record.
pub open spec fn info_of(r: FullscreenWindow) -> WindowWithInfo {
    WindowWithInfo {
        window: r.window,
        geometry: r.geometry,
        float_or_tile: r.float_or_tile,
        fullscreen: r.fullscreen,
    }
}

/// The record that `add_window` makes of a description: drawn and saved at
/// the given geometry, and visible.
pub open spec fn fresh_record(info: WindowWithInfo) -> FullscreenWindow {
    FullscreenWindow {
        window: info.window,
        geometry: info.geometry,
        saved_geometry: info.geometry,
        float_or_tile: info.float_or_tile,
        fullscreen: info.fullscreen,
        minimised: false,
    }
}

/// The record `r` in the other placement mode, visible and not covering
/// the screen.
pub open spec fn flipped_record(r: FullscreenWindow) -> FullscreenWindow {
    FullscreenWindow {
        float_or_tile: r.float_or_tile.flipped(),
        fullscreen: false,
        minimised: false,
        ..r
    }
}

/// The state of the window manager.
#[verifier::ext_equal]
pub struct WmState {
    /// The records, in store order.
    pub windows: Seq<FullscreenWindow>,
    /// The minimised windows, the one minimised longest ago first.
    pub minimised: Seq<Window>,
    /// The size of the screen.
    pub screen: Screen,
    /// The focused window, if any.
    pub focused: Option<Window>,
}

impl WmState {
    /// The state of a manager that manages nothing.
    pub open spec fn empty(screen: Screen) -> WmState {
        WmState { windows: Seq::empty(), minimised: Seq::empty(), screen, focused: None }
    }

    /// The window `w` is managed.
    pub open spec fn manages(self, w: Window) -> bool {
        manages(self.windows, w)
    }

    /// The record of the managed window `w`.
    pub open spec fn record(self, w: Window) -> FullscreenWindow {
        record_of(self.windows, w)
    }

    /// Every record is drawn where the tiling puts it.
    pub open spec fn laid_out(self) -> bool {
        self.windows == retiled(self.windows, self.screen)
    }

    /// What holds of every state that the manager can reach: no window is
    /// recorded twice; tiled records stand before floating ones; the
    /// focused window is managed and visible; the ledger lists exactly the
    /// minimised windows; only the focused window can cover the screen;
    /// every record is drawn where the tiling puts it; and the screen is
    /// no higher than a coordinate can tell.
    pub open spec fn inv(self) -> bool {
        &&& sound(self.windows, self.minimised, self.focused)
        &&& self.laid_out()
        &&& self.screen.height <= i32::MAX
    }

    /// The state with the records `ws`, retiled, the ledger `ledger` and
    /// the focus `focused`.
    pub open spec fn with(
        self,
        ws: Seq<FullscreenWindow>,
        ledger: Seq<Window>,
        focused: Option<Window>,
    ) -> WmState {
        WmState { windows: retiled(ws, self.screen), minimised: ledger, screen: self.screen, focused }
    }

    /// The state with the record at `i` visible and focused, and nothing
    /// covering the screen.
    pub open spec fn fronted(self, i: int) -> WmState {
        self.with(
            revealed(uncovered(self.windows), i),
            self.minimised.remove_value(self.windows[i].window),
            Some(self.windows[i].window),
        )
    }

    // ----- queries -----

    /// The managed windows, in store order.
    pub open spec fn window_list(self) -> Seq<Window> {
        window_ids(self.windows)
    }

    /// The visible floating windows, in store order.
    pub open spec fn floating_windows(self) -> Seq<Window> {
        window_ids(self.windows.filter(floats_visibly()))
    }

    /// The master: the window of the first record that takes a tile.
    pub open spec fn master_window(self) -> Option<Window> {
        if first_tile(self.windows) < self.windows.len() {
            Some(self.windows[first_tile(self.windows)].window)
        } else {
            None
        }
    }

    /// The window that covers the screen, if one does.
    pub open spec fn fullscreen_window(self) -> Option<Window> {
        if covered(self.windows) {
            Some(self.windows[covering(self.windows)].window)
        } else {
            None
        }
    }

    /// The focused window floats, so the layout draws it in front of the
    /// other floating windows.
    pub open spec fn raises_focus(self) -> bool {
        self.focused matches Some(f) && self.manages(f) && self.record(f).floating()
            && !self.record(f).minimised
    }

    /// What the layout shows: the window that covers the screen alone, at
    /// the size of the screen; otherwise every visible record with its
    /// geometry in store order, but for a focused floating window, which
    /// comes last.
    pub open spec fn layout_windows(self) -> Seq<(Window, Geometry)> {
        match self.fullscreen_window() {
            Some(w) => seq![(w, self.screen.rect())],
            None => if self.raises_focus() {
                self.windows.filter(visible_except(self.focused)).map_values(entry_of()).push(
                    entry(self.record(self.focused->0)),
                )
            } else {
                self.windows.filter(visible_except(None)).map_values(entry_of())
            },
        }
    }

    /// The position that `cycle_focus` moves the focus to: the neighbour
    /// of the focused record in the given direction, the two ends of the
    /// store being joined; the first record when nothing is focused.
    pub open spec fn cycle_target(self, dir: PrevOrNext) -> int {
        match self.focused {
            Some(f) => step(self.windows.len() as int, position(self.windows, f), dir),
            None => 0,
        }
    }

    // ----- operations -----

    /// The state after the unmanaged window that `info` describes is added:
    /// nothing else covers the screen any more, the new record stands at
    /// the end if it floats and at the end of the tiled records if not, and
    /// its window has the focus.
    pub open spec fn add_window(self, info: WindowWithInfo) -> WmState {
        self.with(
            placed(uncovered(self.windows), fresh_record(info)),
            self.minimised,
            Some(info.window),
        )
    }

    /// The state after the managed window `w` is removed: its record and
    /// its ledger entry are gone, and so is the focus if `w` had it.
    pub open spec fn remove_window(self, w: Window) -> WmState {
        self.with(
            self.windows.remove(position(self.windows, w)),
            self.minimised.remove_value(w),
            if self.focused == Some(w) {
                None
            } else {
                self.focused
            },
        )
    }

    /// The state after the focus is given to the managed window `w`, or to
    /// none. A window that gets the focus is shown, and nothing else covers
    /// the screen any more.
    pub open spec fn focus_window(self, target: Option<Window>) -> WmState {
        match target {
            None => self.with(uncovered(self.windows), self.minimised, None),
            Some(w) => if self.record(w).fullscreen {
                self
            } else {
                self.fronted(position(self.windows, w))
            },
        }
    }

    /// The state after the focus moves one record on in the given
    /// direction. With no windows nothing changes.
    pub open spec fn cycle_focus(self, dir: PrevOrNext) -> WmState {
        if self.windows.len() == 0 {
            self
        } else {
            self.fronted(self.cycle_target(dir))
        }
    }

    /// The state after the managed tiled window `w` becomes the master: it
    /// is shown, nothing covers the screen, `w` changes places with the
    /// first record that then takes a tile, and has the focus.
    pub open spec fn swap_with_master(self, w: Window) -> WmState {
        let i = position(self.windows, w);
        let base = revealed(uncovered(self.windows), i);
        self.with(exchanged(base, first_tile(base), i), self.minimised.remove_value(w), Some(w))
    }

    /// The state after the focused tiled window changes places with its
    /// nearest visible tiled neighbour in the given direction. Nothing
    /// covers the screen afterwards; the focus stays with its window.
    pub open spec fn swap_windows(self, dir: PrevOrNext) -> WmState {
        let base = uncovered(self.windows);
        let moved = match self.focused {
            Some(f) => {
                let i = position(self.windows, f);
                if base[i].tiled() {
                    match tile_neighbour(base, i, i, dir) {
                        Some(j) => exchanged(base, i, j),
                        None => base,
                    }
                } else {
                    base
                }
            },
            None => base,
        };
        self.with(moved, self.minimised, self.focused)
    }

    /// The state after the managed window `w` changes its placement mode:
    /// its record is taken out and put in again as `add_window` would put a
    /// record of the other mode, visible and not covering the screen. The
    /// focus stays where it was.
    pub open spec fn toggle_floating(self, w: Window) -> WmState {
        let i = position(self.windows, w);
        self.with(
            placed(self.windows.remove(i), flipped_record(self.windows[i])),
            self.minimised.remove_value(w),
            self.focused,
        )
    }

    /// The state after the managed floating window `w` is given the
    /// geometry `g`, which it also keeps as its saved geometry. The window
    /// is shown.
    pub open spec fn set_window_geometry(self, w: Window, g: Geometry) -> WmState {
        let i = position(self.windows, w);
        self.with(
            self.windows.update(
                i,
                FullscreenWindow { geometry: g, saved_geometry: g, minimised: false, ..self.windows[i] },
            ),
            self.minimised.remove_value(w),
            self.focused,
        )
    }

    /// The state after the minimised window `w` is shown again, or the
    /// visible window `w` is minimised. A window that is minimised goes to
    /// the end of the ledger, stops covering the screen and loses the focus.
    pub open spec fn toggle_minimised(self, w: Window) -> WmState {
        let i = position(self.windows, w);
        let r = self.windows[i];
        if r.minimised {
            self.with(revealed(self.windows, i), self.minimised.remove_value(w), self.focused)
        } else {
            self.with(
                self.windows.update(i, r.with_minimised(true).with_fullscreen(false)),
                self.minimised.push(w),
                if self.focused == Some(w) {
                    None
                } else {
                    self.focused
                },
            )
        }
    }

    /// The state after the managed window `w` stops covering the screen,
    /// if it did; otherwise after it is shown, focused and made the one
    /// window that covers the screen.
    pub open spec fn toggle_fullscreen(self, w: Window) -> WmState {
        let i = position(self.windows, w);
        if self.windows[i].fullscreen {
            self.with(
                self.windows.update(i, self.windows[i].with_fullscreen(false)),
                self.minimised,
                self.focused,
            )
        } else {
            self.with(
                uncovered(self.windows).update(
                    i,
                    self.windows[i].with_minimised(false).with_fullscreen(true),
                ),
                self.minimised.remove_value(w),
                Some(w),
            )
        }
    }

    /// The state after the screen changes its size.
    pub open spec fn resize_screen(self, screen: Screen) -> WmState {
        WmState { windows: retiled(self.windows, screen), screen, ..self }
    }
}

/// What one more record adds to a selection of records, each handed on
/// through `f`: the record's image if `keep` selects it, nothing if not.
pub proof fn lemma_select_next<B>(
    ws: Seq<FullscreenWindow>,
    i: int,
    keep: spec_fn(FullscreenWindow) -> bool,
    f: spec_fn(FullscreenWindow) -> B,
)
    requires
        0 <= i < ws.len(),
    ensures
        ws.take(i + 1).filter(keep).map_values(f) == if keep(ws[i]) {
            ws.take(i).filter(keep).map_values(f).push(f(ws[i]))
        } else {
            ws.take(i).filter(keep).map_values(f)
        },
{
    let head = ws.take(i);
    assert(ws.take(i + 1) =~= head.push(ws[i]));
    head.lemma_filter_push(ws[i], keep);
    if keep(ws[i]) {
        head.filter(keep).lemma_push_map_commute(f, ws[i]);
    }
}

} // verus!
