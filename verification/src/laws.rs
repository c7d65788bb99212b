//! What holds of the manager whatever it is asked to do: the invariants of
//! every state that a sequence of requests can lead to, and how some
//! operations relate to the queries and to each other.

use vstd::prelude::*;
use crate::invariants::{
    lemma_add_window_inv, lemma_cycle_focus_inv, lemma_empty_inv, lemma_focus_window_inv,
    lemma_remove_value, lemma_remove_window_inv, lemma_resize_screen_inv,
    lemma_set_window_geometry_inv, lemma_swap_windows_inv, lemma_swap_with_master_inv,
    lemma_toggle_floating_inv, lemma_toggle_fullscreen_inv, lemma_toggle_minimised_inv,
};
use crate::state::{covering, flipped_record, WmState};
use crate::store::{exchanged, manages, position, revealed, slot_for, uncovered};
use crate::store::{lemma_placed, lemma_position_found, lemma_removed, lemma_same_windows};
use crate::tiling::{drawn_at, first_tile, retiled};
use crate::tiling::{lemma_first_tile, lemma_tiles_before_agree};
use crate::types::{Geometry, PrevOrNext, Screen, Window, WindowWithInfo};

verus! {

/// What a host can ask of the manager.
pub enum Request {
    /// Manage the described window.
    Add(WindowWithInfo),
    /// Stop managing a window.
    Remove(Window),
    /// Focus a window, or none.
    Focus(Option<Window>),
    /// Move the focus one record on.
    CycleFocus(PrevOrNext),
    /// Make a window the master.
    SwapWithMaster(Window),
    /// Exchange the focused window with a neighbour.
    SwapWindows(PrevOrNext),
    /// Change the placement mode of a window.
    ToggleFloating(Window),
    /// Give a floating window a geometry.
    SetGeometry(Window, Geometry),
    /// Minimise a window or show it again.
    ToggleMinimised(Window),
    /// Let a window cover the screen or stop covering it.
    ToggleFullscreen(Window),
    /// Change the size of the screen.
    Resize(Screen),
}

impl WmState {
    /// The request is one that the manager carries out in this state: the
    /// window it is about is managed, or unmanaged where it is to be added,
    /// and has the mode that the request asks for; and a new screen is no
    /// higher than a coordinate can tell.
    pub open spec fn accepts(self, request: Request) -> bool {
        match request {
            Request::Add(info) => !self.manages(info.window),
            Request::Remove(w) => self.manages(w),
            Request::Focus(target) => target matches Some(w) ==> self.manages(w),
            Request::CycleFocus(_) => true,
            Request::SwapWithMaster(w) => self.manages(w) && self.record(w).tiled(),
            Request::SwapWindows(_) => true,
            Request::ToggleFloating(w) => self.manages(w),
            Request::SetGeometry(w, _) => self.manages(w) && self.record(w).floating(),
            Request::ToggleMinimised(w) => self.manages(w),
            Request::ToggleFullscreen(w) => self.manages(w),
            Request::Resize(screen) => screen.height <= i32::MAX,
        }
    }

    /// The state after the request: what the operation makes of the state
    /// if the request is accepted, the same state if not.
    pub open spec fn after(self, request: Request) -> WmState {
        if !self.accepts(request) {
            self
        } else {
            match request {
                Request::Add(info) => self.add_window(info),
                Request::Remove(w) => self.remove_window(w),
                Request::Focus(target) => self.focus_window(target),
                Request::CycleFocus(dir) => self.cycle_focus(dir),
                Request::SwapWithMaster(w) => self.swap_with_master(w),
                Request::SwapWindows(dir) => self.swap_windows(dir),
                Request::ToggleFloating(w) => self.toggle_floating(w),
                Request::SetGeometry(w, g) => self.set_window_geometry(w, g),
                Request::ToggleMinimised(w) => self.toggle_minimised(w),
                Request::ToggleFullscreen(w) => self.toggle_fullscreen(w),
                Request::Resize(screen) => self.resize_screen(screen),
            }
        }
    }

    /// The state that a new manager for `screen` is in after the given
    /// requests, made one after the other.
    pub open spec fn after_all(screen: Screen, requests: Seq<Request>) -> WmState
        decreases requests.len(),
    {
        if requests.len() == 0 {
            WmState::empty(screen)
        } else {
            WmState::after_all(screen, requests.drop_last()).after(requests.last())
        }
    }
}

/// A request leads from a state that satisfies the invariants to one that
/// satisfies them.
pub proof fn law_request_keeps_invariants(s: WmState, request: Request)
    requires
        s.inv(),
    ensures
        s.after(request).inv(),
{
    if s.accepts(request) {
        match request {
            Request::Add(info) => lemma_add_window_inv(s, info),
            Request::Remove(w) => lemma_remove_window_inv(s, w),
            Request::Focus(target) => lemma_focus_window_inv(s, target),
            Request::CycleFocus(dir) => lemma_cycle_focus_inv(s, dir),
            Request::SwapWithMaster(w) => lemma_swap_with_master_inv(s, w),
            Request::SwapWindows(dir) => lemma_swap_windows_inv(s, dir),
            Request::ToggleFloating(w) => lemma_toggle_floating_inv(s, w),
            Request::SetGeometry(w, g) => lemma_set_window_geometry_inv(s, w, g),
            Request::ToggleMinimised(w) => lemma_toggle_minimised_inv(s, w),
            Request::ToggleFullscreen(w) => lemma_toggle_fullscreen_inv(s, w),
            Request::Resize(screen) => lemma_resize_screen_inv(s, screen),
        }
    }
}

/// Every state that a new manager can reach satisfies the invariants.
pub proof fn law_reachable_states(screen: Screen, requests: Seq<Request>)
    requires
        screen.height <= i32::MAX,
    ensures
        WmState::after_all(screen, requests).inv(),
    decreases requests.len(),
{
    if requests.len() == 0 {
        lemma_empty_inv(screen);
    } else {
        law_reachable_states(screen, requests.drop_last());
        law_request_keeps_invariants(
            WmState::after_all(screen, requests.drop_last()),
            requests.last(),
        );
    }
}

/// Partition: in every reachable state each tiled record stands before
/// each floating record.
pub proof fn law_partition(screen: Screen, requests: Seq<Request>, i: int, j: int)
    requires
        screen.height <= i32::MAX,
        0 <= i < WmState::after_all(screen, requests).windows.len(),
        0 <= j < WmState::after_all(screen, requests).windows.len(),
        WmState::after_all(screen, requests).windows[i].tiled(),
        WmState::after_all(screen, requests).windows[j].floating(),
    ensures
        i < j,
{
    law_reachable_states(screen, requests);
}

/// Identity: in every reachable state no window is recorded twice.
pub proof fn law_windows_distinct(screen: Screen, requests: Seq<Request>, i: int, j: int)
    requires
        screen.height <= i32::MAX,
        0 <= i < WmState::after_all(screen, requests).windows.len(),
        0 <= j < WmState::after_all(screen, requests).windows.len(),
        WmState::after_all(screen, requests).windows[i].window == WmState::after_all(
            screen,
            requests,
        ).windows[j].window,
    ensures
        i == j,
{
    law_reachable_states(screen, requests);
}

/// Focus validity: in every reachable state the focused window, if there
/// is one, is managed and not minimised.
pub proof fn law_focus_valid(screen: Screen, requests: Seq<Request>, w: Window)
    requires
        screen.height <= i32::MAX,
        WmState::after_all(screen, requests).focused == Some(w),
    ensures
        WmState::after_all(screen, requests).manages(w),
        !WmState::after_all(screen, requests).record(w).minimised,
        !WmState::after_all(screen, requests).minimised.contains(w),
{
    law_reachable_states(screen, requests);
    let s = WmState::after_all(screen, requests);
    assert(s.windows[position(s.windows, w)].window == w);
}

/// Fullscreen uniqueness: in every reachable state at most one record
/// covers the screen, and the window that does is the focused window.
pub proof fn law_fullscreen_unique(screen: Screen, requests: Seq<Request>, i: int, j: int)
    requires
        screen.height <= i32::MAX,
        0 <= i < WmState::after_all(screen, requests).windows.len(),
        0 <= j < WmState::after_all(screen, requests).windows.len(),
        WmState::after_all(screen, requests).windows[i].fullscreen,
        WmState::after_all(screen, requests).windows[j].fullscreen,
    ensures
        i == j,
        WmState::after_all(screen, requests).fullscreen_window() == Some(
            WmState::after_all(screen, requests).windows[i].window,
        ),
        WmState::after_all(screen, requests).focused
            == WmState::after_all(screen, requests).fullscreen_window(),
{
    law_reachable_states(screen, requests);
    let s = WmState::after_all(screen, requests);
    assert(s.windows[covering(s.windows)].fullscreen);
}

/// Whenever a window covers the screen, it is the focused window.
pub proof fn law_fullscreen_is_focused(s: WmState, w: Window)
    requires
        s.inv(),
        s.fullscreen_window() == Some(w),
    ensures
        s.focused == Some(w),
        s.manages(w),
        s.record(w).fullscreen,
        !s.record(w).minimised,
{
    let k = covering(s.windows);
    assert(s.windows[k].fullscreen);
    lemma_position_found(s.windows, w, k);
}

/// Minimisation consistency: a window is on the ledger exactly if it is
/// managed and its record is minimised.
pub proof fn law_minimised_consistent(s: WmState, w: Window)
    requires
        s.inv(),
    ensures
        s.minimised.contains(w) <==> s.manages(w) && s.record(w).minimised,
{
    if s.manages(w) {
        assert(s.windows[position(s.windows, w)].window == w);
    }
}

/// The master, if there is one, is a managed window, tiled, visible and
/// not covering the screen.
pub proof fn law_master_is_managed(s: WmState, w: Window)
    requires
        s.inv(),
        s.master_window() == Some(w),
    ensures
        s.manages(w),
        s.window_list().contains(w),
        s.record(w).takes_tile(),
{
    lemma_first_tile(s.windows);
    let m = first_tile(s.windows);
    lemma_position_found(s.windows, w, m);
    assert(s.window_list()[m] == w);
}

/// A manager without windows has no master.
pub proof fn law_no_windows_no_master(s: WmState)
    requires
        s.window_list().len() == 0,
    ensures
        s.master_window().is_none(),
{
    lemma_first_tile(s.windows);
}

/// A window that was made the master is the master, and has the focus.
pub proof fn law_swap_with_master(s: WmState, w: Window)
    requires
        s.inv(),
        s.manages(w),
        s.record(w).tiled(),
    ensures
        s.swap_with_master(w).master_window() == Some(w),
        s.swap_with_master(w).focused == Some(w),
{
    let ws = s.windows;
    let i = position(ws, w);
    let base = revealed(uncovered(ws), i);
    let m = first_tile(base);
    lemma_first_tile(base);
    assert(base[i].takes_tile());
    let out = retiled(exchanged(base, m, i), s.screen);
    lemma_first_tile(out);
    assert(out[m].takes_tile());
    assert forall|k: int| 0 <= k < m implies !(#[trigger] out[k]).takes_tile() by {
        assert(!base[k].takes_tile());
    }
}

/// What a change of placement mode makes of the window's record: the other
/// mode, the same saved geometry, visible and not covering the screen.
pub proof fn law_toggle_floating_record(s: WmState, w: Window)
    requires
        s.inv(),
        s.manages(w),
    ensures
        s.toggle_floating(w).manages(w),
        s.toggle_floating(w).record(w).float_or_tile == s.record(w).float_or_tile.flipped(),
        s.toggle_floating(w).record(w).saved_geometry == s.record(w).saved_geometry,
        !s.toggle_floating(w).record(w).minimised,
        !s.toggle_floating(w).record(w).fullscreen,
        s.toggle_floating(w).record(w).floating() ==> s.toggle_floating(w).record(w).geometry
            == s.record(w).saved_geometry,
{
    let ws = s.windows;
    let i = position(ws, w);
    let rest = ws.remove(i);
    let r = flipped_record(ws[i]);
    lemma_removed(ws, i);
    lemma_placed(rest, r);
    let p = slot_for(rest, r.float_or_tile);
    let out = s.toggle_floating(w).windows;
    lemma_toggle_floating_inv(s, w);
    lemma_position_found(out, w, p);
}

/// Toggle round trip: changing the placement mode of a window twice gives
/// it back its mode and its saved geometry.
pub proof fn law_toggle_floating_twice(s: WmState, w: Window)
    requires
        s.inv(),
        s.manages(w),
    ensures
        s.toggle_floating(w).toggle_floating(w).manages(w),
        s.toggle_floating(w).toggle_floating(w).record(w).float_or_tile
            == s.record(w).float_or_tile,
        s.toggle_floating(w).toggle_floating(w).record(w).saved_geometry
            == s.record(w).saved_geometry,
{
    law_toggle_floating_record(s, w);
    lemma_toggle_floating_inv(s, w);
    law_toggle_floating_record(s.toggle_floating(w), w);
}

/// A window that was made to cover the screen is all that the layout
/// shows, at the size of the screen, and it has the focus.
pub proof fn law_fullscreen_layout(s: WmState, w: Window)
    requires
        s.inv(),
        s.manages(w),
        !s.record(w).fullscreen,
    ensures
        s.toggle_fullscreen(w).fullscreen_window() == Some(w),
        s.toggle_fullscreen(w).focused == Some(w),
        s.toggle_fullscreen(w).layout_windows() == seq![(w, s.screen.rect())],
{
    let after = s.toggle_fullscreen(w);
    let i = position(s.windows, w);
    lemma_toggle_fullscreen_inv(s, w);
    assert(after.windows[i].fullscreen);
    assert(after.windows[covering(after.windows)].fullscreen);
}

/// Fullscreen round trip: when the focused window is made to cover the
/// screen and then to stop covering it, the manager is in the state in
/// which it was before.
pub proof fn law_fullscreen_round_trip(s: WmState, w: Window)
    requires
        s.inv(),
        s.focused == Some(w),
        !s.record(w).fullscreen,
    ensures
        s.toggle_fullscreen(w).toggle_fullscreen(w) == s,
{
    let ws = s.windows;
    let i = position(ws, w);
    assert(ws[i].window == w);
    lemma_remove_value(s.minimised, w);
    let covering_w = uncovered(ws).update(i, ws[i].with_minimised(false).with_fullscreen(true));
    let once = s.toggle_fullscreen(w);
    lemma_toggle_fullscreen_inv(s, w);
    lemma_same_windows(ws, once.windows);
    assert(position(once.windows, w) == i);
    let restored = once.windows.update(i, once.windows[i].with_fullscreen(false));
    let twice = once.toggle_fullscreen(w);
    assert(twice.windows == retiled(restored, s.screen));
    assert forall|k: int| 0 <= k < ws.len() implies #[trigger] twice.windows[k] == ws[k] by {
        assert(ws[k] == retiled(ws, s.screen)[k]);
        assert(ws[k].geometry == drawn_at(ws, s.screen, k));
        assert(!ws[k].fullscreen);
        lemma_tiles_before_agree(restored, ws, k);
        lemma_tiles_before_agree(restored, ws, ws.len() as int);
    }
    assert(twice.windows =~= ws);
    assert(twice =~= s);
}

} // verus!
