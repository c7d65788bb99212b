//! Every operation of the manager keeps the invariants of its state.

use vstd::prelude::*;
use crate::state::{flipped_record, fresh_record, sound, WmState};
use crate::store::{
    exchanged, manages, placed, position, revealed, slot_for, uncovered, FullscreenWindow,
};
use crate::store::{
    lemma_exchanged, lemma_placed, lemma_placed_manages, lemma_position_found, lemma_removed,
    lemma_removed_manages, lemma_same_windows,
};
use crate::tiling::{first_tile, retiled, tile_neighbour};
use crate::tiling::{lemma_first_tile, lemma_retiled_twice, lemma_tile_neighbour};
use crate::types::{Geometry, PrevOrNext, Screen, Window, WindowWithInfo};

verus! {

/// Taking a value out of a list without duplicates leaves the other values
/// in it, once each and in their order.
pub proof fn lemma_remove_value(list: Seq<Window>, w: Window)
    requires
        list.no_duplicates(),
    ensures
        list.remove_value(w).no_duplicates(),
        !list.remove_value(w).contains(w),
        forall|x: Window| x != w ==> (#[trigger] list.remove_value(w).contains(x) <==> list.contains(x)),
        !list.contains(w) ==> list.remove_value(w) == list,
{
    list.index_of_first_ensures(w);
    let out = list.remove_value(w);
    match list.index_of_first(w) {
        Some(k) => {
            assert forall|a: int, b: int|
                0 <= a < out.len() && 0 <= b < out.len() && a != b implies out[a] != out[b] by {
                let a0 = if a < k { a } else { a + 1 };
                let b0 = if b < k { b } else { b + 1 };
                assert(list[a0] != list[b0]);
            }
            if out.contains(w) {
                let a = choose|a: int| 0 <= a < out.len() && out[a] == w;
                let a0 = if a < k { a } else { a + 1 };
                assert(list[a0] == list[k]);
            }
            assert forall|x: Window| x != w implies (#[trigger] out.contains(x) <==> list.contains(x)) by {
                if out.contains(x) {
                    let a = choose|a: int| 0 <= a < out.len() && out[a] == x;
                    let a0 = if a < k { a } else { a + 1 };
                    assert(list[a0] == x);
                }
                if list.contains(x) {
                    let a0 = choose|a: int| 0 <= a < list.len() && list[a] == x;
                    let a = if a0 < k { a0 } else { a0 - 1 };
                    assert(out[a] == x);
                }
            }
        },
        None => {},
    }
}

/// A list with one more value at its end holds that value and what it held
/// before.
pub proof fn lemma_push_contains(list: Seq<Window>, w: Window)
    ensures
        forall|x: Window| #[trigger] list.push(w).contains(x) <==> list.contains(x) || x == w,
        list.no_duplicates() && !list.contains(w) ==> list.push(w).no_duplicates(),
{
    let out = list.push(w);
    assert forall|x: Window| #[trigger] out.contains(x) <==> list.contains(x) || x == w by {
        if out.contains(x) && x != w {
            let a = choose|a: int| 0 <= a < out.len() && out[a] == x;
            assert(list[a] == x);
        }
        if list.contains(x) {
            let a = choose|a: int| 0 <= a < list.len() && list[a] == x;
            assert(out[a] == x);
        }
        if x == w {
            assert(out[list.len() as int] == w);
        }
    }
}

/// Retiling keeps what `sound` speaks of.
pub proof fn lemma_retiled_sound(
    ws: Seq<FullscreenWindow>,
    ledger: Seq<Window>,
    focused: Option<Window>,
    screen: Screen,
)
    requires
        sound(ws, ledger, focused),
    ensures
        sound(retiled(ws, screen), ledger, focused),
{
    lemma_same_windows(ws, retiled(ws, screen));
}

/// A state whose records were retiled after an edit that kept them sound
/// satisfies the invariants.
pub proof fn lemma_with_inv(
    s: WmState,
    ws: Seq<FullscreenWindow>,
    ledger: Seq<Window>,
    focused: Option<Window>,
)
    requires
        s.screen.height <= i32::MAX,
        sound(ws, ledger, focused),
    ensures
        s.with(ws, ledger, focused).inv(),
{
    lemma_retiled_sound(ws, ledger, focused, s.screen);
    lemma_retiled_twice(ws, s.screen);
}

/// The state of a manager that manages nothing satisfies the invariants.
pub proof fn lemma_empty_inv(screen: Screen)
    requires
        screen.height <= i32::MAX,
    ensures
        WmState::empty(screen).inv(),
{
    let s = WmState::empty(screen);
    assert(s.windows =~= retiled(s.windows, screen));
}

/// Toggling the minimisation of a managed window keeps the invariants.
pub proof fn lemma_toggle_minimised_inv(s: WmState, w: Window)
    requires
        s.inv(),
        s.manages(w),
    ensures
        s.toggle_minimised(w).inv(),
{
    let ws = s.windows;
    let i = position(ws, w);
    lemma_remove_value(s.minimised, w);
    lemma_push_contains(s.minimised, w);
    if ws[i].minimised {
        let out = revealed(ws, i);
        lemma_same_windows(ws, out);
        lemma_with_inv(s, out, s.minimised.remove_value(w), s.focused);
    } else {
        let out = ws.update(i, ws[i].with_minimised(true).with_fullscreen(false));
        let focused = if s.focused == Some(w) { None } else { s.focused };
        lemma_same_windows(ws, out);
        lemma_with_inv(s, out, s.minimised.push(w), focused);
    }
}

/// Adding an unmanaged window keeps the invariants.
pub proof fn lemma_add_window_inv(s: WmState, info: WindowWithInfo)
    requires
        s.inv(),
        !s.manages(info.window),
    ensures
        s.add_window(info).inv(),
{
    let base = uncovered(s.windows);
    let r = fresh_record(info);
    lemma_same_windows(s.windows, base);
    lemma_placed(base, r);
    lemma_placed_manages(base, r);
    let out = placed(base, r);
    let p = slot_for(base, r.float_or_tile);
    assert forall|k: int| 0 <= k < out.len() && k != p implies !(#[trigger] out[k]).fullscreen
        && out[k].window != r.window && (out[k].minimised <==> s.minimised.contains(
        out[k].window,
    )) by {
        let k0 = if k < p { k } else { k - 1 };
        assert(out[k] == base[k0]);
        assert(base[k0].window == s.windows[k0].window);
    }
    lemma_with_inv(s, out, s.minimised, Some(info.window));
}

/// Removing a managed window keeps the invariants.
pub proof fn lemma_remove_window_inv(s: WmState, w: Window)
    requires
        s.inv(),
        s.manages(w),
    ensures
        s.remove_window(w).inv(),
{
    let ws = s.windows;
    let i = position(ws, w);
    let out = ws.remove(i);
    let focused = if s.focused == Some(w) { None } else { s.focused };
    lemma_removed(ws, i);
    lemma_removed_manages(ws, i);
    lemma_remove_value(s.minimised, w);
    assert forall|k: int| 0 <= k < out.len() implies (#[trigger] out[k]).window != w && exists|k0: int|
        0 <= k0 < ws.len() && out[k] == #[trigger] ws[k0] by {
        let k0 = if k < i { k } else { k + 1 };
        assert(out[k] == ws[k0]);
    }
    lemma_with_inv(s, out, s.minimised.remove_value(w), focused);
}

/// Showing and focusing a record, with nothing left covering the screen,
/// keeps the invariants.
pub proof fn lemma_fronted_inv(s: WmState, i: int)
    requires
        s.inv(),
        0 <= i < s.windows.len(),
    ensures
        s.fronted(i).inv(),
{
    let ws = s.windows;
    let w = ws[i].window;
    let out = revealed(uncovered(ws), i);
    lemma_same_windows(ws, out);
    lemma_remove_value(s.minimised, w);
    lemma_position_found(ws, w, i);
    lemma_with_inv(s, out, s.minimised.remove_value(w), Some(w));
}

/// Moving the focus to a managed window, or to none, keeps the invariants.
pub proof fn lemma_focus_window_inv(s: WmState, target: Option<Window>)
    requires
        s.inv(),
        target matches Some(w) ==> s.manages(w),
    ensures
        s.focus_window(target).inv(),
{
    match target {
        None => {
            lemma_same_windows(s.windows, uncovered(s.windows));
            lemma_with_inv(s, uncovered(s.windows), s.minimised, None);
        },
        Some(w) => {
            if !s.record(w).fullscreen {
                lemma_fronted_inv(s, position(s.windows, w));
            }
        },
    }
}

/// Moving the focus one record on keeps the invariants.
pub proof fn lemma_cycle_focus_inv(s: WmState, dir: PrevOrNext)
    requires
        s.inv(),
    ensures
        s.cycle_focus(dir).inv(),
{
    if s.windows.len() > 0 {
        lemma_fronted_inv(s, s.cycle_target(dir));
    }
}

/// Making a managed tiled window the master keeps the invariants.
pub proof fn lemma_swap_with_master_inv(s: WmState, w: Window)
    requires
        s.inv(),
        s.manages(w),
        s.record(w).tiled(),
    ensures
        s.swap_with_master(w).inv(),
{
    let ws = s.windows;
    let i = position(ws, w);
    let base = revealed(uncovered(ws), i);
    let m = first_tile(base);
    lemma_same_windows(ws, base);
    lemma_remove_value(s.minimised, w);
    lemma_first_tile(base);
    assert(base[i].takes_tile());
    lemma_exchanged(base, m, i);
    let out = exchanged(base, m, i);
    assert forall|k: int| 0 <= k < out.len() implies exists|k0: int|
        0 <= k0 < base.len() && #[trigger] out[k] == #[trigger] base[k0] by {
        let k0 = if k == m { i } else if k == i { m } else { k };
        assert(out[k] == base[k0]);
    }
    lemma_with_inv(s, out, s.minimised.remove_value(w), Some(w));
}

/// Exchanging the focused tiled window with its neighbour keeps the
/// invariants.
pub proof fn lemma_swap_windows_inv(s: WmState, dir: PrevOrNext)
    requires
        s.inv(),
    ensures
        s.swap_windows(dir).inv(),
{
    let ws = s.windows;
    let base = uncovered(ws);
    lemma_same_windows(ws, base);
    let moved = s.swap_windows(dir);
    match s.focused {
        Some(f) => {
            let i = position(ws, f);
            lemma_tile_neighbour(base, i, i, dir);
            match tile_neighbour(base, i, i, dir) {
                Some(j) => {
                    if base[i].tiled() {
                        lemma_exchanged(base, i, j);
                        let out = exchanged(base, i, j);
                        assert forall|k: int| 0 <= k < out.len() implies exists|k0: int|
                            0 <= k0 < base.len() && #[trigger] out[k] == #[trigger] base[k0] by {
                            let k0 = if k == j { i } else if k == i { j } else { k };
                            assert(out[k] == base[k0]);
                        }
                        lemma_with_inv(s, out, s.minimised, s.focused);
                    } else {
                        lemma_with_inv(s, base, s.minimised, s.focused);
                    }
                },
                None => {
                    lemma_with_inv(s, base, s.minimised, s.focused);
                },
            }
        },
        None => {
            lemma_with_inv(s, base, s.minimised, s.focused);
        },
    }
}

/// Changing the placement mode of a managed window keeps the invariants.
pub proof fn lemma_toggle_floating_inv(s: WmState, w: Window)
    requires
        s.inv(),
        s.manages(w),
    ensures
        s.toggle_floating(w).inv(),
{
    let ws = s.windows;
    let i = position(ws, w);
    let rest = ws.remove(i);
    let r = flipped_record(ws[i]);
    lemma_removed(ws, i);
    lemma_removed_manages(ws, i);
    lemma_remove_value(s.minimised, w);
    lemma_placed(rest, r);
    lemma_placed_manages(rest, r);
    let out = placed(rest, r);
    let p = slot_for(rest, r.float_or_tile);
    assert forall|k: int| 0 <= k < out.len() && k != p implies (#[trigger] out[k]).window != w
        && exists|k0: int| 0 <= k0 < ws.len() && out[k] == #[trigger] ws[k0] by {
        let k1 = if k < p { k } else { k - 1 };
        assert(out[k] == rest[k1]);
        let k0 = if k1 < i { k1 } else { k1 + 1 };
        assert(rest[k1] == ws[k0]);
    }
    lemma_with_inv(s, out, s.minimised.remove_value(w), s.focused);
}

/// Giving a managed floating window a geometry keeps the invariants.
pub proof fn lemma_set_window_geometry_inv(s: WmState, w: Window, g: Geometry)
    requires
        s.inv(),
        s.manages(w),
    ensures
        s.set_window_geometry(w, g).inv(),
{
    let ws = s.windows;
    let i = position(ws, w);
    let out = ws.update(
        i,
        FullscreenWindow { geometry: g, saved_geometry: g, minimised: false, ..ws[i] },
    );
    lemma_same_windows(ws, out);
    lemma_remove_value(s.minimised, w);
    lemma_with_inv(s, out, s.minimised.remove_value(w), s.focused);
}

/// Toggling whether a managed window covers the screen keeps the
/// invariants.
pub proof fn lemma_toggle_fullscreen_inv(s: WmState, w: Window)
    requires
        s.inv(),
        s.manages(w),
    ensures
        s.toggle_fullscreen(w).inv(),
{
    let ws = s.windows;
    let i = position(ws, w);
    lemma_remove_value(s.minimised, w);
    if ws[i].fullscreen {
        let out = ws.update(i, ws[i].with_fullscreen(false));
        lemma_same_windows(ws, out);
        lemma_with_inv(s, out, s.minimised, s.focused);
    } else {
        let out = uncovered(ws).update(i, ws[i].with_minimised(false).with_fullscreen(true));
        lemma_same_windows(ws, out);
        lemma_with_inv(s, out, s.minimised.remove_value(w), Some(w));
    }
}

/// Changing the size of the screen keeps the invariants.
pub proof fn lemma_resize_screen_inv(s: WmState, screen: Screen)
    requires
        s.inv(),
        screen.height <= i32::MAX,
    ensures
        s.resize_screen(screen).inv(),
{
    lemma_retiled_sound(s.windows, s.minimised, s.focused, screen);
    lemma_retiled_twice(s.windows, screen);
}

} // verus!
