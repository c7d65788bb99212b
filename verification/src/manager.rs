//! The window manager: the window store, the ledger of minimised windows,
//! the screen and the focus, with the operations that a host drives it by.
//!
//! Every operation says what it does as a function of the manager's state,
//! `WmState`, and keeps the manager well formed. An operation that fails
//! leaves the manager as it was.

use vstd::prelude::*;
use crate::invariants::{
    lemma_add_window_inv, lemma_empty_inv, lemma_focus_window_inv, lemma_fronted_inv,
    lemma_remove_window_inv, lemma_resize_screen_inv, lemma_set_window_geometry_inv,
    lemma_swap_windows_inv, lemma_swap_with_master_inv, lemma_toggle_floating_inv,
    lemma_toggle_fullscreen_inv, lemma_toggle_minimised_inv,
};
use crate::laws::law_minimised_consistent;
use crate::ledger::{listed, strike};
use crate::state::{covering, entry_of, floats_visibly, info_of, visible_except, WmState};
use crate::state::lemma_select_next;
use crate::store::{manages, window_ids, window_of, FullscreenWindow};
use crate::store::{exchange, find, place, uncover, unminimise};
use crate::store::{lemma_placed, lemma_position_found, lemma_removed, lemma_same_windows};
use crate::tiling::tile_neighbour;
use crate::tiling::{master_index, neighbour, retile};
use crate::tiling::{lemma_first_tile, lemma_tile_neighbour};
use crate::types::{Geometry, PrevOrNext, Screen, Window, WindowLayout, WindowWithInfo};

verus! {

/// Why an operation of the manager was refused.
#[derive(Debug, Clone, Copy, PartialEq, Eq, Structural)]
pub enum FullscreenWMError {
    /// The window is not managed.
    UnknownWindow(Window),
    /// The window is managed already.
    ManagedWindow(Window),
    /// The window is not a floating window.
    NoFloatingWindow(Window),
    /// The window is not a tiled window.
    NoTiledWindow(Window),
}

/// A tiling window manager with floating, minimised and fullscreen windows.
#[derive(Debug, Clone)]
pub struct FullscreenWM {
    /// The records of the managed windows: the tiled ones in tiling order,
    /// then the floating ones.
    pub windows: Vec<FullscreenWindow>,
    /// The minimised windows, the one minimised longest ago first.
    pub minimised_windows: Vec<Window>,
    /// The size of the screen.
    pub screen: Screen,
    /// The position of the focused window's record in `windows`, if a
    /// window is focused.
    pub index_foused_window: Option<usize>,
}

impl View for FullscreenWM {
    type V = WmState;

    open spec fn view(&self) -> WmState {
        WmState {
            windows: self.windows@,
            minimised: self.minimised_windows@,
            screen: self.screen,
            focused: match self.index_foused_window {
                Some(i) => if i < self.windows@.len() {
                    Some(self.windows@[i as int].window)
                } else {
                    None
                },
                None => None,
            },
        }
    }
}

impl FullscreenWM {
    /// The manager is well formed: its state satisfies the invariants, and
    /// the focus index, if any, is the position of a record.
    pub open spec fn wf(&self) -> bool {
        &&& self@.inv()
        &&& self.index_foused_window matches Some(i) ==> i < self.windows@.len()
    }

    /// A manager of no windows for the given screen.
    pub fn new(screen: Screen) -> (wm: FullscreenWM)
        requires
            screen.height <= i32::MAX,
        ensures
            wm.wf(),
            wm@ == WmState::empty(screen),
    {
        proof {
            lemma_empty_inv(screen);
        }
        let wm = FullscreenWM {
            windows: Vec::new(),
            minimised_windows: Vec::new(),
            screen,
            index_foused_window: None,
        };
        assert(wm@ =~= WmState::empty(screen));
        wm
    }

    /// The managed windows, in store order.
    pub fn get_windows(&self) -> (windows: Vec<Window>)
        ensures
            windows@ == self@.window_list(),
    {
        let mut windows: Vec<Window> = Vec::new();
        let mut i: usize = 0;
        while i < self.windows.len()
            invariant
                i <= self.windows.len(),
                windows.len() == i,
                forall|k: int| 0 <= k < i ==> windows@[k] == self.windows@[k].window,
            decreases self.windows.len() - i,
        {
            windows.push(self.windows[i].window);
            i += 1;
        }
        assert(windows@ =~= window_ids(self.windows@));
        windows
    }

    /// Whether `window` is managed.
    pub fn is_managed(&self, window: Window) -> (b: bool)
        ensures
            b == self@.manages(window),
    {
        find(&self.windows, window).is_some()
    }

    /// The focused window, if any.
    pub fn get_focused_window(&self) -> (focused: Option<Window>)
        ensures
            focused == self@.focused,
    {
        match self.index_foused_window {
            Some(i) => if i < self.windows.len() {
                Some(self.windows[i].window)
            } else {
                None
            },
            None => None,
        }
    }

    /// What the manager knows about the managed window `window`.
    pub fn get_window_info(&self, window: Window) -> (res: Result<WindowWithInfo, FullscreenWMError>)
        requires
            self.wf(),
        ensures
            match res {
                Ok(info) => self@.manages(window) && info == info_of(self@.record(window)),
                Err(e) => !self@.manages(window) && e == FullscreenWMError::UnknownWindow(window),
            },
    {
        match find(&self.windows, window) {
            None => Err(FullscreenWMError::UnknownWindow(window)),
            Some(i) => {
                let r = self.windows[i];
                Ok(
                    WindowWithInfo {
                        window: r.window,
                        geometry: r.geometry,
                        float_or_tile: r.float_or_tile,
                        fullscreen: r.fullscreen,
                    },
                )
            },
        }
    }

    /// The size of the screen.
    pub fn get_screen(&self) -> (screen: Screen)
        ensures
            screen == self@.screen,
    {
        self.screen
    }

    /// Changes the size of the screen and draws the records anew.
    pub fn resize_screen(&mut self, screen: Screen)
        requires
            old(self).wf(),
            screen.height <= i32::MAX,
        ensures
            final(self).wf(),
            final(self)@ == old(self)@.resize_screen(screen),
    {
        let ghost before = self@;
        self.screen = screen;
        retile(&mut self.windows, screen);
        proof {
            lemma_resize_screen_inv(before, screen);
            lemma_same_windows(before.windows, self.windows@);
            assert(self@ =~= before.resize_screen(screen));
        }
    }

    /// The master window: the first tiled window that is visible and does
    /// not cover the screen.
    pub fn get_master_window(&self) -> (master: Option<Window>)
        ensures
            master == self@.master_window(),
    {
        match master_index(&self.windows) {
            Some(m) => Some(self.windows[m].window),
            None => None,
        }
    }

    /// The minimised windows, the one minimised longest ago first.
    pub fn get_minimised_windows(&self) -> (windows: Vec<Window>)
        ensures
            windows@ == self@.minimised,
    {
        let mut windows: Vec<Window> = Vec::new();
        let mut i: usize = 0;
        while i < self.minimised_windows.len()
            invariant
                i <= self.minimised_windows.len(),
                windows.len() == i,
                forall|k: int| 0 <= k < i ==> windows@[k] == self.minimised_windows@[k],
            decreases self.minimised_windows.len() - i,
        {
            windows.push(self.minimised_windows[i]);
            i += 1;
        }
        assert(windows@ =~= self.minimised_windows@);
        windows
    }

    /// Whether `window` is minimised: whether the ledger lists it, which in
    /// a well-formed manager is to say that it is managed and its record is
    /// minimised.
    pub fn is_minimised(&self, window: Window) -> (b: bool)
        ensures
            b == self@.minimised.contains(window),
            self@.inv() ==> (b <==> self@.manages(window) && self@.record(window).minimised),
    {
        proof {
            if self@.inv() {
                law_minimised_consistent(self@, window);
            }
        }
        listed(&self.minimised_windows, window)
    }

    /// Shows and focuses the record at `i`, and lets nothing cover the
    /// screen.
    fn bring_forward(&mut self, i: usize)
        requires
            old(self).wf(),
            i < old(self).windows.len(),
        ensures
            final(self).wf(),
            final(self)@ == old(self)@.fronted(i as int),
    {
        let ghost before = self@;
        let window = self.windows[i].window;
        uncover(&mut self.windows);
        unminimise(&mut self.windows, i);
        strike(&mut self.minimised_windows, window);
        self.index_foused_window = Some(i);
        retile(&mut self.windows, self.screen);
        proof {
            lemma_fronted_inv(before, i as int);
            assert(self@ =~= before.fronted(i as int));
        }
    }

    /// Adds the window that `window_with_info` describes and gives it the
    /// focus. A floating window goes to the end of the store, a tiled one to
    /// the end of the tiled windows. Whatever covered the screen no longer
    /// does; the new window covers it if its description says so.
    ///
    /// Fails with `ManagedWindow` if the window is managed already.
    pub fn add_window(&mut self, window_with_info: WindowWithInfo) -> (res: Result<
        (),
        FullscreenWMError,
    >)
        requires
            old(self).wf(),
        ensures
            final(self).wf(),
            match res {
                Ok(_) => !old(self)@.manages(window_with_info.window) && final(self)@ == old(self)@.add_window(window_with_info),
                Err(e) => old(self)@.manages(window_with_info.window) && e
                    == FullscreenWMError::ManagedWindow(window_with_info.window) && *final(self)
                    == *old(self),
            },
    {
        let ghost before = self@;
        if find(&self.windows, window_with_info.window).is_some() {
            return Err(FullscreenWMError::ManagedWindow(window_with_info.window));
        }
        uncover(&mut self.windows);
        let record = FullscreenWindow {
            window: window_with_info.window,
            geometry: window_with_info.geometry,
            saved_geometry: window_with_info.geometry,
            float_or_tile: window_with_info.float_or_tile,
            fullscreen: window_with_info.fullscreen,
            minimised: false,
        };
        proof {
            lemma_same_windows(before.windows, self.windows@);
            lemma_placed(self.windows@, record);
        }
        let p = place(&mut self.windows, record);
        self.index_foused_window = Some(p);
        retile(&mut self.windows, self.screen);
        proof {
            lemma_add_window_inv(before, window_with_info);
            assert(self@ =~= before.add_window(window_with_info));
        }
        Ok(())
    }

    /// Removes `window`: its record and its ledger entry go, and the focus
    /// too if `window` had it.
    ///
    /// Fails with `UnknownWindow` if the window is not managed.
    pub fn remove_window(&mut self, window: Window) -> (res: Result<(), FullscreenWMError>)
        requires
            old(self).wf(),
        ensures
            final(self).wf(),
            match res {
                Ok(_) => old(self)@.manages(window) && final(self)@ == old(self)@.remove_window(
                    window,
                ),
                Err(e) => !old(self)@.manages(window) && e == FullscreenWMError::UnknownWindow(
                    window,
                ) && *final(self) == *old(self),
            },
    {
        let ghost before = self@;
        match find(&self.windows, window) {
            None => Err(FullscreenWMError::UnknownWindow(window)),
            Some(i) => {
                proof {
                    lemma_removed(before.windows, i as int);
                }
                self.windows.remove(i);
                strike(&mut self.minimised_windows, window);
                self.index_foused_window = match self.index_foused_window {
                    None => None,
                    Some(index) => if index == i {
                        None
                    } else if index > i {
                        Some(index - 1)
                    } else {
                        Some(index)
                    },
                };
                retile(&mut self.windows, self.screen);
                proof {
                    lemma_remove_window_inv(before, window);
                    assert(self@ =~= before.remove_window(window));
                }
                Ok(())
            },
        }
    }

    /// Gives the focus to `window`, or to no window. A window that gets the
    /// focus is shown, and any other window that covered the screen no
    /// longer does; with no window focused nothing covers the screen.
    ///
    /// Fails with `UnknownWindow` if the window is not managed.
    pub fn focus_window(&mut self, window: Option<Window>) -> (res: Result<(), FullscreenWMError>)
        requires
            old(self).wf(),
        ensures
            final(self).wf(),
            match res {
                Ok(_) => (window matches Some(w) ==> old(self)@.manages(w)) && final(self)@ == old(self)@.focus_window(window),
                Err(e) => window matches Some(w) && !old(self)@.manages(w) && e
                    == FullscreenWMError::UnknownWindow(w) && *final(self) == *old(self),
            },
    {
        let ghost before = self@;
        match window {
            None => {
                uncover(&mut self.windows);
                self.index_foused_window = None;
                retile(&mut self.windows, self.screen);
                proof {
                    lemma_focus_window_inv(before, None);
                    assert(self@ =~= before.focus_window(None));
                }
                Ok(())
            },
            Some(w) => {
                match find(&self.windows, w) {
                    None => Err(FullscreenWMError::UnknownWindow(w)),
                    Some(i) => {
                        if !self.windows[i].fullscreen {
                            self.bring_forward(i);
                        }
                        Ok(())
                    },
                }
            },
        }
    }

    /// Moves the focus to the next or the previous record of the store,
    /// whose two ends are joined; to the first record if no window is
    /// focused. The window that gets the focus is shown, and nothing covers
    /// the screen afterwards. Without windows nothing happens.
    pub fn cycle_focus(&mut self, dir: PrevOrNext)
        requires
            old(self).wf(),
        ensures
            final(self).wf(),
            final(self)@ == old(self)@.cycle_focus(dir),
    {
        let n = self.windows.len();
        if n == 0 {
            return ;
        }
        let target: usize = match self.index_foused_window {
            None => 0,
            Some(index) => match dir {
                PrevOrNext::Prev => if index > 0 {
                    index - 1
                } else {
                    n - 1
                },
                PrevOrNext::Next => if index + 1 < n {
                    index + 1
                } else {
                    0
                },
            },
        };
        proof {
            if let Some(index) = self.index_foused_window {
                lemma_position_found(self.windows@, self.windows@[index as int].window, index as int);
            }
        }
        self.bring_forward(target);
    }

    /// The position of the nearest visible tiled record after `index`, the
    /// end of the store being joined to its beginning; `None` if the walk
    /// arrives at `saved` before it meets one.
    pub fn get_next_tile_index(&self, index: usize, saved: usize) -> (found: Option<usize>)
        requires
            index < self.windows.len(),
            saved < self.windows.len(),
        ensures
            match found {
                Some(j) => tile_neighbour(
                    self.windows@,
                    index as int,
                    saved as int,
                    PrevOrNext::Next,
                ) == Some(j as int),
                None => tile_neighbour(self.windows@, index as int, saved as int, PrevOrNext::Next)
                    is None,
            },
    {
        neighbour(&self.windows, index, saved, PrevOrNext::Next)
    }

    /// The position of the nearest visible tiled record before `index`, the
    /// beginning of the store being joined to its end; `None` if the walk
    /// arrives at `saved` before it meets one.
    pub fn get_prev_tile_index(&self, index: usize, saved: usize) -> (found: Option<usize>)
        requires
            index < self.windows.len(),
            saved < self.windows.len(),
        ensures
            match found {
                Some(j) => tile_neighbour(
                    self.windows@,
                    index as int,
                    saved as int,
                    PrevOrNext::Prev,
                ) == Some(j as int),
                None => tile_neighbour(self.windows@, index as int, saved as int, PrevOrNext::Prev)
                    is None,
            },
    {
        neighbour(&self.windows, index, saved, PrevOrNext::Prev)
    }

    /// Makes the tiled window `window` the master and gives it the focus.
    /// The window is shown, nothing covers the screen afterwards, and the
    /// window changes places with the first record that then takes a tile.
    ///
    /// Fails with `UnknownWindow` if the window is not managed, and with
    /// `NoTiledWindow` if it floats.
    pub fn swap_with_master(&mut self, window: Window) -> (res: Result<(), FullscreenWMError>)
        requires
            old(self).wf(),
        ensures
            final(self).wf(),
            match res {
                Ok(_) => old(self)@.manages(window) && old(self)@.record(window).tiled() && final(self)@ == old(self)@.swap_with_master(window),
                Err(e) => *final(self) == *old(self) && if old(self)@.manages(window) {
                    old(self)@.record(window).floating() && e
                        == FullscreenWMError::NoTiledWindow(window)
                } else {
                    e == FullscreenWMError::UnknownWindow(window)
                },
            },
    {
        let ghost before = self@;
        match find(&self.windows, window) {
            None => Err(FullscreenWMError::UnknownWindow(window)),
            Some(i) => {
                if self.windows[i].is_float() {
                    return Err(FullscreenWMError::NoTiledWindow(window));
                }
                uncover(&mut self.windows);
                unminimise(&mut self.windows, i);
                strike(&mut self.minimised_windows, window);
                proof {
                    lemma_first_tile(self.windows@);
                    assert(self.windows@[i as int].takes_tile());
                }
                let m = match master_index(&self.windows) {
                    Some(m) => m,
                    None => i,
                };
                exchange(&mut self.windows, m, i);
                self.index_foused_window = Some(m);
                retile(&mut self.windows, self.screen);
                proof {
                    lemma_swap_with_master_inv(before, window);
                    assert(self@ =~= before.swap_with_master(window));
                }
                Ok(())
            },
        }
    }

    /// Exchanges the focused tiled window with its nearest visible tiled
    /// neighbour in the given direction, the two ends of the store being
    /// joined; the focus stays with its window. Nothing covers the screen
    /// afterwards. Nothing else happens if no window is focused, if the
    /// focused window floats, or if it has no such neighbour.
    pub fn swap_windows(&mut self, dir: PrevOrNext)
        requires
            old(self).wf(),
        ensures
            final(self).wf(),
            final(self)@ == old(self)@.swap_windows(dir),
    {
        let ghost before = self@;
        uncover(&mut self.windows);
        proof {
            lemma_same_windows(before.windows, self.windows@);
        }
        if let Some(index) = self.index_foused_window {
            proof {
                lemma_position_found(before.windows, before.windows[index as int].window, index as int);
            }
            if !self.windows[index].is_float() {
                if let Some(other) = neighbour(&self.windows, index, index, dir) {
                    proof {
                        lemma_tile_neighbour(self.windows@, index as int, index as int, dir);
                    }
                    exchange(&mut self.windows, index, other);
                    self.index_foused_window = Some(other);
                }
            }
        }
        retile(&mut self.windows, self.screen);
        proof {
            lemma_swap_windows_inv(before, dir);
            assert(self@ =~= before.swap_windows(dir));
        }
    }

    /// Changes the placement mode of `window`. Its record is taken out and
    /// put in again as `add_window` puts a record of the other mode; the
    /// window is shown and no longer covers the screen. A window that
    /// becomes floating is drawn at its saved geometry. The focus stays
    /// with the window that had it.
    ///
    /// Fails with `UnknownWindow` if the window is not managed.
    pub fn toggle_floating(&mut self, window: Window) -> (res: Result<(), FullscreenWMError>)
        requires
            old(self).wf(),
        ensures
            final(self).wf(),
            match res {
                Ok(_) => old(self)@.manages(window) && final(self)@ == old(self)@.toggle_floating(
                    window,
                ),
                Err(e) => !old(self)@.manages(window) && e == FullscreenWMError::UnknownWindow(
                    window,
                ) && *final(self) == *old(self),
            },
    {
        let ghost before = self@;
        match find(&self.windows, window) {
            None => Err(FullscreenWMError::UnknownWindow(window)),
            Some(i) => {
                let focused = self.get_focused_window();
                let old_record = self.windows.remove(i);
                let record = FullscreenWindow {
                    float_or_tile: old_record.float_or_tile.toggled(),
                    fullscreen: false,
                    minimised: false,
                    ..old_record
                };
                strike(&mut self.minimised_windows, window);
                place(&mut self.windows, record);
                retile(&mut self.windows, self.screen);
                proof {
                    lemma_toggle_floating_inv(before, window);
                }
                self.index_foused_window = match focused {
                    Some(f) => find(&self.windows, f),
                    None => None,
                };
                proof {
                    assert(self@ =~= before.toggle_floating(window));
                }
                Ok(())
            },
        }
    }

    /// Gives the floating window `window` the geometry `new_geometry`, also
    /// as its saved geometry, and shows the window. While the window covers
    /// the screen it is still drawn over the whole screen.
    ///
    /// Fails with `UnknownWindow` if the window is not managed, and with
    /// `NoFloatingWindow` if it is tiled.
    pub fn set_window_geometry(&mut self, window: Window, new_geometry: Geometry) -> (res: Result<
        (),
        FullscreenWMError,
    >)
        requires
            old(self).wf(),
        ensures
            final(self).wf(),
            match res {
                Ok(_) => old(self)@.manages(window) && old(self)@.record(window).floating()
                    && final(self)@ == old(self)@.set_window_geometry(window, new_geometry),
                Err(e) => *final(self) == *old(self) && if old(self)@.manages(window) {
                    old(self)@.record(window).tiled() && e == FullscreenWMError::NoFloatingWindow(
                        window,
                    )
                } else {
                    e == FullscreenWMError::UnknownWindow(window)
                },
            },
    {
        let ghost before = self@;
        match find(&self.windows, window) {
            None => Err(FullscreenWMError::UnknownWindow(window)),
            Some(i) => {
                let r = self.windows[i];
                if !r.is_float() {
                    return Err(FullscreenWMError::NoFloatingWindow(window));
                }
                self.windows.set(
                    i,
                    FullscreenWindow {
                        geometry: new_geometry,
                        saved_geometry: new_geometry,
                        minimised: false,
                        ..r
                    },
                );
                strike(&mut self.minimised_windows, window);
                retile(&mut self.windows, self.screen);
                proof {
                    lemma_set_window_geometry_inv(before, window, new_geometry);
                    assert(self@ =~= before.set_window_geometry(window, new_geometry));
                }
                Ok(())
            },
        }
    }

    /// Minimises the visible window `window`, or shows the minimised window
    /// `window` again. A window that is minimised goes to the end of the
    /// ledger, no longer covers the screen and loses the focus.
    ///
    /// Fails with `UnknownWindow` if the window is not managed.
    pub fn toggle_minimised(&mut self, window: Window) -> (res: Result<(), FullscreenWMError>)
        requires
            old(self).wf(),
        ensures
            final(self).wf(),
            match res {
                Ok(_) => old(self)@.manages(window) && final(self)@ == old(self)@.toggle_minimised(
                    window,
                ),
                Err(e) => !old(self)@.manages(window) && e == FullscreenWMError::UnknownWindow(
                    window,
                ) && *final(self) == *old(self),
            },
    {
        let ghost before = self@;
        match find(&self.windows, window) {
            None => Err(FullscreenWMError::UnknownWindow(window)),
            Some(i) => {
                let r = self.windows[i];
                if r.minimised {
                    unminimise(&mut self.windows, i);
                    strike(&mut self.minimised_windows, window);
                } else {
                    self.windows.set(i, FullscreenWindow { minimised: true, fullscreen: false, ..r });
                    self.minimised_windows.push(window);
                    if self.index_foused_window == Some(i) {
                        self.index_foused_window = None;
                    }
                }
                retile(&mut self.windows, self.screen);
                proof {
                    lemma_toggle_minimised_inv(before, window);
                    assert(self@ =~= before.toggle_minimised(window));
                }
                Ok(())
            },
        }
    }

    /// The window that covers the screen, if one does.
    pub fn get_fullscreen_window(&self) -> (window: Option<Window>)
        requires
            self.wf(),
        ensures
            window == self@.fullscreen_window(),
    {
        let mut i: usize = 0;
        while i < self.windows.len()
            invariant
                self.wf(),
                i <= self.windows.len(),
                forall|k: int| 0 <= k < i ==> !(#[trigger] self.windows@[k]).fullscreen,
            decreases self.windows.len() - i,
        {
            if self.windows[i].fullscreen {
                assert(self.windows@[covering(self.windows@)].fullscreen);
                return Some(self.windows[i].window);
            }
            i += 1;
        }
        None
    }

    /// Lets `window` cover the screen, or stop covering it if it does. A
    /// window that starts to cover the screen is shown and focused, and
    /// takes the place of the window that covered it before.
    ///
    /// Fails with `UnknownWindow` if the window is not managed.
    pub fn toggle_fullscreen(&mut self, window: Window) -> (res: Result<(), FullscreenWMError>)
        requires
            old(self).wf(),
        ensures
            final(self).wf(),
            match res {
                Ok(_) => old(self)@.manages(window) && final(self)@ == old(self)@.toggle_fullscreen(
                    window,
                ),
                Err(e) => !old(self)@.manages(window) && e == FullscreenWMError::UnknownWindow(
                    window,
                ) && *final(self) == *old(self),
            },
    {
        let ghost before = self@;
        match find(&self.windows, window) {
            None => Err(FullscreenWMError::UnknownWindow(window)),
            Some(i) => {
                let r = self.windows[i];
                if r.fullscreen {
                    self.windows.set(i, FullscreenWindow { fullscreen: false, ..r });
                } else {
                    uncover(&mut self.windows);
                    self.windows.set(i, FullscreenWindow { fullscreen: true, minimised: false, ..r });
                    strike(&mut self.minimised_windows, window);
                    self.index_foused_window = Some(i);
                }
                retile(&mut self.windows, self.screen);
                proof {
                    lemma_toggle_fullscreen_inv(before, window);
                    assert(self@ =~= before.toggle_fullscreen(window));
                }
                Ok(())
            },
        }
    }

    /// The visible floating windows, in store order.
    pub fn get_floating_windows(&self) -> (windows: Vec<Window>)
        ensures
            windows@ == self@.floating_windows(),
    {
        let mut windows: Vec<Window> = Vec::new();
        let mut i: usize = 0;
        assert(self.windows@.take(0).filter(floats_visibly()) =~= Seq::empty()) by {
            assert(self.windows@.take(0) =~= Seq::empty());
            reveal(Seq::filter);
        }
        while i < self.windows.len()
            invariant
                i <= self.windows.len(),
                windows@ == self.windows@.take(i as int).filter(floats_visibly()).map_values(
                    window_of(),
                ),
            decreases self.windows.len() - i,
        {
            let r = self.windows[i];
            proof {
                lemma_select_next(self.windows@, i as int, floats_visibly(), window_of());
            }
            if r.is_float() && !r.minimised {
                windows.push(r.window);
            }
            i += 1;
        }
        assert(self.windows@.take(self.windows@.len() as int) =~= self.windows@);
        windows
    }

    /// Whether `window` is a visible floating window.
    pub fn is_floating(&self, window: Window) -> (b: bool)
        ensures
            b == self@.floating_windows().contains(window),
    {
        let windows = self.get_floating_windows();
        listed(&windows, window)
    }

    /// What is to be drawn. If a window covers the screen, that window
    /// alone, at the size of the screen. Otherwise every visible window
    /// with its geometry, in store order: the tiled windows, then the
    /// floating ones; but a focused floating window comes last, in front of
    /// the others. The focused window is reported with it.
    pub fn get_window_layout(&self) -> (layout: WindowLayout)
        requires
            self.wf(),
        ensures
            layout.focused_window == self@.focused,
            layout.windows@ == self@.layout_windows(),
    {
        if let Some(window) = self.get_fullscreen_window() {
            let mut windows: Vec<(Window, Geometry)> = Vec::new();
            windows.push((window, self.screen.to_geometry()));
            assert(windows@ =~= seq![(window, self.screen.rect())]);
            assert(self.windows@[covering(self.windows@)].fullscreen);
            return WindowLayout { focused_window: Some(window), windows };
        }
        let focused = self.get_focused_window();
        let raised: Option<usize> = match self.index_foused_window {
            Some(index) => if self.windows[index].is_float() && !self.windows[index].minimised {
                Some(index)
            } else {
                None
            },
            None => None,
        };
        let skip: Option<Window> = match raised {
            Some(index) => Some(self.windows[index].window),
            None => None,
        };
        proof {
            if let Some(index) = self.index_foused_window {
                lemma_position_found(self.windows@, self.windows@[index as int].window, index as int);
            }
            assert(self@.raises_focus() <==> raised is Some);
            assert(self@.raises_focus() ==> skip == self@.focused);
        }
        let mut windows: Vec<(Window, Geometry)> = Vec::new();
        let mut i: usize = 0;
        assert(self.windows@.take(0).filter(visible_except(skip)) =~= Seq::empty()) by {
            assert(self.windows@.take(0) =~= Seq::empty());
            reveal(Seq::filter);
        }
        while i < self.windows.len()
            invariant
                i <= self.windows.len(),
                windows@ == self.windows@.take(i as int).filter(visible_except(skip)).map_values(
                    entry_of(),
                ),
            decreases self.windows.len() - i,
        {
            let r = self.windows[i];
            proof {
                lemma_select_next(self.windows@, i as int, visible_except(skip), entry_of());
            }
            let other = match skip {
                Some(f) => r.window != f,
                None => true,
            };
            if !r.minimised && other {
                windows.push((r.window, r.geometry));
            }
            i += 1;
        }
        assert(self.windows@.take(self.windows@.len() as int) =~= self.windows@);
        if let Some(index) = raised {
            let r = self.windows[index];
            windows.push((r.window, r.geometry));
        }
        WindowLayout { focused_window: focused, windows }
    }
}

} // verus!
