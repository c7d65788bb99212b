use cplwm::manager::FullscreenWM;
use cplwm::types::{Geometry, PrevOrNext, Screen, WindowLayout, WindowWithInfo};

const SCREEN: Screen = Screen { width: 800, height: 600 };

const SCREEN2: Screen = Screen { width: 1000, height: 800 };

const SCREEN_GEOM: Geometry = Geometry { x: 0, y: 0, width: 800, height: 600 };

const SOME_GEOM: Geometry = Geometry { x: 10, y: 10, width: 100, height: 100 };

const FULLSCREEN: Geometry = Geometry { x: 0, y: 0, width: 800, height: 600 };

#[test]
fn c_floating_windows_test_adding_and_removing_some_windows() {
    // Let's make a new window manager with `SCREEN` as screen.
    let mut wm = FullscreenWM::new(SCREEN);

    assert_eq!(WindowLayout::new(), wm.get_window_layout());

    wm.add_window(WindowWithInfo::new_tiled(1, SOME_GEOM)).unwrap();

    assert!(wm.is_managed(1));
    // and be present in the `Vec` of windows.
    assert_eq!(vec![1], wm.get_windows());
    // According to the window layout
    let wl1 = wm.get_window_layout();
    // it should be focused
    assert_eq!(Some(1), wl1.focused_window);
    // and fullscreen.
    assert_eq!(vec![(1, SCREEN_GEOM)], wl1.windows);

    // Let's add another window.
    wm.add_window(WindowWithInfo::new_tiled(2, SOME_GEOM)).unwrap();
    // It should now be managed by the WM.
    assert!(wm.is_managed(2));
    // The `Vec` of windows should now contain both windows 1 and 2.
    assert_eq!(vec![1, 2], wm.get_windows());
    // According to the window layout
    let wl2 = wm.get_window_layout();
    // window 2 should be focused
    assert_eq!(Some(2), wl2.focused_window);
    // and should be half of the screen.
    let first_half = Geometry {
        x: 0,
        y: 0,
        width: 400,
        height: 600,
    };

    let second_half = Geometry {
        x: 400,
        y: 0,
        width: 400,
        height: 600,
    };

    assert_eq!(vec![(1, first_half), (2, second_half)], wl2.windows);

    // Now let's remove window 2
    wm.remove_window(2).unwrap();
    // It should no longer be managed by the WM.
    assert!(!wm.is_managed(2));
    // The `Vec` of windows should now just contain window 1.
    assert_eq!(vec![1], wm.get_windows());
    // According to the window layout
    let wl3 = wm.get_window_layout();
    // because the new behavior, window 1 should not be focused, No
    // window is focused
    assert_eq!(None, wl3.focused_window);
    // and fullscreen.
    assert_eq!(vec![(1, SCREEN_GEOM)], wl3.windows);

    let third_half = Geometry {
        x: 400,
        y: 0,
        width: 400,
        height: 150,
    };

    let fourth_half = Geometry {
        x: 400,
        y: 150,
        width: 400,
        height: 150,
    };

    let fifth_half = Geometry {
        x: 400,
        y: 300,
        width: 400,
        height: 150,
    };

    let sixth_half = Geometry {
        x: 400,
        y: 450,
        width: 400,
        height: 150,
    };
    // I add more window, which shoudl be allocated in the right side of
    // the window
    wm.add_window(WindowWithInfo::new_tiled(3, SOME_GEOM)).unwrap();
    wm.add_window(WindowWithInfo::new_tiled(4, SOME_GEOM)).unwrap();
    wm.add_window(WindowWithInfo::new_tiled(5, SOME_GEOM)).unwrap();
    wm.add_window(WindowWithInfo::new_tiled(6, SOME_GEOM)).unwrap();

    let wl4 = wm.get_window_layout();
    // Due to the new added windows, now window 6 should be focused
    assert_eq!(Some(6), wl4.focused_window);
    // The windows should be allocated in the correct window
    assert_eq!(vec![(1, first_half),
                    (3, third_half),
                    (4, fourth_half),
                    (5, fifth_half),
                    (6, sixth_half)],
               wl4.windows);
}

#[test]
fn c_floating_windows_test_focus_window() {

    let mut wm = FullscreenWM::new(SCREEN);

    // Add some windows
    wm.add_window(WindowWithInfo::new_tiled(1, SOME_GEOM)).unwrap();
    wm.add_window(WindowWithInfo::new_tiled(2, SOME_GEOM)).unwrap();
    wm.add_window(WindowWithInfo::new_tiled(3, SOME_GEOM)).unwrap();
    wm.add_window(WindowWithInfo::new_tiled(4, SOME_GEOM)).unwrap();
    wm.add_window(WindowWithInfo::new_tiled(5, SOME_GEOM)).unwrap();

    // Now an action should be applied, when None is given to
    // focus_window the current focused window should be unfocused.
    wm.focus_window(None).unwrap();

    // Focused window should return None
    let wl1 = wm.get_window_layout();
    assert_eq!(None, wl1.focused_window);

    // Window 10 is not in manager an UnknownWindow error should be thrown
    assert!(wm.focus_window(Some(10)).is_err());

    // Focus to window 4
    wm.focus_window(Some(4)).unwrap();
    let wl2 = wm.get_window_layout();
    assert_eq!(Some(4), wl2.focused_window);

    // Focus to window 2
    wm.focus_window(Some(2)).unwrap();
    let wl3 = wm.get_window_layout();
    assert_eq!(Some(2), wl3.focused_window);

    // Focus to window 5
    wm.focus_window(Some(5)).unwrap();
    let wl4 = wm.get_window_layout();
    assert_eq!(Some(5), wl4.focused_window);

    wm.remove_window(5).unwrap();
    wm.focus_window(Some(1)).unwrap();
    wm.remove_window(1).unwrap();
    // Because the last focused window was removed, the focused_window
    // attribute should be None
    let wl5 = wm.get_window_layout();
    assert_eq!(None, wl5.focused_window);
}

#[test]
fn c_floating_windows_test_cycle_focus() {

    let mut wm = FullscreenWM::new(SCREEN);

    // Do nothing
    wm.cycle_focus(PrevOrNext::Next);

    // Add some both type of windows
    // the order it is important depending the type of the window
    // so internal vector should be [1,2,3,5,2,4], whe 5 is focused
    wm.add_window(WindowWithInfo::new_tiled(1, SOME_GEOM)).unwrap();
    wm.add_window(WindowWithInfo::new_float(2, SOME_GEOM)).unwrap();
    wm.add_window(WindowWithInfo::new_tiled(3, SOME_GEOM)).unwrap();
    wm.add_window(WindowWithInfo::new_float(4, SOME_GEOM)).unwrap();
    wm.add_window(WindowWithInfo::new_tiled(5, SOME_GEOM)).unwrap();


    // previous should be 3
    wm.cycle_focus(PrevOrNext::Prev);
    let wl1 = wm.get_window_layout();
    assert_eq!(Some(3), wl1.focused_window);

    // previous should be 1
    wm.cycle_focus(PrevOrNext::Prev);
    let wl2 = wm.get_window_layout();
    assert_eq!(Some(1), wl2.focused_window);

    // previous should be 3
    wm.cycle_focus(PrevOrNext::Next);
    let wl3 = wm.get_window_layout();
    assert_eq!(Some(3), wl3.focused_window);

    // previous should be 5
    wm.cycle_focus(PrevOrNext::Next);
    let wl4 = wm.get_window_layout();
    assert_eq!(Some(5), wl4.focused_window);

    // Focus should be 2
    wm.cycle_focus(PrevOrNext::Next);
    let wl4 = wm.get_window_layout();
    assert_eq!(Some(2), wl4.focused_window);

    // Focus should be 4
    wm.cycle_focus(PrevOrNext::Next);
    let wl5 = wm.get_window_layout();
    assert_eq!(Some(4), wl5.focused_window);

    // Focus should be in window 6, since is added
    wm.add_window(WindowWithInfo::new_tiled(6, SOME_GEOM)).unwrap();
    let wl6 = wm.get_window_layout();
    assert_eq!(Some(6), wl6.focused_window);

    // Now previous should be 5, since that was the last tiled window
    // before adding 6
    wm.cycle_focus(PrevOrNext::Prev);
    let wl7 = wm.get_window_layout();
    assert_eq!(Some(5), wl7.focused_window);

}

#[test]
fn c_floating_windows_test_get_window_info() {

    let mut wm = FullscreenWM::new(SCREEN);

    // Add some windows
    wm.add_window(WindowWithInfo::new_tiled(1, SOME_GEOM)).unwrap();
    wm.add_window(WindowWithInfo::new_tiled(2, SOME_GEOM)).unwrap();
    wm.add_window(WindowWithInfo::new_float(3, SCREEN_GEOM)).unwrap();
    wm.add_window(WindowWithInfo::new_tiled(4, SOME_GEOM)).unwrap();
    wm.add_window(WindowWithInfo::new_float(5, SOME_GEOM)).unwrap();
    wm.add_window(WindowWithInfo::new_tiled(6, SOME_GEOM)).unwrap();


    // All screens should have different size, since now we are dealing
    // with tiled funtions, it should be reflec since they are added,
    // removed or toggled

    let master_half = Geometry {
        x: 0,
        y: 0,
        width: 400,
        height: 600,
    };

    let first_half = Geometry {
        x: 400,
        y: 0,
        width: 400,
        height: 200,
    };

    let second_half = Geometry {
        x: 400,
        y: 200,
        width: 400,
        height: 200,
    };

    let third_half = Geometry {
        x: 400,
        y: 400,
        width: 400,
        height: 200,
    };

    assert_eq!(wm.get_window_info(1).unwrap().geometry, master_half);
    assert_eq!(wm.get_window_info(2).unwrap().geometry, first_half);
    assert_eq!(wm.get_window_info(3).unwrap().geometry, SCREEN_GEOM);
    assert_eq!(wm.get_window_info(4).unwrap().geometry, second_half);
    assert_eq!(wm.get_window_info(5).unwrap().geometry, SOME_GEOM);
    assert_eq!(wm.get_window_info(6).unwrap().geometry, third_half);
}

#[test]
fn c_floating_windows_test_get_resize_screen() {

    let mut wm = FullscreenWM::new(SCREEN);

    // swm screen should be the same as SCREEN
    assert_eq!(wm.get_screen(), SCREEN);

    // now, swm screen should be the same as SCREEN
    wm.resize_screen(SCREEN2);
    assert_eq!(wm.get_screen(), SCREEN2);
}

#[test]
fn c_floating_windows_test_tiling_support() {

    let mut wm = FullscreenWM::new(SCREEN);

    // No window yet
    assert_eq!(None, wm.get_master_window());

    // Add some windows
    wm.add_window(WindowWithInfo::new_tiled(1, SOME_GEOM)).unwrap();
    wm.add_window(WindowWithInfo::new_tiled(2, SOME_GEOM)).unwrap();
    wm.add_window(WindowWithInfo::new_tiled(3, SOME_GEOM)).unwrap();
    wm.add_window(WindowWithInfo::new_tiled(4, SOME_GEOM)).unwrap();


    // First window added is the master window
    assert_eq!(Some(1), wm.get_master_window());

    // Focused window is 4, since was the last added
    let wl1 = wm.get_window_layout();
    assert_eq!(Some(4), wl1.focused_window);

    // swapping from master to master, no swap action is taken. Focused
    // window is changed, though.

    wm.swap_with_master(1).unwrap();
    let wl2 = wm.get_window_layout();

    assert_eq!(Some(1), wl2.focused_window);

    // swapping from master to window 3, now window 3 is master window
    // and is focused
    wm.swap_with_master(3).unwrap();
    let wl3 = wm.get_window_layout();
    assert_eq!(Some(3), wm.get_master_window());

    assert_eq!(Some(3), wl3.focused_window);

    // Traying to swap from master to an unknown window, erro is thrown
    assert!(wm.swap_with_master(10).is_err());

    // Since previously I used  swap_with_master the collection was
    // updated to [3,2,1,4], where 3 is the master window
    // using swap_windows(PrevOrNext::Prev) should be allocate windows
    // 4 as master window and put window 3 in the bottom right corner
    // of the window. Moreover windows 3 should be focused.
    let master_half = Geometry {
        x: 0,
        y: 0,
        width: 400,
        height: 600,
    };

    let first_half = Geometry {
        x: 400,
        y: 0,
        width: 400,
        height: 200,
    };

    let second_half = Geometry {
        x: 400,
        y: 200,
        width: 400,
        height: 200,
    };

    let third_half = Geometry {
        x: 400,
        y: 400,
        width: 400,
        height: 200,
    };

    let wl4a = wm.get_window_layout();
    assert_eq!(vec![(3, master_half), (2, first_half), (1, second_half), (4, third_half)],
               wl4a.windows);


    wm.swap_windows(PrevOrNext::Prev);
    let wl4 = wm.get_window_layout();
    assert_eq!(Some(4), wm.get_master_window());
    assert_eq!(Some(3), wl4.focused_window);
    assert_eq!(vec![(4, master_half), (2, first_half), (1, second_half), (3, third_half)],
               wl4.windows);

    // I change focused to master window and apply
    // swap_windows(PrevOrNext::Next), the result should be window 2 as
    // master window while windows 4 is focused
    wm.focus_window(Some(4)).unwrap();
    wm.swap_windows(PrevOrNext::Next);
    let wl5 = wm.get_window_layout();
    assert_eq!(Some(2), wm.get_master_window());
    assert_eq!(Some(4), wl5.focused_window);
    assert_eq!(vec![(2, master_half), (4, first_half), (1, second_half), (3, third_half)],
               wl5.windows);

    // **Invariant**: if `swap_with_master(w)` succeeds,
    // `get_master_window()
    // == Some(w)`.
    wm.swap_with_master(1).unwrap();
    assert_eq!(wm.get_master_window(), Some(1));

    // **Invariant**: `get_master_window() == Some(w)`, then `w` must
    // occur in the vector returned by `get_windows()`.

    let master_window = wm.get_master_window().unwrap();
    let windows = wm.get_windows();
    assert!(windows.contains(&master_window));

    // **Invariant**: if the vector returned by `get_windows()` is
    // empty => `get_master_window() == None`.
    wm.remove_window(2).unwrap();
    wm.remove_window(3).unwrap();
    wm.remove_window(4).unwrap();
    wm.remove_window(1).unwrap();

    assert!(wm.get_windows().is_empty());
    assert_eq!(wm.get_master_window(), None);

    // The other direction of the arrow must
    // not hold, e.g., there could floating windows (see `FloatSupport`),
    //  but no tiled windows.
    wm.add_window(WindowWithInfo::new_float(90, SOME_GEOM)).unwrap();
    wm.add_window(WindowWithInfo::new_float(80, SOME_GEOM)).unwrap();
    assert_eq!(wm.get_master_window(), None);
    assert!(!wm.get_windows().is_empty());

}


#[test]
fn c_floating_windows_test_floating_support() {

    let mut wm = FullscreenWM::new(SCREEN);

    // Add some windows
    wm.add_window(WindowWithInfo::new_tiled(1, SOME_GEOM)).unwrap();
    wm.add_window(WindowWithInfo::new_tiled(2, SOME_GEOM)).unwrap();
    wm.add_window(WindowWithInfo::new_tiled(3, SOME_GEOM)).unwrap();
    wm.add_window(WindowWithInfo::new_tiled(4, SOME_GEOM)).unwrap();
    wm.add_window(WindowWithInfo::new_tiled(5, SOME_GEOM)).unwrap();

    // No floating window manager
    assert!(wm.get_floating_windows().is_empty());

    // Now let's do 4 and 1 floating elementes
    wm.toggle_floating(4).unwrap();
    wm.toggle_floating(1).unwrap();
    wm.toggle_floating(5).unwrap();

    // the order of the vector changed to [2,3,4,1,5], where 4 and 1 are
    // floating windows
    assert_eq!(vec![4, 1, 5], wm.get_floating_windows());

    // focused should remind to the last window added, 5
    let wl = wm.get_window_layout();
    assert_eq!(Some(5), wl.focused_window);

    // Now I return window 5 to a tiled one and focuse window 4
    wm.toggle_floating(5).unwrap();
    wm.focus_window(Some(4)).unwrap();

    // now let check the layout, where tiled windows should be at the
    // begining of the vec while floating elements
    // should at the last, both floating elements should have SOME_GEOM
    // as geometry. The remining elements should have a proper geometry
    // depending in its position and focused floating element should be
    // the last element [2,3,5,1,4]
    let master_half = Geometry {
        x: 0,
        y: 0,
        width: 400,
        height: 600,
    };

    let first_half = Geometry {
        x: 400,
        y: 0,
        width: 400,
        height: 300,
    };

    let second_half = Geometry {
        x: 400,
        y: 300,
        width: 400,
        height: 300,
    };

    let wl1 = wm.get_window_layout();
    assert_eq!(vec![(2, master_half),
                    (3, first_half),
                    (5, second_half),
                    (1, SOME_GEOM),
                    (4, SOME_GEOM)],
               wl1.windows);

    // now let's change the geometry of a titled window, an error should
    // be occur
    assert!((wm.set_window_geometry(2, SCREEN_GEOM)).is_err());


    // now let's change the geometry of window 4,
    wm.set_window_geometry(4, SCREEN_GEOM).unwrap();

    // this change should be reflected in the window layout
    let wl2 = wm.get_window_layout();
    assert_eq!(vec![(2, master_half),
                    (3, first_half),
                    (5, second_half),
                    (1, SOME_GEOM),
                    (4, SCREEN_GEOM)],
               wl2.windows);

    // now we use toggle_floating again in window 1, allocated at the end
    // of the tiled windows.
    // The appropiate modification of the entire tiled layout should be
    // reflected
    // the focuse element should remind as 4
    wm.toggle_floating(1).unwrap();

    let first_half_a = Geometry {
        x: 400,
        y: 0,
        width: 400,
        height: 200,
    };

    let second_half_a = Geometry {
        x: 400,
        y: 200,
        width: 400,
        height: 200,
    };

    let third_half_a = Geometry {
        x: 400,
        y: 400,
        width: 400,
        height: 200,
    };

    let wl3 = wm.get_window_layout();
    assert_eq!(vec![(2, master_half),
                    (3, first_half_a),
                    (5, second_half_a),
                    (1, third_half_a),
                    (4, SCREEN_GEOM)],
               wl3.windows);
    assert_eq!(Some(4), wl3.focused_window);

    // **Invariant**: if `is_floating(w) == true` for some window `w`,
    // then `is_managed(w) == true`.
    assert_eq!(wm.is_floating(4), true);
    assert_eq!(wm.is_managed(4), true);

    // **Invariant**: `is_floating(w) == true` for some window `w`, iff
    // the vector returned by the `get_floating_windows` method contains
    // `w`.
    assert_eq!(wm.is_floating(4), true);
    assert_eq!(vec![4], wm.get_floating_windows());

    // **Invariant**: if calling `toggle_floating(w)` with a tiled window
    // `w` succeeds, `is_floating(w)` must return `true`.
    assert_eq!(wm.is_floating(1), false);
    wm.toggle_floating(1).unwrap();
    assert_eq!(wm.is_floating(1), true);

    // **Invariant**: if calling `toggle_floating(w)` with a floating
    // window `w` succeeds, `is_floating(w)` must return `false`.
    assert_eq!(wm.is_floating(4), true);
    wm.toggle_floating(4).unwrap();
    assert_eq!(wm.is_floating(4), false);

    // **Invariant**: the result of `is_floating(w)` must be the same
    // before and after calling `toggle_floating(w)` twice.
    assert_eq!(wm.is_floating(5), false);
    wm.toggle_floating(5).unwrap();
    wm.toggle_floating(5).unwrap();
    assert_eq!(wm.is_floating(5), false);

}

#[test]
fn advance_test_floating_support() {

    let mut wm = FullscreenWM::new(SCREEN);

    // Add some windows
    wm.add_window(WindowWithInfo::new_tiled(1, SOME_GEOM)).unwrap();
    wm.add_window(WindowWithInfo::new_float(4, SOME_GEOM)).unwrap();
    wm.add_window(WindowWithInfo::new_float(5, SOME_GEOM)).unwrap();
    wm.add_window(WindowWithInfo::new_tiled(2, SOME_GEOM)).unwrap();
    wm.add_window(WindowWithInfo::new_float(6, SOME_GEOM)).unwrap();
    wm.add_window(WindowWithInfo::new_float(7, SOME_GEOM)).unwrap();
    wm.add_window(WindowWithInfo::new_tiled(3, SOME_GEOM)).unwrap();

    // In this case the internal structure is [1,2,3,4,5,6,7], where 1,2
    // and 3 are tiled windows and 3 is fosued

    // the floating elements
    assert_eq!(vec![4, 5, 6, 7], wm.get_floating_windows());

    // focused should remin to the last window added, 3
    assert_eq!(Some(3), wm.get_focused_window());

    //* iterating over floating windows **
    //* focused window 4
    wm.cycle_focus(PrevOrNext::Next);
    assert_eq!(Some(4), wm.get_focused_window());

    // focused window 5
    wm.cycle_focus(PrevOrNext::Next);
    assert_eq!(Some(5), wm.get_focused_window());

    // focused window 6
    wm.cycle_focus(PrevOrNext::Next);
    assert_eq!(Some(6), wm.get_focused_window());

    // focused window 7
    wm.cycle_focus(PrevOrNext::Next);
    assert_eq!(Some(7), wm.get_focused_window());

    // the floating windows were passed, iteration start over with the
    // tiled windows * iterating over tiled windows **
    // focused window 1
    wm.cycle_focus(PrevOrNext::Next);
    assert_eq!(Some(1), wm.get_focused_window());

    // focused window 2
    wm.cycle_focus(PrevOrNext::Next);
    assert_eq!(Some(2), wm.get_focused_window());

    // focused window 3
    wm.cycle_focus(PrevOrNext::Next);
    assert_eq!(Some(3), wm.get_focused_window());

    // focused window 2
    wm.cycle_focus(PrevOrNext::Prev);
    assert_eq!(Some(2), wm.get_focused_window());

    // focused window 1
    wm.cycle_focus(PrevOrNext::Prev);
    assert_eq!(Some(1), wm.get_focused_window());

    // * iterating over floating windows **
    // focused window 7
    wm.cycle_focus(PrevOrNext::Prev);
    assert_eq!(Some(7), wm.get_focused_window());

    // focused window 6
    wm.cycle_focus(PrevOrNext::Prev);
    assert_eq!(Some(6), wm.get_focused_window());

    // focused window 5
    wm.cycle_focus(PrevOrNext::Prev);
    assert_eq!(Some(5), wm.get_focused_window());

    // focused window 4
    wm.cycle_focus(PrevOrNext::Prev);
    assert_eq!(Some(4), wm.get_focused_window());

    // * return to the initial focused window **
    // focused window 3
    wm.cycle_focus(PrevOrNext::Prev);
    assert_eq!(Some(3), wm.get_focused_window());

}
