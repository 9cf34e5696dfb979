//! End-to-end exercises of the window-management state machine: id
//! allocation, the spare-workspace pool, arrangement, focus navigation,
//! window movement, deletion, and input dispatch.

use rust_wm::entities::{Request, Window, WmError};
use rust_wm::geometry::{Size, wlr_box};
use rust_wm::id::{Id, IdGenerator};
use rust_wm::keyboard::{KEY_A, KEY_LEFT, KEY_RIGHT, Modifiers, handle_key_press};
use rust_wm::limits::{MAX_SIZE, MIN_SIZE};
use rust_wm::manager::WindowManager;
use rust_wm::navigation::{
    Activation, Direction, get_tiled_window, move_window, naviate, naviate_monitor,
};
use rust_wm::actions::arrange_windows_workspace;
use rust_wm::surface::Surface;

fn surface(width: i32, height: i32) -> Surface {
    Surface {
        window_id: 0,
        mapped: true,
        geo: wlr_box { x: 0, y: 0, width, height },
        pending_serial: 0,
        is_pending_serial: false,
        app_id: String::new(),
        title: String::new(),
        toplevel: true,
        fullscreen: false,
        shadow: Size { width: 0, height: 0 },
        max_width: MAX_SIZE,
        max_height: MAX_SIZE,
        min_width: MIN_SIZE,
        min_height: MIN_SIZE,
    }
}

fn add_window(wm: &mut WindowManager, workspace: Id, width: i32) -> Id {
    let w = Window::new(&mut wm.window_id_generator, workspace, surface(width, 500));
    let id = w.id;
    wm.add_window(w).unwrap();
    id
}

/// A manager showing one 1920x1080 monitor, with the monitor's workspace
/// active.
fn single_monitor() -> (WindowManager, Id) {
    let mut wm = WindowManager::new();
    wm.create_monitor(wlr_box { x: 0, y: 0, width: 1920, height: 1080 }).unwrap();
    let ws = wm.active_workspace;
    (wm, ws)
}

#[test]
fn it_works() {
    assert_eq!(2 + 2, 4);
}

#[test]
fn lib_it_works() {
    assert_eq!(2 + 2, 4);
}

#[test]
fn ids_strictly_increase() {
    let mut g = IdGenerator::new();
    let a = g.next_id();
    let b = g.next_id();
    let c = g.next_id();
    assert!(a < b && b < c);
    assert_eq!(a, 1);
}

#[test]
fn spare_workspace_never_assigned() {
    let mut wm = WindowManager::new();
    let spare = wm.get_or_create_unused_workspace();
    assert!(wm.get_workspace(spare).unwrap().on_monitor.is_none());
    // At least one further spare beyond the returned one.
    let unassigned = wm.get_unassigned_workspaces();
    assert!(unassigned.len() >= 2);
    // Consuming spares through monitors keeps the pool non-empty.
    for i in 0..4 {
        wm.create_monitor(wlr_box { x: 2000 * i, y: 0, width: 1920, height: 1080 }).unwrap();
        assert!(!wm.get_unassigned_workspaces().is_empty());
    }
}

#[test]
fn arrange_prefix_sums() {
    let (mut wm, ws) = single_monitor();
    let a = add_window(&mut wm, ws, 100);
    let b = add_window(&mut wm, ws, 200);
    let c = add_window(&mut wm, ws, 150);
    arrange_windows_workspace(&mut wm, ws);
    assert_eq!(wm.get_window(a).unwrap().workspace_geo.x, 0);
    assert_eq!(wm.get_window(b).unwrap().workspace_geo.x, 100);
    assert_eq!(wm.get_window(c).unwrap().workspace_geo.x, 300);
    // Arranging again changes nothing: same order, same widths.
    arrange_windows_workspace(&mut wm, ws);
    assert_eq!(wm.get_window(a).unwrap().workspace_geo.x, 0);
    assert_eq!(wm.get_window(b).unwrap().workspace_geo.x, 100);
    assert_eq!(wm.get_window(c).unwrap().workspace_geo.x, 300);
    // Height and centering come from the monitor.
    assert_eq!(wm.get_window(a).unwrap().workspace_geo.height, 1080);
    assert_eq!(wm.get_window(a).unwrap().workspace_geo.y, 0);
}

#[test]
fn move_window_swaps_and_rearranges() {
    let (mut wm, ws) = single_monitor();
    let a = add_window(&mut wm, ws, 100);
    let b = add_window(&mut wm, ws, 200);
    let c = add_window(&mut wm, ws, 150);
    arrange_windows_workspace(&mut wm, ws);
    wm.focus_window(b).unwrap();
    move_window(&mut wm, Direction::Right);
    assert_eq!(wm.get_workspace(ws).unwrap().windows, vec![a, c, b]);
    assert_eq!(wm.get_window(c).unwrap().workspace_geo.x, 100);
    assert_eq!(wm.get_window(b).unwrap().workspace_geo.x, 250);
}

#[test]
fn delete_active_prefers_previous() {
    let (mut wm, ws) = single_monitor();
    let a = add_window(&mut wm, ws, 100);
    let b = add_window(&mut wm, ws, 200);
    let c = add_window(&mut wm, ws, 150);
    wm.activate_window(b).unwrap();
    wm.delete_window(b).unwrap();
    assert_eq!(wm.get_workspace(ws).unwrap().windows, vec![a, c]);
    assert_eq!(wm.get_workspace(ws).unwrap().active_window, Some(a));
}

#[test]
fn delete_first_active_falls_to_next() {
    let (mut wm, ws) = single_monitor();
    let a = add_window(&mut wm, ws, 100);
    let b = add_window(&mut wm, ws, 200);
    wm.activate_window(a).unwrap();
    wm.delete_window(a).unwrap();
    assert_eq!(wm.get_workspace(ws).unwrap().windows, vec![b]);
    assert_eq!(wm.get_workspace(ws).unwrap().active_window, Some(b));
}

#[test]
fn delete_last_tiled_clears_focus() {
    let (mut wm, ws) = single_monitor();
    let a = add_window(&mut wm, ws, 100);
    wm.activate_window(a).unwrap();
    wm.delete_window(a).unwrap();
    assert!(wm.get_workspace(ws).unwrap().windows.is_empty());
    assert_eq!(wm.get_workspace(ws).unwrap().active_window, None);
    assert_eq!(wm.active_window, None);
}

#[test]
fn first_window_has_no_left_neighbor() {
    let (mut wm, ws) = single_monitor();
    let a = add_window(&mut wm, ws, 100);
    let b = add_window(&mut wm, ws, 200);
    assert_eq!(get_tiled_window(&wm, a, Direction::Left), None);
    assert_eq!(get_tiled_window(&wm, a, Direction::Right), Some(b));
    assert_eq!(get_tiled_window(&wm, b, Direction::Left), Some(a));
    assert_eq!(get_tiled_window(&wm, b, Direction::Right), None);
}

#[test]
fn navigate_monitor_lands_facing_travel() {
    let mut wm = WindowManager::new();
    wm.create_monitor(wlr_box { x: 0, y: 0, width: 1920, height: 1080 }).unwrap();
    let left_ws = wm.active_workspace;
    let m2 = wm.create_monitor(wlr_box { x: 1920, y: 0, width: 1920, height: 1080 }).unwrap();
    let mut right_ws = 0;
    for i in 0..wm.monitors.len() {
        if wm.monitors[i].id == m2 {
            right_ws = wm.monitors[i].workspace;
        }
    }
    let a = add_window(&mut wm, left_ws, 100);
    let d = add_window(&mut wm, right_ws, 100);
    let _e = add_window(&mut wm, right_ws, 100);
    // Adding to the right workspace activated it; come back left.
    wm.activate_window(a).unwrap();
    assert_eq!(wm.active_workspace, left_ws);
    naviate_monitor(&mut wm, Direction::Right, Activation::FromDirection);
    assert_eq!(wm.active_workspace, right_ws);
    // Arriving from the left lands on the first window.
    assert_eq!(wm.active_window, Some(d));
    let requests = wm.take_requests();
    assert!(requests.contains(&Request::Focus { window: d }));
}

#[test]
fn navigate_with_no_focus_picks_edge_windows() {
    let (mut wm, ws) = single_monitor();
    let a = add_window(&mut wm, ws, 100);
    let b = add_window(&mut wm, ws, 200);
    wm.active_window = None;
    naviate(&mut wm, Direction::Left);
    assert_eq!(wm.active_window, Some(a));
    wm.active_window = None;
    naviate(&mut wm, Direction::Right);
    assert_eq!(wm.active_window, Some(b));
}

#[test]
fn arrange_emits_resize_and_damage() {
    let (mut wm, ws) = single_monitor();
    let a = add_window(&mut wm, ws, 100);
    wm.take_requests();
    arrange_windows_workspace(&mut wm, ws);
    let requests = wm.take_requests();
    // The window's height grows to the monitor's: a resize is requested,
    // shadow included (zero here).
    assert!(requests.contains(&Request::Resize { window: a, size: Size { width: 100, height: 1080 } }));
    // The surface recorded a pending resize.
    assert!(wm.get_window(a).unwrap().window_info.is_pending_serial);
}

#[test]
fn error_paths_leave_state_unchanged() {
    let (mut wm, ws) = single_monitor();
    let a = add_window(&mut wm, ws, 100);
    assert_eq!(wm.delete_window(9999), Err(WmError::NotFound));
    assert_eq!(wm.focus_window(9999), Err(WmError::NotFound));
    assert_eq!(wm.activate_window(9999), Err(WmError::NotFound));
    // A duplicate id is refused.
    let mut gen = IdGenerator::new();
    let dup = Window { id: a, ..Window::new(&mut gen, ws, surface(10, 10)) };
    assert_eq!(wm.add_window(dup), Err(WmError::InvariantViolation));
    // A window aimed at a missing workspace is refused.
    let stray = Window::new(&mut wm.window_id_generator, 9999, surface(10, 10));
    assert_eq!(wm.add_window(stray), Err(WmError::NotFound));
    // Monitor extents outside the layout limits are refused.
    assert_eq!(
        wm.create_monitor(wlr_box { x: -5, y: 0, width: 1920, height: 1080 }),
        Err(WmError::InvariantViolation)
    );
    assert_eq!(wm.get_workspace(ws).unwrap().windows, vec![a]);
}

#[test]
fn excluded_app_class_is_not_tiled() {
    let (mut wm, ws) = single_monitor();
    let mut s = surface(100, 500);
    s.app_id = String::from("ulauncher");
    let w = Window::new(&mut wm.window_id_generator, ws, s);
    assert!(!w.is_tiled());
    let launcher = w.id;
    wm.add_window(w).unwrap();
    let a = add_window(&mut wm, ws, 200);
    arrange_windows_workspace(&mut wm, ws);
    // The excluded window keeps its own geometry; the tiled one starts at
    // the monitor's left edge.
    assert_eq!(wm.get_window(a).unwrap().workspace_geo.x, 0);
    assert_eq!(wm.get_window(launcher).unwrap().workspace_geo.x, 0);
    assert_eq!(wm.get_workspace(ws).unwrap().windows, vec![launcher, a]);
}

#[test]
fn key_table_requires_exact_modifiers() {
    let (mut wm, ws) = single_monitor();
    let a = add_window(&mut wm, ws, 100);
    let b = add_window(&mut wm, ws, 200);
    wm.focus_window(a).unwrap();
    let logo = Modifiers { alt: false, caps: false, ctrl: false, logo: true, num: false, shift: false };
    // logo+right moves focus to the neighbor.
    assert!(handle_key_press(&mut wm, KEY_RIGHT, logo));
    assert_eq!(wm.active_window, Some(b));
    // An extra held modifier prevents the match.
    let logo_alt = Modifiers { alt: true, ..logo };
    assert!(!handle_key_press(&mut wm, KEY_LEFT, logo_alt));
    assert_eq!(wm.active_window, Some(b));
    // logo+a queues the launcher helper.
    wm.take_requests();
    assert!(handle_key_press(&mut wm, KEY_A, logo));
    assert_eq!(wm.take_requests(), vec![Request::SpawnLauncher]);
}

#[test]
fn update_window_info_replaces_surface() {
    let (mut wm, ws) = single_monitor();
    let a = add_window(&mut wm, ws, 100);
    let new_info = surface(300, 400);
    wm.update_window_info(a, new_info).unwrap();
    assert_eq!(wm.get_window(a).unwrap().window_info.geo.width, 300);
    // Out-of-bounds data is refused.
    let mut bad = surface(10, 10);
    bad.shadow = Size { width: 50, height: 0 };
    assert_eq!(wm.update_window_info(a, bad), Err(WmError::InvariantViolation));
    assert_eq!(wm.get_window(a).unwrap().window_info.geo.width, 300);
}

#[test]
fn scroll_follows_focused_window() {
    let (mut wm, ws) = single_monitor();
    let _a = add_window(&mut wm, ws, 1500);
    let b = add_window(&mut wm, ws, 1500);
    // After arranging, the focused second window is out of view on the
    // right; the scroll offset shifts so its right edge fits.
    wm.activate_window(b).unwrap();
    arrange_windows_workspace(&mut wm, ws);
    // b spans [1500, 3000); the monitor is 1920 wide.
    assert_eq!(wm.get_workspace(ws).unwrap().scroll_left, 3000 - 1920);
}

#[test]
fn move_window_crosses_monitors() {
    let mut wm = WindowManager::new();
    wm.create_monitor(wlr_box { x: 0, y: 0, width: 1920, height: 1080 }).unwrap();
    let left_ws = wm.active_workspace;
    let m2 = wm.create_monitor(wlr_box { x: 1920, y: 0, width: 1920, height: 1080 }).unwrap();
    let mut right_ws = 0;
    for i in 0..wm.monitors.len() {
        if wm.monitors[i].id == m2 {
            right_ws = wm.monitors[i].workspace;
        }
    }
    let a = add_window(&mut wm, left_ws, 100);
    let d = add_window(&mut wm, right_ws, 100);
    wm.activate_window(a).unwrap();
    // The focused window is alone, so moving right leaves the workspace
    // and enters the right monitor's workspace at the front.
    move_window(&mut wm, Direction::Right);
    assert!(wm.get_workspace(left_ws).unwrap().windows.is_empty());
    assert_eq!(wm.get_workspace(right_ws).unwrap().windows, vec![a, d]);
    assert_eq!(wm.get_window(a).unwrap().workspace, right_ws);
    assert_eq!(wm.active_workspace, right_ws);
    // Each window still sits in exactly one workspace list.
    let mut owners = 0;
    for ws in &wm.workspaces {
        if ws.windows.contains(&a) {
            owners += 1;
        }
    }
    assert_eq!(owners, 1);
}
