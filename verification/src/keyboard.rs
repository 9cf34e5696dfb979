//! Input dispatch: a fixed table from key symbol and exact modifier set
//! to a window-management command. A binding matches only when the held
//! modifiers equal the expected set exactly; anything else is reported as
//! not handled so the embedder can pass the event on. The only binding
//! with an outside effect queues a request to spawn the launcher helper.

use crate::entities::Request;
use crate::manager::WindowManager;
use crate::navigation::{
    Activation, Direction, active_tiled, focus_rel, move_window, move_window_monitor,
    move_window_monitor_rel, move_window_rel, naviate, naviate_first, naviate_last,
    naviate_monitor, naviate_rel, navigate_monitor_rel,
};
use vstd::prelude::*;

verus! {

/// X key symbol of the Home key.
pub const KEY_HOME: u32 = 0xff50;

/// X key symbol of the left arrow key.
pub const KEY_LEFT: u32 = 0xff51;

/// X key symbol of the right arrow key.
pub const KEY_RIGHT: u32 = 0xff53;

/// X key symbol of the End key.
pub const KEY_END: u32 = 0xff57;

/// X key symbol of the Backspace key.
pub const KEY_BACKSPACE: u32 = 0xff08;

/// X key symbol of the letter a.
pub const KEY_A: u32 = 0x61;

/// The full set of modifier keys, each either held or not. Bindings
/// compare against this exactly, so an extra held modifier prevents a
/// match.
#[derive(Debug, PartialEq, Eq, Structural, Clone, Copy)]
pub struct Modifiers {
    pub alt: bool,
    pub caps: bool,
    pub ctrl: bool,
    pub logo: bool,
    pub num: bool,
    pub shift: bool,
}

/// No modifier held.
pub open spec fn no_mods() -> Modifiers {
    Modifiers { alt: false, caps: false, ctrl: false, logo: false, num: false, shift: false }
}

/// A command of the key table.
#[derive(Debug, PartialEq, Eq, Structural, Clone, Copy)]
pub enum KeyAction {
    NavigateFirst,
    NavigateLast,
    Navigate(Direction),
    MoveWindow(Direction),
    NavigateMonitor(Direction),
    MoveWindowMonitor(Direction),
    SpawnLauncher,
    CloseActive,
}

/// The key table: which command a key symbol with an exact modifier set
/// maps to, if any.
pub open spec fn binding_of(keysym: u32, mods: Modifiers) -> Option<KeyAction> {
    if mods == (Modifiers { logo: true, ..no_mods() }) {
        if keysym == KEY_HOME {
            Some(KeyAction::NavigateFirst)
        } else if keysym == KEY_END {
            Some(KeyAction::NavigateLast)
        } else if keysym == KEY_LEFT {
            Some(KeyAction::Navigate(Direction::Left))
        } else if keysym == KEY_RIGHT {
            Some(KeyAction::Navigate(Direction::Right))
        } else if keysym == KEY_A {
            Some(KeyAction::SpawnLauncher)
        } else if keysym == KEY_BACKSPACE {
            Some(KeyAction::CloseActive)
        } else {
            None
        }
    } else if mods == (Modifiers { logo: true, ctrl: true, ..no_mods() }) {
        if keysym == KEY_LEFT {
            Some(KeyAction::MoveWindow(Direction::Left))
        } else if keysym == KEY_RIGHT {
            Some(KeyAction::MoveWindow(Direction::Right))
        } else {
            None
        }
    } else if mods == (Modifiers { logo: true, shift: true, ..no_mods() }) {
        if keysym == KEY_LEFT {
            Some(KeyAction::NavigateMonitor(Direction::Left))
        } else if keysym == KEY_RIGHT {
            Some(KeyAction::NavigateMonitor(Direction::Right))
        } else {
            None
        }
    } else if mods == (Modifiers { logo: true, ctrl: true, shift: true, ..no_mods() }) {
        if keysym == KEY_LEFT {
            Some(KeyAction::MoveWindowMonitor(Direction::Left))
        } else if keysym == KEY_RIGHT {
            Some(KeyAction::MoveWindowMonitor(Direction::Right))
        } else {
            None
        }
    } else {
        None
    }
}

/// Looks a key symbol and modifier set up in the key table.
pub fn dispatch_binding(keysym: u32, mods: Modifiers) -> (r: Option<KeyAction>)
    ensures
        r == binding_of(keysym, mods),
{
    let logo = Modifiers {
        alt: false,
        caps: false,
        ctrl: false,
        logo: true,
        num: false,
        shift: false,
    };
    let logo_ctrl = Modifiers { ctrl: true, ..logo };
    let logo_shift = Modifiers { shift: true, ..logo };
    let logo_ctrl_shift = Modifiers { ctrl: true, shift: true, ..logo };
    if mods == logo {
        if keysym == KEY_HOME {
            Some(KeyAction::NavigateFirst)
        } else if keysym == KEY_END {
            Some(KeyAction::NavigateLast)
        } else if keysym == KEY_LEFT {
            Some(KeyAction::Navigate(Direction::Left))
        } else if keysym == KEY_RIGHT {
            Some(KeyAction::Navigate(Direction::Right))
        } else if keysym == KEY_A {
            Some(KeyAction::SpawnLauncher)
        } else if keysym == KEY_BACKSPACE {
            Some(KeyAction::CloseActive)
        } else {
            None
        }
    } else if mods == logo_ctrl {
        if keysym == KEY_LEFT {
            Some(KeyAction::MoveWindow(Direction::Left))
        } else if keysym == KEY_RIGHT {
            Some(KeyAction::MoveWindow(Direction::Right))
        } else {
            None
        }
    } else if mods == logo_shift {
        if keysym == KEY_LEFT {
            Some(KeyAction::NavigateMonitor(Direction::Left))
        } else if keysym == KEY_RIGHT {
            Some(KeyAction::NavigateMonitor(Direction::Right))
        } else {
            None
        }
    } else if mods == logo_ctrl_shift {
        if keysym == KEY_LEFT {
            Some(KeyAction::MoveWindowMonitor(Direction::Left))
        } else if keysym == KEY_RIGHT {
            Some(KeyAction::MoveWindowMonitor(Direction::Right))
        } else {
            None
        }
    } else {
        None
    }
}

/// What each command of the key table does to the manager.
pub open spec fn key_action_rel(pre: WindowManager, post: WindowManager, action: KeyAction) -> bool {
    match action {
        KeyAction::NavigateFirst => (active_tiled(pre).len() > 0 ==> focus_rel(
            pre,
            post,
            active_tiled(pre)[0],
        )) && (active_tiled(pre).len() == 0 ==> post == pre),
        KeyAction::NavigateLast => (active_tiled(pre).len() > 0 ==> focus_rel(
            pre,
            post,
            active_tiled(pre).last(),
        )) && (active_tiled(pre).len() == 0 ==> post == pre),
        KeyAction::Navigate(d) => naviate_rel(pre, post, d),
        KeyAction::MoveWindow(d) => move_window_rel(pre, post, d),
        KeyAction::NavigateMonitor(d) => navigate_monitor_rel(pre, post, d, Activation::LastActive),
        KeyAction::MoveWindowMonitor(d) => move_window_monitor_rel(
            pre,
            post,
            d,
            Activation::LastActive,
        ),
        KeyAction::SpawnLauncher => post.pending@ == pre.pending@.push(Request::SpawnLauncher)
            && post == (WindowManager { pending: post.pending, ..pre }),
        KeyAction::CloseActive => post == pre,
    }
}

/// Dispatches a pressed key with its held modifiers through the key
/// table and performs the command. Returns whether the key was handled.
pub fn handle_key_press(wm: &mut WindowManager, keysym: u32, mods: Modifiers) -> (r: bool)
    requires
        old(wm).wf(),
    ensures
        final(wm).wf(),
        match binding_of(keysym, mods) {
            Some(action) => r && key_action_rel(*old(wm), *final(wm), action),
            None => !r && *final(wm) == *old(wm),
        },
{
    match dispatch_binding(keysym, mods) {
        None => false,
        Some(action) => {
            match action {
                KeyAction::NavigateFirst => naviate_first(wm),
                KeyAction::NavigateLast => naviate_last(wm),
                KeyAction::Navigate(d) => naviate(wm, d),
                KeyAction::MoveWindow(d) => move_window(wm, d),
                KeyAction::NavigateMonitor(d) => naviate_monitor(wm, d, Activation::LastActive),
                KeyAction::MoveWindowMonitor(d) => move_window_monitor(
                    wm,
                    d,
                    Activation::LastActive,
                ),
                KeyAction::SpawnLauncher => {
                    wm.pending.push(Request::SpawnLauncher);
                },
                KeyAction::CloseActive => {
                    let active = wm.active_window;
                    match active {
                        Some(active_window) => {
                            match wm.get_window(active_window) {
                                Some(w) => {
                                    w.ask_client_to_close(wm);
                                },
                                None => {},
                            }
                        },
                        None => {},
                    }
                },
            }
            true
        },
    }
}

} // verus!