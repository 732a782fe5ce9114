//! The messages the program's hidden window handles.
//!
//! The window procedure itself is a Win32 callback in the application; what it
//! does for each message is decided here.

use vstd::prelude::*;

verus! {

/// First message number free for an application's own use.
pub const WM_APP: u32 = 0x8000;
/// Notification-area callback message.
pub const WM_APP_TRAY: u32 = WM_APP + 1;
/// Posted by the keyboard hook when it has to stand in for `RegisterHotKey`.
pub const WM_APP_TOGGLE: u32 = WM_APP + 2;
/// Posted by the tray menu, or by the installer asking a running instance to
/// step aside, to shut down.
pub const WM_APP_QUIT: u32 = WM_APP + 3;

/// System messages the window reacts to, as Win32 defines them.
pub const WM_DESTROY: u32 = 0x0002;
pub const WM_HOTKEY: u32 = 0x0312;
pub const WM_LBUTTONUP: u32 = 0x0202;
pub const WM_RBUTTONUP: u32 = 0x0205;

/// Identifier of the registered toggle hotkey.
pub const HOTKEY_TOGGLE: i32 = 1;

/// What the window procedure does with a message.
#[derive(Debug, PartialEq, Eq, Clone, Copy)]
pub enum WindowCommand {
    /// Flip the mode of the foreground window (see `App::toggle_foreground`)
    /// and refresh the tray.
    ToggleForeground,
    /// Open the tray's context menu.
    ShowMenu,
    /// Leave the message loop.
    Quit,
    /// A message of ours that asks for nothing this time.
    Ignore,
    /// Not one of ours: hand it to the default window procedure.
    Default,
}

/// What the window procedure does with `message`, given its two parameters.
/// The toggle comes from the registered hotkey or, when that could not be
/// registered, from the keyboard hook; the tray menu opens on a left or right
/// click of the icon.
pub open spec fn window_command_spec(message: u32, wparam: usize, lparam: isize) -> WindowCommand {
    if message == WM_HOTKEY {
        if wparam as i32 == HOTKEY_TOGGLE {
            WindowCommand::ToggleForeground
        } else {
            WindowCommand::Ignore
        }
    } else if message == WM_APP_TOGGLE {
        WindowCommand::ToggleForeground
    } else if message == WM_APP_QUIT || message == WM_DESTROY {
        WindowCommand::Quit
    } else if message == WM_APP_TRAY {
        if lparam as u32 == WM_RBUTTONUP || lparam as u32 == WM_LBUTTONUP {
            WindowCommand::ShowMenu
        } else {
            WindowCommand::Ignore
        }
    } else {
        WindowCommand::Default
    }
}

/// What the window procedure does with `message`, given its two parameters.
pub fn window_command(message: u32, wparam: usize, lparam: isize) -> (c: WindowCommand)
    ensures
        c == window_command_spec(message, wparam, lparam),
{
    if message == WM_HOTKEY {
        if wparam as i32 == HOTKEY_TOGGLE {
            WindowCommand::ToggleForeground
        } else {
            WindowCommand::Ignore
        }
    } else if message == WM_APP_TOGGLE {
        WindowCommand::ToggleForeground
    } else if message == WM_APP_QUIT || message == WM_DESTROY {
        WindowCommand::Quit
    } else if message == WM_APP_TRAY {
        let event = lparam as u32;
        if event == WM_RBUTTONUP || event == WM_LBUTTONUP {
            WindowCommand::ShowMenu
        } else {
            WindowCommand::Ignore
        }
    } else {
        WindowCommand::Default
    }
}

/// What the window does with each message: the registered hotkey (message
/// 0x0312 with identifier 1) and the hook's stand-in (`WM_APP + 2`) toggle the
/// foreground window; `WM_APP + 3` and `WM_DESTROY` (2) quit; a left or right
/// button release on the tray icon (`WM_APP + 1` carrying 0x0202 or 0x0205)
/// opens the menu; other tray or hotkey notifications are ignored; every other
/// message goes to the default procedure.
pub proof fn law_window_messages(message: u32, wparam: usize, lparam: isize)
    ensures
        window_command_spec(message, wparam, lparam) == WindowCommand::ToggleForeground <==> (
        message == 0x8002 || (message == 0x0312 && wparam as i32 == 1)),
        window_command_spec(message, wparam, lparam) == WindowCommand::Quit <==> (message == 0x8003
            || message == 2),
        window_command_spec(message, wparam, lparam) == WindowCommand::ShowMenu <==> (message
            == 0x8001 && (lparam as u32 == 0x0202 || lparam as u32 == 0x0205)),
        window_command_spec(message, wparam, lparam) == WindowCommand::Default <==> !(message
            == 0x0312 || message == 0x8001 || message == 0x8002 || message == 0x8003 || message
            == 2),
{
}

} // verus!
