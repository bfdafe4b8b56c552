//! Numbers of the window messages and commands that the two windows handle.
use vstd::prelude::*;

verus! {

pub const WM_CREATE: u32 = 0x0001;

pub const WM_DESTROY: u32 = 0x0002;

pub const WM_PAINT: u32 = 0x000F;

pub const WM_KEYDOWN: u32 = 0x0100;

pub const WM_COMMAND: u32 = 0x0111;

pub const WM_MOUSEMOVE: u32 = 0x0200;

pub const WM_LBUTTONDOWN: u32 = 0x0201;

pub const WM_LBUTTONUP: u32 = 0x0202;

pub const WM_RBUTTONDOWN: u32 = 0x0204;

pub const WM_RBUTTONUP: u32 = 0x0205;

/// The first message number that an application may use for itself.
pub const WM_APP: u32 = 0x8000;

/// Sent by the tray icon; the second parameter is the mouse message.
pub const WM_TRAYICON: u32 = 0x8001;

/// Sent when a selection was searched; the first parameter is a result code.
pub const WM_QR_RESULT: u32 = 0x8002;

/// Result code: a code was found.
pub const QR_FOUND: usize = 1;

/// Result code: no code was found.
pub const QR_NOT_FOUND: usize = 2;

/// Menu command: clear the history.
pub const IDM_CLEAR: u16 = 1001;

/// Menu command: quit.
pub const IDM_QUIT: u16 = 1002;

/// Menu command of the newest history entry; older ones follow.
pub const IDM_HISTORY_BASE: u16 = 2000;

/// The number of history entries that the menu offers.
pub const MAX_HISTORY: usize = 20;

/// Virtual key code of the escape key.
pub const VK_ESCAPE: u16 = 0x1B;

}
