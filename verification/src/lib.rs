//! Desktop control under Wayland: screen capture, mouse, keyboard and windows.
//!
//! Wayland denies its clients a global view of input and windows, so no single tool works
//! everywhere. Input goes through `ydotool` and `wtype`, windows through the tools of Hyprland and
//! Sway, and screen capture through whatever the compositor supports.
//!
//! Nothing here touches the desktop. Each operation is either a script ([`script::Step`]), decided
//! in full before its first step is taken, or a question that is answered piece by piece
//! ([`cursor::CursorQuery`], [`manage::Listing`], [`manage::WindowTask`], [`capture::Capture`],
//! [`portal::PortalCapture`]). All of them say what has to be done next and take the answer; the
//! program around the library does it.

use vstd::prelude::*;

pub mod capture;
pub mod cursor;
pub mod json;
pub mod keyboard;
pub mod keymap;
pub mod manage;
pub mod mouse;
pub mod platform;
pub mod portal;
pub mod script;
pub mod text;
pub mod uri;
pub mod windows;

verus! {

} // verus!
