//! A tiling X11 window manager core: the tag/client data model, the focus and
//! layout engine, and the event-handler pipeline, verified with Verus.
//!
//! The library is pure: it never talks to an X server. Every operation that
//! the window manager must perform on the server is emitted as an
//! `XRequest` value; the binary around the library performs them.

pub mod client;
pub mod config;
pub mod errors;
pub mod event;
pub mod handlers;
pub mod keyboard;
pub mod layout;
pub mod mouse;
pub mod requests;
pub mod screen;
pub mod tag;
pub mod util;
