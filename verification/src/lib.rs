//! Core state machine of a scrolling tiling window manager.
//!
//! The library models monitors, workspaces and windows as plain data, and
//! verifies the algorithms that keep window geometry, focus and workspace
//! assignment consistent: id allocation, the entity store with its
//! invariant-preserving mutations, the arrangement engine that lays tiled
//! windows out left to right, focus navigation and window movement across
//! workspaces and monitors, and the dispatch of decoded key and pointer
//! events to those commands.
//!
//! The compositor that owns the actual surfaces stays outside: inbound
//! events arrive as plain values, and outbound work (resize, move, focus,
//! damage, spawning a helper) is queued as [`entities::Request`] values for
//! the embedder to perform.

pub mod geometry;
pub mod id;
pub mod keyboard;
pub mod limits;
pub mod manager;
pub mod navigation;
pub mod actions;
pub mod entities;
pub mod surface;
