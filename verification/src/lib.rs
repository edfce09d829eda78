//! The core of a browser shell: the tabs of a window, the state containers
//! that tell what has to be rendered anew, and the event pump that drives
//! both. The engine and the platform stay outside: handlers take events as
//! values and answer with the actions that their caller has to perform.
//!
//! - [`tabs`]: the tab collection and its single-foreground invariant.
//! - [`tree`], [`diff`], [`patch`], [`apply`]: state as a tree, the structural
//!   diff of two trees, and what applying a diff means.
//! - [`state`]: a value with the copy of it that was last rendered.
//! - [`window`], [`browser`], [`encode`]: the states of the shell and their trees.
//! - [`events`], [`window_events`], [`app_events`], [`view_events`],
//!   [`engine_events`], [`reports`]: the events of the four sources and their
//!   handlers.
//! - [`location`]: what a request typed into the URL bar stands for.
//! - [`pump`]: one tick, from the first poll to the rendering.

pub mod app_events;
pub mod apply;
pub mod browser;
pub mod diff;
pub mod encode;
pub mod engine_events;
pub mod error;
pub mod events;
pub mod location;
pub mod patch;
pub mod pump;
pub mod reports;
pub mod state;
pub mod tabs;
pub mod tree;
pub mod view_events;
pub mod window;
pub mod window_events;
