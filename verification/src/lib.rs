//! A verified input-automation core: a tree of timed keyboard/mouse actions
//! (`actions`), an execution engine that walks the tree as a step machine and
//! hands every real-world effect — key press, pointer move, sleep — to its
//! caller as a command (`engine`), exact integer arithmetic for interpolated
//! motion (`interp`), a byte codec for saving and loading trees with a proven
//! round trip (`codec`), the error taxonomy (`errors`), and a controller
//! state machine that keeps at most one run active at a time (`controller`).
pub mod actions;
pub mod codec;
pub mod controller;
pub mod engine;
pub mod errors;
pub mod interp;
