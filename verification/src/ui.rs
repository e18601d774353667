//! The user-facing decision logic: menu state transitions, filter
//! suggestions, interface classification and the packet log.

pub mod device;
pub mod filter;
pub mod gui_state;
pub mod input;
pub mod log;
pub mod state;
