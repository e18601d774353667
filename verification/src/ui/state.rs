//! The terminal front end's mode and message state.

use vstd::prelude::*;

verus! {

/// Which screen the terminal front end shows: the live capture view, the
/// help overlay, or one of the two selection menus.
#[derive(Debug, Clone)]
pub enum UiMode {
    Capture,
    HelpOverlay,
    DeviceMenu { options: Vec<String>, selected: usize },
    FilterMenu {
        interface: String,
        input: String,
        cursor_pos: usize,
        options: Vec<(String, String)>,
        selected: usize,
    },
}

/// The front end's state: the mode and one optional error and info line.
#[derive(Debug)]
pub struct UiState {
    pub mode: UiMode,
    pub error_msg: Option<String>,
    pub info_msg: Option<String>,
}

impl UiState {
    /// The initial state: live capture view, no messages.
    pub fn new() -> (r: Self)
        ensures
            r.mode is Capture,
            r.error_msg is None,
            r.info_msg is None,
    {
        UiState { mode: UiMode::Capture, error_msg: None, info_msg: None }
    }

    /// Shows an error line.
    pub fn set_error(&mut self, msg: String)
        ensures
            final(self).error_msg == Some(msg),
            final(self).info_msg == old(self).info_msg,
            final(self).mode == old(self).mode,
    {
        self.error_msg = Some(msg);
    }

    /// Clears the error line.
    pub fn clear_error(&mut self)
        ensures
            final(self).error_msg is None,
            final(self).info_msg == old(self).info_msg,
            final(self).mode == old(self).mode,
    {
        self.error_msg = None;
    }

    /// Shows an info line; an info line supersedes any error line.
    pub fn set_info(&mut self, msg: String)
        ensures
            final(self).info_msg == Some(msg),
            final(self).error_msg is None,
            final(self).mode == old(self).mode,
    {
        self.info_msg = Some(msg);
        self.error_msg = None;
    }

    /// Clears the info line.
    pub fn clear_info(&mut self)
        ensures
            final(self).info_msg is None,
            final(self).error_msg == old(self).error_msg,
            final(self).mode == old(self).mode,
    {
        self.info_msg = None;
    }
}

} // verus!
