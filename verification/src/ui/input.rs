//! Key handling as pure transitions on the front end's state. The caller
//! reads real key events, maps them to `Key`, applies the transition, and
//! carries out whatever request comes back (a device switch or a filter
//! application) before reporting the result via the message lines.

use vstd::prelude::*;
use crate::ui::filter::{bpf_suggestions, get_bpf_filter_suggestions, is_loopback_name};
use crate::ui::state::{UiMode, UiState};

verus! {

/// A key press, reduced to what the front end reacts to.
#[derive(Debug, Clone, Copy, PartialEq, Eq, Structural)]
pub enum Key {
    Up,
    Down,
    Enter,
    Esc,
    Char(char),
}

/// What a key press asks of the session: switch the capture to a device,
/// or apply a filter expression (the label only names it in messages).
#[derive(Debug, Clone)]
pub enum NavRequest {
    SwitchDevice(String),
    ApplyFilter { expr: String, label: String },
}

/// How a key press is dispatched.
#[derive(Debug, Clone, Copy, PartialEq, Eq, Structural)]
pub enum KeyAction {
    Quit,
    ToggleHelp,
    OpenFilterMenu,
    Navigate,
    Ignore,
}

/// `q` quits, `?` toggles help, `/` opens the filter menu, and the four
/// navigation keys go to the menus; everything else is ignored.
pub open spec fn key_action_spec(key: Key) -> KeyAction {
    match key {
        Key::Char(c) => if c == 'q' || c == 'Q' {
            KeyAction::Quit
        } else if c == '?' {
            KeyAction::ToggleHelp
        } else if c == '/' {
            KeyAction::OpenFilterMenu
        } else {
            KeyAction::Ignore
        },
        Key::Up => KeyAction::Navigate,
        Key::Down => KeyAction::Navigate,
        Key::Enter => KeyAction::Navigate,
        Key::Esc => KeyAction::Navigate,
    }
}

/// Dispatches one key press.
pub fn key_action(key: Key) -> (r: KeyAction)
    ensures
        r == key_action_spec(key),
{
    match key {
        Key::Char(c) => {
            if c == 'q' || c == 'Q' {
                KeyAction::Quit
            } else if c == '?' {
                KeyAction::ToggleHelp
            } else if c == '/' {
                KeyAction::OpenFilterMenu
            } else {
                KeyAction::Ignore
            }
        },
        _ => KeyAction::Navigate,
    }
}

/// Shows the help overlay, or leaves it for the capture view.
pub fn toggle_help(state: &mut UiState)
    ensures
        final(state).error_msg == old(state).error_msg,
        final(state).info_msg == old(state).info_msg,
        old(state).mode is HelpOverlay ==> final(state).mode is Capture,
        !(old(state).mode is HelpOverlay) ==> final(state).mode is HelpOverlay,
{
    let to_capture = match &state.mode {
        UiMode::HelpOverlay => true,
        _ => false,
    };
    state.mode = if to_capture {
        UiMode::Capture
    } else {
        UiMode::HelpOverlay
    };
}

/// The interface the filter menu is opened for: the one picked in the
/// device menu, or none when no menu selection stands.
pub open spec fn menu_interface(m: UiMode) -> Seq<char> {
    match m {
        UiMode::DeviceMenu { options, selected } => if selected < options.len() {
            options[selected as int]@
        } else {
            Seq::empty()
        },
        _ => Seq::empty(),
    }
}

/// Opens the filter menu for the interface currently picked in the
/// device menu, offering the suggestions fitting that interface.
pub fn open_filter_menu(state: &mut UiState)
    ensures
        final(state).error_msg == old(state).error_msg,
        final(state).info_msg == old(state).info_msg,
        final(state).mode matches UiMode::FilterMenu {
            interface,
            input,
            cursor_pos,
            options,
            selected,
        } && interface@ == menu_interface(old(state).mode) && input@ == Seq::<char>::empty()
            && cursor_pos == 0usize && options.deep_view() == bpf_suggestions(
            is_loopback_name(menu_interface(old(state).mode)),
        ) && selected == 0usize,
{
    let current_iface: String = match &state.mode {
        UiMode::DeviceMenu { options, selected } => {
            if *selected < options.len() {
                options[*selected].clone()
            } else {
                String::new()
            }
        },
        _ => String::new(),
    };
    let options = get_bpf_filter_suggestions(current_iface.as_str());
    state.mode = UiMode::FilterMenu {
        interface: current_iface,
        input: String::new(),
        cursor_pos: 0,
        options,
        selected: 0,
    };
}

/// Applies one navigation key to the menus: `Up` and `Down` move the
/// selection (stopping at the ends), `Enter` closes the menu and asks for
/// the selected device or filter, `Esc` closes the menu or the help
/// overlay. The messages are untouched; reporting the outcome of a
/// request is the caller's business once it has performed it.
pub fn handle_menu_navigation(state: &mut UiState, key: Key) -> (r: Option<NavRequest>)
    ensures
        final(state).error_msg == old(state).error_msg,
        final(state).info_msg == old(state).info_msg,
        match old(state).mode {
            UiMode::Capture => final(state).mode is Capture && r is None,
            UiMode::HelpOverlay => {
                &&& (key == Key::Esc ==> final(state).mode is Capture)
                &&& (key != Key::Esc ==> final(state).mode is HelpOverlay)
                &&& r is None
            },
            UiMode::DeviceMenu { options: opts, selected: sel } => match key {
                Key::Up => (final(state).mode matches UiMode::DeviceMenu { options, selected }
                    && options == opts && selected == (if sel > 0 {
                    (sel - 1) as usize
                } else {
                    0usize
                })) && r is None,
                Key::Down => (final(state).mode matches UiMode::DeviceMenu { options, selected }
                    && options == opts && selected == (if sel + 1 < opts@.len() {
                    (sel + 1) as usize
                } else {
                    sel
                })) && r is None,
                Key::Enter => {
                    &&& final(state).mode is Capture
                    &&& (sel < opts@.len() ==> (r matches Some(NavRequest::SwitchDevice(d)) && d
                        == opts@[sel as int]))
                    &&& (sel >= opts@.len() ==> r is None)
                },
                Key::Esc => final(state).mode is Capture && r is None,
                Key::Char(_) => final(state).mode == old(state).mode && r is None,
            },
            UiMode::FilterMenu {
                interface: itf,
                input: inp,
                cursor_pos: cp,
                options: opts,
                selected: sel,
            } => match key {
                Key::Up => (final(state).mode matches UiMode::FilterMenu {
                    interface,
                    input,
                    cursor_pos,
                    options,
                    selected,
                } && interface == itf && input == inp && cursor_pos == cp && options == opts
                    && selected == (if sel > 0 {
                    (sel - 1) as usize
                } else {
                    0usize
                })) && r is None,
                Key::Down => (final(state).mode matches UiMode::FilterMenu {
                    interface,
                    input,
                    cursor_pos,
                    options,
                    selected,
                } && interface == itf && input == inp && cursor_pos == cp && options == opts
                    && selected == (if sel + 1 < opts@.len() {
                    (sel + 1) as usize
                } else {
                    sel
                })) && r is None,
                Key::Enter => {
                    &&& final(state).mode is Capture
                    &&& (sel < opts@.len() ==> (r matches Some(
                        NavRequest::ApplyFilter { expr, label },
                    ) && expr == opts@[sel as int].1 && label == opts@[sel as int].0))
                    &&& (sel >= opts@.len() ==> r is None)
                },
                Key::Esc => final(state).mode is Capture && r is None,
                Key::Char(_) => final(state).mode == old(state).mode && r is None,
            },
        },
{
    let mut request: Option<NavRequest> = None;
    let mut close_menu = false;
    match &mut state.mode {
        UiMode::DeviceMenu { options, selected } => {
            match key {
                Key::Up => {
                    if *selected > 0 {
                        *selected = *selected - 1;
                    }
                },
                Key::Down => {
                    if options.len() > 0 && *selected < options.len() - 1 {
                        *selected = *selected + 1;
                    }
                },
                Key::Enter => {
                    if *selected < options.len() {
                        let device = options[*selected].clone();
                        request = Some(NavRequest::SwitchDevice(device));
                    }
                    close_menu = true;
                },
                Key::Esc => {
                    close_menu = true;
                },
                Key::Char(_) => {},
            }
        },
        UiMode::FilterMenu { options, selected, .. } => {
            match key {
                Key::Up => {
                    if *selected > 0 {
                        *selected = *selected - 1;
                    }
                },
                Key::Down => {
                    if options.len() > 0 && *selected < options.len() - 1 {
                        *selected = *selected + 1;
                    }
                },
                Key::Enter => {
                    if *selected < options.len() {
                        let entry = &options[*selected];
                        let label = entry.0.clone();
                        let expr = entry.1.clone();
                        request = Some(NavRequest::ApplyFilter { expr, label });
                    }
                    close_menu = true;
                },
                Key::Esc => {
                    close_menu = true;
                },
                Key::Char(_) => {},
            }
        },
        UiMode::HelpOverlay => {
            if key == Key::Esc {
                close_menu = true;
            }
        },
        UiMode::Capture => {},
    }
    if close_menu {
        state.mode = UiMode::Capture;
    }
    request
}

} // verus!
