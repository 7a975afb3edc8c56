//! What the main window's controls do, decided from the state that the
//! window reports; the program around the library carries out the command.

use vstd::prelude::*;

verus! {

/// What querying the main window gave.
#[derive(Debug, Clone, Copy, PartialEq, Eq, Structural)]
pub enum WindowProbe {
    /// There is no main window.
    Missing,
    /// The window did not answer the query.
    Failed,
    /// The window answered: whether it is minimized, maximized or always on
    /// top, as the control asked.
    Answered(bool),
}

/// What to do to the main window.
#[derive(Debug, Clone, Copy, PartialEq, Eq, Structural)]
pub enum WindowCommand {
    Leave,
    Minimize,
    Maximize,
    Unmaximize,
    SetAlwaysOnTop(bool),
    Hide,
    Close,
}

/// Whether the program is to start with the operating system.
#[derive(Debug, Clone, Copy, PartialEq, Eq, Structural)]
pub enum AutostartCommand {
    Enable,
    Disable,
}

/// The main window's controls.
pub struct WindowManager;

impl WindowManager {
    /// Minimizes a window that answers. Returns the command and whether the
    /// control succeeded.
    pub fn minimize(probe: WindowProbe) -> (r: (WindowCommand, bool))
        ensures
            r == match probe {
                WindowProbe::Answered(_) => (WindowCommand::Minimize, true),
                _ => (WindowCommand::Leave, false),
            },
    {
        match probe {
            WindowProbe::Answered(_) => (WindowCommand::Minimize, true),
            _ => (WindowCommand::Leave, false),
        }
    }

    /// Maximizes a window that reports it is not maximized, and restores one
    /// that reports it is.
    pub fn toggle_maximize(probe: WindowProbe) -> (r: (WindowCommand, bool))
        ensures
            r == match probe {
                WindowProbe::Answered(true) => (WindowCommand::Unmaximize, true),
                WindowProbe::Answered(false) => (WindowCommand::Maximize, true),
                _ => (WindowCommand::Leave, false),
            },
    {
        match probe {
            WindowProbe::Answered(maximized) => {
                if maximized {
                    (WindowCommand::Unmaximize, true)
                } else {
                    (WindowCommand::Maximize, true)
                }
            },
            _ => (WindowCommand::Leave, false),
        }
    }

    /// Flips whether the window stays on top of others.
    pub fn toggle_always_on_top(probe: WindowProbe) -> (r: (WindowCommand, bool))
        ensures
            r == match probe {
                WindowProbe::Answered(on_top) => (WindowCommand::SetAlwaysOnTop(!on_top), true),
                _ => (WindowCommand::Leave, false),
            },
    {
        match probe {
            WindowProbe::Answered(on_top) => (WindowCommand::SetAlwaysOnTop(!on_top), true),
            _ => (WindowCommand::Leave, false),
        }
    }
}

/// Hides the main window, where `hide` asks for that, else closes it; leaves
/// it alone where there is none.
pub fn window_close(window_exists: bool, hide: bool) -> (r: WindowCommand)
    ensures
        r == if !window_exists {
            WindowCommand::Leave
        } else if hide {
            WindowCommand::Hide
        } else {
            WindowCommand::Close
        },
{
    if !window_exists {
        WindowCommand::Leave
    } else if hide {
        WindowCommand::Hide
    } else {
        WindowCommand::Close
    }
}

/// Whether to register or unregister the program to start on boot.
pub fn set_start_on_boot(enable: bool) -> (r: AutostartCommand)
    ensures
        r == if enable { AutostartCommand::Enable } else { AutostartCommand::Disable },
{
    if enable {
        AutostartCommand::Enable
    } else {
        AutostartCommand::Disable
    }
}

} // verus!
