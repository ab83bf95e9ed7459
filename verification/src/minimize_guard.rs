//! Bookkeeping of the guard that keeps the Windows 11 host material from
//! flashing transparent while DWM plays the minimize/restore transition:
//! right before a window goes iconic its material is swapped for an opaque
//! cover, and the live material returns once the restore has finished.

use vstd::prelude::*;

use crate::hwnd_map::HwndMap;

verus! {

/// `WM_SIZE`.
pub const WM_SIZE: u32 = 0x0005;
/// `WM_WINDOWPOSCHANGING`.
pub const WM_WINDOWPOSCHANGING: u32 = 0x0046;
/// `WM_NCDESTROY`.
pub const WM_NCDESTROY: u32 = 0x0082;
/// `WM_SYSCOMMAND`.
pub const WM_SYSCOMMAND: u32 = 0x0112;
/// `WM_TIMER`.
pub const WM_TIMER: u32 = 0x0113;
/// `SC_MINIMIZE`.
pub const SC_MINIMIZE: usize = 0xF020;
/// `SIZE_RESTORED`.
pub const SIZE_RESTORED: u32 = 0;
/// `SIZE_MINIMIZED`.
pub const SIZE_MINIMIZED: u32 = 1;
/// `SIZE_MAXIMIZED`.
pub const SIZE_MAXIMIZED: u32 = 2;
/// `SWP_NOMOVE`.
pub const SWP_NOMOVE: u32 = 0x0002;
/// Windows parks minimized windows at this classic iconic position.
pub const ICONIC_POS: i32 = -32000;
/// Identifier of the guard's window subclass.
pub const SUBCLASS_ID: usize = 0x4d53_4c52;
/// Identifier of the timer that ends the restore cover.
pub const RESTORE_TIMER_ID: usize = 0x4d53_4c52;
/// The DWM restore transition runs about 250 ms; the cover is held past it.
pub const RESTORE_TIMER_MS: u32 = 350;

/// The guard's record of one window.
#[derive(Debug, Clone, Copy, PartialEq, Eq, Structural)]
pub struct GuardState {
    /// The theme the material is painted in.
    pub dark: bool,
    /// The opaque cover is on.
    pub solid: bool,
}

/// Where a `WM_WINDOWPOSCHANGING` moves the window.
#[derive(Debug, Clone, Copy, PartialEq, Eq, Structural)]
pub struct WindowMove {
    pub x: i32,
    pub y: i32,
    pub flags: u32,
}

/// What a window message means to the guard.
#[derive(Debug, Clone, Copy, PartialEq, Eq, Structural)]
pub enum GuardEvent {
    /// The user asked to minimize (system menu, title bar button).
    MinimizeCommand,
    /// A programmatic minimize is moving the window to the iconic parking spot.
    MovedToIconicPosition,
    /// The window has been minimized.
    SizeMinimized,
    /// The window has been restored or maximized.
    SizeRestored,
    /// The restore cover timer fired.
    RestoreTimer,
    /// The window is being destroyed.
    Destroyed,
    /// Nothing the guard reacts to.
    Other,
}

/// The meaning of a message to the guard.
pub open spec fn guard_event(message: u32, wparam: usize, window_move: Option<WindowMove>) -> GuardEvent {
    if message == WM_SYSCOMMAND {
        if wparam & 0xFFF0usize == SC_MINIMIZE {
            GuardEvent::MinimizeCommand
        } else {
            GuardEvent::Other
        }
    } else if message == WM_WINDOWPOSCHANGING {
        match window_move {
            Some(m) => if m.flags & SWP_NOMOVE == 0 && m.x == ICONIC_POS && m.y == ICONIC_POS {
                GuardEvent::MovedToIconicPosition
            } else {
                GuardEvent::Other
            },
            None => GuardEvent::Other,
        }
    } else if message == WM_SIZE {
        let kind = wparam as u32;
        if kind == SIZE_MINIMIZED {
            GuardEvent::SizeMinimized
        } else if kind == SIZE_RESTORED || kind == SIZE_MAXIMIZED {
            GuardEvent::SizeRestored
        } else {
            GuardEvent::Other
        }
    } else if message == WM_TIMER {
        if wparam == RESTORE_TIMER_ID {
            GuardEvent::RestoreTimer
        } else {
            GuardEvent::Other
        }
    } else if message == WM_NCDESTROY {
        GuardEvent::Destroyed
    } else {
        GuardEvent::Other
    }
}

/// Classify a window message for the guard.
pub fn classify_message(message: u32, wparam: usize, window_move: Option<WindowMove>) -> (event: GuardEvent)
    ensures
        event == guard_event(message, wparam, window_move),
{
    if message == WM_SYSCOMMAND {
        if wparam & 0xFFF0usize == SC_MINIMIZE {
            GuardEvent::MinimizeCommand
        } else {
            GuardEvent::Other
        }
    } else if message == WM_WINDOWPOSCHANGING {
        match window_move {
            Some(m) => if m.flags & SWP_NOMOVE == 0 && m.x == ICONIC_POS && m.y == ICONIC_POS {
                GuardEvent::MovedToIconicPosition
            } else {
                GuardEvent::Other
            },
            None => GuardEvent::Other,
        }
    } else if message == WM_SIZE {
        let kind = wparam as u32;
        if kind == SIZE_MINIMIZED {
            GuardEvent::SizeMinimized
        } else if kind == SIZE_RESTORED || kind == SIZE_MAXIMIZED {
            GuardEvent::SizeRestored
        } else {
            GuardEvent::Other
        }
    } else if message == WM_TIMER {
        if wparam == RESTORE_TIMER_ID {
            GuardEvent::RestoreTimer
        } else {
            GuardEvent::Other
        }
    } else if message == WM_NCDESTROY {
        GuardEvent::Destroyed
    } else {
        GuardEvent::Other
    }
}

/// What the window procedure does about a guard event.
#[derive(Debug, Clone, Copy, PartialEq, Eq, Structural)]
pub enum GuardAction {
    /// Swap in the opaque cover.
    EnterSolid,
    /// Bring the live material back.
    ExitSolid,
    /// Hold the cover until the restore timer fires.
    StartRestoreTimer,
    /// The window went iconic again before the timer fired: stop the timer
    /// and keep the cover.
    StopRestoreTimer,
    /// The window is gone: drop its guard and its material records.
    Forget,
    /// Nothing to do.
    Nothing,
}

/// The action for `event` on a window whose cover is on (`solid`) and which
/// is (`iconic`) or is not minimized. A minimize command covers the window
/// before default processing starts the minimize; a restore holds the cover
/// on a covered window that is no longer iconic until the timer fires; the
/// timer brings the live material back unless the window is iconic again.
pub open spec fn guard_action(event: GuardEvent, solid: bool, iconic: bool) -> GuardAction {
    match event {
        GuardEvent::MinimizeCommand | GuardEvent::MovedToIconicPosition | GuardEvent::SizeMinimized => {
            GuardAction::EnterSolid
        },
        GuardEvent::SizeRestored => if solid && !iconic {
            GuardAction::StartRestoreTimer
        } else {
            GuardAction::Nothing
        },
        GuardEvent::RestoreTimer => if iconic {
            GuardAction::StopRestoreTimer
        } else {
            GuardAction::ExitSolid
        },
        GuardEvent::Destroyed => GuardAction::Forget,
        GuardEvent::Other => GuardAction::Nothing,
    }
}

/// Once a minimize command went through default processing: a minimize that
/// was vetoed never made the window iconic, so the live material goes back.
pub open spec fn after_minimize_action(iconic: bool) -> GuardAction {
    if iconic {
        GuardAction::Nothing
    } else {
        GuardAction::ExitSolid
    }
}

/// Decide what a minimize command calls for once default processing is done.
pub fn after_minimize_command(iconic: bool) -> (action: GuardAction)
    ensures
        action == after_minimize_action(iconic),
{
    if iconic {
        GuardAction::Nothing
    } else {
        GuardAction::ExitSolid
    }
}

/// The records after covering `hwnd`, and the theme to paint the cover in
/// (`None` when the window has no guard or is already covered).
pub open spec fn entered(m: Map<isize, GuardState>, hwnd: isize) -> (Map<isize, GuardState>, Option<bool>) {
    if m.contains_key(hwnd) && !m[hwnd].solid {
        (m.insert(hwnd, GuardState { dark: m[hwnd].dark, solid: true }), Some(m[hwnd].dark))
    } else {
        (m, None)
    }
}

/// The records after uncovering `hwnd`, and the theme to restore the live
/// material in (`None` when the window has no guard or is not covered).
pub open spec fn exited(m: Map<isize, GuardState>, hwnd: isize) -> (Map<isize, GuardState>, Option<bool>) {
    if m.contains_key(hwnd) && m[hwnd].solid {
        (m.insert(hwnd, GuardState { dark: m[hwnd].dark, solid: false }), Some(m[hwnd].dark))
    } else {
        (m, None)
    }
}

/// The guard records of all windows that carry the host material.
#[derive(Debug)]
pub struct MinimizeGuards {
    states: HwndMap<GuardState>,
}

impl View for MinimizeGuards {
    type V = Map<isize, GuardState>;

    closed spec fn view(&self) -> Map<isize, GuardState> {
        self.states@
    }
}

impl MinimizeGuards {
    /// No window is guarded.
    pub fn new() -> (guards: MinimizeGuards)
        ensures
            guards@ == Map::<isize, GuardState>::empty(),
    {
        MinimizeGuards { states: HwndMap::new() }
    }

    /// First half of installing the guard on `hwnd`: when it is already
    /// installed, refresh its theme and return `false`; otherwise return
    /// `true`, meaning the window still has to be subclassed.
    pub fn refresh_or_needs_install(&mut self, hwnd: isize, dark: bool) -> (needs_install: bool)
        ensures
            needs_install == !old(self)@.contains_key(hwnd),
            needs_install ==> final(self)@ == old(self)@,
            !needs_install ==> final(self)@ == old(self)@.insert(
                hwnd,
                GuardState { dark, solid: old(self)@[hwnd].solid },
            ),
    {
        match self.states.get(hwnd) {
            Some(state) => {
                let solid = state.solid;
                self.states.insert(hwnd, GuardState { dark, solid });
                false
            },
            None => true,
        }
    }

    /// Second half of installing: the window was subclassed.
    pub fn record_installed(&mut self, hwnd: isize, dark: bool)
        ensures
            final(self)@ == old(self)@.insert(hwnd, GuardState { dark, solid: false }),
    {
        self.states.insert(hwnd, GuardState { dark, solid: false });
    }

    /// Forget `hwnd`; `true` when it was guarded (its timer and subclass are
    /// then to be removed).
    pub fn uninstall(&mut self, hwnd: isize) -> (was_installed: bool)
        ensures
            was_installed == old(self)@.contains_key(hwnd),
            final(self)@ == old(self)@.remove(hwnd),
    {
        self.states.remove(hwnd).is_some()
    }

    /// Cover `hwnd` with the opaque material; returns the theme to paint the
    /// cover in, or `None` when there is nothing to do.
    pub fn enter_solid(&mut self, hwnd: isize) -> (paint: Option<bool>)
        ensures
            (final(self)@, paint) == entered(old(self)@, hwnd),
    {
        match self.states.get(hwnd) {
            Some(state) => {
                if state.solid {
                    None
                } else {
                    let dark = state.dark;
                    self.states.insert(hwnd, GuardState { dark, solid: true });
                    Some(dark)
                }
            },
            None => None,
        }
    }

    /// Uncover `hwnd`; returns the theme to restore the live material in, or
    /// `None` when there is nothing to do.
    pub fn exit_solid(&mut self, hwnd: isize) -> (restore: Option<bool>)
        ensures
            (final(self)@, restore) == exited(old(self)@, hwnd),
    {
        match self.states.get(hwnd) {
            Some(state) => {
                if state.solid {
                    let dark = state.dark;
                    self.states.insert(hwnd, GuardState { dark, solid: false });
                    Some(dark)
                } else {
                    None
                }
            },
            None => None,
        }
    }

    /// Decide what `event` on `hwnd` calls for, given whether the window is
    /// iconic now.
    pub fn action_for(&self, hwnd: isize, event: GuardEvent, iconic: bool) -> (action: GuardAction)
        ensures
            action == guard_action(event, self@.contains_key(hwnd) && self@[hwnd].solid, iconic),
    {
        match event {
            GuardEvent::MinimizeCommand | GuardEvent::MovedToIconicPosition | GuardEvent::SizeMinimized => {
                GuardAction::EnterSolid
            },
            GuardEvent::SizeRestored => if self.is_solid(hwnd) && !iconic {
                GuardAction::StartRestoreTimer
            } else {
                GuardAction::Nothing
            },
            GuardEvent::RestoreTimer => if iconic {
                GuardAction::StopRestoreTimer
            } else {
                GuardAction::ExitSolid
            },
            GuardEvent::Destroyed => GuardAction::Forget,
            GuardEvent::Other => GuardAction::Nothing,
        }
    }

    /// Whether `hwnd` is under the opaque cover.
    pub fn is_solid(&self, hwnd: isize) -> (solid: bool)
        ensures
            solid == (self@.contains_key(hwnd) && self@[hwnd].solid),
    {
        match self.states.get(hwnd) {
            Some(state) => state.solid,
            None => false,
        }
    }

    /// While the window is iconic the opaque cover owns the surface: record
    /// the new theme and keep the cover. Returns `true` when the caller should
    /// repaint the cover instead of applying the live material.
    pub fn refresh_solid_if_minimized(&mut self, hwnd: isize, dark: bool, iconic: bool) -> (covered: bool)
        ensures
            covered == (iconic && old(self)@.contains_key(hwnd)),
            covered ==> final(self)@ == old(self)@.insert(hwnd, GuardState { dark, solid: true }),
            !covered ==> final(self)@ == old(self)@,
    {
        if !iconic {
            return false;
        }
        if self.states.contains(hwnd) {
            self.states.insert(hwnd, GuardState { dark, solid: true });
            true
        } else {
            false
        }
    }
}

/// A `WM_SIZE` (0x0005) tells the guard what became of the window by the low
/// 32 bits of its `wparam`: minimized (1) puts the cover on, while a restore
/// to the normal size (0) and a maximize (2) are both restores, so a covered
/// window that is not iconic holds the cover until the restore timer and then
/// gets its live material back. Any other size change means nothing here.
pub proof fn lemma_size_messages(wparam: usize, window_move: Option<WindowMove>)
    ensures
        (wparam as u32 == 0 || wparam as u32 == 2) ==> guard_event(0x0005, wparam, window_move)
            == GuardEvent::SizeRestored,
        wparam as u32 == 1 ==> guard_event(0x0005, wparam, window_move) == GuardEvent::SizeMinimized,
        !(wparam as u32 == 0 || wparam as u32 == 1 || wparam as u32 == 2) ==> guard_event(
            0x0005,
            wparam,
            window_move,
        ) == GuardEvent::Other,
        (wparam as u32 == 0 || wparam as u32 == 2) ==> guard_action(
            guard_event(0x0005, wparam, window_move),
            true,
            false,
        ) == GuardAction::StartRestoreTimer,
        wparam as u32 == 1 ==> guard_action(guard_event(0x0005, wparam, window_move), false, true)
            == GuardAction::EnterSolid,
{
}

/// The other messages the guard reacts to: a system-menu minimize (any
/// `wparam` whose top 12 of the low 16 bits say `SC_MINIMIZE`, 0xF020) covers
/// the window, the restore timer (its id in `wparam`) lifts the cover unless
/// the window is iconic again, and `WM_NCDESTROY` (0x0082) forgets the
/// window, whatever `wparam` holds.
pub proof fn lemma_command_timer_and_destroy(wparam: usize, window_move: Option<WindowMove>)
    ensures
        wparam & 0xFFF0usize == 0xF020usize ==> guard_event(0x0112, wparam, window_move)
            == GuardEvent::MinimizeCommand,
        wparam & 0xFFF0usize != 0xF020usize ==> guard_event(0x0112, wparam, window_move)
            == GuardEvent::Other,
        wparam == RESTORE_TIMER_ID ==> guard_action(guard_event(0x0113, wparam, window_move), true, false)
            == GuardAction::ExitSolid,
        wparam == RESTORE_TIMER_ID ==> guard_action(guard_event(0x0113, wparam, window_move), true, true)
            == GuardAction::StopRestoreTimer,
        guard_action(guard_event(0x0082, wparam, window_move), true, false) == GuardAction::Forget,
{
}

/// A minimize that DWM vetoed puts everything back: covering a live window
/// and uncovering it again leaves the records as they were and restores the
/// theme that was painted.
pub proof fn lemma_vetoed_minimize_restores(m: Map<isize, GuardState>, hwnd: isize)
    requires
        m.contains_key(hwnd),
        !m[hwnd].solid,
    ensures
        exited(entered(m, hwnd).0, hwnd) == (m, Some(m[hwnd].dark)),
{
    let covered = entered(m, hwnd).0;
    assert(covered.insert(hwnd, GuardState { dark: m[hwnd].dark, solid: false }) =~= m);
}

/// Covering is idempotent: a second minimize signal (the command, the move to
/// the parking spot and the size change all arrive) paints nothing again.
pub proof fn lemma_cover_once(m: Map<isize, GuardState>, hwnd: isize)
    ensures
        entered(entered(m, hwnd).0, hwnd) == (entered(m, hwnd).0, None::<bool>),
{
}

} // verus!
