//! The overlay launcher: the notification protocol it shares with the
//! registry, and its input-handling decisions.
//!
//! The launcher runs as an independent process driven by a gamepad and a
//! rendering event loop; those stay with the embedder. What is decided here,
//! and verified, is the state machine: how each incoming event changes the
//! launcher's state and which action (a notification to the compositor, an
//! application launch) it triggers.

use vstd::prelude::*;

verus! {

/// Message from the overlay to the registry: adopt a new menu-visibility
/// flag.
#[derive(Clone, Copy, PartialEq, Eq, Structural, Debug)]
pub enum ToCompositor {
    SetMenuOnTop(bool),
}

/// Message from the registry to the overlay: the authoritative current
/// menu-visibility flag.
#[derive(Clone, Copy, PartialEq, Eq, Structural, Debug)]
pub enum ToUi {
    SetMenuOnTop(bool),
}

/// The launcher's own state: whether its menu is shown, and which of its
/// applications is selected.
#[derive(Clone, Copy, PartialEq, Eq, Structural, Debug)]
pub struct UiState {
    pub menu_on_top: bool,
    pub selected_application: usize,
    pub application_count: usize,
}

/// One event the launcher reacts to.
#[derive(Clone, Copy, PartialEq, Eq, Structural, Debug)]
pub enum UiEvent {
    /// The gamepad's mode button: toggle the menu.
    MenuToggle,
    /// Directional pad up: select the previous application, wrapping.
    MoveUp,
    /// Directional pad down: select the next application, wrapping.
    MoveDown,
    /// The confirm button: launch the selected application.
    Launch,
    /// A message from the registry.
    Message(ToUi),
}

/// What the embedder must do after a step.
#[derive(Clone, Copy, PartialEq, Eq, Structural, Debug)]
pub enum UiAction {
    Nothing,
    /// Send this message on the channel to the compositor.
    Notify(ToCompositor),
    /// Spawn the application at this index of the launcher's list.
    Spawn(usize),
}

impl UiState {
    pub open spec fn wf(self) -> bool {
        1 <= self.application_count && self.selected_application < self.application_count
    }

    pub fn new(application_count: usize) -> (r: UiState)
        requires
            application_count >= 1,
        ensures
            r == (UiState { menu_on_top: true, selected_application: 0, application_count }),
            r.wf(),
    {
        UiState { menu_on_top: true, selected_application: 0, application_count }
    }
}

/// The state, action and redraw flag after one event.
pub open spec fn ui_step_spec(pre: UiState, event: UiEvent) -> (UiState, UiAction, bool) {
    match event {
        UiEvent::Message(ToUi::SetMenuOnTop(v)) => (
            UiState { menu_on_top: v, ..pre },
            UiAction::Nothing,
            false,
        ),
        UiEvent::MenuToggle => (
            UiState { menu_on_top: !pre.menu_on_top, ..pre },
            UiAction::Notify(ToCompositor::SetMenuOnTop(!pre.menu_on_top)),
            true,
        ),
        UiEvent::MoveUp => if pre.menu_on_top {
            let s = if pre.selected_application == 0 {
                (pre.application_count - 1) as usize
            } else {
                (pre.selected_application - 1) as usize
            };
            (UiState { selected_application: s, ..pre }, UiAction::Nothing, true)
        } else {
            (pre, UiAction::Nothing, false)
        },
        UiEvent::MoveDown => if pre.menu_on_top {
            let s = if pre.selected_application + 1 == pre.application_count {
                0
            } else {
                (pre.selected_application + 1) as usize
            };
            (UiState { selected_application: s, ..pre }, UiAction::Nothing, true)
        } else {
            (pre, UiAction::Nothing, false)
        },
        UiEvent::Launch => if pre.menu_on_top {
            (pre, UiAction::Spawn(pre.selected_application), true)
        } else {
            (pre, UiAction::Nothing, false)
        },
    }
}

/// Feeds one event to the launcher; returns the action the embedder must
/// perform and whether the widgets need re-drawing. The selection always
/// stays within the application list, wrapping at both ends.
pub fn ui_step(state: &mut UiState, event: UiEvent) -> (r: (UiAction, bool))
    requires
        old(state).wf(),
    ensures
        (*final (state), r.0, r.1) == ui_step_spec(*old(state), event),
        final (state).wf(),
{
    match event {
        UiEvent::Message(ToUi::SetMenuOnTop(v)) => {
            state.menu_on_top = v;
            (UiAction::Nothing, false)
        },
        UiEvent::MenuToggle => {
            state.menu_on_top = !state.menu_on_top;
            (UiAction::Notify(ToCompositor::SetMenuOnTop(state.menu_on_top)), true)
        },
        UiEvent::MoveUp => {
            if state.menu_on_top {
                if state.selected_application == 0 {
                    state.selected_application = state.application_count - 1;
                } else {
                    state.selected_application = state.selected_application - 1;
                }
                (UiAction::Nothing, true)
            } else {
                (UiAction::Nothing, false)
            }
        },
        UiEvent::MoveDown => {
            if state.menu_on_top {
                if state.selected_application + 1 == state.application_count {
                    state.selected_application = 0;
                } else {
                    state.selected_application = state.selected_application + 1;
                }
                (UiAction::Nothing, true)
            } else {
                (UiAction::Nothing, false)
            }
        },
        UiEvent::Launch => {
            if state.menu_on_top {
                (UiAction::Spawn(state.selected_application), true)
            } else {
                (UiAction::Nothing, false)
            }
        },
    }
}

} // verus!
