use window_registry::gui::{ui_step, ToCompositor, ToUi, UiAction, UiEvent, UiState};

#[test]
fn menu_toggle_notifies_the_compositor() {
    let mut s = UiState::new(4);
    assert!(s.menu_on_top);
    let (action, redraw) = ui_step(&mut s, UiEvent::MenuToggle);
    assert!(!s.menu_on_top);
    assert_eq!(action, UiAction::Notify(ToCompositor::SetMenuOnTop(false)));
    assert!(redraw);
    let (action, _) = ui_step(&mut s, UiEvent::MenuToggle);
    assert!(s.menu_on_top);
    assert_eq!(action, UiAction::Notify(ToCompositor::SetMenuOnTop(true)));
}

#[test]
fn selection_wraps_at_both_ends() {
    let mut s = UiState::new(3);
    let (_, redraw) = ui_step(&mut s, UiEvent::MoveUp);
    assert_eq!(s.selected_application, 2);
    assert!(redraw);
    ui_step(&mut s, UiEvent::MoveDown);
    assert_eq!(s.selected_application, 0);
    ui_step(&mut s, UiEvent::MoveDown);
    assert_eq!(s.selected_application, 1);
    ui_step(&mut s, UiEvent::MoveUp);
    assert_eq!(s.selected_application, 0);
}

#[test]
fn a_hidden_menu_ignores_selection_and_launching() {
    let mut s = UiState::new(3);
    ui_step(&mut s, UiEvent::MenuToggle);
    let (action, redraw) = ui_step(&mut s, UiEvent::MoveDown);
    assert_eq!(s.selected_application, 0);
    assert_eq!(action, UiAction::Nothing);
    assert!(!redraw);
    let (action, redraw) = ui_step(&mut s, UiEvent::Launch);
    assert_eq!(action, UiAction::Nothing);
    assert!(!redraw);
}

#[test]
fn launching_spawns_the_selected_application() {
    let mut s = UiState::new(4);
    ui_step(&mut s, UiEvent::MoveDown);
    ui_step(&mut s, UiEvent::MoveDown);
    let (action, redraw) = ui_step(&mut s, UiEvent::Launch);
    assert_eq!(action, UiAction::Spawn(2));
    assert!(redraw);
}

#[test]
fn compositor_messages_set_the_flag_without_redrawing() {
    let mut s = UiState::new(2);
    let (action, redraw) = ui_step(&mut s, UiEvent::Message(ToUi::SetMenuOnTop(false)));
    assert!(!s.menu_on_top);
    assert_eq!(action, UiAction::Nothing);
    assert!(!redraw);
    ui_step(&mut s, UiEvent::Message(ToUi::SetMenuOnTop(true)));
    assert!(s.menu_on_top);
}

#[test]
fn a_single_application_list_wraps_onto_itself() {
    let mut s = UiState::new(1);
    ui_step(&mut s, UiEvent::MoveUp);
    assert_eq!(s.selected_application, 0);
    ui_step(&mut s, UiEvent::MoveDown);
    assert_eq!(s.selected_application, 0);
}
