use nullspace::scenes::keybind_scene::KeybindScene;
use nullspace::scenes::SceneKeyAction;
use nullspace::game_settings::{GameSettings, RenderNameMode};
use nullspace::input::{
    is_input_keycode, InputAction, InputMapping, InputModifier, InputModifierSet, InputState, KeyCode,
};
use nullspace::menu::{Menu, MenuAction};
use nullspace::net::connection::{process_clock_sync_response, ClockSyncHistory};
use nullspace::notification::NotificationManager;
use nullspace::render::animation_renderer::get_animation_index;
use nullspace::render::colors::{border_rects, ColorRect, ColorRenderableKind};
use nullspace::render::text_renderer::TextColor;
use nullspace::select_box::SelectBox;

#[test]
fn modifier_sets_hold_and_release() {
    let mut set = InputModifierSet::empty();
    set.set(InputModifier::Shift);
    assert!(set.is_set(InputModifier::Shift));
    assert!(!set.is_set(InputModifier::Control));
    set.set(InputModifier::Control);
    assert_eq!(set.count(), 2);
    set.erase(InputModifier::Shift);
    assert!(!set.is_set(InputModifier::Shift));
    assert!(set.is_set(InputModifier::Control));
    let both = InputModifierSet::with(InputModifier::Control).union(InputModifierSet::with(InputModifier::Alt));
    assert_eq!(both.count(), 0);
}

#[test]
fn action_states_press_and_release() {
    let mut state = InputState::new();
    state.set_down(InputAction::Bomb, true);
    state.set_triggered(InputAction::Bomb);
    assert!(state.is_down(InputAction::Bomb));
    assert!(state.is_triggered(InputAction::Bomb));
    assert!(!state.is_down(InputAction::Bullet));
    state.clear_triggered();
    assert!(!state.is_triggered(InputAction::Bomb));
    assert!(state.is_down(InputAction::Bomb));
    state.set_down(InputAction::Bomb, false);
    assert!(!state.is_down(InputAction::Bomb));
}

#[test]
fn default_keys_pick_best_modifier_match() {
    let mut mapping = InputMapping::new();
    mapping.register_defaults();
    let mut state = InputState::new();
    assert_eq!(mapping.get_action(KeyCode::Tab, &state), Some(InputAction::Bomb));
    assert_eq!(mapping.get_action(KeyCode::ArrowUp, &state), Some(InputAction::MoveForward));
    assert_eq!(mapping.get_action(KeyCode::KeyZ, &state), None);
    state.set_modifier_down(InputModifier::Shift, true);
    assert_eq!(mapping.get_action(KeyCode::Tab, &state), Some(InputAction::Mine));
    state.set_modifier_down(InputModifier::Control, true);
    assert_eq!(mapping.get_action(KeyCode::Tab, &state), Some(InputAction::Mine));
    assert_eq!(mapping.get_action(KeyCode::ArrowUp, &state), Some(InputAction::MoveForward));
}

#[test]
fn releasing_a_modifier_releases_its_actions() {
    let mut mapping = InputMapping::new();
    mapping.register_defaults();
    let mut state = InputState::new();
    state.set_down(InputAction::Mine, true);
    state.set_down(InputAction::Bomb, true);
    mapping.clear_actions_with_modifier(InputModifier::Shift, &mut state);
    assert!(!state.is_down(InputAction::Mine));
    assert!(state.is_down(InputAction::Bomb));
}

#[test]
fn text_keys() {
    assert!(is_input_keycode(KeyCode::KeyA));
    assert!(is_input_keycode(KeyCode::Digit5));
    assert!(!is_input_keycode(KeyCode::F1));
    assert!(!is_input_keycode(KeyCode::ArrowLeft));
}

#[test]
fn menu_keys_choose_when_open() {
    let mut menu = Menu::new();
    assert!(!menu.is_open());
    assert!(menu.handle_key(KeyCode::KeyQ).is_none());
    menu.toggle();
    assert!(menu.is_open());
    assert!(menu.handle_key(KeyCode::KeyZ).is_none());
    assert!(menu.is_open());
    assert!(matches!(menu.handle_key(KeyCode::KeyQ), Some(MenuAction::Quit)));
    assert!(!menu.is_open());
    assert!(menu.handled);
    menu.toggle();
    menu.toggle();
    assert!(!menu.is_open());
}

#[test]
fn name_modes_cycle() {
    let m = RenderNameMode::Off;
    assert_eq!(m.next(), RenderNameMode::Others);
    assert_eq!(m.next().next(), RenderNameMode::All);
    assert_eq!(m.next().next().next(), RenderNameMode::Off);
    assert_eq!(RenderNameMode::Others.to_str(), "Others");
    assert_eq!(GameSettings::new().render_name_mode, RenderNameMode::All);
}

#[test]
fn notifications_take_free_then_oldest_slot() {
    let mut n = NotificationManager::new();
    n.push_str("first", TextColor::White);
    assert_eq!(n.notifications[0].message, "first");
    assert_eq!(n.notifications[0].remaining_ticks, 500);
    n.tick();
    n.push_str("second", TextColor::Red);
    assert_eq!(n.notifications[1].message, "second");
    assert_eq!(n.notifications[0].remaining_ticks, 499);
    for i in 0..5 {
        n.push_str(&format!("more {i}"), TextColor::White);
    }
    n.push_str("eighth", TextColor::Green);
    assert_eq!(n.notifications[0].message, "eighth");
    n.clear();
    assert!(n.notifications.iter().all(|x| x.remaining_ticks == 0));
}

#[test]
fn select_box_moves_and_scrolls() {
    let contents: Vec<(String, i32, TextColor)> =
        (0..20).map(|i| (format!("line {i}"), i, TextColor::White)).collect();
    let mut b = SelectBox::new("Title here".to_string(), contents);
    assert_eq!(b.max_length, 10);
    b.move_selected(1, true);
    assert_eq!((b.selected_index, b.top_index), (15, 1));
    b.move_selected(10, false);
    assert_eq!((b.selected_index, b.top_index), (19, 5));
    b.move_selected(-100, false);
    assert_eq!((b.selected_index, b.top_index), (0, 0));
    assert_eq!(b.select(), "?select 0 line 0");
}

#[test]
fn arena_list_selection_sends_go() {
    let contents = vec![
        ("(Public 3)      2".to_string(), 3, TextColor::White),
        ("duel            5".to_string(), -1, TextColor::Yellow),
    ];
    let mut b = SelectBox::new(" Arena-name    Count".to_string(), contents);
    b.is_arena_directory = true;
    assert_eq!(b.select(), "?go 3");
    b.move_selected(1, false);
    assert_eq!(b.select(), "?go duel");
}

#[test]
fn border_rectangles() {
    let r = border_rects(10, 20, 30, 50, true);
    assert_eq!(r.len(), 13);
    assert_eq!(r[0], ColorRect { kind: ColorRenderableKind::BorderInner, x: 10, y: 20, width: 21, height: 1 });
    assert_eq!(r[5], ColorRect { kind: ColorRenderableKind::BorderOuter, x: 10, y: 52, width: 20, height: 1 });
    assert_eq!(r[11], ColorRect { kind: ColorRenderableKind::BorderOuter, x: 32, y: 20, width: 1, height: 30 });
    assert_eq!(r[12], ColorRect { kind: ColorRenderableKind::Background, x: 11, y: 21, width: 19, height: 29 });
    assert_eq!(border_rects(10, 20, 30, 50, false).len(), 12);
    assert_eq!(ColorRenderableKind::Background.row(), 16);
}

#[test]
fn clock_sync_measures_delay_and_difference() {
    let mut h = ClockSyncHistory::new();
    assert!(h.is_empty());
    let u = process_clock_sync_response(&mut h, 1000, 5000, 1020);
    assert!(u.first_sync);
    assert_eq!(u.time_diff, 10 + 5000 - 1020);
    assert_eq!(u.tick_diff, u.time_diff);
    assert_eq!(u.ping, 100);
    assert!(!h.is_empty());
    let v = process_clock_sync_response(&mut h, 2000, 6000, 2040);
    assert!(!v.first_sync);
    assert_eq!(v.time_diff, 20 + 6000 - 2040);
    assert_eq!(v.tick_diff, (u.time_diff + v.time_diff) / 2);
    assert_eq!(v.ping, 150);
    assert_eq!(h.get_low_ping(), 0);
    assert_eq!(h.get_high_ping(), 200);
}

#[test]
fn clock_history_keeps_sixteen() {
    let mut h = ClockSyncHistory::new();
    for i in 0..20 {
        h.insert(i * 10, i);
    }
    assert_eq!(h.get_average_ping(), (40..200).step_by(10).sum::<i32>() / 16);
    assert_eq!(h.get_high_ping(), 190);
    assert_eq!(h.get_average_time_diff(), (4..20).sum::<i32>() / 16);
}

#[test]
fn animation_frames_repeat() {
    assert_eq!(get_animation_index(0, 4, 100), 0);
    assert_eq!(get_animation_index(25, 4, 100), 1);
    assert_eq!(get_animation_index(99, 4, 100), 3);
    assert_eq!(get_animation_index(100, 4, 100), 0);
}

fn keybinds() -> KeybindScene {
    KeybindScene::new(vec![
        (InputAction::MoveLeft, KeyCode::ArrowLeft, InputModifierSet::empty()),
        (InputAction::Bomb, KeyCode::Tab, InputModifierSet::empty()),
    ])
}

#[test]
fn keybind_screen_moves_between_pages_and_rows() {
    let mut scene = keybinds();
    let input = InputState::new();
    assert_eq!(scene.tabs.len(), 5);
    assert_eq!(scene.tabs[3].title, "Actions");
    scene.handle_key(&input, KeyCode::ArrowLeft, true);
    assert_eq!((scene.active_tab, scene.active_index), (0, 0));
    scene.handle_key(&input, KeyCode::PageDown, true);
    assert_eq!(scene.active_index, 4);
    scene.handle_key(&input, KeyCode::ArrowDown, true);
    assert_eq!(scene.active_index, 4);
    scene.handle_key(&input, KeyCode::ArrowRight, true);
    assert_eq!((scene.active_tab, scene.active_index), (1, 0));
    scene.handle_key(&input, KeyCode::ArrowRight, false);
    assert_eq!(scene.active_tab, 1);
    assert_eq!(scene.handle_key(&input, KeyCode::Escape, true), Some(SceneKeyAction::PopScene));
    assert!(scene.is_active());
}

#[test]
fn keybind_screen_records_a_binding_with_modifiers() {
    let mut scene = keybinds();
    let input = InputState::new();
    scene.handle_key(&input, KeyCode::ArrowRight, true);
    assert_eq!(scene.handle_key(&input, KeyCode::Enter, true), Some(SceneKeyAction::Ignore));
    assert!(scene.recording.is_some());
    scene.handle_key(&input, KeyCode::ShiftLeft, true);
    scene.handle_key(&input, KeyCode::KeyB, true);
    assert!(scene.recording.is_none());
    let bomb: Vec<_> = scene.mapping.iter().filter(|b| b.0 == InputAction::Bomb).collect();
    assert_eq!(bomb.len(), 1);
    assert_eq!(bomb[0].1, KeyCode::KeyB);
    assert!(bomb[0].2.is_set(InputModifier::Shift));
    scene.handle_key(&input, KeyCode::Enter, true);
    scene.handle_key(&input, KeyCode::Escape, true);
    assert!(scene.mapping.iter().all(|b| b.0 != InputAction::Bomb));
    assert!(scene.mapping.iter().any(|b| b.0 == InputAction::MoveLeft));
}
