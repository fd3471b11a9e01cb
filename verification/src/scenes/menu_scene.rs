use vstd::prelude::*;

use crate::input::{KeyCode, is_text_key};
use crate::ship::ShipKind;

verus! {

/// What a key does in the menu screen.
#[derive(Copy, Clone, Debug)]
pub enum MenuAction {
    MenuToggle,
    Quit,
    Help,
    Statbox,
    NameTags,
    Radar,
    Messages,
    HelpTicker,
    EngineSounds,
    ArenaList,
    SetBanner,
    IgnoreMacros,
    AdjustStatBoxUp,
    AdjustStatBoxDown,
    ShipRequest(ShipKind),
    Keybind,
}

/// The action of a key while the menu screen is open, and whether the
/// screen closes. Keys without an entry close it unless they type text.
pub open spec fn menu_key(code: KeyCode) -> (Option<MenuAction>, bool) {
    match code {
        KeyCode::KeyQ => (Some(MenuAction::Quit), true),
        KeyCode::F1 => (Some(MenuAction::Help), true),
        KeyCode::F2 => (Some(MenuAction::Statbox), false),
        KeyCode::F3 => (Some(MenuAction::NameTags), false),
        KeyCode::F4 => (Some(MenuAction::Radar), false),
        KeyCode::F5 => (Some(MenuAction::Messages), false),
        KeyCode::F6 => (Some(MenuAction::HelpTicker), false),
        KeyCode::F8 => (Some(MenuAction::EngineSounds), false),
        KeyCode::KeyA => (Some(MenuAction::ArenaList), true),
        KeyCode::KeyB => (Some(MenuAction::SetBanner), true),
        KeyCode::KeyI => (Some(MenuAction::IgnoreMacros), false),
        KeyCode::Digit1 => (Some(MenuAction::ShipRequest(ShipKind::Warbird)), true),
        KeyCode::Digit2 => (Some(MenuAction::ShipRequest(ShipKind::Javelin)), true),
        KeyCode::Digit3 => (Some(MenuAction::ShipRequest(ShipKind::Spider)), true),
        KeyCode::Digit4 => (Some(MenuAction::ShipRequest(ShipKind::Leviathan)), true),
        KeyCode::Digit5 => (Some(MenuAction::ShipRequest(ShipKind::Terrier)), true),
        KeyCode::Digit6 => (Some(MenuAction::ShipRequest(ShipKind::Weasel)), true),
        KeyCode::Digit7 => (Some(MenuAction::ShipRequest(ShipKind::Lancaster)), true),
        KeyCode::Digit8 => (Some(MenuAction::ShipRequest(ShipKind::Shark)), true),
        KeyCode::KeyS => (Some(MenuAction::ShipRequest(ShipKind::Spectator)), true),
        KeyCode::KeyK => (Some(MenuAction::Keybind), true),
        _ => (None, is_text_key(code)),
    }
}

/// Takes a key for the menu screen, open when `active` is set: Escape
/// toggles the screen; while it is open, other keys choose entries, and
/// `active` is cleared when the screen closes.
pub fn menu_scene_action(active: &mut bool, code: KeyCode) -> (r: Option<MenuAction>)
    ensures
        code == KeyCode::Escape ==> (r matches Some(MenuAction::MenuToggle) && *final(active) == *old(active)),
        code != KeyCode::Escape && !*old(active) ==> r is None && *final(active) == *old(active),
        code != KeyCode::Escape && *old(active) ==> {
            &&& r == menu_key(code).0
            &&& *final(active) == !menu_key(code).1
        },
{
    if code == KeyCode::Escape {
        return Some(MenuAction::MenuToggle);
    }
    if !*active {
        return None;
    }
    let (result, close) = match code {
        KeyCode::KeyQ => (Some(MenuAction::Quit), true),
        KeyCode::F1 => (Some(MenuAction::Help), true),
        KeyCode::F2 => (Some(MenuAction::Statbox), false),
        KeyCode::F3 => (Some(MenuAction::NameTags), false),
        KeyCode::F4 => (Some(MenuAction::Radar), false),
        KeyCode::F5 => (Some(MenuAction::Messages), false),
        KeyCode::F6 => (Some(MenuAction::HelpTicker), false),
        KeyCode::F8 => (Some(MenuAction::EngineSounds), false),
        KeyCode::KeyA => (Some(MenuAction::ArenaList), true),
        KeyCode::KeyB => (Some(MenuAction::SetBanner), true),
        KeyCode::KeyI => (Some(MenuAction::IgnoreMacros), false),
        KeyCode::Digit1 => (Some(MenuAction::ShipRequest(ShipKind::Warbird)), true),
        KeyCode::Digit2 => (Some(MenuAction::ShipRequest(ShipKind::Javelin)), true),
        KeyCode::Digit3 => (Some(MenuAction::ShipRequest(ShipKind::Spider)), true),
        KeyCode::Digit4 => (Some(MenuAction::ShipRequest(ShipKind::Leviathan)), true),
        KeyCode::Digit5 => (Some(MenuAction::ShipRequest(ShipKind::Terrier)), true),
        KeyCode::Digit6 => (Some(MenuAction::ShipRequest(ShipKind::Weasel)), true),
        KeyCode::Digit7 => (Some(MenuAction::ShipRequest(ShipKind::Lancaster)), true),
        KeyCode::Digit8 => (Some(MenuAction::ShipRequest(ShipKind::Shark)), true),
        KeyCode::KeyS => (Some(MenuAction::ShipRequest(ShipKind::Spectator)), true),
        KeyCode::KeyK => (Some(MenuAction::Keybind), true),
        _ => (None, crate::input::is_input_keycode(code)),
    };
    if close {
        *active = false;
    }
    result
}

} // verus!
