use vstd::prelude::*;

use crate::input::KeyCode;
use crate::ship::ShipKind;

verus! {

/// What a key chooses in the in-game menu.
#[derive(Copy, Clone, Debug)]
pub enum MenuAction {
    Quit,
    Help,
    StatBox,
    NameTags,
    Radar,
    Messages,
    HelpTicker,
    EngineSounds,
    ArenaList,
    SetBanner,
    IgnoreMacros,
    AdjustStatBoxUp,
    AdjustStatBoxDown,
    ShipRequest(ShipKind),
}

/// The menu entry a key chooses.
pub open spec fn menu_choice(code: KeyCode) -> Option<MenuAction> {
    match code {
        KeyCode::KeyQ => Some(MenuAction::Quit),
        KeyCode::F1 => Some(MenuAction::Help),
        KeyCode::F2 => Some(MenuAction::StatBox),
        KeyCode::F3 => Some(MenuAction::NameTags),
        KeyCode::F4 => Some(MenuAction::Radar),
        KeyCode::F5 => Some(MenuAction::Messages),
        KeyCode::F6 => Some(MenuAction::HelpTicker),
        KeyCode::F8 => Some(MenuAction::EngineSounds),
        KeyCode::KeyA => Some(MenuAction::ArenaList),
        KeyCode::KeyB => Some(MenuAction::SetBanner),
        KeyCode::KeyI => Some(MenuAction::IgnoreMacros),
        KeyCode::Digit1 => Some(MenuAction::ShipRequest(ShipKind::Warbird)),
        KeyCode::Digit2 => Some(MenuAction::ShipRequest(ShipKind::Javelin)),
        KeyCode::Digit3 => Some(MenuAction::ShipRequest(ShipKind::Spider)),
        KeyCode::Digit4 => Some(MenuAction::ShipRequest(ShipKind::Leviathan)),
        KeyCode::Digit5 => Some(MenuAction::ShipRequest(ShipKind::Terrier)),
        KeyCode::Digit6 => Some(MenuAction::ShipRequest(ShipKind::Weasel)),
        KeyCode::Digit7 => Some(MenuAction::ShipRequest(ShipKind::Lancaster)),
        KeyCode::Digit8 => Some(MenuAction::ShipRequest(ShipKind::Shark)),
        KeyCode::KeyS => Some(MenuAction::ShipRequest(ShipKind::Spectator)),
        _ => None,
    }
}

/// The in-game menu.
pub struct Menu {
    pub open: bool,
    /// The menu took a key in this update, so the key types no text.
    pub handled: bool,
}

impl Menu {
    pub fn new() -> (r: Menu)
        ensures
            !r.open && !r.handled,
    {
        Menu { open: false, handled: false }
    }

    pub fn toggle(&mut self)
        ensures
            final(self).open == !old(self).open,
            final(self).handled == old(self).handled,
    {
        self.open = !self.open;
    }

    pub fn is_open(&self) -> (r: bool)
        ensures
            r == self.open,
    {
        self.open
    }

    /// Takes a key while the menu is open: a key with an entry chooses it
    /// and closes the menu.
    pub fn handle_key(&mut self, code: KeyCode) -> (r: Option<MenuAction>)
        ensures
            !old(self).open ==> r is None && *final(self) == *old(self),
            old(self).open ==> r == menu_choice(code),
            old(self).open && r is Some ==> !final(self).open && final(self).handled,
            old(self).open && r is None ==> *final(self) == *old(self),
    {
        if !self.open {
            return None;
        }
        let result = match code {
            KeyCode::KeyQ => Some(MenuAction::Quit),
            KeyCode::F1 => Some(MenuAction::Help),
            KeyCode::F2 => Some(MenuAction::StatBox),
            KeyCode::F3 => Some(MenuAction::NameTags),
            KeyCode::F4 => Some(MenuAction::Radar),
            KeyCode::F5 => Some(MenuAction::Messages),
            KeyCode::F6 => Some(MenuAction::HelpTicker),
            KeyCode::F8 => Some(MenuAction::EngineSounds),
            KeyCode::KeyA => Some(MenuAction::ArenaList),
            KeyCode::KeyB => Some(MenuAction::SetBanner),
            KeyCode::KeyI => Some(MenuAction::IgnoreMacros),
            KeyCode::Digit1 => Some(MenuAction::ShipRequest(ShipKind::Warbird)),
            KeyCode::Digit2 => Some(MenuAction::ShipRequest(ShipKind::Javelin)),
            KeyCode::Digit3 => Some(MenuAction::ShipRequest(ShipKind::Spider)),
            KeyCode::Digit4 => Some(MenuAction::ShipRequest(ShipKind::Leviathan)),
            KeyCode::Digit5 => Some(MenuAction::ShipRequest(ShipKind::Terrier)),
            KeyCode::Digit6 => Some(MenuAction::ShipRequest(ShipKind::Weasel)),
            KeyCode::Digit7 => Some(MenuAction::ShipRequest(ShipKind::Lancaster)),
            KeyCode::Digit8 => Some(MenuAction::ShipRequest(ShipKind::Shark)),
            KeyCode::KeyS => Some(MenuAction::ShipRequest(ShipKind::Spectator)),
            _ => None,
        };
        if result.is_some() {
            self.open = false;
            self.handled = true;
        }
        result
    }
}

} // verus!
