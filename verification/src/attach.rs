use vstd::prelude::*;

use crate::arena_settings::ArenaSettings;
use crate::player::{PlayerId, PlayerManager};
use crate::ship::{Ship, ShipKind};
use crate::ship_controller::ShipController;

verus! {

/// What pressing the attach key on a target does.
#[derive(Copy, Clone, Debug)]
pub enum AttachKind {
    DetachSelf,
    DetachChildren,
    Attach(PlayerId),
}

/// Why an attach request is refused.
#[derive(Copy, Clone, Debug)]
pub enum AttachError {
    /// Our own player is not in the arena.
    InvalidSelf,
    /// The target player is not in the arena.
    InvalidTarget,
    Energy,
    Bounty,
    SelfAttach,
    Frequency,
    Spectator,
    TargetShip,
    TooManyTurrets,
}

/// The message shown for a refused attach.
pub open spec fn attach_error_text(e: AttachError) -> Seq<char> {
    match e {
        AttachError::InvalidSelf => ""@,
        AttachError::InvalidTarget => ""@,
        AttachError::Energy => "Not enough energy to attach."@,
        AttachError::Bounty => "Bounty not high enough to attach."@,
        AttachError::SelfAttach => "Cannot attach to self"@,
        AttachError::Frequency => "Must attach to somebody of same frequency."@,
        AttachError::Spectator => "Cannot attach to spectator."@,
        AttachError::TargetShip => "Target ship is not attachable."@,
        AttachError::TooManyTurrets => "Too many turrets already attached."@,
    }
}

impl AttachError {
    pub fn get_notification_string(&self) -> (r: &'static str)
        ensures
            r@ == attach_error_text(*self),
    {
        match self {
            AttachError::InvalidSelf => "",
            AttachError::InvalidTarget => "",
            AttachError::Energy => "Not enough energy to attach.",
            AttachError::Bounty => "Bounty not high enough to attach.",
            AttachError::SelfAttach => "Cannot attach to self",
            AttachError::Frequency => "Must attach to somebody of same frequency.",
            AttachError::Spectator => "Cannot attach to spectator.",
            AttachError::TargetShip => "Target ship is not attachable.",
            AttachError::TooManyTurrets => "Too many turrets already attached.",
        }
    }
}

/// The checks once we know who we attach to: `tid`, the target itself or
/// the player it is attached to.
pub open spec fn attach_checks(pm: PlayerManager, ship: Ship, settings: ArenaSettings, tid: PlayerId) -> Result<AttachKind, AttachError> {
    let me = pm.player_with_id(pm.self_id);
    let t = pm.player_with_id(tid);
    if ship.current_energy < ship.max_energy {
        Err(AttachError::Energy)
    } else if me.id == tid {
        Err(AttachError::SelfAttach)
    } else if me.ship_kind == ShipKind::Spectator {
        Err(AttachError::Spectator)
    } else if me.bounty < settings.ship(me.ship_kind).attach_bounty {
        Err(AttachError::Bounty)
    } else if !pm.contains_id(tid) {
        Err(AttachError::InvalidTarget)
    } else if t.frequency != me.frequency {
        Err(AttachError::Frequency)
    } else if t.ship_kind == ShipKind::Spectator {
        Err(AttachError::Spectator)
    } else if settings.ship(t.ship_kind).turret_limit == 0 {
        Err(AttachError::TargetShip)
    } else if (t.children@.len() as u8) >= settings.ship(t.ship_kind).turret_limit {
        Err(AttachError::TooManyTurrets)
    } else {
        Ok(AttachKind::Attach(tid))
    }
}

/// What an attach request on `target_id` amounts to.
pub open spec fn attach_decision(pm: PlayerManager, ship: Ship, settings: ArenaSettings, target_id: PlayerId) -> Result<AttachKind, AttachError> {
    let me = pm.player_with_id(pm.self_id);
    if !pm.contains_id(pm.self_id) {
        Err(AttachError::InvalidSelf)
    } else if !target_id.is_valid() || me.attach_parent.is_valid() {
        Ok(AttachKind::DetachSelf)
    } else if me.children@.len() > 0 {
        Ok(AttachKind::DetachChildren)
    } else if !pm.contains_id(target_id) {
        Err(AttachError::InvalidTarget)
    } else {
        let t = pm.player_with_id(target_id);
        attach_checks(pm, ship, settings, if t.attach_parent.is_valid() { t.attach_parent } else { target_id })
    }
}

/// Decides what the attach key does on `target_id`: detach ourselves,
/// detach our turrets, attach to the target (or to whom it rides on), or
/// refuse with a reason.
pub fn can_attach_to(
    player_manager: &PlayerManager,
    ship_controller: &ShipController,
    settings: &ArenaSettings,
    target_id: PlayerId,
) -> (r: Result<AttachKind, AttachError>)
    requires
        player_manager.wf(),
    ensures
        r == attach_decision(*player_manager, ship_controller.ship, *settings, target_id),
{
    let (already_attached, has_children) = if let Some(me) = player_manager.get_self() {
        (me.attach_parent.valid(), !me.children.is_empty())
    } else {
        return Err(AttachError::InvalidSelf);
    };
    if !target_id.valid() || already_attached {
        return Ok(AttachKind::DetachSelf);
    }
    if has_children {
        return Ok(AttachKind::DetachChildren);
    }
    let target_id = if let Some(target) = player_manager.get_by_id(target_id) {
        if target.attach_parent.valid() {
            target.attach_parent
        } else {
            target_id
        }
    } else {
        return Err(AttachError::InvalidTarget);
    };
    if ship_controller.ship.current_energy < ship_controller.ship.max_energy {
        return Err(AttachError::Energy);
    }
    let Some(me) = player_manager.get_self() else {
        return Err(AttachError::InvalidSelf);
    };
    if me.id == target_id {
        return Err(AttachError::SelfAttach);
    }
    if me.ship_kind == ShipKind::Spectator {
        return Err(AttachError::Spectator);
    }
    if me.bounty < settings.get_ship_settings(me.ship_kind).attach_bounty {
        return Err(AttachError::Bounty);
    }
    let Some(target) = player_manager.get_by_id(target_id) else {
        return Err(AttachError::InvalidTarget);
    };
    if target.frequency != me.frequency {
        return Err(AttachError::Frequency);
    }
    if target.ship_kind == ShipKind::Spectator {
        return Err(AttachError::Spectator);
    }
    let target_turret_limit = settings.get_ship_settings(target.ship_kind).turret_limit;
    if target_turret_limit == 0 {
        return Err(AttachError::TargetShip);
    }
    if target.children.len() as u8 >= target_turret_limit {
        return Err(AttachError::TooManyTurrets);
    }
    Ok(AttachKind::Attach(target_id))
}

} // verus!
