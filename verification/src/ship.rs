use vstd::prelude::*;

use crate::arena_settings::ArenaSettings;
use crate::clock::GameTick;
use crate::weapon::WeaponKind;
use crate::math::{Position, div_i32, trunc_div};
use crate::player::STATUS_FLASH;
use crate::prize::{apply_random_prizes, random_prizes_result, stats_within_settings, lemma_settings_random_fit};

verus! {

#[derive(Copy, Clone, Debug, PartialEq, Eq, Structural)]
pub enum ShipKind {
    Warbird,
    Javelin,
    Spider,
    Leviathan,
    Terrier,
    Weasel,
    Lancaster,
    Shark,
    Spectator,
}

/// The ship's number on the wire: Warbird is 0, Spectator is 8.
pub open spec fn ship_index(kind: ShipKind) -> u8 {
    match kind {
        ShipKind::Warbird => 0,
        ShipKind::Javelin => 1,
        ShipKind::Spider => 2,
        ShipKind::Leviathan => 3,
        ShipKind::Terrier => 4,
        ShipKind::Weasel => 5,
        ShipKind::Lancaster => 6,
        ShipKind::Shark => 7,
        ShipKind::Spectator => 8,
    }
}

/// The ship with wire number `v`; unknown numbers mean a spectator.
pub open spec fn ship_from_index(v: u8) -> ShipKind {
    match v {
        0 => ShipKind::Warbird,
        1 => ShipKind::Javelin,
        2 => ShipKind::Spider,
        3 => ShipKind::Leviathan,
        4 => ShipKind::Terrier,
        5 => ShipKind::Weasel,
        6 => ShipKind::Lancaster,
        7 => ShipKind::Shark,
        _ => ShipKind::Spectator,
    }
}

impl ShipKind {
    pub fn network_value(&self) -> (r: u8)
        ensures
            r == ship_index(*self),
    {
        match self {
            ShipKind::Warbird => 0,
            ShipKind::Javelin => 1,
            ShipKind::Spider => 2,
            ShipKind::Leviathan => 3,
            ShipKind::Terrier => 4,
            ShipKind::Weasel => 5,
            ShipKind::Lancaster => 6,
            ShipKind::Shark => 7,
            ShipKind::Spectator => 8,
        }
    }

    pub fn from_network_value(v: u8) -> (r: ShipKind)
        ensures
            r == ship_from_index(v),
    {
        match v {
            0 => ShipKind::Warbird,
            1 => ShipKind::Javelin,
            2 => ShipKind::Spider,
            3 => ShipKind::Leviathan,
            4 => ShipKind::Terrier,
            5 => ShipKind::Weasel,
            6 => ShipKind::Lancaster,
            7 => ShipKind::Shark,
            _ => ShipKind::Spectator,
        }
    }
}

/// Every wire number of a ship names that ship again.
pub proof fn lemma_ship_index_roundtrip(kind: ShipKind)
    ensures
        ship_from_index(ship_index(kind)) == kind,
{
}

pub const CAPABILITY_STEALTH: u8 = 1;
pub const CAPABILITY_CLOAK: u8 = 2;
pub const CAPABILITY_XRADAR: u8 = 4;
pub const CAPABILITY_ANTIWARP: u8 = 8;
pub const CAPABILITY_MULTIFIRE: u8 = 16;
pub const CAPABILITY_PROXIMITY: u8 = 32;
pub const CAPABILITY_BOUNCING_BULLETS: u8 = 64;

#[derive(Copy, Clone, Debug)]
pub struct Ship {
    pub kind: ShipKind,
    pub current_energy: u32,
    pub current_orientation: i32,
    pub max_energy: u32,
    pub recharge: u32,
    pub rotation: u32,
    pub thrust: u32,
    pub speed: u32,
    pub guns: u8,
    pub bombs: u8,
    pub shrapnel: u8,
    pub repels: u8,
    pub bursts: u8,
    pub decoys: u8,
    pub thors: u8,
    pub bricks: u8,
    pub rockets: u8,
    pub portals: u8,
    pub next_bullet_tick: GameTick,
    pub next_bomb_tick: GameTick,
    pub next_repel_tick: GameTick,
    pub rocket_remaining_ticks: u32,
    pub shutdown_remaining_ticks: u32,
    pub fake_antiwarp_remaining_ticks: u32,
    pub emped_remaining_ticks: u32,
    pub super_remaining_ticks: u32,
    pub shield_remaining_ticks: u32,
    pub portal_remaining_ticks: u32,
    pub flag_remaining_ticks: u32,
    pub repel_effect_remaining_ticks: u32,
    pub portal_position: Option<Position>,
    pub multifire: bool,
    pub status: u8,
    pub capability: u8,
    pub bounty: u16,
    /// What the ship fired in this tick, if anything.
    pub weapon: Option<WeaponKind>,
}

/// The facing direction, in 40ths of a turn, of an orientation kept in
/// thousandths of a direction step (Rust's `/`, then `as u8`, then `% 40`).
pub open spec fn direction_of(orientation: i32) -> u8 {
    ((trunc_div(orientation as int, 1000) as u8) % 40) as u8
}

pub open spec fn min_int(a: int, b: int) -> int {
    if a < b { a } else { b }
}

/// The ship that `reset` makes of `ship` for a playable `kind`, before
/// random prizes and the final energy and bounty are applied.
pub open spec fn reset_base(settings: ArenaSettings, ship: Ship, tick: GameTick, kind: ShipKind) -> Ship {
    let ss = settings.ship(kind);
    let max_energy = min_int(ss.initial_energy * 1000, ss.maximum_energy * 1000) as u32;
    let cap = (if ss.stealth_status == 2 { CAPABILITY_STEALTH } else { 0u8 })
        | (if ss.cloak_status == 2 { CAPABILITY_CLOAK } else { 0u8 })
        | (if ss.xradar_status == 2 { CAPABILITY_XRADAR } else { 0u8 })
        | (if ss.antiwarp_status == 2 { CAPABILITY_ANTIWARP } else { 0u8 });
    Ship {
        kind,
        shrapnel: 0,
        rocket_remaining_ticks: 0,
        shutdown_remaining_ticks: 0,
        fake_antiwarp_remaining_ticks: 0,
        emped_remaining_ticks: 0,
        super_remaining_ticks: 0,
        shield_remaining_ticks: 0,
        portal_remaining_ticks: 0,
        flag_remaining_ticks: 0,
        repel_effect_remaining_ticks: 0,
        portal_position: None,
        multifire: false,
        status: STATUS_FLASH,
        capability: cap,
        bounty: 0,
        next_bomb_tick: tick,
        next_bullet_tick: tick,
        next_repel_tick: tick,
        max_energy,
        recharge: min_int(ss.initial_recharge as int, ss.maximum_recharge as int) as u32,
        rotation: min_int(ss.initial_rotation as int, ss.maximum_rotation as int) as u32,
        thrust: min_int(ss.initial_thrust as int, ss.maximum_thrust as int) as u32,
        speed: min_int(ss.initial_speed as int, ss.maximum_speed as int) as u32,
        guns: min_int(ss.initial_guns as int, ss.max_guns as int) as u8,
        bombs: min_int(ss.initial_bombs as int, ss.max_bombs as int) as u8,
        repels: min_int(ss.initial_repel as int, ss.max_repel as int) as u8,
        bursts: min_int(ss.initial_burst as int, ss.max_burst as int) as u8,
        decoys: min_int(ss.initial_decoy as int, ss.max_decoy as int) as u8,
        thors: min_int(ss.initial_thor as int, ss.max_thor as int) as u8,
        bricks: min_int(ss.initial_brick as int, ss.max_brick as int) as u8,
        rockets: min_int(ss.initial_rocket as int, ss.max_rocket as int) as u8,
        portals: min_int(ss.initial_portal as int, ss.max_portal as int) as u8,
        current_energy: max_energy,
        ..ship
    }
}

/// The ship that `reset` produces.
pub open spec fn reset_result(settings: ArenaSettings, ship: Ship, tick: GameTick, kind: ShipKind) -> Ship {
    if kind == ShipKind::Spectator {
        Ship {
            kind,
            shrapnel: 0,
            rocket_remaining_ticks: 0,
            shutdown_remaining_ticks: 0,
            fake_antiwarp_remaining_ticks: 0,
            emped_remaining_ticks: 0,
            super_remaining_ticks: 0,
            shield_remaining_ticks: 0,
            portal_remaining_ticks: 0,
            flag_remaining_ticks: 0,
            repel_effect_remaining_ticks: 0,
            portal_position: None,
            multifire: false,
            status: 0,
            capability: 0,
            bounty: 0,
            ..ship
        }
    } else {
        let base = reset_base(settings, ship, tick, kind);
        let ss = settings.ship(kind);
        let prized = if settings.prize_weights.total() > 0 {
            random_prizes_result(settings, base, tick.value, ss.initial_bounty as i32)
        } else {
            base
        };
        Ship { current_energy: prized.max_energy, bounty: ss.initial_bounty, ..prized }
    }
}

impl Ship {
    pub fn new() -> (r: Ship)
        ensures
            r.kind == ShipKind::Spectator,
            r.current_energy == 0 && r.max_energy == 0 && r.recharge == 0,
            r.rotation == 0 && r.thrust == 0 && r.speed == 0,
            r.guns == 0 && r.bombs == 0 && r.shrapnel == 0 && r.repels == 0,
            r.bursts == 0 && r.decoys == 0 && r.thors == 0 && r.bricks == 0,
            r.rockets == 0 && r.portals == 0,
            r.current_orientation == 0,
            r.next_bullet_tick.value == 0 && r.next_bomb_tick.value == 0 && r.next_repel_tick.value == 0,
            r.rocket_remaining_ticks == 0 && r.shutdown_remaining_ticks == 0,
            r.fake_antiwarp_remaining_ticks == 0 && r.emped_remaining_ticks == 0,
            r.super_remaining_ticks == 0 && r.shield_remaining_ticks == 0,
            r.portal_remaining_ticks == 0 && r.flag_remaining_ticks == 0,
            r.repel_effect_remaining_ticks == 0,
            r.portal_position is None,
            !r.multifire && r.status == 0 && r.capability == 0 && r.bounty == 0,
            r.weapon is None,
    {
        Ship {
            kind: ShipKind::Spectator,
            current_energy: 0,
            current_orientation: 0,
            max_energy: 0,
            recharge: 0,
            rotation: 0,
            thrust: 0,
            speed: 0,
            guns: 0,
            bombs: 0,
            shrapnel: 0,
            repels: 0,
            bursts: 0,
            decoys: 0,
            thors: 0,
            bricks: 0,
            rockets: 0,
            portals: 0,
            next_bullet_tick: GameTick::empty(),
            next_bomb_tick: GameTick::empty(),
            next_repel_tick: GameTick::empty(),
            rocket_remaining_ticks: 0,
            shutdown_remaining_ticks: 0,
            fake_antiwarp_remaining_ticks: 0,
            emped_remaining_ticks: 0,
            super_remaining_ticks: 0,
            shield_remaining_ticks: 0,
            portal_remaining_ticks: 0,
            flag_remaining_ticks: 0,
            repel_effect_remaining_ticks: 0,
            portal_position: None,
            multifire: false,
            status: 0,
            capability: 0,
            bounty: 0,
            weapon: None,
        }
    }

    /// The facing direction in 40ths of a turn.
    pub fn get_direction(&self) -> (r: u8)
        ensures
            r == direction_of(self.current_orientation),
    {
        (div_i32(self.current_orientation, 1000) as u8) % 40
    }

    pub fn is_max_energy(&self) -> (r: bool)
        ensures
            r == (self.current_energy >= self.max_energy),
    {
        self.current_energy >= self.max_energy
    }

    /// Puts the ship in the state of a fresh spawn as `ship_kind`.
    pub fn reset(&mut self, settings: &ArenaSettings, current_tick: GameTick, ship_kind: ShipKind)
        ensures
            *final(self) == reset_result(*settings, *old(self), current_tick, ship_kind),
    {
        if ship_kind == ShipKind::Spectator {
            self.kind = ship_kind;
            self.shrapnel = 0;
            self.rocket_remaining_ticks = 0;
            self.shutdown_remaining_ticks = 0;
            self.fake_antiwarp_remaining_ticks = 0;
            self.emped_remaining_ticks = 0;
            self.super_remaining_ticks = 0;
            self.shield_remaining_ticks = 0;
            self.portal_remaining_ticks = 0;
            self.flag_remaining_ticks = 0;
            self.repel_effect_remaining_ticks = 0;
            self.portal_position = None;
            self.multifire = false;
            self.status = 0;
            self.capability = 0;
            self.bounty = 0;
            return;
        }
        self.reset_playable(settings, current_tick, ship_kind);
        let ship_settings = settings.get_ship_settings(ship_kind);
        if settings.prize_weights.calculate_total_weight() > 0 {
            proof {
                lemma_settings_random_fit(*settings, *self, current_tick.value, current_tick.value as i32, 0,
                    ship_settings.initial_bounty as i32 as int, 9999);
            }
            apply_random_prizes(settings, self, current_tick, ship_settings.initial_bounty as i32);
        }
        self.current_energy = self.max_energy;
        self.bounty = ship_settings.initial_bounty;
    }

    /// The part of `reset` for a playable ship that precedes random prizes.
    #[verifier::rlimit(40)]
    fn reset_playable(&mut self, settings: &ArenaSettings, current_tick: GameTick, ship_kind: ShipKind)
        requires
            ship_kind != ShipKind::Spectator,
        ensures
            *final(self) == reset_base(*settings, *old(self), current_tick, ship_kind),
            stats_within_settings(*final(self)),
            final(self).kind == ship_kind,
    {
        let ss = settings.get_ship_settings(ship_kind);
        let max_energy = min_u32(ss.initial_energy as u32 * 1000, ss.maximum_energy as u32 * 1000);
        let capability = capability_bits(ss.stealth_status, ss.cloak_status, ss.xradar_status, ss.antiwarp_status);
        *self = Ship {
            kind: ship_kind,
            shrapnel: 0,
            rocket_remaining_ticks: 0,
            shutdown_remaining_ticks: 0,
            fake_antiwarp_remaining_ticks: 0,
            emped_remaining_ticks: 0,
            super_remaining_ticks: 0,
            shield_remaining_ticks: 0,
            portal_remaining_ticks: 0,
            flag_remaining_ticks: 0,
            repel_effect_remaining_ticks: 0,
            portal_position: None,
            multifire: false,
            status: STATUS_FLASH,
            capability,
            bounty: 0,
            next_bomb_tick: current_tick,
            next_bullet_tick: current_tick,
            next_repel_tick: current_tick,
            max_energy,
            recharge: min_u32(ss.initial_recharge as u32, ss.maximum_recharge as u32),
            rotation: min_u32(ss.initial_rotation as u32, ss.maximum_rotation as u32),
            thrust: min_u32(ss.initial_thrust as u32, ss.maximum_thrust as u32),
            speed: min_u32(ss.initial_speed as u32, ss.maximum_speed as u32),
            guns: min_u8(ss.initial_guns, ss.max_guns),
            bombs: min_u8(ss.initial_bombs, ss.max_bombs),
            repels: min_u8(ss.initial_repel, ss.max_repel),
            bursts: min_u8(ss.initial_burst, ss.max_burst),
            decoys: min_u8(ss.initial_decoy, ss.max_decoy),
            thors: min_u8(ss.initial_thor, ss.max_thor),
            bricks: min_u8(ss.initial_brick, ss.max_brick),
            rockets: min_u8(ss.initial_rocket, ss.max_rocket),
            portals: min_u8(ss.initial_portal, ss.max_portal),
            current_energy: max_energy,
            current_orientation: self.current_orientation,
            weapon: self.weapon,
        };
    }
}

fn min_u32(a: u32, b: u32) -> (r: u32)
    ensures
        r == min_int(a as int, b as int),
{
    if a > b { b } else { a }
}

fn min_u8(a: u8, b: u8) -> (r: u8)
    ensures
        r == min_int(a as int, b as int),
{
    if a > b { b } else { a }
}

/// Capabilities that the ship settings grant from the start (status 2).
fn capability_bits(stealth: u8, cloak: u8, xradar: u8, antiwarp: u8) -> (r: u8)
    ensures
        r == (if stealth == 2 { CAPABILITY_STEALTH } else { 0u8 })
            | (if cloak == 2 { CAPABILITY_CLOAK } else { 0u8 })
            | (if xradar == 2 { CAPABILITY_XRADAR } else { 0u8 })
            | (if antiwarp == 2 { CAPABILITY_ANTIWARP } else { 0u8 }),
{
    let s: u8 = if stealth == 2 { CAPABILITY_STEALTH } else { 0u8 };
    let c: u8 = if cloak == 2 { CAPABILITY_CLOAK } else { 0u8 };
    let x: u8 = if xradar == 2 { CAPABILITY_XRADAR } else { 0u8 };
    let a: u8 = if antiwarp == 2 { CAPABILITY_ANTIWARP } else { 0u8 };
    s | c | x | a
}

} // verus!
