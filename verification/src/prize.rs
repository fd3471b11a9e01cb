use vstd::prelude::*;

use crate::arena_settings::{ArenaSettings, ShipSettings, weight_prefix, lemma_weight_prefix_bounds, lemma_weight_prefix_monotone};
use crate::clock::GameTick;
use crate::map::TileMap;
use crate::math::{Position, PositionUnit, Rectangle, rects_intersect};
use crate::net::packet::c2s::TakePrizeMessage;
use crate::player::{Player, PlayerManager, collider_of};
use crate::ship_controller::ShipController;
use crate::rng::{VieRng, next_seed};
use crate::ship::{Ship, ShipKind, CAPABILITY_STEALTH, CAPABILITY_CLOAK, CAPABILITY_XRADAR, CAPABILITY_ANTIWARP, CAPABILITY_MULTIFIRE, CAPABILITY_PROXIMITY, CAPABILITY_BOUNCING_BULLETS};

verus! {

#[derive(Copy, Clone, Debug, PartialEq, Eq, Structural)]
pub enum Prize {
    NoPrize,
    Recharge,
    Energy,
    Rotation,
    Stealth,
    Cloak,
    XRadar,
    Warp,
    Guns,
    Bombs,
    BouncingBullets,
    Thruster,
    TopSpeed,
    FullCharge,
    EngineShutdown,
    Multifire,
    Proximity,
    Super,
    Shields,
    Shrapnel,
    Antiwarp,
    Repel,
    Burst,
    Decoy,
    Thor,
    Multiprize,
    Brick,
    Rocket,
    Portal,
}

#[derive(Copy, Clone, Debug, PartialEq, Eq, Structural)]
pub enum PrizeError {
    InvalidPrizeId,
    InvalidShip,
}

/// The prize with wire id `i` (0 to 28).
pub open spec fn prize_from_index(i: int) -> Prize {
    if i == 0 { Prize::NoPrize }
    else if i == 1 { Prize::Recharge }
    else if i == 2 { Prize::Energy }
    else if i == 3 { Prize::Rotation }
    else if i == 4 { Prize::Stealth }
    else if i == 5 { Prize::Cloak }
    else if i == 6 { Prize::XRadar }
    else if i == 7 { Prize::Warp }
    else if i == 8 { Prize::Guns }
    else if i == 9 { Prize::Bombs }
    else if i == 10 { Prize::BouncingBullets }
    else if i == 11 { Prize::Thruster }
    else if i == 12 { Prize::TopSpeed }
    else if i == 13 { Prize::FullCharge }
    else if i == 14 { Prize::EngineShutdown }
    else if i == 15 { Prize::Multifire }
    else if i == 16 { Prize::Proximity }
    else if i == 17 { Prize::Super }
    else if i == 18 { Prize::Shields }
    else if i == 19 { Prize::Shrapnel }
    else if i == 20 { Prize::Antiwarp }
    else if i == 21 { Prize::Repel }
    else if i == 22 { Prize::Burst }
    else if i == 23 { Prize::Decoy }
    else if i == 24 { Prize::Thor }
    else if i == 25 { Prize::Multiprize }
    else if i == 26 { Prize::Brick }
    else if i == 27 { Prize::Rocket }
    else { Prize::Portal }
}

pub open spec fn abs_i32(v: i32) -> int {
    if v < 0 { -(v as int) } else { v as int }
}

impl Prize {
    /// The prize named by a wire id; a negative id names the same prize.
    pub fn try_from(value: i32) -> (r: Result<Prize, PrizeError>)
        requires
            value != i32::MIN,
        ensures
            abs_i32(value) <= 28 ==> r == Ok::<Prize, PrizeError>(prize_from_index(abs_i32(value))),
            abs_i32(value) > 28 ==> r == Err::<Prize, PrizeError>(PrizeError::InvalidPrizeId),
    {
        let value: i32 = if value < 0 { -value } else { value };
        match value {
            0 => Ok(Prize::NoPrize),
            1 => Ok(Prize::Recharge),
            2 => Ok(Prize::Energy),
            3 => Ok(Prize::Rotation),
            4 => Ok(Prize::Stealth),
            5 => Ok(Prize::Cloak),
            6 => Ok(Prize::XRadar),
            7 => Ok(Prize::Warp),
            8 => Ok(Prize::Guns),
            9 => Ok(Prize::Bombs),
            10 => Ok(Prize::BouncingBullets),
            11 => Ok(Prize::Thruster),
            12 => Ok(Prize::TopSpeed),
            13 => Ok(Prize::FullCharge),
            14 => Ok(Prize::EngineShutdown),
            15 => Ok(Prize::Multifire),
            16 => Ok(Prize::Proximity),
            17 => Ok(Prize::Super),
            18 => Ok(Prize::Shields),
            19 => Ok(Prize::Shrapnel),
            20 => Ok(Prize::Antiwarp),
            21 => Ok(Prize::Repel),
            22 => Ok(Prize::Burst),
            23 => Ok(Prize::Decoy),
            24 => Ok(Prize::Thor),
            25 => Ok(Prize::Multiprize),
            26 => Ok(Prize::Brick),
            27 => Ok(Prize::Rocket),
            28 => Ok(Prize::Portal),
            _ => Err(PrizeError::InvalidPrizeId),
        }
    }
}

/// The index of the first prize whose running weight exceeds `target`,
/// searching from index `i`; 28 when there is none.
pub open spec fn first_index_over(w: Seq<u8>, target: int, i: int) -> int
    decreases 28 - i,
{
    if i >= 28 {
        28
    } else if target < weight_prefix(w, i + 1) {
        i
    } else {
        first_index_over(w, target, i + 1)
    }
}

/// A weighted random prize id drawn from the generator at `seed`, and the
/// seed afterwards. The id is negative when a negative prize was drawn.
#[verifier::opaque]
pub open spec fn gen_prize(settings: ArenaSettings, seed: i32, negative_allowed: bool) -> (i32, i32) {
    let total = settings.prize_weights.total();
    if total == 0 {
        (0, seed)
    } else {
        let s1 = next_seed(seed);
        let target = (s1 as u32) as int % total;
        let idx = first_index_over(settings.prize_weights.weights@, target, 0);
        if idx >= 28 {
            (0, s1)
        } else {
            let s2 = next_seed(s1);
            let factor = settings.prize_negative_factor;
            if !negative_allowed || factor == 0 || (s2 as u32) as int % (factor as int) != 0 {
                ((idx + 1) as i32, s2)
            } else {
                ((-(idx + 1)) as i32, s2)
            }
        }
    }
}

/// Prize ids that a multiprize or a random spawn prize may grant.
pub open spec fn valid_multiprize(id: i32) -> bool {
    !(id == 0 || id == 14 || id == 18 || id == 17 || id == 25 || id == 7)
}

/// Draws prizes from `seed` until one may be part of a multiprize, at most
/// `attempts` times; the prize found, if any, and the seed afterwards.
#[verifier::opaque]
pub open spec fn find_multiprize(settings: ArenaSettings, seed: i32, attempts: nat) -> (Option<i32>, i32)
    decreases attempts,
{
    if attempts == 0 {
        (None, seed)
    } else {
        let (p, s) = gen_prize(settings, seed, false);
        if valid_multiprize(p) {
            (Some(p), s)
        } else {
            find_multiprize(settings, s, (attempts - 1) as nat)
        }
    }
}

pub open spec fn raise_u32(v: u32, up: int, max: int) -> u32 {
    if v + up > max { max as u32 } else { (v + up) as u32 }
}

pub open spec fn lower_u32(v: u32, down: int, floor: int) -> u32 {
    let n = if v - down < 0 { 0 } else { v - down };
    if n < floor { floor as u32 } else { n as u32 }
}

pub open spec fn raise_u8(v: u8, max: u8) -> u8 {
    let n = if v + 1 > 255 { 255 } else { v + 1 };
    if n > max { max } else { n as u8 }
}

pub open spec fn lower_u8(v: u8, floor: u8) -> u8 {
    let n = if v - 1 < 0 { 0 } else { v - 1 };
    if n < floor { floor } else { n as u8 }
}

pub open spec fn dec_u8(v: u8) -> u8 {
    if v == 0 { 0 } else { (v - 1) as u8 }
}

pub open spec fn toggle_cap(cap: u8, bit: u8, negative: bool) -> u8 {
    if negative { cap & !bit } else { cap | bit }
}

/// The prize actually granted: toggles the ship cannot have, and a negative
/// warp, become a full charge.
pub open spec fn effective_prize(ss: ShipSettings, prize: Prize, negative: bool) -> Prize {
    match prize {
        Prize::Stealth => if ss.stealth_status == 0 { Prize::FullCharge } else { prize },
        Prize::Cloak => if ss.cloak_status == 0 { Prize::FullCharge } else { prize },
        Prize::XRadar => if ss.xradar_status == 0 { Prize::FullCharge } else { prize },
        Prize::Antiwarp => if ss.antiwarp_status == 0 { Prize::FullCharge } else { prize },
        Prize::Warp => if negative { Prize::FullCharge } else { prize },
        _ => prize,
    }
}

/// The ship after `prize` changed what it changes, before a full charge.
#[verifier::opaque]
pub open spec fn prize_change(settings: ArenaSettings, ship: Ship, tick: u32, prize: Prize, neg: bool) -> Ship {
    let ss = settings.ship(ship.kind);
match prize {
        Prize::Recharge => Ship {
            recharge: if neg { lower_u32(ship.recharge, ss.upgrade_recharge as int, ss.initial_recharge as int) }
                else { raise_u32(ship.recharge, ss.upgrade_recharge as int, ss.maximum_recharge as int) },
            ..ship
        },
        Prize::Energy => Ship {
            max_energy: if neg { lower_u32(ship.max_energy, ss.upgrade_energy * 1000, ss.initial_energy * 1000) }
                else { raise_u32(ship.max_energy, ss.upgrade_energy * 1000, ss.maximum_energy * 1000) },
            ..ship
        },
        Prize::Rotation => Ship {
            rotation: if neg { lower_u32(ship.rotation, ss.upgrade_rotation as int, ss.initial_rotation as int) }
                else { raise_u32(ship.rotation, ss.upgrade_rotation as int, ss.maximum_rotation as int) },
            ..ship
        },
        Prize::Stealth => if ss.stealth_status == 0 { ship } else {
            Ship { capability: toggle_cap(ship.capability, CAPABILITY_STEALTH, neg), ..ship } },
        Prize::Cloak => if ss.cloak_status == 0 { ship } else {
            Ship { capability: toggle_cap(ship.capability, CAPABILITY_CLOAK, neg), ..ship } },
        Prize::XRadar => if ss.xradar_status == 0 { ship } else {
            Ship { capability: toggle_cap(ship.capability, CAPABILITY_XRADAR, neg), ..ship } },
        Prize::Guns => Ship {
            guns: if neg { lower_u8(ship.guns, ss.initial_guns) } else { raise_u8(ship.guns, ss.max_guns) },
            ..ship
        },
        Prize::Bombs => Ship {
            bombs: if neg { lower_u8(ship.bombs, ss.initial_bombs) } else { raise_u8(ship.bombs, ss.max_bombs) },
            ..ship
        },
        Prize::BouncingBullets => Ship {
            capability: toggle_cap(ship.capability, CAPABILITY_BOUNCING_BULLETS, neg), ..ship },
        Prize::Thruster => Ship {
            thrust: if neg { lower_u32(ship.thrust, ss.upgrade_thrust as int, ss.initial_thrust as int) }
                else { raise_u32(ship.thrust, ss.upgrade_thrust as int, ss.maximum_thrust as int) },
            ..ship
        },
        Prize::TopSpeed => Ship {
            speed: if neg { lower_u32(ship.speed, ss.upgrade_speed as int, ss.initial_speed as int) }
                else { raise_u32(ship.speed, ss.upgrade_speed as int, ss.maximum_speed as int) },
            ..ship
        },
        Prize::EngineShutdown => {
            let t: int = if neg { settings.engine_shutdown_time * 3 } else { settings.engine_shutdown_time as int };
            if t > ship.shutdown_remaining_ticks { Ship { shutdown_remaining_ticks: t as u32, ..ship } } else { ship }
        },
        Prize::Multifire => Ship {
            capability: toggle_cap(ship.capability, CAPABILITY_MULTIFIRE, neg), ..ship },
        Prize::Proximity => Ship {
            capability: toggle_cap(ship.capability, CAPABILITY_PROXIMITY, neg), ..ship },
        Prize::Super => if ss.super_time > 0 {
            let t = ((next_seed(tick as i32) as u32) as int % (ss.super_time as int)) as u32;
            if t > ship.super_remaining_ticks { Ship { super_remaining_ticks: t, ..ship } } else { ship }
        } else { ship },
        Prize::Shields => Ship { shield_remaining_ticks: ss.shield_time, ..ship },
        Prize::Shrapnel => Ship {
            shrapnel: if neg {
                if ship.shrapnel - ss.shrapnel_rate < 0 { 0u8 } else { (ship.shrapnel - ss.shrapnel_rate) as u8 }
            } else {
                let n: int = if ship.shrapnel + ss.shrapnel_rate > 255 { 255 } else { ship.shrapnel + ss.shrapnel_rate };
                if n > ss.max_shrapnel { ss.max_shrapnel } else { n as u8 }
            },
            ..ship
        },
        Prize::Antiwarp => if ss.antiwarp_status == 0 { ship } else {
            Ship { capability: toggle_cap(ship.capability, CAPABILITY_ANTIWARP, neg), ..ship } },
        Prize::Repel => Ship { repels: if neg { dec_u8(ship.repels) } else { raise_u8(ship.repels, ss.max_repel) }, ..ship },
        Prize::Burst => Ship { bursts: if neg { dec_u8(ship.bursts) } else { raise_u8(ship.bursts, ss.max_burst) }, ..ship },
        Prize::Decoy => Ship { decoys: if neg { dec_u8(ship.decoys) } else { raise_u8(ship.decoys, ss.max_decoy) }, ..ship },
        Prize::Thor => Ship { thors: if neg { dec_u8(ship.thors) } else { raise_u8(ship.thors, ss.max_thor) }, ..ship },
        Prize::Brick => Ship { bricks: if neg { dec_u8(ship.bricks) } else { raise_u8(ship.bricks, ss.max_brick) }, ..ship },
        Prize::Rocket => Ship { rockets: if neg { dec_u8(ship.rockets) } else { raise_u8(ship.rockets, ss.max_rocket) }, ..ship },
        Prize::Portal => Ship { portals: if neg { dec_u8(ship.portals) } else { raise_u8(ship.portals, ss.max_portal) }, ..ship },
        _ => ship,
    }
}

/// The ship after a prize that does not draw further prizes.
#[verifier::opaque]
pub open spec fn basic_effect(settings: ArenaSettings, ship: Ship, tick: u32, id: i32) -> Ship {
    let prize = prize_from_index(abs_i32(id));
    let neg = id < 0;
    let ss = settings.ship(ship.kind);
    let s1 = prize_change(settings, ship, tick, prize, neg);
    if effective_prize(ss, prize, neg) == Prize::FullCharge {
        Ship { current_energy: if neg { 1 } else { s1.max_energy }, ..s1 }
    } else {
        s1
    }
}

/// A multiprize of `count` draws starting at `seed`.
#[verifier::opaque]
pub open spec fn multiprize_result(settings: ArenaSettings, ship: Ship, tick: u32, seed: i32, count: nat) -> Ship
    decreases count,
{
    if count == 0 {
        ship
    } else {
        let (p, s) = find_multiprize(settings, seed, 9999);
        let ship2 = match p {
            Some(id) => basic_effect(settings, ship, tick, id),
            None => ship,
        };
        multiprize_result(settings, ship2, tick, s, (count - 1) as nat)
    }
}

/// The ship after the prize with wire id `id` (its absolute value at most 28).
#[verifier::opaque]
pub open spec fn prize_effect(settings: ArenaSettings, ship: Ship, tick: u32, id: i32) -> Ship {
    let prize = prize_from_index(abs_i32(id));
    if prize == Prize::NoPrize {
        match find_multiprize(settings, tick as i32, 9999).0 {
            Some(p) => basic_effect(settings, ship, tick, p),
            None => ship,
        }
    } else if prize == Prize::Multiprize {
        multiprize_result(settings, ship, tick, tick as i32, settings.multi_prize_count as nat)
    } else {
        basic_effect(settings, ship, tick, id)
    }
}

/// The random prizes granted at spawn: up to 9999 draws from `seed`, stopping
/// once `count` prizes were applied.
#[verifier::opaque]
pub open spec fn random_prizes_loop(
    settings: ArenaSettings,
    ship: Ship,
    tick: u32,
    seed: i32,
    applied: int,
    count: int,
    remaining: nat,
) -> Ship
    decreases remaining,
{
    if remaining == 0 {
        ship
    } else {
        let (p, s) = gen_prize(settings, seed, false);
        let ship2 = if valid_multiprize(p) { basic_effect(settings, ship, tick, p) } else { ship };
        let applied2 = if valid_multiprize(p) { applied + 1 } else { applied };
        if applied2 >= count {
            ship2
        } else {
            random_prizes_loop(settings, ship2, tick, s, applied2, count, (remaining - 1) as nat)
        }
    }
}

pub open spec fn random_prizes_result(settings: ArenaSettings, ship: Ship, tick: u32, count: i32) -> Ship {
    random_prizes_loop(settings, ship, tick, tick as i32, 0, count as int, 9999)
}

/// Raising a statistic by its upgrade stays within `u32`: the one place
/// where granting the prize with id `id` could overflow. Taking a prize
/// away, and every other prize, cannot.
pub open spec fn stat_room(settings: ArenaSettings, ship: Ship, id: i32) -> bool {
    let ss = settings.ship(ship.kind);
    let prize = prize_from_index(id as int);
    id > 0 ==> {
        &&& prize == Prize::Recharge ==> ship.recharge + ss.upgrade_recharge <= u32::MAX
        &&& prize == Prize::Energy ==> ship.max_energy + ss.upgrade_energy * 1000 <= u32::MAX
        &&& prize == Prize::Rotation ==> ship.rotation + ss.upgrade_rotation <= u32::MAX
        &&& prize == Prize::Thruster ==> ship.thrust + ss.upgrade_thrust <= u32::MAX
        &&& prize == Prize::TopSpeed ==> ship.speed + ss.upgrade_speed <= u32::MAX
    }
}

/// Every prize of a multiprize of `count` draws from `seed` has room when
/// it is granted.
#[verifier::opaque]
pub open spec fn multiprize_fits(settings: ArenaSettings, ship: Ship, tick: u32, seed: i32, count: nat) -> bool
    decreases count,
{
    if count == 0 {
        true
    } else {
        let (p, s) = find_multiprize(settings, seed, 9999);
        match p {
            Some(id) => stat_room(settings, ship, id)
                && multiprize_fits(settings, basic_effect(settings, ship, tick, id), tick, s, (count - 1) as nat),
            None => multiprize_fits(settings, ship, tick, s, (count - 1) as nat),
        }
    }
}

/// Every prize drawn at spawn has room when it is granted.
#[verifier::opaque]
pub open spec fn random_prizes_fit(
    settings: ArenaSettings,
    ship: Ship,
    tick: u32,
    seed: i32,
    applied: int,
    count: int,
    remaining: nat,
) -> bool
    decreases remaining,
{
    if remaining == 0 {
        true
    } else {
        let (p, s) = gen_prize(settings, seed, false);
        if valid_multiprize(p) {
            stat_room(settings, ship, p) && (applied + 1 >= count
                || random_prizes_fit(settings, basic_effect(settings, ship, tick, p), tick, s, applied + 1, count, (remaining - 1) as nat))
        } else {
            applied >= count || random_prizes_fit(settings, ship, tick, s, applied, count, (remaining - 1) as nat)
        }
    }
}

/// Granting the prize with wire id `id` overflows nothing: the prize, or
/// each prize it draws, has room when it is granted.
pub open spec fn prize_id_fits(settings: ArenaSettings, ship: Ship, tick: u32, id: i32) -> bool {
    let prize = prize_from_index(abs_i32(id));
    if abs_i32(id) > 28 {
        true
    } else if prize == Prize::NoPrize {
        match find_multiprize(settings, tick as i32, 9999).0 {
            Some(p) => stat_room(settings, ship, p),
            None => true,
        }
    } else if prize == Prize::Multiprize {
        multiprize_fits(settings, ship, tick, tick as i32, settings.multi_prize_count as nat)
    } else {
        stat_room(settings, ship, id)
    }
}

/// Statistics within what ship settings can give: recharge, rotation,
/// thrust and speed at most 65535, and the energy at most 65535 units.
pub open spec fn stats_within_settings(ship: Ship) -> bool {
    &&& ship.recharge <= 65535
    &&& ship.rotation <= 65535
    &&& ship.thrust <= 65535
    &&& ship.speed <= 65535
    &&& ship.max_energy <= 65535000
}

/// A ship within what settings give has room for any prize, and stays so.
pub proof fn lemma_settings_room(settings: ArenaSettings, ship: Ship, tick: u32, id: i32)
    requires
        stats_within_settings(ship),
    ensures
        stat_room(settings, ship, id),
        stats_within_settings(basic_effect(settings, ship, tick, id)),
        basic_effect(settings, ship, tick, id).kind == ship.kind,
{
    reveal(basic_effect);
    reveal(prize_change);
}

proof fn lemma_settings_multiprize_fits(settings: ArenaSettings, ship: Ship, tick: u32, seed: i32, count: nat)
    requires
        stats_within_settings(ship),
    ensures
        multiprize_fits(settings, ship, tick, seed, count),
    decreases count,
{
    reveal(multiprize_fits);
    if count > 0 {
        let (p, s) = find_multiprize(settings, seed, 9999);
        match p {
            Some(id) => {
                lemma_settings_room(settings, ship, tick, id);
                lemma_settings_multiprize_fits(settings, basic_effect(settings, ship, tick, id), tick, s, (count - 1) as nat);
            },
            None => {
                lemma_settings_multiprize_fits(settings, ship, tick, s, (count - 1) as nat);
            },
        }
    }
}

/// Spawn prizes on a ship within what settings give overflow nothing.
pub proof fn lemma_settings_random_fit(
    settings: ArenaSettings,
    ship: Ship,
    tick: u32,
    seed: i32,
    applied: int,
    count: int,
    remaining: nat,
)
    requires
        stats_within_settings(ship),
    ensures
        random_prizes_fit(settings, ship, tick, seed, applied, count, remaining),
    decreases remaining,
{
    reveal(random_prizes_fit);
    if remaining > 0 {
        let (p, s) = gen_prize(settings, seed, false);
        lemma_settings_room(settings, ship, tick, p);
        lemma_settings_random_fit(settings, basic_effect(settings, ship, tick, p), tick, s, applied + 1, count, (remaining - 1) as nat);
        lemma_settings_random_fit(settings, ship, tick, s, applied, count, (remaining - 1) as nat);
    }
}

/// Any prize id may be granted to a ship within what settings give.
pub proof fn lemma_settings_prize_fits(settings: ArenaSettings, ship: Ship, tick: u32, id: i32)
    requires
        stats_within_settings(ship),
    ensures
        prize_id_fits(settings, ship, tick, id),
        abs_i32(id) <= 28 ==> stats_within_settings(prize_effect(settings, ship, tick, id)),
{
    lemma_settings_room(settings, ship, tick, id);
    lemma_settings_multiprize_fits(settings, ship, tick, tick as i32, settings.multi_prize_count as nat);
    if let Some(p) = find_multiprize(settings, tick as i32, 9999).0 {
        lemma_settings_room(settings, ship, tick, p);
    }
    if abs_i32(id) <= 28 {
        reveal(prize_effect);
        lemma_settings_multiprize_result(settings, ship, tick, tick as i32, settings.multi_prize_count as nat);
    }
}

proof fn lemma_settings_multiprize_result(settings: ArenaSettings, ship: Ship, tick: u32, seed: i32, count: nat)
    requires
        stats_within_settings(ship),
    ensures
        stats_within_settings(multiprize_result(settings, ship, tick, seed, count)),
    decreases count,
{
    reveal(multiprize_result);
    if count > 0 {
        let (p, s) = find_multiprize(settings, seed, 9999);
        match p {
            Some(id) => {
                lemma_settings_room(settings, ship, tick, id);
                lemma_settings_multiprize_result(settings, basic_effect(settings, ship, tick, id), tick, s, (count - 1) as nat);
            },
            None => {
                lemma_settings_multiprize_result(settings, ship, tick, s, (count - 1) as nat);
            },
        }
    }
}

/// One step of the room a multiprize needs.
proof fn lemma_multiprize_fits_step(settings: ArenaSettings, ship: Ship, tick: u32, seed: i32, count: nat)
    ensures
        count > 0 ==> multiprize_fits(settings, ship, tick, seed, count) == ({
            let (p, s) = find_multiprize(settings, seed, 9999);
            match p {
                Some(id) => stat_room(settings, ship, id)
                    && multiprize_fits(settings, basic_effect(settings, ship, tick, id), tick, s, (count - 1) as nat),
                None => multiprize_fits(settings, ship, tick, s, (count - 1) as nat),
            }
        }),
{
    reveal(multiprize_fits);
}

/// One step of the room the spawn prizes need.
proof fn lemma_random_fit_step(settings: ArenaSettings, ship: Ship, tick: u32, seed: i32, applied: int, count: int, remaining: nat)
    ensures
        remaining > 0 ==> random_prizes_fit(settings, ship, tick, seed, applied, count, remaining) == ({
            let (p, s) = gen_prize(settings, seed, false);
            if valid_multiprize(p) {
                stat_room(settings, ship, p) && (applied + 1 >= count
                    || random_prizes_fit(settings, basic_effect(settings, ship, tick, p), tick, s, applied + 1, count, (remaining - 1) as nat))
            } else {
                applied >= count || random_prizes_fit(settings, ship, tick, s, applied, count, (remaining - 1) as nat)
            }
        }),
{
    reveal(random_prizes_fit);
}

/// One draw of the search for a multiprize.
pub proof fn lemma_find_multiprize_step(settings: ArenaSettings, seed: i32, attempts: nat)
    ensures
        attempts == 0 ==> find_multiprize(settings, seed, attempts) == (None::<i32>, seed),
        attempts > 0 ==> find_multiprize(settings, seed, attempts) == ({
            let (p, s) = gen_prize(settings, seed, false);
            if valid_multiprize(p) { (Some(p), s) } else { find_multiprize(settings, s, (attempts - 1) as nat) }
        }),
{
    reveal(find_multiprize);
}

/// One round of a multiprize.
pub proof fn lemma_multiprize_step(settings: ArenaSettings, ship: Ship, tick: u32, seed: i32, count: nat)
    ensures
        count == 0 ==> multiprize_result(settings, ship, tick, seed, count) == ship,
        count > 0 ==> multiprize_result(settings, ship, tick, seed, count) == ({
            let (p, s) = find_multiprize(settings, seed, 9999);
            let ship2 = match p {
                Some(id) => basic_effect(settings, ship, tick, id),
                None => ship,
            };
            multiprize_result(settings, ship2, tick, s, (count - 1) as nat)
        }),
{
    reveal(multiprize_result);
}

/// One draw of the spawn prizes.
pub proof fn lemma_random_prizes_step(settings: ArenaSettings, ship: Ship, tick: u32, seed: i32, applied: int, count: int, remaining: nat)
    ensures
        remaining == 0 ==> random_prizes_loop(settings, ship, tick, seed, applied, count, remaining) == ship,
        remaining > 0 ==> random_prizes_loop(settings, ship, tick, seed, applied, count, remaining) == ({
            let (p, s) = gen_prize(settings, seed, false);
            let ship2 = if valid_multiprize(p) { basic_effect(settings, ship, tick, p) } else { ship };
            let applied2 = if valid_multiprize(p) { applied + 1 } else { applied };
            if applied2 >= count { ship2 } else {
                random_prizes_loop(settings, ship2, tick, s, applied2, count, (remaining - 1) as nat)
            }
        }),
{
    reveal(random_prizes_loop);
}

/// A prize drawn without negatives is a wire id between 0 and 28.
pub proof fn lemma_gen_prize_range(settings: ArenaSettings, seed: i32)
    ensures
        0 <= gen_prize(settings, seed, false).0 <= 28,
{
    reveal(gen_prize);
    let total = settings.prize_weights.total();
    if total != 0 {
        let s1 = next_seed(seed);
        let target = (s1 as u32) as int % total;
        lemma_first_index_range(settings.prize_weights.weights@, target, 0);
    }
}

proof fn lemma_first_index_range(w: Seq<u8>, target: int, i: int)
    requires
        0 <= i <= 28,
    ensures
        i <= first_index_over(w, target, i) <= 28,
    decreases 28 - i,
{
    if i < 28 {
        lemma_first_index_range(w, target, i + 1);
    }
}

proof fn lemma_find_multiprize_valid(settings: ArenaSettings, seed: i32, attempts: nat)
    ensures
        find_multiprize(settings, seed, attempts).0 matches Some(p) ==> valid_multiprize(p) && 1 <= p <= 28,
    decreases attempts,
{
    reveal(find_multiprize);
    if attempts > 0 {
        lemma_gen_prize_range(settings, seed);
        let (p, s) = gen_prize(settings, seed, false);
        lemma_find_multiprize_valid(settings, s, (attempts - 1) as nat);
    }
}

/// A granted prize keeps the ship kind.
pub proof fn lemma_basic_effect_kind(settings: ArenaSettings, ship: Ship, tick: u32, id: i32)
    ensures
        basic_effect(settings, ship, tick, id).kind == ship.kind,
{
    reveal(basic_effect);
    reveal(prize_change);
}

/// Draws a weighted random prize id; see `gen_prize`.
pub fn generate_prize_id(settings: &ArenaSettings, rng: &mut VieRng, negative_allowed: bool) -> (r: i32)
    ensures
        (r, final(rng).seed) == gen_prize(*settings, old(rng).seed, negative_allowed),
{
    reveal(gen_prize);
    let total_weight = settings.prize_weights.calculate_total_weight();
    if total_weight == 0 {
        return 0;
    }
    let weights = settings.prize_weights.get_weights();
    let ghost w = weights@;
    let mut random = rng.next();
    let ghost target = (random as int) % (total_weight as int);
    let mut weight: u32 = 0;
    let mut prize_id: usize = 0;
    while prize_id < 28
        invariant
            prize_id <= 28,
            w == settings.prize_weights.weights@,
            w.len() == 28,
            weights@ == w,
            total_weight == settings.prize_weights.total(),
            total_weight > 0,
            weight == weight_prefix(w, prize_id as int),
            target == (random as int) % (total_weight as int),
            random == rng.seed as u32,
            rng.seed == next_seed(old(rng).seed),
            first_index_over(w, target, 0) == first_index_over(w, target, prize_id as int),
        decreases 28 - prize_id,
    {
        proof {
            lemma_weight_prefix_bounds(w, prize_id as int + 1);
        }
        weight = weight + weights[prize_id] as u32;
        if random % total_weight < weight {
            assert(first_index_over(w, target, prize_id as int) == prize_id as int);
            proof {
                reveal(gen_prize);
            }
            let ghost s1 = rng.seed;
            random = rng.next();
            if !negative_allowed || settings.prize_negative_factor == 0
                || random % settings.prize_negative_factor as u32 != 0 {
                return (prize_id + 1) as i32;
            }
            return -((prize_id + 1) as i32);
        }
        prize_id = prize_id + 1;
    }
    proof {
        reveal(gen_prize);
        assert(first_index_over(w, target, 28) == 28);
        assert(settings.prize_weights.total() != 0);
        assert(rng.seed == next_seed(old(rng).seed));
        assert(target == ((rng.seed as u32) as int) % settings.prize_weights.total());
        assert(gen_prize(*settings, old(rng).seed, negative_allowed).1 == rng.seed);
        assert(gen_prize(*settings, old(rng).seed, negative_allowed).0 == 0);
    }
    0
}

fn is_valid_multiprize_id(random_prize: i32) -> (r: bool)
    ensures
        r == valid_multiprize(random_prize),
{
    let invalid_prize = random_prize == 0 || random_prize == 14 || random_prize == 18
        || random_prize == 17 || random_prize == 25 || random_prize == 7;
    !invalid_prize
}

/// Grants up to `count` random prizes, as a ship does when it spawns.
pub fn apply_random_prizes(settings: &ArenaSettings, ship: &mut Ship, tick: GameTick, count: i32)
    requires
        old(ship).kind != ShipKind::Spectator,
        random_prizes_fit(*settings, *old(ship), tick.value, tick.value as i32, 0, count as int, 9999),
    ensures
        *final(ship) == random_prizes_result(*settings, *old(ship), tick.value, count),
        final(ship).kind == old(ship).kind,
{
    let mut rng = VieRng::new(tick.value() as i32);
    let mut applied: i32 = 0;
    let mut i: u32 = 0;
    proof {
        reveal(random_prizes_loop);
        lemma_random_prizes_step(*settings, *ship, tick.value, rng.seed, applied as int, count as int, 0);
    }
    while i < 9999
        invariant_except_break
            0 <= applied <= i,
            random_prizes_loop(*settings, *ship, tick.value, rng.seed, applied as int, count as int, 0) == *ship,
            random_prizes_fit(*settings, *ship, tick.value, rng.seed, applied as int, count as int, (9999 - i) as nat),
            random_prizes_result(*settings, *old(ship), tick.value, count)
                == random_prizes_loop(*settings, *ship, tick.value, rng.seed, applied as int, count as int, (9999 - i) as nat),
        invariant
            i <= 9999,
            ship.kind == old(ship).kind,
            ship.kind != ShipKind::Spectator,
        ensures
            *ship == random_prizes_result(*settings, *old(ship), tick.value, count),
        decreases 9999 - i,
    {
        let ghost seed0 = rng.seed;
        let ghost ship0 = *ship;
        proof {
            lemma_random_prizes_step(*settings, ship0, tick.value, seed0, applied as int, count as int, (9999 - i) as nat);
            lemma_random_fit_step(*settings, ship0, tick.value, seed0, applied as int, count as int, (9999 - i) as nat);
        }
        let random_prize = generate_prize_id(settings, &mut rng, false);
        proof {
            lemma_gen_prize_range(*settings, seed0);
        }
        if is_valid_multiprize_id(random_prize) {
            proof {
                lemma_basic_effect_kind(*settings, *ship, tick.value, random_prize);
            }
            if let Ok(_) = apply_prize_id(settings, ship, tick, random_prize) {
                applied = applied + 1;
            }
            proof {
                reveal(prize_effect);
            }
        }
        if applied >= count {
            break;
        }
        i = i + 1;
        proof {
            lemma_random_prizes_step(*settings, *ship, tick.value, rng.seed, applied as int, count as int, (9999 - i) as nat);
            lemma_random_prizes_step(*settings, *ship, tick.value, rng.seed, applied as int, count as int, 0);
        }
    }
}

fn raise_stat(v: u32, up: u16, max: u16) -> (r: u32)
    requires
        v + up <= u32::MAX,
    ensures
        r == raise_u32(v, up as int, max as int),
{
    let n = v + up as u32;
    if n > max as u32 { max as u32 } else { n }
}

fn lower_stat(v: u32, down: u16, floor: u16) -> (r: u32)
    ensures
        r == lower_u32(v, down as int, floor as int),
{
    let n = v.saturating_sub(down as u32);
    if n < floor as u32 { floor as u32 } else { n }
}

fn raise_item(v: u8, max: u8) -> (r: u8)
    ensures
        r == raise_u8(v, max),
{
    let n = v.saturating_add(1);
    if n > max { max } else { n }
}

fn lower_item(v: u8, floor: u8) -> (r: u8)
    ensures
        r == lower_u8(v, floor),
{
    let n = v.saturating_sub(1);
    if n < floor { floor } else { n }
}

fn toggle(cap: u8, bit: u8, negative: bool) -> (r: u8)
    ensures
        r == toggle_cap(cap, bit, negative),
{
    if negative { cap & !bit } else { cap | bit }
}

/// Changes made by upgrades of recharge, energy, rotation, thrust and speed.
fn grant_stat(settings: &ArenaSettings, ship: &mut Ship, tick: GameTick, prize: Prize, negative: bool)
    requires
        old(ship).kind != ShipKind::Spectator,
        prize == Prize::Recharge || prize == Prize::Energy || prize == Prize::Rotation
            || prize == Prize::Thruster || prize == Prize::TopSpeed,
        !negative ==> {
            let ss = settings.ship(old(ship).kind);
            &&& prize == Prize::Recharge ==> old(ship).recharge + ss.upgrade_recharge <= u32::MAX
            &&& prize == Prize::Energy ==> old(ship).max_energy + ss.upgrade_energy * 1000 <= u32::MAX
            &&& prize == Prize::Rotation ==> old(ship).rotation + ss.upgrade_rotation <= u32::MAX
            &&& prize == Prize::Thruster ==> old(ship).thrust + ss.upgrade_thrust <= u32::MAX
            &&& prize == Prize::TopSpeed ==> old(ship).speed + ss.upgrade_speed <= u32::MAX
        },
    ensures
        *final(ship) == prize_change(*settings, *old(ship), tick.value, prize, negative),
{
    reveal(prize_change);
    let ss = settings.get_ship_settings(ship.kind);
    match prize {
        Prize::Recharge => {
            ship.recharge = if negative { lower_stat(ship.recharge, ss.upgrade_recharge, ss.initial_recharge) }
                else { raise_stat(ship.recharge, ss.upgrade_recharge, ss.maximum_recharge) };
        },
        Prize::Energy => {
            if negative {
                ship.max_energy = ship.max_energy.saturating_sub(ss.upgrade_energy as u32 * 1000);
                if ship.max_energy < ss.initial_energy as u32 * 1000 {
                    ship.max_energy = ss.initial_energy as u32 * 1000;
                }
            } else {
                ship.max_energy = ship.max_energy + (ss.upgrade_energy as u32 * 1000);
                if ship.max_energy > ss.maximum_energy as u32 * 1000 {
                    ship.max_energy = ss.maximum_energy as u32 * 1000;
                }
            }
        },
        Prize::Rotation => {
            ship.rotation = if negative { lower_stat(ship.rotation, ss.upgrade_rotation, ss.initial_rotation) }
                else { raise_stat(ship.rotation, ss.upgrade_rotation, ss.maximum_rotation) };
        },
        Prize::Thruster => {
            ship.thrust = if negative { lower_stat(ship.thrust, ss.upgrade_thrust, ss.initial_thrust) }
                else { raise_stat(ship.thrust, ss.upgrade_thrust, ss.maximum_thrust) };
        },
        _ => {
            ship.speed = if negative { lower_stat(ship.speed, ss.upgrade_speed, ss.initial_speed) }
                else { raise_stat(ship.speed, ss.upgrade_speed, ss.maximum_speed) };
        },
    }
}

/// Changes made by prizes that add or take away one carried item.
fn grant_item(settings: &ArenaSettings, ship: &mut Ship, tick: GameTick, prize: Prize, negative: bool)
    requires
        old(ship).kind != ShipKind::Spectator,
        prize == Prize::Guns || prize == Prize::Bombs || prize == Prize::Repel || prize == Prize::Burst
            || prize == Prize::Decoy || prize == Prize::Thor || prize == Prize::Brick
            || prize == Prize::Rocket || prize == Prize::Portal || prize == Prize::Shrapnel,
    ensures
        *final(ship) == prize_change(*settings, *old(ship), tick.value, prize, negative),
{
    reveal(prize_change);
    let ss = settings.get_ship_settings(ship.kind);
    match prize {
        Prize::Guns => {
            ship.guns = if negative { lower_item(ship.guns, ss.initial_guns) } else { raise_item(ship.guns, ss.max_guns) };
        },
        Prize::Bombs => {
            ship.bombs = if negative { lower_item(ship.bombs, ss.initial_bombs) } else { raise_item(ship.bombs, ss.max_bombs) };
        },
        Prize::Repel => {
            ship.repels = if negative { ship.repels.saturating_sub(1) } else { raise_item(ship.repels, ss.max_repel) };
        },
        Prize::Burst => {
            ship.bursts = if negative { ship.bursts.saturating_sub(1) } else { raise_item(ship.bursts, ss.max_burst) };
        },
        Prize::Decoy => {
            ship.decoys = if negative { ship.decoys.saturating_sub(1) } else { raise_item(ship.decoys, ss.max_decoy) };
        },
        Prize::Thor => {
            ship.thors = if negative { ship.thors.saturating_sub(1) } else { raise_item(ship.thors, ss.max_thor) };
        },
        Prize::Brick => {
            ship.bricks = if negative { ship.bricks.saturating_sub(1) } else { raise_item(ship.bricks, ss.max_brick) };
        },
        Prize::Rocket => {
            ship.rockets = if negative { ship.rockets.saturating_sub(1) } else { raise_item(ship.rockets, ss.max_rocket) };
        },
        Prize::Portal => {
            ship.portals = if negative { ship.portals.saturating_sub(1) } else { raise_item(ship.portals, ss.max_portal) };
        },
        _ => {
            if negative {
                ship.shrapnel = ship.shrapnel.saturating_sub(ss.shrapnel_rate);
            } else {
                ship.shrapnel = ship.shrapnel.saturating_add(ss.shrapnel_rate);
                if ship.shrapnel > ss.max_shrapnel {
                    ship.shrapnel = ss.max_shrapnel;
                }
            }
        },
    }
}

/// Changes made by prizes that switch a ship capability on or off, and by
/// engine shutdown, super, shields, warp and full charge.
fn grant_other(settings: &ArenaSettings, ship: &mut Ship, tick: GameTick, prize: Prize, negative: bool)
    requires
        old(ship).kind != ShipKind::Spectator,
        prize == Prize::Stealth || prize == Prize::Cloak || prize == Prize::XRadar
            || prize == Prize::Antiwarp || prize == Prize::BouncingBullets || prize == Prize::Multifire
            || prize == Prize::Proximity || prize == Prize::EngineShutdown || prize == Prize::Super
            || prize == Prize::Shields || prize == Prize::Warp || prize == Prize::FullCharge,
    ensures
        *final(ship) == prize_change(*settings, *old(ship), tick.value, prize, negative),
{
    reveal(prize_change);
    let ss = settings.get_ship_settings(ship.kind);
    match prize {
        Prize::Stealth => {
            if ss.stealth_status != 0 {
                ship.capability = toggle(ship.capability, CAPABILITY_STEALTH, negative);
            }
        },
        Prize::Cloak => {
            if ss.cloak_status != 0 {
                ship.capability = toggle(ship.capability, CAPABILITY_CLOAK, negative);
            }
        },
        Prize::XRadar => {
            if ss.xradar_status != 0 {
                ship.capability = toggle(ship.capability, CAPABILITY_XRADAR, negative);
            }
        },
        Prize::Antiwarp => {
            if ss.antiwarp_status != 0 {
                ship.capability = toggle(ship.capability, CAPABILITY_ANTIWARP, negative);
            }
        },
        Prize::BouncingBullets => {
            ship.capability = toggle(ship.capability, CAPABILITY_BOUNCING_BULLETS, negative);
        },
        Prize::Multifire => {
            ship.capability = toggle(ship.capability, CAPABILITY_MULTIFIRE, negative);
        },
        Prize::Proximity => {
            ship.capability = toggle(ship.capability, CAPABILITY_PROXIMITY, negative);
        },
        Prize::EngineShutdown => {
            let mut shutdown_ticks = settings.engine_shutdown_time as i32;
            if negative {
                shutdown_ticks = shutdown_ticks * 3;
            }
            if shutdown_ticks as u32 > ship.shutdown_remaining_ticks {
                ship.shutdown_remaining_ticks = shutdown_ticks as u32;
            }
        },
        Prize::Super => {
            let mut rng = VieRng::new(tick.value() as i32);
            if ss.super_time > 0 {
                let super_ticks = rng.next() % ss.super_time;
                if super_ticks > ship.super_remaining_ticks {
                    ship.super_remaining_ticks = super_ticks;
                }
            }
        },
        Prize::Shields => {
            ship.shield_remaining_ticks = ss.shield_time;
        },
        _ => {},
    }
}

/// Grants a prize that draws no further prizes, including the full charge
/// that an unusable toggle or a negative warp turns into.
fn grant_basic(settings: &ArenaSettings, ship: &mut Ship, tick: GameTick, prize_id: i32) -> (r: Prize)
    requires
        prize_id != i32::MIN,
        abs_i32(prize_id) <= 28,
        prize_from_index(abs_i32(prize_id)) != Prize::NoPrize,
        prize_from_index(abs_i32(prize_id)) != Prize::Multiprize,
        old(ship).kind != ShipKind::Spectator,
        stat_room(*settings, *old(ship), prize_id),
    ensures
        *final(ship) == basic_effect(*settings, *old(ship), tick.value, prize_id),
        r == effective_prize(settings.ship(old(ship).kind), prize_from_index(abs_i32(prize_id)), prize_id < 0),
{
    let prize = match Prize::try_from(prize_id) {
        Ok(p) => p,
        Err(_) => Prize::NoPrize,
    };
    let negative = prize_id < 0;
    let ghost old_ship = *ship;
    let ss = settings.get_ship_settings(ship.kind);
    let mut granted = prize;
    match prize {
        Prize::Recharge | Prize::Energy | Prize::Rotation | Prize::Thruster | Prize::TopSpeed => {
            grant_stat(settings, ship, tick, prize, negative);
        },
        Prize::Guns | Prize::Bombs | Prize::Repel | Prize::Burst | Prize::Decoy | Prize::Thor
        | Prize::Brick | Prize::Rocket | Prize::Portal | Prize::Shrapnel => {
            grant_item(settings, ship, tick, prize, negative);
        },
        _ => {
            grant_other(settings, ship, tick, prize, negative);
            match prize {
                Prize::Stealth => {
                    if ss.stealth_status == 0 { granted = Prize::FullCharge; }
                },
                Prize::Cloak => {
                    if ss.cloak_status == 0 { granted = Prize::FullCharge; }
                },
                Prize::XRadar => {
                    if ss.xradar_status == 0 { granted = Prize::FullCharge; }
                },
                Prize::Antiwarp => {
                    if ss.antiwarp_status == 0 { granted = Prize::FullCharge; }
                },
                Prize::Warp => {
                    if negative { granted = Prize::FullCharge; }
                },
                _ => {},
            }
        },
    }
    if let Prize::FullCharge = granted {
        if negative {
            ship.current_energy = 1;
        } else {
            ship.current_energy = ship.max_energy;
        }
    }
    proof {
        reveal(basic_effect);
    }
    granted
}

/// Grants the prize with wire id `prize_id` to the ship. A negative id takes
/// the prize away where that is possible. Returns the prize granted and
/// whether it was negative.
pub fn apply_prize_id(settings: &ArenaSettings, ship: &mut Ship, tick: GameTick, prize_id: i32)
    -> (r: Result<(Prize, bool), PrizeError>)
    requires
        prize_id != i32::MIN,
        abs_i32(prize_id) <= 28 ==> old(ship).kind != ShipKind::Spectator,
        prize_id_fits(*settings, *old(ship), tick.value, prize_id),
    ensures
        abs_i32(prize_id) <= 28 ==> {
            &&& r == Ok::<(Prize, bool), PrizeError>((
                effective_prize(settings.ship(old(ship).kind), prize_from_index(abs_i32(prize_id)), prize_id < 0),
                prize_id < 0))
            &&& *final(ship) == prize_effect(*settings, *old(ship), tick.value, prize_id)
        },
        abs_i32(prize_id) > 28 ==> r == Err::<(Prize, bool), PrizeError>(PrizeError::InvalidPrizeId)
            && *final(ship) == *old(ship),
        final(ship).kind == old(ship).kind,
    decreases (if prize_id == 0 || prize_id == 25 || prize_id == -25 { 1int } else { 0int }),
{
    let prize = Prize::try_from(prize_id)?;
    let negative = prize_id < 0;
    let ghost old_ship = *ship;

    match prize {
        Prize::NoPrize => {
            assert(prize_id == 0);
            let mut rng = VieRng::new(tick.value() as i32);
            let mut i: u32 = 0;
            proof {
                lemma_find_multiprize_step(*settings, rng.seed, 0);
            }
            while i < 9999
                invariant_except_break
                    *ship == old_ship,
                    find_multiprize(*settings, rng.seed, 0) == (None::<i32>, rng.seed),
                    find_multiprize(*settings, tick.value as i32, 9999)
                        == find_multiprize(*settings, rng.seed, (9999 - i) as nat),
                invariant
                    i <= 9999,
                    prize_id == 0,
                    prize_id_fits(*settings, old_ship, tick.value, 0),
                    old_ship.kind != ShipKind::Spectator,
                ensures
                    match find_multiprize(*settings, tick.value as i32, 9999).0 {
                        Some(p) => *ship == basic_effect(*settings, old_ship, tick.value, p),
                        None => *ship == old_ship,
                    },
                decreases 9999 - i,
            {
                let ghost seed0 = rng.seed;
                proof {
                    lemma_find_multiprize_step(*settings, seed0, (9999 - i) as nat);
                }
                let random_prize = generate_prize_id(settings, &mut rng, false);
                proof {
                    lemma_gen_prize_range(*settings, seed0);
                }
                if is_valid_multiprize_id(random_prize) {
                    assert(random_prize != 0 && random_prize != 25 && random_prize != -25);
                    let _ = apply_prize_id(settings, ship, tick, random_prize)?;
                    proof {
                        reveal(prize_effect);
                    }
                    break;
                }
                i = i + 1;
                proof {
                    lemma_find_multiprize_step(*settings, rng.seed, 0);
                }
            }
            proof {
                reveal(prize_effect);
                lemma_find_multiprize_valid(*settings, tick.value as i32, 9999);
                if let Some(p) = find_multiprize(*settings, tick.value as i32, 9999).0 {
                    lemma_basic_effect_kind(*settings, old_ship, tick.value, p);
                }
            }
            Ok((prize, negative))
        },
        Prize::Multiprize => {
            assert(prize_id == 25 || prize_id == -25);
            let count = settings.multi_prize_count as usize;
            let mut rng = VieRng::new(tick.value() as i32);
            let mut k: usize = 0;
            proof {
                reveal(prize_effect);
            }
            while k < count
                invariant
                    prize_id == 25 || prize_id == -25,
                    k <= count,
                    count == settings.multi_prize_count,
                    ship.kind == old_ship.kind,
                    old_ship.kind != ShipKind::Spectator,
                    multiprize_fits(*settings, *ship, tick.value, rng.seed, (count - k) as nat),
                    prize_effect(*settings, old_ship, tick.value, prize_id)
                        == multiprize_result(*settings, *ship, tick.value, rng.seed, (count - k) as nat),
                decreases count - k,
            {
                let ghost seed_k = rng.seed;
                let ghost ship_k = *ship;
                let mut i: u32 = 0;
                proof {
                    lemma_find_multiprize_step(*settings, rng.seed, 0);
                    lemma_multiprize_step(*settings, ship_k, tick.value, seed_k, (count - k) as nat);
                    lemma_multiprize_fits_step(*settings, ship_k, tick.value, seed_k, (count - k) as nat);
                }
                while i < 9999
                    invariant_except_break
                        *ship == ship_k,
                        find_multiprize(*settings, rng.seed, 0) == (None::<i32>, rng.seed),
                        find_multiprize(*settings, seed_k, 9999)
                            == find_multiprize(*settings, rng.seed, (9999 - i) as nat),
                    invariant
                        prize_id == 25 || prize_id == -25,
                        i <= 9999,
                        ship.kind == old_ship.kind,
                        old_ship.kind != ShipKind::Spectator,
                        k < count,
                        multiprize_fits(*settings, ship_k, tick.value, seed_k, (count - k) as nat),
                        multiprize_fits(*settings, ship_k, tick.value, seed_k, (count - k) as nat) == ({
                            let (p, s) = find_multiprize(*settings, seed_k, 9999);
                            match p {
                                Some(id) => stat_room(*settings, ship_k, id)
                                    && multiprize_fits(*settings, basic_effect(*settings, ship_k, tick.value, id), tick.value, s,
                                        (count - k - 1) as nat),
                                None => multiprize_fits(*settings, ship_k, tick.value, s, (count - k - 1) as nat),
                            }
                        }),
                    ensures
                        match find_multiprize(*settings, seed_k, 9999).0 {
                            Some(p) => *ship == basic_effect(*settings, ship_k, tick.value, p),
                            None => *ship == ship_k,
                        },
                        find_multiprize(*settings, seed_k, 9999).1 == rng.seed,
                        ship.kind == old_ship.kind,
                    decreases 9999 - i,
                {
                    let ghost seed0 = rng.seed;
                    proof {
                        lemma_find_multiprize_step(*settings, seed0, (9999 - i) as nat);
                    }
                    let random_prize = generate_prize_id(settings, &mut rng, false);
                    proof {
                        lemma_gen_prize_range(*settings, seed0);
                    }
                    if is_valid_multiprize_id(random_prize) {
                        assert(random_prize != 0 && random_prize != 25 && random_prize != -25);
                        let _ = apply_prize_id(settings, ship, tick, random_prize)?;
                        proof {
                            reveal(prize_effect);
                        }
                        break;
                    }
                    i = i + 1;
                    proof {
                        lemma_find_multiprize_step(*settings, rng.seed, 0);
                    }
                }
                k = k + 1;
            }
            proof {
                lemma_multiprize_step(*settings, *ship, tick.value, rng.seed, 0);
            }
            Ok((prize, negative))
        },
        _ => {
            let granted = grant_basic(settings, ship, tick, prize_id);
            proof {
                reveal(prize_effect);
                lemma_basic_effect_kind(*settings, old_ship, tick.value, prize_id);
            }
            Ok((granted, negative))
        },
    }
}

/// A prize lying on the map.
#[derive(Copy, Clone, Debug)]
pub struct PrizeGreen {
    pub remaining_ticks: u32,
    pub x_tile: u16,
    pub y_tile: u16,
    pub prize_id: i32,
}

/// The prizes on the map and the generator that places them.
pub struct PrizeManager {
    pub greens: Vec<PrizeGreen>,
    pub seed: Option<i32>,
    pub spawn_tick_counter: u32,
}

/// The greens from position `i` on after one tick: each runs down, and
/// those that run out are gone.
pub open spec fn greens_expired(g: Seq<PrizeGreen>, i: int) -> Seq<PrizeGreen>
    decreases g.len() - i,
{
    if i < 0 || i >= g.len() {
        g
    } else {
        let t: u32 = if g[i].remaining_ticks > 0 { (g[i].remaining_ticks - 1) as u32 } else { 0 };
        if t == 0 {
            greens_expired(g.update(i, g.last()).drop_last(), i)
        } else {
            greens_expired(g.update(i, PrizeGreen { remaining_ticks: t, ..g[i] }), i + 1)
        }
    }
}

/// Half the side of the square where prizes appear, grown with the number
/// of players and kept between 3 and 1024 tiles.
pub open spec fn spawn_extent(settings: ArenaSettings, player_count: int) -> u32 {
    let v = (settings.minimum_virtual + settings.upgrade_virtual * player_count) as u32;
    if v < 3 { 3 } else if v > 1024 { 1024 } else { v }
}

/// How long a new prize stays, drawn from `r` between the arena's bounds.
pub open spec fn prize_duration(settings: ArenaSettings, r: u32) -> int {
    let range = settings.prize_max_exist - settings.prize_min_exist;
    let span: u32 = if range > 0 { range as u32 } else { 0 };
    (r as int % (span as int + 1)) + (settings.prize_min_exist as u32)
}

/// A prize coordinate drawn from `r` inside the spawn square.
pub open spec fn spawn_coordinate(r: u32, extent: u32) -> u16 {
    ((r % ((extent - 2) as u32)) + 1 + ((1024 - extent) / 2)) as u16
}

/// The greens and the generator's seed after `n` placement attempts from
/// `seed`, and whether every attempt stayed within the arithmetic the
/// client uses.
pub open spec fn greens_spawned(
    greens: Seq<PrizeGreen>,
    settings: ArenaSettings,
    map: TileMap,
    seed: i32,
    extent: u32,
    max_greens: int,
    n: nat,
) -> (Seq<PrizeGreen>, i32, bool)
    decreases n,
{
    if n == 0 {
        (greens, seed, true)
    } else {
        let (g, s, ok) = greens_spawned(greens, settings, map, seed, extent, max_greens, (n - 1) as nat);
        let s1 = next_seed(s);
        let s2 = next_seed(s1);
        let x = spawn_coordinate(s1 as u32, extent);
        let y = spawn_coordinate(s2 as u32, extent);
        let (prize_id, s3) = gen_prize(settings, s2, true);
        let s4 = next_seed(s3);
        let d = prize_duration(settings, s4 as u32);
        let fits = ok && i16::MIN <= settings.prize_max_exist - settings.prize_min_exist <= i16::MAX && d <= u32::MAX;
        if g.len() < max_greens && map.tile_at(x, y) == 0 {
            (g.push(PrizeGreen { remaining_ticks: d as u32, x_tile: x, y_tile: y, prize_id }), s4, fits)
        } else {
            (g, s4, fits)
        }
    }
}

/// The one-tile box of a prize.
pub open spec fn green_box(g: PrizeGreen) -> Rectangle {
    Rectangle {
        min: Position { x: PositionUnit((g.x_tile * 16000) as i32), y: PositionUnit((g.y_tile * 16000) as i32) },
        max: Position { x: PositionUnit(((g.x_tile + 1) * 16000) as i32), y: PositionUnit(((g.y_tile + 1) * 16000) as i32) },
    }
}

/// The player touches a prize that is still there.
pub open spec fn touches_green(p: Player, g: PrizeGreen, settings: ArenaSettings) -> bool {
    let radius = settings.ship(p.ship_kind).radius;
    &&& g.remaining_ticks != 0
    &&& rects_intersect(green_box(g), collider_of(p, if radius == 0 { 14 } else { radius }))
}

/// Our ship after it takes the prize `id`: the prize's effect (none for an
/// id out of range), and one more point of bounty.
pub open spec fn ship_after_prize(settings: ArenaSettings, ship: Ship, tick: GameTick, id: i32) -> Ship {
    let s = if abs_i32(id) <= 28 { prize_effect(settings, ship, tick.value, id) } else { ship };
    Ship { bounty: vstd::wrapping::u16_specs::wrapping_add(s.bounty, 1), ..s }
}

/// The greens, our ship and the messages to the server after player `p`
/// is checked against the first `j` greens.
pub open spec fn greens_checked(
    greens: Seq<PrizeGreen>,
    p: Player,
    settings: ArenaSettings,
    ship: Option<Ship>,
    tick: GameTick,
    j: int,
) -> (Seq<PrizeGreen>, Option<Ship>, Seq<TakePrizeMessage>)
    decreases j,
{
    if j <= 0 || j > greens.len() {
        (greens, ship, Seq::empty())
    } else {
        let (g, s, m) = greens_checked(greens, p, settings, ship, tick, j - 1);
        let green = g[j - 1];
        if touches_green(p, green, settings) {
            let g2 = g.update(j - 1, PrizeGreen { remaining_ticks: 0, ..green });
            match s {
                Some(sh) => (g2, Some(ship_after_prize(settings, sh, tick, green.prize_id)), m.push(TakePrizeMessage {
                    timestamp: tick,
                    x: green.x_tile,
                    y: green.y_tile,
                    prize: green.prize_id as i16,
                })),
                None => (g2, None, m),
            }
        } else {
            (g, s, m)
        }
    }
}

/// The greens, our ship and the messages after the first `i` players are
/// checked against the greens; spectators and dead players take nothing.
pub open spec fn players_checked(
    players: Seq<Player>,
    greens: Seq<PrizeGreen>,
    settings: ArenaSettings,
    ship: Option<Ship>,
    tick: GameTick,
    i: int,
) -> (Seq<PrizeGreen>, Option<Ship>, Seq<TakePrizeMessage>)
    decreases i,
{
    if i <= 0 || i > players.len() {
        (greens, ship, Seq::empty())
    } else {
        let (g, s, m) = players_checked(players, greens, settings, ship, tick, i - 1);
        let p = players[i - 1];
        if p.ship_kind == ShipKind::Spectator || p.enter_delay > 0 {
            (g, s, m)
        } else {
            let (g2, s2, m2) = greens_checked(g, p, settings, s, tick, g.len() as int);
            (g2, s2, m + m2)
        }
    }
}

/// Our ship may take prizes.
pub open spec fn ship_can_take(settings: ArenaSettings, ship: Option<Ship>) -> bool {
    match ship {
        Some(s) => s.kind != ShipKind::Spectator,
        None => true,
    }
}

/// Our ship has room for each prize it takes as player `p` is checked
/// against the first `j` greens.
pub open spec fn greens_fit(
    greens: Seq<PrizeGreen>,
    p: Player,
    settings: ArenaSettings,
    ship: Option<Ship>,
    tick: GameTick,
    j: int,
) -> bool
    decreases j,
{
    if j <= 0 || j > greens.len() {
        true
    } else {
        let (g, s, m) = greens_checked(greens, p, settings, ship, tick, j - 1);
        let green = g[j - 1];
        &&& greens_fit(greens, p, settings, ship, tick, j - 1)
        &&& touches_green(p, green, settings) ==> match s {
            Some(sh) => prize_id_fits(settings, sh, tick.value, green.prize_id),
            None => true,
        }
    }
}

/// Our ship has room for each prize it takes as the first `i` players are
/// checked against the greens.
pub open spec fn players_fit(
    players: Seq<Player>,
    greens: Seq<PrizeGreen>,
    settings: ArenaSettings,
    ship: Option<Ship>,
    tick: GameTick,
    i: int,
) -> bool
    decreases i,
{
    if i <= 0 || i > players.len() {
        true
    } else {
        let (g, s, m) = players_checked(players, greens, settings, ship, tick, i - 1);
        let p = players[i - 1];
        &&& players_fit(players, greens, settings, ship, tick, i - 1)
        &&& !(p.ship_kind == ShipKind::Spectator || p.enter_delay > 0)
            ==> greens_fit(g, p, settings, s, tick, g.len() as int)
    }
}

proof fn lemma_greens_fit_prefix(greens: Seq<PrizeGreen>, p: Player, settings: ArenaSettings, ship: Option<Ship>, tick: GameTick, n: int, k: int)
    requires
        0 <= k <= n <= greens.len(),
        greens_fit(greens, p, settings, ship, tick, n),
    ensures
        greens_fit(greens, p, settings, ship, tick, k),
    decreases n - k,
{
    if k < n {
        lemma_greens_fit_prefix(greens, p, settings, ship, tick, n - 1, k);
    }
}

proof fn lemma_players_fit_prefix(players: Seq<Player>, greens: Seq<PrizeGreen>, settings: ArenaSettings, ship: Option<Ship>, tick: GameTick, n: int, k: int)
    requires
        0 <= k <= n <= players.len(),
        players_fit(players, greens, settings, ship, tick, n),
    ensures
        players_fit(players, greens, settings, ship, tick, k),
    decreases n - k,
{
    if k < n {
        lemma_players_fit_prefix(players, greens, settings, ship, tick, n - 1, k);
    }
}

/// A ship within what settings give has room for every prize it takes from
/// the greens, and stays so.
proof fn lemma_settings_greens_fit(greens: Seq<PrizeGreen>, p: Player, settings: ArenaSettings, ship: Option<Ship>, tick: GameTick, j: int)
    requires
        ship matches Some(sh) ==> stats_within_settings(sh),
    ensures
        greens_fit(greens, p, settings, ship, tick, j),
        greens_checked(greens, p, settings, ship, tick, j).1 matches Some(sh) ==> stats_within_settings(sh),
        greens_checked(greens, p, settings, ship, tick, j).0.len() == greens.len(),
    decreases j,
{
    if j > 0 && j <= greens.len() {
        lemma_settings_greens_fit(greens, p, settings, ship, tick, j - 1);
        let (g, s, m) = greens_checked(greens, p, settings, ship, tick, j - 1);
        let green = g[j - 1];
        if let Some(sh) = s {
            lemma_settings_prize_fits(settings, sh, tick.value, green.prize_id);
        }
    }
}

/// A ship within what settings give has room for every prize it takes as
/// the players are checked against the greens.
pub proof fn lemma_settings_players_fit(
    players: Seq<Player>,
    greens: Seq<PrizeGreen>,
    settings: ArenaSettings,
    ship: Option<Ship>,
    tick: GameTick,
    i: int,
)
    requires
        ship matches Some(sh) ==> stats_within_settings(sh),
    ensures
        players_fit(players, greens, settings, ship, tick, i),
        players_checked(players, greens, settings, ship, tick, i).1 matches Some(sh) ==> stats_within_settings(sh),
    decreases i,
{
    if i > 0 && i <= players.len() {
        lemma_settings_players_fit(players, greens, settings, ship, tick, i - 1);
        let (g, s, m) = players_checked(players, greens, settings, ship, tick, i - 1);
        let p = players[i - 1];
        lemma_settings_greens_fit(g, p, settings, s, tick, g.len() as int);
    }
}


impl PrizeManager {
    pub fn new() -> (r: PrizeManager)
        ensures
            r.greens@.len() == 0,
            r.seed is None,
            r.spawn_tick_counter == 0,
    {
        PrizeManager { greens: Vec::new(), seed: None, spawn_tick_counter: 0 }
    }

    /// Starts prize placement from `new_seed`.
    pub fn set_seed(&mut self, new_seed: i32)
        ensures
            final(self).seed == Some(new_seed),
            final(self).spawn_tick_counter == 0,
            final(self).greens@ == old(self).greens@,
    {
        self.seed = Some(new_seed);
        self.spawn_tick_counter = 0;
    }

    pub fn spawn_green(&mut self, x_tile: u16, y_tile: u16, prize_id: i32, duration: u32)
        ensures
            final(self).greens@ == old(self).greens@.push(PrizeGreen { remaining_ticks: duration, x_tile, y_tile, prize_id }),
            final(self).seed == old(self).seed,
            final(self).spawn_tick_counter == old(self).spawn_tick_counter,
    {
        self.greens.push(PrizeGreen { remaining_ticks: duration, x_tile, y_tile, prize_id });
    }

    /// Runs the prizes' timers down and removes those that run out.
    pub fn expire_greens(&mut self)
        ensures
            final(self).greens@ == greens_expired(old(self).greens@, 0),
            final(self).seed == old(self).seed,
            final(self).spawn_tick_counter == old(self).spawn_tick_counter,
    {
        let ghost g0 = self.greens@;
        let mut green_index: usize = 0;
        while green_index < self.greens.len()
            invariant
                green_index <= self.greens@.len(),
                greens_expired(g0, 0) == greens_expired(self.greens@, green_index as int),
                self.seed == old(self).seed,
                self.spawn_tick_counter == old(self).spawn_tick_counter,
            decreases self.greens@.len() - green_index,
        {
            let mut green = self.greens[green_index];
            if green.remaining_ticks > 0 {
                green.remaining_ticks = green.remaining_ticks - 1;
            }
            if green.remaining_ticks == 0 {
                self.greens.swap_remove(green_index);
                continue;
            }
            self.greens.set(green_index, green);
            green_index = green_index + 1;
        }
    }

    /// One tick of prize placement: every `prize_delay` ticks, up to
    /// `prize_hide_count` prizes are placed on empty tiles of the spawn
    /// square, while fewer than the arena allows are out.
    pub fn spawn_prizes(&mut self, settings: &ArenaSettings, map: &TileMap, player_count: usize)
        requires
            map.wf(),
            settings.prize_factor * player_count <= usize::MAX,
            settings.minimum_virtual + settings.upgrade_virtual * player_count <= usize::MAX,
            match old(self).seed {
                Some(seed) => settings.prize_delay > 0
                    && vstd::wrapping::u32_specs::wrapping_add(old(self).spawn_tick_counter, 1) >= settings.prize_delay
                    ==> prize_durations_fit(*settings) || greens_spawned(old(self).greens@, *settings, *map, seed,
                        spawn_extent(*settings, player_count as int),
                        (settings.prize_factor * player_count) / 1000, settings.prize_hide_count as nat).2,
                None => true,
            },
        ensures
            match old(self).seed {
                None => final(self).greens@ == old(self).greens@ && final(self).seed == old(self).seed
                    && final(self).spawn_tick_counter == old(self).spawn_tick_counter,
                Some(seed) => {
                    let counter = vstd::wrapping::u32_specs::wrapping_add(old(self).spawn_tick_counter, 1);
                    if settings.prize_delay > 0 && counter >= settings.prize_delay {
                        let (g, s, ok) = greens_spawned(old(self).greens@, *settings, *map, seed,
                            spawn_extent(*settings, player_count as int), (settings.prize_factor * player_count) / 1000,
                            settings.prize_hide_count as nat);
                        &&& final(self).greens@ == g
                        &&& final(self).seed == Some(s)
                        &&& final(self).spawn_tick_counter == 0
                    } else {
                        &&& final(self).greens@ == old(self).greens@
                        &&& final(self).seed == old(self).seed
                        &&& final(self).spawn_tick_counter == counter
                    }
                },
            },
    {
        let Some(seed) = self.seed else {
            return;
        };
        self.spawn_tick_counter = self.spawn_tick_counter.wrapping_add(1);
        let max_greens = (settings.prize_factor as usize * player_count) / 1000;
        if settings.prize_delay > 0 && self.spawn_tick_counter >= settings.prize_delay as u32 {
            let raw = (settings.minimum_virtual as usize + settings.upgrade_virtual as usize * player_count) as u32;
            let spawn_extent: u32 = if raw < 3 { 3 } else if raw > 1024 { 1024 } else { raw };
            let ghost extent = spawn_extent;
            let mut rng = VieRng::new(seed);
            let ghost g0 = self.greens@;
            proof {
                if prize_durations_fit(*settings) {
                    lemma_durations_fit_spawn(g0, *settings, *map, seed, extent, max_greens as int,
                        settings.prize_hide_count as nat);
                }
            }
            let mut k: u16 = 0;
            while k < settings.prize_hide_count
                invariant
                    k <= settings.prize_hide_count,
                    map.wf(),
                    3 <= spawn_extent <= 1024,
                    extent == spawn_extent,
                    greens_spawned(g0, *settings, *map, seed, extent, max_greens as int, settings.prize_hide_count as nat).2,
                    (self.greens@, rng.seed) == ({
                        let (g, s, ok) = greens_spawned(g0, *settings, *map, seed, extent, max_greens as int, k as nat);
                        (g, s)
                    }),
                    greens_spawned(g0, *settings, *map, seed, extent, max_greens as int, k as nat).2,
                decreases settings.prize_hide_count - k,
            {
                proof {
                    lemma_spawned_ok_prefix(g0, *settings, *map, seed, extent, max_greens as int,
                        settings.prize_hide_count as nat, (k + 1) as nat);
                }
                let x_rng = rng.next();
                let y_rng = rng.next();
                let x = ((x_rng % (spawn_extent - 2)) + 1 + ((1024 - spawn_extent) / 2)) as u16;
                let y = ((y_rng % (spawn_extent - 2)) + 1 + ((1024 - spawn_extent) / 2)) as u16;
                let prize_id = generate_prize_id(settings, &mut rng, true);
                let duration_rng = rng.next();
                let diff = settings.prize_max_exist - settings.prize_min_exist;
                let duration_range: u32 = if diff > 0 { diff as u32 } else { 0 };
                let duration = (duration_rng % (duration_range + 1)) + settings.prize_min_exist as u32;
                if self.greens.len() < max_greens && map.get_tile(x, y) == 0 {
                    self.spawn_green(x, y, prize_id, duration);
                }
                k = k + 1;
            }
            self.set_seed(rng.seed);
        }
    }

    /// Checks every player against every prize: a touched prize is gone,
    /// and our ship, when we have one, takes it (and the server is told).
    fn perform_collisions(
        &mut self,
        player_manager: &PlayerManager,
        settings: &ArenaSettings,
        current_tick: GameTick,
        ship: &mut Option<Ship>,
    ) -> (r: Vec<TakePrizeMessage>)
        requires
            ship_can_take(*settings, *old(ship)),
            players_fit(player_manager.players@, old(self).greens@, *settings, *old(ship), current_tick,
                player_manager.players@.len() as int),
            forall|j: int| 0 <= j < old(self).greens@.len() ==> (#[trigger] old(self).greens@[j]).prize_id != i32::MIN,
        ensures
            ({
                let (g, s, m) = players_checked(player_manager.players@, old(self).greens@, *settings, *old(ship), current_tick,
                    player_manager.players@.len() as int);
                &&& final(self).greens@ == g
                &&& *final(ship) == s
                &&& r@ == m
            }),
            ship_can_take(*settings, *final(ship)),
            final(self).seed == old(self).seed,
            final(self).spawn_tick_counter == old(self).spawn_tick_counter,
    {
        let mut messages: Vec<TakePrizeMessage> = Vec::new();
        let ghost g0 = self.greens@;
        let ghost s0 = *ship;
        let mut i: usize = 0;
        while i < player_manager.players.len()
            invariant
                i <= player_manager.players@.len(),
                ship_can_take(*settings, *ship),
                players_fit(player_manager.players@, g0, *settings, s0, current_tick, player_manager.players@.len() as int),
                forall|j: int| 0 <= j < self.greens@.len() ==> (#[trigger] self.greens@[j]).prize_id != i32::MIN,
                (self.greens@, *ship, messages@) == players_checked(player_manager.players@, g0, *settings, s0, current_tick, i as int),
                self.seed == old(self).seed,
                self.spawn_tick_counter == old(self).spawn_tick_counter,
            decreases player_manager.players@.len() - i,
        {
            let player = &player_manager.players[i];
            if player.ship_kind != ShipKind::Spectator && !player.is_dead() {
                let player_collider = player.get_collider(settings.get_ship_settings(player.ship_kind).get_radius());
                let ghost gs = self.greens@;
                let ghost ss = *ship;
                let ghost ms = messages@;
                proof {
                    lemma_players_fit_prefix(player_manager.players@, g0, *settings, s0, current_tick,
                        player_manager.players@.len() as int, i + 1);
                    assert(greens_fit(gs, *player, *settings, ss, current_tick, gs.len() as int));
                }
                let mut j: usize = 0;
                while j < self.greens.len()
                    invariant
                        j <= self.greens@.len(),
                        self.greens@.len() == gs.len(),
                        i < player_manager.players@.len(),
                        *player == player_manager.players@[i as int],
                        player.ship_kind != ShipKind::Spectator,
                        player_collider == collider_of(*player, {
                            let radius = settings.ship(player.ship_kind).radius;
                            if radius == 0 { 14 } else { radius }
                        }),
                        ship_can_take(*settings, *ship),
                        greens_fit(gs, *player, *settings, ss, current_tick, gs.len() as int),
                        forall|k: int| 0 <= k < self.greens@.len() ==> (#[trigger] self.greens@[k]).prize_id != i32::MIN,
                        ({
                            let (g, s, m) = greens_checked(gs, *player, *settings, ss, current_tick, j as int);
                            &&& self.greens@ == g
                            &&& *ship == s
                            &&& messages@ == ms + m
                        }),
                        self.seed == old(self).seed,
                        self.spawn_tick_counter == old(self).spawn_tick_counter,
                    decreases gs.len() - j,
                {
                    let green = self.greens[j];
                    proof {
                        lemma_greens_fit_prefix(gs, *player, *settings, ss, current_tick, gs.len() as int, j + 1);
                    }
                    if green.remaining_ticks != 0 {
                        let green_collider = Rectangle::new(
                            Position::from_tile(green.x_tile as i32, green.y_tile as i32),
                            Position::from_tile(green.x_tile as i32 + 1, green.y_tile as i32 + 1),
                        );
                        if green_collider.intersects(&player_collider) {
                            proof {
                                assert(green_collider == green_box(green));
                            }
                            if let Some(s) = ship {
                                let ghost before = *s;
                                let _ = apply_prize_id(settings, s, current_tick, green.prize_id);
                                s.bounty = s.bounty.wrapping_add(1);
                                messages.push(TakePrizeMessage {
                                    timestamp: current_tick,
                                    x: green.x_tile,
                                    y: green.y_tile,
                                    prize: green.prize_id as i16,
                                });
                            }
                            let mut taken = green;
                            taken.remaining_ticks = 0;
                            self.greens.set(j, taken);
                        } else {
                            proof {
                                assert(green_collider == green_box(green));
                            }
                        }
                    }
                    proof {
                        let (g, s, m) = greens_checked(gs, *player, *settings, ss, current_tick, j as int);
                        assert(messages@ =~= ms + greens_checked(gs, *player, *settings, ss, current_tick, j + 1).2);
                    }
                    j = j + 1;
                }
                proof {
                    assert(messages@ == ms + greens_checked(gs, *player, *settings, ss, current_tick, gs.len() as int).2);
                }
            } else {
                proof {
                    assert(messages@ =~= messages@ + Seq::<TakePrizeMessage>::empty());
                }
            }
            i = i + 1;
        }
        messages
    }

    /// One tick of the prizes: players pick up what they touch (our ship,
    /// when given, takes the prize and the returned messages tell the
    /// server), timers run down, and new prizes are placed.
    pub fn tick(
        &mut self,
        player_manager: &PlayerManager,
        settings: &ArenaSettings,
        map: &TileMap,
        current_tick: GameTick,
        ship_controller: Option<&mut ShipController>,
    ) -> (r: Vec<TakePrizeMessage>)
        requires
            map.wf(),
            ship_can_take(*settings, match ship_controller { Some(sc) => Some(sc.ship), None => None }),
            players_fit(player_manager.players@, old(self).greens@, *settings,
                match ship_controller { Some(sc) => Some(sc.ship), None => None }, current_tick,
                player_manager.players@.len() as int),
            forall|j: int| 0 <= j < old(self).greens@.len() ==> (#[trigger] old(self).greens@[j]).prize_id != i32::MIN,
            settings.prize_factor * player_manager.players@.len() <= usize::MAX,
            settings.minimum_virtual + settings.upgrade_virtual * player_manager.players@.len() <= usize::MAX,
            ({
                let (g, s, m) = players_checked(player_manager.players@, old(self).greens@, *settings,
                    match ship_controller { Some(sc) => Some(sc.ship), None => None }, current_tick,
                    player_manager.players@.len() as int);
                match old(self).seed {
                    Some(seed) => settings.prize_delay > 0
                        && vstd::wrapping::u32_specs::wrapping_add(old(self).spawn_tick_counter, 1) >= settings.prize_delay
                        ==> prize_durations_fit(*settings) || greens_spawned(greens_expired(g, 0), *settings, *map, seed,
                            spawn_extent(*settings, player_manager.players@.len() as int),
                            (settings.prize_factor * player_manager.players@.len()) / 1000, settings.prize_hide_count as nat).2,
                    None => true,
                }
            }),
        ensures
            ({
                let (g, s, m) = players_checked(player_manager.players@, old(self).greens@, *settings,
                    match ship_controller { Some(sc) => Some(sc.ship), None => None }, current_tick,
                    player_manager.players@.len() as int);
                &&& r@ == m
                &&& match ship_controller {
                    Some(sc) => s == Some(final(sc).ship),
                    None => true,
                }
                &&& match old(self).seed {
                    None => final(self).greens@ == greens_expired(g, 0) && final(self).seed == old(self).seed
                        && final(self).spawn_tick_counter == old(self).spawn_tick_counter,
                    Some(seed) => {
                        let counter = vstd::wrapping::u32_specs::wrapping_add(old(self).spawn_tick_counter, 1);
                        if settings.prize_delay > 0 && counter >= settings.prize_delay {
                            let (g2, s2, ok) = greens_spawned(greens_expired(g, 0), *settings, *map, seed,
                                spawn_extent(*settings, player_manager.players@.len() as int),
                                (settings.prize_factor * player_manager.players@.len()) / 1000,
                                settings.prize_hide_count as nat);
                            &&& final(self).greens@ == g2
                            &&& final(self).seed == Some(s2)
                            &&& final(self).spawn_tick_counter == 0
                        } else {
                            &&& final(self).greens@ == greens_expired(g, 0)
                            &&& final(self).seed == old(self).seed
                            &&& final(self).spawn_tick_counter == counter
                        }
                    },
                }
            }),
    {
        let mut ship: Option<Ship> = match &ship_controller {
            Some(sc) => Some(sc.ship),
            None => None,
        };
        let ghost ship0 = ship;
        let messages = self.perform_collisions(player_manager, settings, current_tick, &mut ship);
        proof {
            lemma_players_checked(player_manager.players@, old(self).greens@, *settings, ship0, current_tick,
                player_manager.players@.len() as int);
        }
        if let Some(sc) = ship_controller {
            if let Some(s) = ship {
                sc.ship = s;
            }
        }
        self.expire_greens();
        self.spawn_prizes(settings, map, player_manager.players.len());
        messages
    }
}

proof fn lemma_players_checked(players: Seq<Player>, greens: Seq<PrizeGreen>, settings: ArenaSettings, ship: Option<Ship>, tick: GameTick, i: int)
    requires
        ship_can_take(settings, ship),
        0 <= i <= players.len(),
    ensures
        players_checked(players, greens, settings, ship, tick, i).1 is Some == ship is Some,
    decreases i,
{
    if i > 0 {
        lemma_players_checked(players, greens, settings, ship, tick, i - 1);
        let (g, s, m) = players_checked(players, greens, settings, ship, tick, i - 1);
        let p = players[i - 1];
        if !(p.ship_kind == ShipKind::Spectator || p.enter_delay > 0) {
            lemma_greens_checked_some(g, p, settings, s, tick, g.len() as int);
        }
    }
}

proof fn lemma_greens_checked_some(greens: Seq<PrizeGreen>, p: Player, settings: ArenaSettings, ship: Option<Ship>, tick: GameTick, j: int)
    ensures
        greens_checked(greens, p, settings, ship, tick, j).1 is Some == ship is Some,
    decreases j,
{
    if j > 0 && j <= greens.len() {
        lemma_greens_checked_some(greens, p, settings, ship, tick, j - 1);
    }
}

proof fn lemma_spawned_ok_prefix(
    greens: Seq<PrizeGreen>,
    settings: ArenaSettings,
    map: TileMap,
    seed: i32,
    extent: u32,
    max_greens: int,
    n: nat,
    k: nat,
)
    requires
        k <= n,
        greens_spawned(greens, settings, map, seed, extent, max_greens, n).2,
    ensures
        greens_spawned(greens, settings, map, seed, extent, max_greens, k).2,
    decreases n,
{
    if k < n {
        lemma_spawned_ok_prefix(greens, settings, map, seed, extent, max_greens, (n - 1) as nat, k);
    }
}


/// The arena's prize lifetimes keep the client's arithmetic in range: the
/// shortest is not negative, and the span between shortest and longest
/// fits a signed 16-bit number.
pub open spec fn prize_durations_fit(settings: ArenaSettings) -> bool {
    &&& settings.prize_min_exist >= 0
    &&& i16::MIN <= settings.prize_max_exist - settings.prize_min_exist <= i16::MAX
}

/// Prize placement stays within the client's arithmetic, whatever the
/// random draws, where the prize lifetimes fit.
pub proof fn lemma_durations_fit_spawn(
    greens: Seq<PrizeGreen>,
    settings: ArenaSettings,
    map: TileMap,
    seed: i32,
    extent: u32,
    max_greens: int,
    n: nat,
)
    requires
        prize_durations_fit(settings),
    ensures
        greens_spawned(greens, settings, map, seed, extent, max_greens, n).2,
    decreases n,
{
    if n > 0 {
        lemma_durations_fit_spawn(greens, settings, map, seed, extent, max_greens, (n - 1) as nat);
        let (g, s, ok) = greens_spawned(greens, settings, map, seed, extent, max_greens, (n - 1) as nat);
        let s4 = next_seed(gen_prize(settings, next_seed(next_seed(s)), true).1);
        let r = s4 as u32;
        let range = settings.prize_max_exist - settings.prize_min_exist;
        let span: u32 = if range > 0 { range as u32 } else { 0 };
        assert(0 <= r as int % (span as int + 1) <= span);
    }
}


/// What spawn prizes never change: the super, shield and engine-shutdown
/// timers, the bounty and the ship kind.
pub open spec fn spawn_kept(a: Ship, b: Ship) -> bool {
    &&& a.super_remaining_ticks == b.super_remaining_ticks
    &&& a.shield_remaining_ticks == b.shield_remaining_ticks
    &&& a.shutdown_remaining_ticks == b.shutdown_remaining_ticks
    &&& a.bounty == b.bounty
    &&& a.kind == b.kind
}

proof fn lemma_basic_effect_keeps(settings: ArenaSettings, ship: Ship, tick: u32, id: i32)
    requires
        1 <= id <= 28,
        valid_multiprize(id),
    ensures
        spawn_kept(ship, basic_effect(settings, ship, tick, id)),
{
    reveal(basic_effect);
    reveal(prize_change);
}

/// Spawn prizes grant only upgrades and items: they never start a super,
/// a shield or an engine shutdown, and never change the bounty or the kind.
pub proof fn lemma_random_prizes_keep(
    settings: ArenaSettings,
    ship: Ship,
    tick: u32,
    seed: i32,
    applied: int,
    count: int,
    remaining: nat,
)
    ensures
        spawn_kept(ship, random_prizes_loop(settings, ship, tick, seed, applied, count, remaining)),
    decreases remaining,
{
    lemma_random_prizes_step(settings, ship, tick, seed, applied, count, remaining);
    if remaining > 0 {
        let (p, s) = gen_prize(settings, seed, false);
        lemma_gen_prize_range(settings, seed);
        if valid_multiprize(p) {
            let ship2 = basic_effect(settings, ship, tick, p);
            lemma_basic_effect_keeps(settings, ship, tick, p);
            lemma_random_prizes_keep(settings, ship2, tick, s, applied + 1, count, (remaining - 1) as nat);
        } else {
            lemma_random_prizes_keep(settings, ship, tick, s, applied, count, (remaining - 1) as nat);
        }
    }
}


/// Guns and bombs go up one level, up to the ship's maximum, and down one
/// level, not below the ship's starting level; nothing else changes.
pub proof fn lemma_gun_and_bomb_prizes(settings: ArenaSettings, ship: Ship, tick: u32)
    ensures
        ({
            let ss = settings.ship(ship.kind);
            &&& prize_effect(settings, ship, tick, 8) == Ship {
                guns: if ship.guns + 1 <= ss.max_guns { (ship.guns + 1) as u8 } else { ss.max_guns },
                ..ship
            }
            &&& prize_effect(settings, ship, tick, -8i32) == Ship {
                guns: if ship.guns > ss.initial_guns { (ship.guns - 1) as u8 } else { ss.initial_guns },
                ..ship
            }
            &&& prize_effect(settings, ship, tick, 9) == Ship {
                bombs: if ship.bombs + 1 <= ss.max_bombs { (ship.bombs + 1) as u8 } else { ss.max_bombs },
                ..ship
            }
            &&& prize_effect(settings, ship, tick, -9i32) == Ship {
                bombs: if ship.bombs > ss.initial_bombs { (ship.bombs - 1) as u8 } else { ss.initial_bombs },
                ..ship
            }
        }),
{
    reveal(prize_effect);
    reveal(basic_effect);
    reveal(prize_change);
}

/// A carried item prize (repel, burst, decoy, thor, brick, rocket, portal)
/// adds exactly one, up to the ship's maximum, or takes one away down to
/// none; nothing else changes.
pub proof fn lemma_item_prizes(settings: ArenaSettings, ship: Ship, tick: u32)
    ensures
        ({
            let ss = settings.ship(ship.kind);
            &&& prize_effect(settings, ship, tick, 21) == Ship {
                repels: if ship.repels + 1 <= ss.max_repel { (ship.repels + 1) as u8 } else { ss.max_repel }, ..ship }
            &&& prize_effect(settings, ship, tick, -21i32) == Ship {
                repels: if ship.repels > 0 { (ship.repels - 1) as u8 } else { 0 }, ..ship }
            &&& prize_effect(settings, ship, tick, 22) == Ship {
                bursts: if ship.bursts + 1 <= ss.max_burst { (ship.bursts + 1) as u8 } else { ss.max_burst }, ..ship }
            &&& prize_effect(settings, ship, tick, 23) == Ship {
                decoys: if ship.decoys + 1 <= ss.max_decoy { (ship.decoys + 1) as u8 } else { ss.max_decoy }, ..ship }
            &&& prize_effect(settings, ship, tick, 24) == Ship {
                thors: if ship.thors + 1 <= ss.max_thor { (ship.thors + 1) as u8 } else { ss.max_thor }, ..ship }
            &&& prize_effect(settings, ship, tick, 26) == Ship {
                bricks: if ship.bricks + 1 <= ss.max_brick { (ship.bricks + 1) as u8 } else { ss.max_brick }, ..ship }
            &&& prize_effect(settings, ship, tick, 27) == Ship {
                rockets: if ship.rockets + 1 <= ss.max_rocket { (ship.rockets + 1) as u8 } else { ss.max_rocket }, ..ship }
            &&& prize_effect(settings, ship, tick, 28) == Ship {
                portals: if ship.portals + 1 <= ss.max_portal { (ship.portals + 1) as u8 } else { ss.max_portal }, ..ship }
        }),
{
    reveal(prize_effect);
    reveal(basic_effect);
    reveal(prize_change);
}

} // verus!
