use vstd::prelude::*;

use crate::arena_settings::{ArenaSettings, ShipSettings};
use crate::clock::{GameTick, tick_add, tick_diff};
use crate::map::{TileMap, TILE_ID_SAFE};
use crate::math::{Position, PositionUnit, Velocity, div_i32, div_i64, tile_of, trunc_div};
use crate::net::packet::c2s::{DeathMessage, DropBrickMessage};
use crate::powerball::{CarryState, PowerballManager};
use crate::weapon::{BombWeapon, BulletWeapon, BurstWeapon, DecoyWeapon, WeaponExplosionEvent, WeaponKind};
use crate::input::{InputAction, InputState};
use crate::player::{
    Player, PlayerManager, STATUS_ANTIWARP, STATUS_FLASH, STATUS_SAFETY, PlayerId, STATUS_CLOAK, STATUS_STEALTH, STATUS_XRADAR,
};
use crate::ship::{
    Ship, ShipKind, reset_result, direction_of, min_int, CAPABILITY_ANTIWARP, CAPABILITY_BOUNCING_BULLETS,
    CAPABILITY_CLOAK, CAPABILITY_MULTIFIRE, CAPABILITY_PROXIMITY, CAPABILITY_STEALTH,
    CAPABILITY_XRADAR,
};

verus! {

/// A full turn of orientation: 40 directions of 1000 steps each.
pub const MAX_ORIENTATION: i32 = 40000;

/// One tick less on a countdown that stops at zero.
pub open spec fn countdown(v: u32) -> u32 {
    if v > 0 { (v - 1) as u32 } else { 0 }
}

/// The ship after its timed effects have run for one tick; the portal
/// point goes away when its timer runs out.
pub open spec fn effects_ticked(s: Ship) -> Ship {
    Ship {
        repel_effect_remaining_ticks: countdown(s.repel_effect_remaining_ticks),
        emped_remaining_ticks: countdown(s.emped_remaining_ticks),
        super_remaining_ticks: countdown(s.super_remaining_ticks),
        shield_remaining_ticks: countdown(s.shield_remaining_ticks),
        portal_remaining_ticks: countdown(s.portal_remaining_ticks),
        portal_position: if s.portal_remaining_ticks == 1 { None } else { s.portal_position },
        flag_remaining_ticks: countdown(s.flag_remaining_ticks),
        fake_antiwarp_remaining_ticks: countdown(s.fake_antiwarp_remaining_ticks),
        rocket_remaining_ticks: countdown(s.rocket_remaining_ticks),
        shutdown_remaining_ticks: countdown(s.shutdown_remaining_ticks),
        ..s
    }
}

/// A status that costs `cost` energy a tick: paid while the energy exceeds
/// the cost, switched off once it does not.
pub open spec fn status_ticked(s: Ship, flag: u8, cost: u32) -> Ship {
    if s.status & flag != 0 {
        if s.current_energy > cost {
            Ship { current_energy: (s.current_energy - cost) as u32, ..s }
        } else {
            Ship { status: s.status & !flag, ..s }
        }
    } else {
        s
    }
}

/// The orientation before it is wrapped into one turn, after the left key
/// took a rotation step off and the right key added one.
pub open spec fn turned(orientation: i32, rotation: u32, left: bool, right: bool) -> (int, int) {
    let step = (rotation as i32) as int;
    let a = if left { orientation - step } else { orientation as int };
    let b = if right { a + step } else { a };
    (a, b)
}

/// The steps of a rotation stay within `i32`.
pub open spec fn rotation_fits(orientation: i32, rotation: u32, left: bool, right: bool) -> bool {
    let (a, b) = turned(orientation, rotation, left, right);
    &&& i32::MIN <= a <= i32::MAX
    &&& i32::MIN <= b <= i32::MAX
}

/// The orientation after one tick of turning, brought back into one turn
/// by at most one full turn either way.
pub open spec fn rotated(orientation: i32, rotation: u32, left: bool, right: bool) -> i32 {
    let (a, b) = turned(orientation, rotation, left, right);
    let c = if b < 0 { b + MAX_ORIENTATION } else { b };
    (if c >= MAX_ORIENTATION { c - MAX_ORIENTATION } else { c }) as i32
}

/// The energy after a tick of recharge, unless an EMP holds it.
pub open spec fn recharged(s: Ship) -> Ship {
    if s.emped_remaining_ticks == 0 {
        Ship { current_energy: min_int(s.current_energy + s.recharge, s.max_energy as int) as u32, ..s }
    } else {
        s
    }
}

/// `flag` when `action` was pressed and the ship has `capability`.
pub open spec fn toggle_bit(input: InputState, s: Ship, action: InputAction, capability: u8, flag: u8) -> u8 {
    if input.triggered(action) && s.capability & capability != 0 { flag } else { 0 }
}

/// The ship after the pressed toggles: each switches its status when the
/// ship has the matching capability.
pub open spec fn toggled(input: InputState, s: Ship) -> Ship {
    let multifire = input.triggered(InputAction::Multifire) && s.capability & CAPABILITY_MULTIFIRE != 0;
    Ship {
        multifire: if multifire { !s.multifire } else { s.multifire },
        status: s.status ^ toggle_bit(input, s, InputAction::Stealth, CAPABILITY_STEALTH, STATUS_STEALTH)
            ^ toggle_bit(input, s, InputAction::Cloak, CAPABILITY_CLOAK, STATUS_CLOAK)
            ^ toggle_bit(input, s, InputAction::XRadar, CAPABILITY_XRADAR, STATUS_XRADAR)
            ^ toggle_bit(input, s, InputAction::Antiwarp, CAPABILITY_ANTIWARP, STATUS_ANTIWARP),
        ..s
    }
}

/// Recharge, the pressed toggles, then the running cost of each status.
pub open spec fn abilities_ticked(input: InputState, s: Ship, ss: ShipSettings) -> Ship {
    let t = toggled(input, recharged(s));
    let x = status_ticked(t, STATUS_XRADAR, ss.xradar_energy as u32);
    let st = status_ticked(x, STATUS_STEALTH, ss.stealth_energy as u32);
    let c = status_ticked(st, STATUS_CLOAK, ss.cloak_energy as u32);
    status_ticked(c, STATUS_ANTIWARP, ss.antiwarp_energy as u32)
}

/// Index of the gun icon: by multifire state, then bouncing bullets, then
/// gun level; none without guns.
pub open spec fn gun_icon(s: Ship) -> Option<usize> {
    if s.guns == 0 {
        None
    } else {
        let base: int = if s.capability & CAPABILITY_MULTIFIRE != 0 {
            if s.multifire { 3 } else { 6 }
        } else {
            0
        };
        let bounce: int = if s.capability & CAPABILITY_BOUNCING_BULLETS != 0 { 9 } else { 0 };
        Some((base + bounce + s.guns - 1) as usize)
    }
}

/// Index of the bomb icon: by proximity and shrapnel, then bomb level; none
/// without bombs.
pub open spec fn bomb_icon(s: Ship) -> Option<usize> {
    if s.bombs == 0 {
        None
    } else {
        let prox = s.capability & CAPABILITY_PROXIMITY != 0;
        let offset: int = if prox && s.shrapnel == 0 {
            3
        } else if prox && s.shrapnel > 0 {
            9
        } else if !prox && s.shrapnel > 0 {
            6
        } else {
            0
        };
        Some((18 + offset + s.bombs - 1) as usize)
    }
}

/// What a tick of acceleration allows: whether the afterburners burn, the
/// thrust that the forward and backward keys apply along the heading (none
/// while attached to another ship), and the speed the velocity is held to.
#[derive(Copy, Clone, Debug, PartialEq, Eq)]
pub struct Acceleration {
    pub afterburners: bool,
    pub thrust: Option<u32>,
    pub speed: u32,
}

/// A ship that carries flags, or the ball where the ball counts as a flag,
/// moves and fires under the flagger settings.
pub open spec fn flagger(p: Player, settings: ArenaSettings) -> bool {
    p.flag_count > 0 || (p.carrying_ball && settings.powerball_flag_upgrades)
}

/// `v` moved by `adjustment`, stopping at zero.
pub open spec fn adjusted(v: u32, adjustment: i16) -> u32 {
    let n = v + adjustment;
    if n < 0 { 0 } else { n as u32 }
}

/// The afterburners burn while their key is held and the energy exceeds
/// their cost.
pub open spec fn afterburners_on(input: InputState, s: Ship, ss: ShipSettings) -> bool {
    input.held(InputAction::Afterburner) && s.current_energy > ss.afterburner_energy
}

/// The thrust of a tick: the maximum under afterburners, none while the
/// engine is shut down, the rocket's while a rocket burns, then the flagger
/// adjustment.
pub open spec fn thrust_of(s: Ship, ss: ShipSettings, settings: ArenaSettings, afterburners: bool, flagging: bool) -> u32 {
    let base = if afterburners { ss.maximum_thrust as u32 } else { s.thrust };
    let a = if s.shutdown_remaining_ticks > 0 { 0 } else { base };
    let b = if s.rocket_remaining_ticks > 0 { settings.rocket_thrust as u32 } else { a };
    if flagging { adjusted(b, settings.flagger_thrust_adjustment) } else { b }
}

/// The speed limit of a tick: the maximum under afterburners, the rocket's
/// (but never below the ship's) while a rocket burns, the repel speed while
/// repelled, then the flagger adjustment.
pub open spec fn speed_of(s: Ship, ss: ShipSettings, settings: ArenaSettings, afterburners: bool, flagging: bool) -> u32 {
    let base = if afterburners { ss.maximum_speed as u32 } else { s.speed };
    let a = if s.rocket_remaining_ticks > 0 {
        if (settings.rocket_speed as u32) < s.speed { s.speed } else { settings.rocket_speed as u32 }
    } else {
        base
    };
    let b = if s.repel_effect_remaining_ticks > 0 { settings.repel_speed as u32 } else { a };
    if flagging { adjusted(b, settings.flagger_speed_adjustment) } else { b }
}

/// Ticks between repels, and after any weapon before the next repel.
pub const REPEL_DELAY_TICKS: i32 = 50;

/// Ticks that both guns rest after the ball is shot.
pub const POWERBALL_FIRE_DELAY_TICKS: i32 = 60;

/// `cur` lies strictly after `t` on the wrapping tick counter.
pub open spec fn later(cur: GameTick, t: GameTick) -> bool {
    tick_diff(cur.value, t.value) > 0
}

/// The tick `d` ticks after `cur`.
pub open spec fn ticks_after(cur: GameTick, d: int) -> GameTick {
    GameTick { value: tick_add(cur.value, d) }
}

/// What firing reads of the ship's surroundings in one tick: where the
/// ship is, whether it sits on a safe tile, whether it may fire the guns
/// and the thor (no fast shooting under afterburners where the ship's
/// settings forbid it), whether it flies under the flagger settings, the
/// bomb delay that follows, whether a super is running, the direction
/// the ship faces, whether an enemy antiwarp holds it, where a warp
/// without a portal puts it, and the ball it carries.
#[derive(Copy, Clone, Debug)]
pub struct FireContext {
    pub current_tick: GameTick,
    pub position: Position,
    pub in_safe: bool,
    pub can_fast_shoot: bool,
    pub flagging: bool,
    pub bomb_fire_delay: i32,
    pub has_super: bool,
    pub direction: u8,
    pub antiwarped: bool,
    pub spawn_position: Position,
    pub carry: Option<u8>,
}

/// Firing as it stands after some of its steps: the ship, the weapon
/// chosen so far, its energy cost in whole units, whether shooting the
/// ball ended the tick's firing, our player's position, whether our
/// velocity is to be cleared, the brick to drop, the ball that was shot.
#[derive(Copy, Clone, Debug)]
pub struct FirePlan {
    pub ship: Ship,
    pub weapon: Option<WeaponKind>,
    pub energy_cost: i32,
    pub done: bool,
    pub position: Option<Position>,
    pub velocity_cleared: bool,
    pub brick: Option<DropBrickMessage>,
    pub powerball: Option<u8>,
}

/// An item spent from the store, but not on a safe tile.
pub open spec fn spent(n: u8, in_safe: bool) -> u8 {
    if in_safe { n } else { (n - 1) as u8 }
}

/// The guns and the bomb rest for the bomb delay, the repel for its own.
pub open spec fn item_delays(s: Ship, ctx: FireContext) -> Ship {
    Ship {
        next_bomb_tick: ticks_after(ctx.current_tick, ctx.bomb_fire_delay as int),
        next_bullet_tick: ticks_after(ctx.current_tick, ctx.bomb_fire_delay as int),
        next_repel_tick: ticks_after(ctx.current_tick, REPEL_DELAY_TICKS as int),
        ..s
    }
}

/// A thor: a bomb of level zero with no shrapnel and no bounces.
pub open spec fn thor_bomb() -> BombWeapon {
    BombWeapon {
        level: 0,
        shrapnel_count: 0,
        shrapnel_level: 0,
        shrapnel_bouncing: false,
        mine: false,
        emp: false,
        remaining_bounces: 0,
        rng_seed: 0,
    }
}

/// Repel, burst, thor and decoy, in that order: each pressed item that the
/// ship holds and whose delay has passed becomes the weapon, is spent, and
/// restarts the delays.
#[verifier::opaque]
pub open spec fn plan_items(input: InputState, p: FirePlan, ctx: FireContext) -> FirePlan {
    let cur = ctx.current_tick;
    let s0 = p.ship;
    let a = if input.triggered(InputAction::Repel) && later(cur, s0.next_repel_tick) && s0.repels > 0 {
        FirePlan { ship: item_delays(Ship { repels: spent(s0.repels, ctx.in_safe), ..s0 }, ctx), weapon: Some(WeaponKind::Repel), ..p }
    } else {
        p
    };
    let s1 = a.ship;
    let b = if input.triggered(InputAction::Burst) && later(cur, s1.next_bomb_tick) && s1.bursts > 0 {
        FirePlan {
            ship: item_delays(Ship { bursts: spent(s1.bursts, ctx.in_safe), ..s1 }, ctx),
            weapon: Some(WeaponKind::Burst(BurstWeapon { active: false })),
            ..a
        }
    } else {
        a
    };
    let s2 = b.ship;
    let c = if input.triggered(InputAction::Thor) && later(cur, s2.next_bomb_tick) && s2.thors > 0 && ctx.can_fast_shoot {
        FirePlan { ship: item_delays(Ship { thors: spent(s2.thors, ctx.in_safe), ..s2 }, ctx), weapon: Some(WeaponKind::Thor(thor_bomb())), ..b }
    } else {
        b
    };
    let s3 = c.ship;
    if input.triggered(InputAction::Decoy) && later(cur, s3.next_bomb_tick) && s3.decoys > 0 {
        FirePlan {
            ship: item_delays(Ship { decoys: spent(s3.decoys, ctx.in_safe), ..s3 }, ctx),
            weapon: Some(WeaponKind::Decoy(DecoyWeapon { initial_rotation: ctx.direction })),
            ..c
        }
    } else {
        c
    }
}

/// A pressed brick, off safe tiles, is spent and dropped on the ship's
/// tile; a pressed rocket, when none burns, is spent and lit.
#[verifier::opaque]
pub open spec fn plan_brick_and_rocket(input: InputState, p: FirePlan, ctx: FireContext, ss: ShipSettings) -> FirePlan {
    let cur = ctx.current_tick;
    let s0 = p.ship;
    let a = if input.triggered(InputAction::Brick) && later(cur, s0.next_bomb_tick) && s0.bricks > 0 && !ctx.in_safe {
        FirePlan {
            ship: Ship {
                bricks: (s0.bricks - 1) as u8,
                next_bomb_tick: ticks_after(cur, ctx.bomb_fire_delay as int),
                next_bullet_tick: ticks_after(cur, ctx.bomb_fire_delay as int),
                ..s0
            },
            brick: Some(DropBrickMessage {
                x: trunc_div(ctx.position.x.0 as int, 16000) as u16,
                y: trunc_div(ctx.position.y.0 as int, 16000) as u16,
            }),
            ..p
        }
    } else {
        p
    };
    let s1 = a.ship;
    if input.triggered(InputAction::Rocket) && later(cur, s1.next_bomb_tick) && s1.rocket_remaining_ticks == 0 && s1.rockets > 0 {
        FirePlan { ship: Ship { rockets: (s1.rockets - 1) as u8, rocket_remaining_ticks: ss.rocket_time as u32, ..s1 }, ..a }
    } else {
        a
    }
}

/// A pressed portal, unless antiwarped, is spent and marks the ship's
/// position for the warp point delay.
#[verifier::opaque]
pub open spec fn plan_portal(input: InputState, p: FirePlan, ctx: FireContext, settings: ArenaSettings) -> FirePlan {
    let s = p.ship;
    if input.triggered(InputAction::Portal) && s.portals > 0 && !ctx.antiwarped {
        FirePlan {
            ship: Ship {
                portal_position: Some(ctx.position),
                portals: (s.portals - 1) as u8,
                portal_remaining_ticks: settings.warp_point_delay as u32,
                ..s
            },
            ..p
        }
    } else {
        p
    }
}

/// Shooting the carried ball ends the tick's firing and rests both guns.
pub open spec fn plan_ball_shot(p: FirePlan, ctx: FireContext) -> FirePlan {
    FirePlan {
        ship: Ship {
            next_bomb_tick: ticks_after(ctx.current_tick, POWERBALL_FIRE_DELAY_TICKS as int),
            next_bullet_tick: ticks_after(ctx.current_tick, POWERBALL_FIRE_DELAY_TICKS as int),
            ..p.ship
        },
        done: true,
        powerball: ctx.carry,
        ..p
    }
}

/// A pressed warp shoots a carried ball; otherwise, unless antiwarped, it
/// takes the ship to its portal (using the portal up) or, at full energy,
/// to the spawn position, which costs all but one unit of energy, stops
/// the ship and settles it under a short antiwarp even where the ship is
/// not at full energy and stays.
#[verifier::opaque]
pub open spec fn plan_warp(input: InputState, p: FirePlan, ctx: FireContext, settings: ArenaSettings) -> FirePlan {
    if !input.triggered(InputAction::Warp) {
        p
    } else if ctx.carry is Some {
        plan_ball_shot(p, ctx)
    } else if ctx.antiwarped {
        p
    } else {
        let s = p.ship;
        let use_energy = s.portal_position is None;
        let s1 = if use_energy { s } else { Ship { portal_position: None, portal_remaining_ticks: 0, ..s } };
        let new_position = match s.portal_position {
            Some(pp) => pp,
            None => ctx.spawn_position,
        };
        let moves = !use_energy || s1.current_energy >= s1.max_energy;
        let s2 = if moves {
            Ship { status: s1.status | STATUS_FLASH, next_bomb_tick: ticks_after(ctx.current_tick, REPEL_DELAY_TICKS as int), ..s1 }
        } else {
            s1
        };
        let s3 = if use_energy {
            Ship { current_energy: 1000, fake_antiwarp_remaining_ticks: settings.antiwarp_settle_delay as u32, ..s2 }
        } else {
            s2
        };
        FirePlan {
            ship: s3,
            position: if moves { Some(new_position) } else { p.position },
            velocity_cleared: p.velocity_cleared || use_energy,
            ..p
        }
    }
}

/// The energy a shot costs under the flagger settings, in whole units.
pub open spec fn flagger_cost(cost: int, ctx: FireContext, settings: ArenaSettings) -> int {
    if ctx.flagging { cost * (settings.flagger_fire_cost_percent / 1000) } else { cost }
}

/// A level one higher for flaggers where the arena upgrades their weapons.
pub open spec fn upgraded(level: u8, ctx: FireContext, settings: ArenaSettings) -> u8 {
    if ctx.flagging && settings.flagger_gun_upgrade { (level + 1) as u8 } else { level }
}

/// A weapon that was chosen when the energy covers its cost (or a super
/// runs) sets the delays to `bullet_delay`/`bomb_delay`; otherwise no
/// weapon is fired.
pub open spec fn plan_charged(p: FirePlan, ctx: FireContext, kind: WeaponKind, cost: int, bullet: GameTick, bomb: GameTick) -> FirePlan {
    if ctx.has_super || p.ship.current_energy >= cost {
        FirePlan {
            ship: Ship {
                next_bullet_tick: bullet,
                next_bomb_tick: bomb,
                next_repel_tick: ticks_after(ctx.current_tick, REPEL_DELAY_TICKS as int),
                ..p.ship
            },
            weapon: Some(kind),
            energy_cost: cost as i32,
            ..p
        }
    } else {
        FirePlan { weapon: None, energy_cost: cost as i32, ..p }
    }
}

/// The held gun, when it is ready and the ship has guns: it shoots a
/// carried ball where the arena allows no gun with the ball, else it
/// fires bullets (bouncing where the ship has them, a multifire spread
/// where multifire is on) at the cost per gun level of the mode chosen.
#[verifier::opaque]
pub open spec fn plan_gun(input: InputState, p: FirePlan, ctx: FireContext, settings: ArenaSettings, ss: ShipSettings) -> FirePlan {
    let s = p.ship;
    if p.done || !(input.held(InputAction::Bullet) && later(ctx.current_tick, s.next_bullet_tick) && s.guns > 0 && ctx.can_fast_shoot) {
        p
    } else if !settings.powerball_gun_allowed && ctx.carry is Some {
        plan_ball_shot(p, ctx)
    } else {
        let multifire = s.multifire && s.capability & CAPABILITY_MULTIFIRE != 0;
        let bullet = BulletWeapon { level: upgraded((s.guns - 1) as u8, ctx, settings), multi: multifire, link_id: None };
        let kind = if s.capability & CAPABILITY_BOUNCING_BULLETS != 0 {
            WeaponKind::BouncingBullet(bullet)
        } else {
            WeaponKind::Bullet(bullet)
        };
        let energy: int = if multifire { ss.multi_fire_energy as int } else { ss.bullet_fire_energy as int };
        let delay: int = if multifire { ss.multi_fire_delay as int } else { ss.bullet_fire_delay as int };
        let cost = flagger_cost(energy * s.guns, ctx, settings);
        let next = ticks_after(ctx.current_tick, delay);
        plan_charged(p, ctx, kind, cost, next, next)
    }
}

/// The bomb or mine that the ship's bombs make: the shrapnel of its guns,
/// the settings' bounces for a bomb, and its EMP.
pub open spec fn bomb_of(s: Ship, level: u8, mine: bool, ss: ShipSettings) -> BombWeapon {
    let base = BombWeapon {
        level,
        shrapnel_count: 0,
        shrapnel_level: 0,
        shrapnel_bouncing: false,
        mine,
        emp: ss.emp_bomb,
        remaining_bounces: if mine { 0 } else { ss.bomb_bounce_count as u32 },
        rng_seed: 0,
    };
    if s.guns > 0 {
        BombWeapon {
            shrapnel_count: s.shrapnel,
            shrapnel_level: (s.guns - 1) as u8,
            shrapnel_bouncing: s.capability & CAPABILITY_BOUNCING_BULLETS != 0,
            ..base
        }
    } else {
        base
    }
}

/// A bomb, or a proximity bomb where the ship has proximity.
pub open spec fn bomb_kind(s: Ship, b: BombWeapon) -> WeaponKind {
    if s.capability & CAPABILITY_PROXIMITY != 0 { WeaponKind::ProximityBomb(b) } else { WeaponKind::Bomb(b) }
}

/// The held mine or bomb key, when the bomb is ready and the ship has
/// bombs: it shoots a carried ball where the arena allows no bomb with the
/// ball, else it lays a mine or fires a bomb at the cost of its level.
#[verifier::opaque]
pub open spec fn plan_bomb(input: InputState, p: FirePlan, ctx: FireContext, settings: ArenaSettings, ss: ShipSettings, mine: bool) -> FirePlan {
    let s = p.ship;
    let action = if mine { InputAction::Mine } else { InputAction::Bomb };
    if p.done || !(input.held(action) && later(ctx.current_tick, s.next_bomb_tick) && s.bombs > 0) {
        p
    } else if !settings.powerball_bomb_allowed && ctx.carry is Some {
        plan_ball_shot(p, ctx)
    } else {
        let level = upgraded((s.bombs - 1) as u8, ctx, settings);
        let kind = bomb_kind(s, bomb_of(s, level, mine, ss));
        let base: int = if mine {
            ss.mine_fire_energy + ss.mine_fire_energy_upgrade * level
        } else {
            ss.bomb_fire_energy + ss.bomb_fire_energy_upgrade * level
        };
        let cost = flagger_cost(base, ctx, settings);
        let delay: int = if mine {
            if ss.mine_fire_delay as int > ctx.bomb_fire_delay { ss.mine_fire_delay as int } else { ctx.bomb_fire_delay as int }
        } else {
            ctx.bomb_fire_delay as int
        };
        let next = ticks_after(ctx.current_tick, delay);
        plan_charged(p, ctx, kind, cost, next, next)
    }
}

/// The energy that the chosen weapon takes, in thousandths.
pub open spec fn charge_of(p: FirePlan, ctx: FireContext) -> int {
    if ctx.has_super { 0 } else { p.energy_cost * 1000 }
}

/// No weapon leaves a safe tile (the ship stops there instead), and none
/// without the energy it costs; a fired weapon takes its energy.
#[verifier::opaque]
pub open spec fn plan_finish(p: FirePlan, ctx: FireContext) -> FirePlan {
    if p.done || p.weapon is None {
        p
    } else if ctx.in_safe {
        FirePlan { weapon: None, velocity_cleared: true, ..p }
    } else if p.ship.current_energy < charge_of(p, ctx) {
        FirePlan { weapon: None, ..p }
    } else {
        FirePlan { ship: Ship { current_energy: (p.ship.current_energy - charge_of(p, ctx)) as u32, ..p.ship }, ..p }
    }
}

/// Every step of firing but the last.
pub open spec fn plan_before_finish(input: InputState, p: FirePlan, ctx: FireContext, settings: ArenaSettings, ss: ShipSettings) -> FirePlan {
    let a = plan_items(input, p, ctx);
    let b = plan_brick_and_rocket(input, a, ctx, ss);
    let c = plan_portal(input, b, ctx, settings);
    let d = plan_warp(input, c, ctx, settings);
    let e = plan_gun(input, d, ctx, settings, ss);
    let f = plan_bomb(input, e, ctx, settings, ss, true);
    plan_bomb(input, f, ctx, settings, ss, false)
}

/// The whole tick of firing, from a ship that has fired nothing yet.
pub open spec fn fire_plan(input: InputState, s: Ship, me: Player, ctx: FireContext, settings: ArenaSettings, ss: ShipSettings) -> FirePlan {
    let start = FirePlan {
        ship: s,
        weapon: None,
        energy_cost: 0,
        done: false,
        position: me.position,
        velocity_cleared: false,
        brick: None,
        powerball: None,
    };
    plan_finish(plan_before_finish(input, start, ctx, settings, ss), ctx)
}

/// The firing context of our player `me` at `position`.
pub open spec fn fire_context(
    me: Player,
    position: Position,
    map: TileMap,
    settings: ArenaSettings,
    s: Ship,
    current_tick: GameTick,
    afterburners_enabled: bool,
    antiwarped: bool,
    spawn_position: Position,
    carry: Option<CarryState>,
) -> FireContext {
    let ss = settings.ship(me.ship_kind);
    let flagging = flagger(me, settings);
    let delay = ss.bomb_fire_delay + (if flagging { settings.flagger_bomb_fire_delay as int } else { 0 });
    FireContext {
        current_tick,
        position,
        in_safe: map.tile_at(tile_of(position.x.0), tile_of(position.y.0)) == TILE_ID_SAFE,
        can_fast_shoot: !afterburners_enabled || !ss.disable_fast_shooting,
        flagging,
        bomb_fire_delay: if delay < 0 { 0 } else { delay as i32 },
        has_super: s.super_remaining_ticks > 0,
        direction: me.direction,
        antiwarped,
        spawn_position,
        carry: match carry {
            Some(c) => Some(c.ball_id as u8),
            None => None,
        },
    }
}

/// What firing asks of the game besides the ship: a brick to drop, and
/// the ball to shoot, whose velocity follows the ship's heading.
#[derive(Copy, Clone, Debug)]
pub struct FireRequests {
    pub brick: Option<DropBrickMessage>,
    pub powerball: Option<u8>,
}

fn restart_item_delays(s: &mut Ship, ctx: &FireContext)
    ensures
        *final(s) == item_delays(*old(s), *ctx),
{
    s.next_bomb_tick = ctx.current_tick.plus(ctx.bomb_fire_delay);
    s.next_bullet_tick = ctx.current_tick.plus(ctx.bomb_fire_delay);
    s.next_repel_tick = ctx.current_tick.plus(REPEL_DELAY_TICKS);
}

fn run_items(input: &InputState, p: FirePlan, ctx: &FireContext) -> (r: FirePlan)
    requires
        p.energy_cost >= 0,
    ensures
        r == plan_items(*input, p, *ctx),
        r.energy_cost >= 0,
{
    reveal(plan_items);
    let mut p = p;
    let cur = ctx.current_tick;
    if input.is_triggered(InputAction::Repel) && cur.is_after(&p.ship.next_repel_tick) && p.ship.repels > 0 {
        if !ctx.in_safe {
            p.ship.repels = p.ship.repels - 1;
        }
        restart_item_delays(&mut p.ship, ctx);
        p.weapon = Some(WeaponKind::Repel);
    }
    if input.is_triggered(InputAction::Burst) && cur.is_after(&p.ship.next_bomb_tick) && p.ship.bursts > 0 {
        if !ctx.in_safe {
            p.ship.bursts = p.ship.bursts - 1;
        }
        restart_item_delays(&mut p.ship, ctx);
        p.weapon = Some(WeaponKind::Burst(BurstWeapon { active: false }));
    }
    if input.is_triggered(InputAction::Thor) && cur.is_after(&p.ship.next_bomb_tick) && p.ship.thors > 0
        && ctx.can_fast_shoot {
        if !ctx.in_safe {
            p.ship.thors = p.ship.thors - 1;
        }
        restart_item_delays(&mut p.ship, ctx);
        p.weapon = Some(WeaponKind::Thor(BombWeapon {
            level: 0,
            shrapnel_count: 0,
            shrapnel_level: 0,
            shrapnel_bouncing: false,
            mine: false,
            emp: false,
            remaining_bounces: 0,
            rng_seed: 0,
        }));
    }
    if input.is_triggered(InputAction::Decoy) && cur.is_after(&p.ship.next_bomb_tick) && p.ship.decoys > 0 {
        if !ctx.in_safe {
            p.ship.decoys = p.ship.decoys - 1;
        }
        restart_item_delays(&mut p.ship, ctx);
        p.weapon = Some(WeaponKind::Decoy(DecoyWeapon { initial_rotation: ctx.direction }));
    }
    p
}

fn run_brick_and_rocket(input: &InputState, p: FirePlan, ctx: &FireContext, ss: &ShipSettings) -> (r: FirePlan)
    requires
        p.energy_cost >= 0,
    ensures
        r == plan_brick_and_rocket(*input, p, *ctx, *ss),
        r.energy_cost >= 0,
{
    reveal(plan_brick_and_rocket);
    let mut p = p;
    let cur = ctx.current_tick;
    if input.is_triggered(InputAction::Brick) && cur.is_after(&p.ship.next_bomb_tick) && p.ship.bricks > 0
        && !ctx.in_safe {
        p.ship.bricks = p.ship.bricks - 1;
        p.brick = Some(DropBrickMessage {
            x: div_i32(ctx.position.x.0, 16000) as u16,
            y: div_i32(ctx.position.y.0, 16000) as u16,
        });
        p.ship.next_bomb_tick = cur.plus(ctx.bomb_fire_delay);
        p.ship.next_bullet_tick = cur.plus(ctx.bomb_fire_delay);
    }
    if input.is_triggered(InputAction::Rocket) && cur.is_after(&p.ship.next_bomb_tick)
        && p.ship.rocket_remaining_ticks == 0 && p.ship.rockets > 0 {
        p.ship.rockets = p.ship.rockets - 1;
        p.ship.rocket_remaining_ticks = ss.rocket_time as u32;
    }
    p
}

fn run_portal(input: &InputState, p: FirePlan, ctx: &FireContext, settings: &ArenaSettings) -> (r: FirePlan)
    requires
        p.energy_cost >= 0,
    ensures
        r == plan_portal(*input, p, *ctx, *settings),
        r.energy_cost >= 0,
{
    reveal(plan_portal);
    let mut p = p;
    if input.is_triggered(InputAction::Portal) && p.ship.portals > 0 && !ctx.antiwarped {
        p.ship.portal_position = Some(ctx.position);
        p.ship.portals = p.ship.portals - 1;
        p.ship.portal_remaining_ticks = settings.warp_point_delay as u32;
    }
    p
}

fn run_ball_shot(p: FirePlan, ctx: &FireContext) -> (r: FirePlan)
    requires
        p.energy_cost >= 0,
    ensures
        r == plan_ball_shot(p, *ctx),
        r.energy_cost >= 0,
{
    let mut p = p;
    p.ship.next_bomb_tick = ctx.current_tick.plus(POWERBALL_FIRE_DELAY_TICKS);
    p.ship.next_bullet_tick = ctx.current_tick.plus(POWERBALL_FIRE_DELAY_TICKS);
    p.done = true;
    p.powerball = ctx.carry;
    p
}

fn run_warp(input: &InputState, p: FirePlan, ctx: &FireContext, settings: &ArenaSettings) -> (r: FirePlan)
    requires
        p.energy_cost >= 0,
    ensures
        r == plan_warp(*input, p, *ctx, *settings),
        r.energy_cost >= 0,
{
    reveal(plan_warp);
    if !input.is_triggered(InputAction::Warp) {
        return p;
    }
    if ctx.carry.is_some() {
        return run_ball_shot(p, ctx);
    }
    if ctx.antiwarped {
        return p;
    }
    let mut p = p;
    let (new_position, use_energy) = match p.ship.portal_position {
        Some(portal_position) => {
            p.ship.portal_position = None;
            p.ship.portal_remaining_ticks = 0;
            (portal_position, false)
        },
        None => (ctx.spawn_position, true),
    };
    if !use_energy || p.ship.is_max_energy() {
        p.position = Some(new_position);
        p.ship.status = p.ship.status | STATUS_FLASH;
        p.ship.next_bomb_tick = ctx.current_tick.plus(REPEL_DELAY_TICKS);
    }
    if use_energy {
        p.ship.current_energy = 1000;
        p.velocity_cleared = true;
        p.ship.fake_antiwarp_remaining_ticks = settings.antiwarp_settle_delay as u32;
    }
    p
}

fn run_charged(p: FirePlan, ctx: &FireContext, kind: WeaponKind, cost: i32, bullet: GameTick, bomb: GameTick) -> (r: FirePlan)
    requires
        cost >= 0,
    ensures
        r == plan_charged(p, *ctx, kind, cost as int, bullet, bomb),
        r.energy_cost >= 0,
{
    let mut p = p;
    if ctx.has_super || p.ship.current_energy >= cost as u32 {
        p.ship.next_bullet_tick = bullet;
        p.ship.next_bomb_tick = bomb;
        p.ship.next_repel_tick = ctx.current_tick.plus(REPEL_DELAY_TICKS);
        p.weapon = Some(kind);
    } else {
        p.weapon = None;
    }
    p.energy_cost = cost;
    p
}

fn run_flagger_cost(cost: i32, ctx: &FireContext, settings: &ArenaSettings) -> (r: i32)
    requires
        0 <= cost <= 20_000_000,
    ensures
        r == flagger_cost(cost as int, *ctx, *settings),
        r >= 0,
{
    if ctx.flagging {
        let percent = (settings.flagger_fire_cost_percent / 1000) as i32;
        assert(0 <= cost * percent <= 20_000_000 * 65) by (nonlinear_arith)
            requires
                0 <= cost <= 20_000_000,
                0 <= percent <= 65;
        cost * percent
    } else {
        cost
    }
}

fn run_gun(input: &InputState, p: FirePlan, ctx: &FireContext, settings: &ArenaSettings, ss: &ShipSettings) -> (r: FirePlan)
    requires
        p.energy_cost >= 0,
    ensures
        r == plan_gun(*input, p, *ctx, *settings, *ss),
        r.energy_cost >= 0,
{
    reveal(plan_gun);
    if p.done || !(input.is_down(InputAction::Bullet) && ctx.current_tick.is_after(&p.ship.next_bullet_tick)
        && p.ship.guns > 0 && ctx.can_fast_shoot) {
        return p;
    }
    if !settings.powerball_gun_allowed && ctx.carry.is_some() {
        return run_ball_shot(p, ctx);
    }
    let s = p.ship;
    let multifire = s.multifire && s.capability & CAPABILITY_MULTIFIRE != 0;
    let mut level = s.guns - 1;
    if ctx.flagging && settings.flagger_gun_upgrade {
        level = level + 1;
    }
    let bullet = BulletWeapon { level, multi: multifire, link_id: None };
    let kind = if s.capability & CAPABILITY_BOUNCING_BULLETS != 0 {
        WeaponKind::BouncingBullet(bullet)
    } else {
        WeaponKind::Bullet(bullet)
    };
    let energy: i32 = if multifire { ss.multi_fire_energy as i32 } else { ss.bullet_fire_energy as i32 };
    let delay: i32 = if multifire { ss.multi_fire_delay as i32 } else { ss.bullet_fire_delay as i32 };
    assert(0 <= energy * (s.guns as i32) <= 65535 * 255) by (nonlinear_arith)
        requires
            0 <= energy <= 65535,
            0 <= s.guns <= 255;
    let cost = run_flagger_cost(energy * s.guns as i32, ctx, settings);
    let next = ctx.current_tick.plus(delay);
    run_charged(p, ctx, kind, cost, next, next)
}

fn run_bomb(input: &InputState, p: FirePlan, ctx: &FireContext, settings: &ArenaSettings, ss: &ShipSettings, mine: bool) -> (r: FirePlan)
    requires
        p.energy_cost >= 0,
    ensures
        r == plan_bomb(*input, p, *ctx, *settings, *ss, mine),
        r.energy_cost >= 0,
{
    reveal(plan_bomb);
    let action = if mine { InputAction::Mine } else { InputAction::Bomb };
    if p.done || !(input.is_down(action) && ctx.current_tick.is_after(&p.ship.next_bomb_tick) && p.ship.bombs > 0) {
        return p;
    }
    if !settings.powerball_bomb_allowed && ctx.carry.is_some() {
        return run_ball_shot(p, ctx);
    }
    let s = p.ship;
    let mut level = s.bombs - 1;
    if ctx.flagging && settings.flagger_gun_upgrade {
        level = level + 1;
    }
    let mut bomb = BombWeapon {
        level,
        shrapnel_count: 0,
        shrapnel_level: 0,
        shrapnel_bouncing: false,
        mine,
        emp: ss.emp_bomb,
        remaining_bounces: if mine { 0 } else { ss.bomb_bounce_count as u32 },
        rng_seed: 0,
    };
    if s.guns > 0 {
        bomb.shrapnel_count = s.shrapnel;
        bomb.shrapnel_level = s.guns - 1;
        bomb.shrapnel_bouncing = s.capability & CAPABILITY_BOUNCING_BULLETS != 0;
    }
    let kind = if s.capability & CAPABILITY_PROXIMITY != 0 {
        WeaponKind::ProximityBomb(bomb)
    } else {
        WeaponKind::Bomb(bomb)
    };
    let (energy, upgrade): (i32, i32) = if mine {
        (ss.mine_fire_energy as i32, ss.mine_fire_energy_upgrade as i32)
    } else {
        (ss.bomb_fire_energy as i32, ss.bomb_fire_energy_upgrade as i32)
    };
    assert(0 <= energy + upgrade * (level as i32) <= 65535 + 65535 * 255) by (nonlinear_arith)
        requires
            0 <= energy <= 65535,
            0 <= upgrade <= 65535,
            0 <= level <= 255;
    let cost = run_flagger_cost(energy + upgrade * level as i32, ctx, settings);
    let delay: i32 = if mine {
        if ss.mine_fire_delay as i32 > ctx.bomb_fire_delay { ss.mine_fire_delay as i32 } else { ctx.bomb_fire_delay }
    } else {
        ctx.bomb_fire_delay
    };
    let next = ctx.current_tick.plus(delay);
    run_charged(p, ctx, kind, cost, next, next)
}

fn run_finish(p: FirePlan, ctx: &FireContext) -> (r: FirePlan)
    requires
        p.energy_cost >= 0,
        !p.done && p.weapon is Some && !ctx.in_safe ==> p.energy_cost * 1000 <= i32::MAX,
    ensures
        r == plan_finish(p, *ctx),
{
    reveal(plan_finish);
    if p.done || p.weapon.is_none() {
        return p;
    }
    let mut p = p;
    if ctx.in_safe {
        p.weapon = None;
        p.velocity_cleared = true;
        return p;
    }
    let mut energy_cost = p.energy_cost * 1000;
    if ctx.has_super {
        energy_cost = 0;
    }
    if p.ship.current_energy < energy_cost as u32 {
        p.weapon = None;
        return p;
    }
    p.ship.current_energy = p.ship.current_energy - energy_cost as u32;
    p
}

/// `v` is a value of `i32`.
pub open spec fn fits_i32(v: int) -> bool {
    i32::MIN <= v <= i32::MAX
}

/// `pct` thousandths of `v`, computed in 64 bits and cut back to `i32`.
pub open spec fn percent_of(v: int, pct: int) -> i32 {
    trunc_div(v * pct, 1000) as i32
}

/// Damage of a bullet of `level`.
pub open spec fn bullet_damage(settings: ArenaSettings, level: u8) -> int {
    settings.bullet_damage_level + settings.bullet_damage_upgrade * level
}

/// Full damage of a bomb: less for an EMP bomb and for one that still had
/// bounces left.
pub open spec fn bomb_full_damage(settings: ArenaSettings, b: BombWeapon) -> i32 {
    let a: i32 = if b.emp {
        percent_of(settings.bomb_damage_level as int, settings.ebomb_damage_percent as int)
    } else {
        settings.bomb_damage_level
    };
    if b.remaining_bounces > 0 { percent_of(a as int, settings.bouncing_bomb_damage_percent as int) } else { a }
}

/// Radius in pixels of a bomb blast of `level`.
pub open spec fn explode_pixels(settings: ArenaSettings, level: u8) -> int {
    settings.bomb_explode_pixels + settings.bomb_explode_pixels * level
}

/// Damage and EMP shutdown of a bomb blast at `distance` pixels: it falls
/// off linearly to the edge of the blast, is lessened by half of what the
/// shooter, at `shooter_distance`, would take from its own blast, and an
/// EMP bomb of another player shuts the engine down in proportion to the
/// damage.
pub open spec fn bomb_hit(
    settings: ArenaSettings,
    event: WeaponExplosionEvent,
    b: BombWeapon,
    level: u8,
    me_id: PlayerId,
    distance: i32,
    shooter_distance: Option<i32>,
) -> (int, Option<u32>) {
    let full = bomb_full_damage(settings, b);
    let ep = explode_pixels(settings, level);
    if distance < ep {
        let share = trunc_div(full as int, ep);
        let d0 = (ep - distance) * share;
        let d1 = if event.shooter != me_id {
            match shooter_distance {
                Some(sd) => if sd < ep {
                    let reduced = d0 - trunc_div((ep - sd) * share, 2);
                    if reduced < 0 { 0 } else { reduced }
                } else {
                    d0
                },
                None => d0,
            }
        } else {
            d0
        };
        let emp = if d1 > 0 && b.emp && event.shooter != me_id {
            let t = trunc_div(settings.ebomb_shutdown_time * d1, full as int);
            if t > 0 { Some(t as u32) } else { None }
        } else {
            None
        };
        (d1, emp)
    } else {
        (0, None)
    }
}

/// Damage of a shrapnel piece of `level` that struck us: little while it
/// is young, a share of a bullet's after.
pub open spec fn shrapnel_damage(settings: ArenaSettings, event: WeaponExplosionEvent, level: u8) -> int {
    let alive_time = settings.bullet_alive_time - (event.remaining_ticks as i32);
    if alive_time <= 25 {
        settings.inactive_shrap_damage * level
    } else {
        percent_of(bullet_damage(settings, level), settings.shrapnel_damage_percent as int) as int
    }
}

/// Damage and EMP shutdown of an explosion by its kind: bullets and
/// shrapnel only when they struck us, bombs by distance, bursts always; a
/// thor blasts as a bomb of level three.
pub open spec fn kind_damage(
    settings: ArenaSettings,
    event: WeaponExplosionEvent,
    me_id: PlayerId,
    distance: i32,
    shooter_distance: Option<i32>,
) -> (int, Option<u32>) {
    let hit_me = event.hit_player == Some(me_id);
    match event.kind {
        WeaponKind::Bullet(b) => (if hit_me { bullet_damage(settings, b.level) } else { 0 }, None),
        WeaponKind::BouncingBullet(b) => (if hit_me { bullet_damage(settings, b.level) } else { 0 }, None),
        WeaponKind::Shrapnel(s) => (if hit_me { shrapnel_damage(settings, event, s.level) } else { 0 }, None),
        WeaponKind::Bomb(b) => bomb_hit(settings, event, b, b.level, me_id, distance, shooter_distance),
        WeaponKind::ProximityBomb(b) => bomb_hit(settings, event, b, b.level, me_id, distance, shooter_distance),
        WeaponKind::Thor(b) => bomb_hit(settings, event, b, 3, me_id, distance, shooter_distance),
        WeaponKind::Burst(_) => (settings.burst_damage_level as int, None),
        _ => (0, None),
    }
}

/// The damage left after a running shield takes its share, which shrinks
/// as the shield runs out.
pub open spec fn shielded(damage: int, s: Ship, ss: ShipSettings) -> int {
    if s.shield_remaining_ticks > 0 {
        damage - (trunc_div(damage * s.shield_remaining_ticks, ss.shield_time as int) as i32)
    } else {
        damage
    }
}

/// The sums and products of the damage rules for the explosion's kind stay
/// within `i32`.
pub open spec fn kind_damage_fits(settings: ArenaSettings, event: WeaponExplosionEvent, me_id: PlayerId) -> bool {
    let hit_me = event.hit_player == Some(me_id);
    match event.kind {
        WeaponKind::Bullet(b) => hit_me ==> fits_i32(settings.bullet_damage_upgrade * b.level) && fits_i32(bullet_damage(settings, b.level)),
        WeaponKind::BouncingBullet(b) => hit_me ==> fits_i32(settings.bullet_damage_upgrade * b.level) && fits_i32(bullet_damage(settings, b.level)),
        WeaponKind::Shrapnel(sh) => hit_me ==> {
            let alive_time = settings.bullet_alive_time - (event.remaining_ticks as i32);
            &&& fits_i32(alive_time)
            &&& alive_time <= 25 ==> fits_i32(settings.inactive_shrap_damage * sh.level)
            &&& alive_time > 25 ==> fits_i32(settings.bullet_damage_upgrade * sh.level) && fits_i32(bullet_damage(settings, sh.level))
        },
        _ => true,
    }
}

/// The damage rules stay within `i32`, and a running shield has a
/// duration to divide by.
pub open spec fn damage_fits(settings: ArenaSettings, event: WeaponExplosionEvent, me_id: PlayerId, s: Ship, ss: ShipSettings, distance: i32, shooter_distance: Option<i32>) -> bool {
    &&& kind_damage_fits(settings, event, me_id)
    &&& s.shield_remaining_ticks > 0 ==> {
        &&& ss.shield_time > 0
        &&& fits_i32(shielded(kind_damage(settings, event, me_id, distance, shooter_distance).0, s, ss))
    }
}

/// The damage that reaches us once the flagger settings have scaled it.
pub open spec fn flagged_damage(damage: i32, me: Player, settings: ArenaSettings) -> i32 {
    if flagger(me, settings) { percent_of(damage as int, settings.flagger_damage_percent as int) } else { damage }
}

pub open spec fn is_bomb(k: WeaponKind) -> bool {
    k is Bomb || k is ProximityBomb || k is Thor
}

/// The ship after taking `damage`, and whether that killed it: damage
/// beyond the energy left from one's own bomb leaves one unit instead;
/// other damage drains the energy down to zero, which is death.
pub open spec fn damage_taken(s: Ship, me: Player, event: WeaponExplosionEvent, damage: i32) -> (Ship, bool) {
    if damage > 0 {
        if (damage as u32) > s.current_energy && is_bomb(event.kind) && event.shooter == me.id {
            (Ship { current_energy: 1000, ..s }, false)
        } else {
            let e: u32 = if s.current_energy > (damage as u32) { (s.current_energy - (damage as u32)) as u32 } else { 0 };
            (Ship { current_energy: e, ..s }, e == 0)
        }
    } else {
        (s, false)
    }
}

/// The damage and a share of it stay within `share`'s full amount.
proof fn lemma_share_bound(full: int, ep: int, k: int)
    requires
        0 < ep,
        0 <= k <= ep,
    ensures
        full >= 0 ==> 0 <= k * trunc_div(full, ep) <= full,
        full < 0 ==> full <= k * trunc_div(full, ep) <= 0,
        full == 0 || k == 0 || k * trunc_div(full, ep) == 0 || (full > 0) == (k * trunc_div(full, ep) > 0),
        k * trunc_div(full, ep) > 0 ==> full > 0,
{
    if full >= 0 {
        let q = full / ep;
        vstd::arithmetic::div_mod::lemma_fundamental_div_mod(full, ep);
        assert(0 <= q);
        assert(q * ep <= full) by (nonlinear_arith)
            requires
                full == ep * q + full % ep,
                0 <= full % ep;
        assert(0 <= k * q <= full) by (nonlinear_arith)
            requires
                0 <= k <= ep,
                0 <= q,
                q * ep <= full;
    } else {
        let q = (-full) / ep;
        vstd::arithmetic::div_mod::lemma_fundamental_div_mod(-full, ep);
        assert(0 <= q);
        assert(q * ep <= -full) by (nonlinear_arith)
            requires
                -full == ep * q + (-full) % ep,
                0 <= (-full) % ep;
        assert(0 <= k * q <= -full) by (nonlinear_arith)
            requires
                0 <= k <= ep,
                0 <= q,
                q * ep <= -full;
        assert(k * trunc_div(full, ep) == -(k * q)) by (nonlinear_arith)
            requires
                trunc_div(full, ep) == -q;
    }
}

fn percent_i32(v: i32, pct: u16) -> (r: i32)
    ensures
        r == percent_of(v as int, pct as int),
{
    assert(-0x8000_0000 * 65535 <= (v as int) * (pct as int) <= 0x7FFF_FFFF * 65535) by (nonlinear_arith)
        requires
            i32::MIN <= v <= i32::MAX,
            0 <= pct <= 65535;
    let scaled = div_i64(v as i64 * pct as i64, 1000);
    #[verifier::truncate]
    (scaled as i32)
}

fn bomb_blast(
    settings: &ArenaSettings,
    event: &WeaponExplosionEvent,
    b: &BombWeapon,
    level: u8,
    me_id: PlayerId,
    distance: i32,
    shooter_distance: Option<i32>,
) -> (r: (i32, Option<u32>))
    requires
        distance >= 0,
        shooter_distance matches Some(d) ==> d >= 0,
    ensures
        r.0 as int == bomb_hit(*settings, *event, *b, level, me_id, distance, shooter_distance).0,
        r.1 == bomb_hit(*settings, *event, *b, level, me_id, distance, shooter_distance).1,
{
    let mut full: i32 = settings.bomb_damage_level;
    if b.emp {
        full = percent_i32(full, settings.ebomb_damage_percent);
    }
    if b.remaining_bounces > 0 {
        full = percent_i32(full, settings.bouncing_bomb_damage_percent);
    }
    assert(full == bomb_full_damage(*settings, *b));
    assert(0 <= (settings.bomb_explode_pixels as int) * (level as int) <= 65535 * 255) by (nonlinear_arith)
        requires
            0 <= settings.bomb_explode_pixels <= 65535,
            0 <= level <= 255;
    let ep: i32 = settings.bomb_explode_pixels as i32 + settings.bomb_explode_pixels as i32 * level as i32;
    if distance < ep {
        let share = div_i32(full, ep);
        proof {
            lemma_share_bound(full as int, ep as int, (ep - distance) as int);
        }
        let mut damage: i32 = (ep - distance) * share;
        if event.shooter != me_id {
            if let Some(sd) = shooter_distance {
                if sd < ep {
                    proof {
                        lemma_share_bound(full as int, ep as int, (ep - sd) as int);
                    }
                    let reduction = div_i32((ep - sd) * share, 2);
                    damage = damage - reduction;
                    if damage < 0 {
                        damage = 0;
                    }
                }
            }
        }
        let mut emp: Option<u32> = None;
        if damage > 0 && b.emp && event.shooter != me_id {
            assert(full != 0);
            assert(0 <= (settings.ebomb_shutdown_time as int) * (damage as int) <= 65535 * 0x7FFF_FFFF) by (nonlinear_arith)
                requires
                    0 <= settings.ebomb_shutdown_time <= 65535,
                    0 < damage <= 0x7FFF_FFFF;
            let ticks = div_i64(settings.ebomb_shutdown_time as i64 * damage as i64, full as i64);
            if ticks > 0 {
                emp = Some(#[verifier::truncate] (ticks as u32));
            }
        }
        (damage, emp)
    } else {
        (0, None)
    }
}

fn kind_blast(
    settings: &ArenaSettings,
    event: &WeaponExplosionEvent,
    me_id: PlayerId,
    distance: i32,
    shooter_distance: Option<i32>,
) -> (r: (i32, Option<u32>))
    requires
        distance >= 0,
        shooter_distance matches Some(d) ==> d >= 0,
        kind_damage_fits(*settings, *event, me_id),
    ensures
        r.0 as int == kind_damage(*settings, *event, me_id, distance, shooter_distance).0,
        r.1 == kind_damage(*settings, *event, me_id, distance, shooter_distance).1,
{
    let hit_me = match event.hit_player {
        Some(id) => id == me_id,
        None => false,
    };
    match &event.kind {
        WeaponKind::Bullet(b) => {
            if hit_me {
                (settings.bullet_damage_level + settings.bullet_damage_upgrade * b.level as i32, None)
            } else {
                (0, None)
            }
        },
        WeaponKind::BouncingBullet(b) => {
            if hit_me {
                (settings.bullet_damage_level + settings.bullet_damage_upgrade * b.level as i32, None)
            } else {
                (0, None)
            }
        },
        WeaponKind::Shrapnel(shrapnel) => {
            if hit_me {
                let alive_time = settings.bullet_alive_time - #[verifier::truncate] (event.remaining_ticks as i32);
                if alive_time <= 25 {
                    (settings.inactive_shrap_damage * shrapnel.level as i32, None)
                } else {
                    let damage = settings.bullet_damage_level + settings.bullet_damage_upgrade * shrapnel.level as i32;
                    (percent_i32(damage, settings.shrapnel_damage_percent), None)
                }
            } else {
                (0, None)
            }
        },
        WeaponKind::Bomb(b) => bomb_blast(settings, event, b, b.level, me_id, distance, shooter_distance),
        WeaponKind::ProximityBomb(b) => bomb_blast(settings, event, b, b.level, me_id, distance, shooter_distance),
        WeaponKind::Thor(b) => bomb_blast(settings, event, b, 3, me_id, distance, shooter_distance),
        WeaponKind::Burst(_) => (settings.burst_damage_level, None),
        _ => (0, None),
    }
}

/// An explosion can hurt our ship: it has energy, our player is in the
/// arena with a position, and not in a safe zone.
pub open spec fn exposed(s: Ship, pm: PlayerManager) -> bool {
    &&& s.current_energy != 0
    &&& pm.contains_id(pm.self_id)
    &&& pm.player_with_id(pm.self_id).position is Some
    &&& pm.player_with_id(pm.self_id).status & STATUS_SAFETY == 0
}

/// The damage of a bullet or burst is rolled where the arena does not
/// deal exact damage.
pub open spec fn rolled(settings: ArenaSettings, event: WeaponExplosionEvent, damage: i32) -> bool {
    !settings.exact_damage && damage > 0 && (event.kind is Bullet || event.kind is BouncingBullet || event.kind is Burst)
}

/// Our own ship and the state of its controls.
pub struct ShipController {
    pub ship: Ship,
    /// The player we asked to attach to, until the attachment settles.
    pub pending_attach_target: Option<PlayerId>,
    /// Ticks left of the crown, shown in place of a flag timer.
    pub crown_remaining_ticks: u32,
}

impl ShipController {
    pub fn new() -> (r: ShipController)
        ensures
            r.ship.kind == ShipKind::Spectator,
            r.ship.current_energy == 0 && r.ship.max_energy == 0,
            r.ship.bounty == 0 && r.ship.status == 0 && r.ship.capability == 0,
            r.ship.portal_position is None,
            r.ship.weapon is None,
            r.pending_attach_target is None,
            r.crown_remaining_ticks == 0,
    {
        ShipController { ship: Ship::new(), pending_attach_target: None, crown_remaining_ticks: 0 }
    }

    /// Puts the ship back to its starting state as `ship_kind`.
    pub fn reset_ship(&mut self, settings: &ArenaSettings, current_tick: GameTick, ship_kind: ShipKind)
        ensures
            final(self).ship == reset_result(*settings, old(self).ship, current_tick, ship_kind),
    {
        self.ship.reset(settings, current_tick, ship_kind);
    }

    /// Runs every timed effect of the ship down by one tick.
    #[verifier::rlimit(30)]
    pub fn tick_effects(&mut self)
        ensures
            final(self).ship == effects_ticked(old(self).ship),
    {
        if self.ship.repel_effect_remaining_ticks > 0 {
            self.ship.repel_effect_remaining_ticks = self.ship.repel_effect_remaining_ticks - 1;
        }
        if self.ship.emped_remaining_ticks > 0 {
            self.ship.emped_remaining_ticks = self.ship.emped_remaining_ticks - 1;
        }
        if self.ship.super_remaining_ticks > 0 {
            self.ship.super_remaining_ticks = self.ship.super_remaining_ticks - 1;
        }
        if self.ship.shield_remaining_ticks > 0 {
            self.ship.shield_remaining_ticks = self.ship.shield_remaining_ticks - 1;
        }
        if self.ship.portal_remaining_ticks > 0 {
            self.ship.portal_remaining_ticks = self.ship.portal_remaining_ticks - 1;
            if self.ship.portal_remaining_ticks == 0 {
                self.ship.portal_position = None;
            }
        }
        if self.ship.flag_remaining_ticks > 0 {
            self.ship.flag_remaining_ticks = self.ship.flag_remaining_ticks - 1;
        }
        if self.ship.fake_antiwarp_remaining_ticks > 0 {
            self.ship.fake_antiwarp_remaining_ticks = self.ship.fake_antiwarp_remaining_ticks - 1;
        }
        if self.ship.rocket_remaining_ticks > 0 {
            self.ship.rocket_remaining_ticks = self.ship.rocket_remaining_ticks - 1;
        }
        if self.ship.shutdown_remaining_ticks > 0 {
            self.ship.shutdown_remaining_ticks = self.ship.shutdown_remaining_ticks - 1;
        }
    }

    /// Charges one tick of a running status, or switches it off when the
    /// energy no longer exceeds its cost.
    pub fn tick_status(&mut self, status_flag: u8, cost: u32)
        ensures
            final(self).ship == status_ticked(old(self).ship, status_flag, cost),
    {
        if self.ship.status & status_flag != 0 {
            if self.ship.current_energy > cost {
                self.ship.current_energy = self.ship.current_energy - cost;
            } else {
                self.ship.status = self.ship.status & !status_flag;
            }
        }
    }

    /// Recharges the ship, applies the pressed toggles and charges the
    /// running statuses for one tick.
    pub fn tick_abilities(&mut self, input_state: &InputState, ship_settings: &ShipSettings)
        requires
            old(self).ship.emped_remaining_ticks == 0 ==> old(self).ship.current_energy + old(self).ship.recharge <= u32::MAX,
        ensures
            final(self).ship == abilities_ticked(*input_state, old(self).ship, *ship_settings),
    {
        if self.ship.emped_remaining_ticks == 0 {
            let charged = self.ship.current_energy + self.ship.recharge;
            self.ship.current_energy = if charged < self.ship.max_energy { charged } else { self.ship.max_energy };
        }
        if input_state.is_triggered(InputAction::Multifire) && self.ship.capability & CAPABILITY_MULTIFIRE != 0 {
            self.ship.multifire = !self.ship.multifire;
        }
        let before = self.ship.status;
        if input_state.is_triggered(InputAction::Stealth) && self.ship.capability & CAPABILITY_STEALTH != 0 {
            self.ship.status = self.ship.status ^ STATUS_STEALTH;
        }
        if input_state.is_triggered(InputAction::Cloak) && self.ship.capability & CAPABILITY_CLOAK != 0 {
            self.ship.status = self.ship.status ^ STATUS_CLOAK;
        }
        if input_state.is_triggered(InputAction::XRadar) && self.ship.capability & CAPABILITY_XRADAR != 0 {
            self.ship.status = self.ship.status ^ STATUS_XRADAR;
        }
        if input_state.is_triggered(InputAction::Antiwarp) && self.ship.capability & CAPABILITY_ANTIWARP != 0 {
            self.ship.status = self.ship.status ^ STATUS_ANTIWARP;
        }
        proof {
            let a = toggle_bit(*input_state, old(self).ship, InputAction::Stealth, CAPABILITY_STEALTH, STATUS_STEALTH);
            let b = toggle_bit(*input_state, old(self).ship, InputAction::Cloak, CAPABILITY_CLOAK, STATUS_CLOAK);
            let c = toggle_bit(*input_state, old(self).ship, InputAction::XRadar, CAPABILITY_XRADAR, STATUS_XRADAR);
            let d = toggle_bit(*input_state, old(self).ship, InputAction::Antiwarp, CAPABILITY_ANTIWARP, STATUS_ANTIWARP);
            assert(forall|x: u8| #[trigger] (x ^ 0u8) == x) by (bit_vector);
            assert(self.ship.status == before ^ a ^ b ^ c ^ d);
        }
        self.tick_status(STATUS_XRADAR, ship_settings.xradar_energy as u32);
        self.tick_status(STATUS_STEALTH, ship_settings.stealth_energy as u32);
        self.tick_status(STATUS_CLOAK, ship_settings.cloak_energy as u32);
        self.tick_status(STATUS_ANTIWARP, ship_settings.antiwarp_energy as u32);
    }

    /// Decides a tick of acceleration for our player: the afterburners,
    /// the thrust and the speed limit, and pays for the afterburners. The
    /// thrust goes along the ship's heading, which is floating point, so
    /// the caller applies it to the velocity.
    pub fn perform_acceleration(
        &mut self,
        input_state: &InputState,
        player_manager: &PlayerManager,
        settings: &ArenaSettings,
    ) -> (r: Acceleration)
        requires
            player_manager.wf(),
            player_manager.contains_id(player_manager.self_id),
            player_manager.player_with_id(player_manager.self_id).ship_kind != ShipKind::Spectator,
        ensures
            ({
                let me = player_manager.player_with_id(player_manager.self_id);
                let ss = settings.ship(me.ship_kind);
                let ab = afterburners_on(*input_state, old(self).ship, ss);
                let flagging = flagger(me, *settings);
                &&& r.afterburners == ab
                &&& r.thrust == if me.attach_parent.is_valid() {
                    None
                } else {
                    Some(thrust_of(old(self).ship, ss, *settings, ab, flagging))
                }
                &&& r.speed == speed_of(old(self).ship, ss, *settings, ab, flagging)
                &&& final(self).ship == if ab {
                    Ship { current_energy: (old(self).ship.current_energy - ss.afterburner_energy) as u32, ..old(self).ship }
                } else {
                    old(self).ship
                }
            }),
    {
        proof {
            player_manager.lemma_lookup(player_manager.self_id);
        }
        let me = player_manager.get_self().unwrap();
        let ship_settings = settings.get_ship_settings(me.ship_kind);
        let flagging = me.flag_count > 0 || (me.carrying_ball && settings.powerball_flag_upgrades);
        let rocket_enabled = self.ship.rocket_remaining_ticks > 0;
        let engine_shutdown = self.ship.shutdown_remaining_ticks > 0;
        let afterburners_cost = ship_settings.afterburner_energy as u32;
        let afterburners_enabled = input_state.is_down(InputAction::Afterburner)
            && self.ship.current_energy > afterburners_cost;

        let thrust = if !me.attach_parent.valid() {
            let mut thrust = if afterburners_enabled {
                ship_settings.maximum_thrust as u32
            } else {
                self.ship.thrust
            };
            if engine_shutdown {
                thrust = 0;
            }
            if rocket_enabled {
                thrust = settings.rocket_thrust as u32;
            }
            if flagging {
                let new_thrust: i64 = thrust as i64 + settings.flagger_thrust_adjustment as i64;
                if new_thrust < 0 {
                    thrust = 0;
                } else {
                    thrust = new_thrust as u32;
                }
            }
            Some(thrust)
        } else {
            None
        };

        let mut speed = if afterburners_enabled {
            ship_settings.maximum_speed as u32
        } else {
            self.ship.speed
        };
        if rocket_enabled {
            speed = settings.rocket_speed as u32;
            if speed < self.ship.speed {
                speed = self.ship.speed;
            }
        }
        if self.ship.repel_effect_remaining_ticks > 0 {
            speed = settings.repel_speed as u32;
        }
        if flagging {
            let new_speed: i64 = speed as i64 + settings.flagger_speed_adjustment as i64;
            if new_speed < 0 {
                speed = 0;
            } else {
                speed = new_speed as u32;
            }
        }

        if afterburners_enabled {
            self.ship.current_energy = self.ship.current_energy - afterburners_cost;
        }
        Acceleration { afterburners: afterburners_enabled, thrust, speed }
    }

    /// Turns the ship by its rotation for each held turn key, keeps the
    /// orientation within one turn, and gives our player the new direction.
    pub fn perform_rotation(&mut self, input_state: &InputState, player_manager: &mut PlayerManager)
        requires
            old(player_manager).wf(),
            rotation_fits(
                old(self).ship.current_orientation,
                old(self).ship.rotation,
                input_state.held(InputAction::MoveLeft),
                input_state.held(InputAction::MoveRight),
            ),
        ensures
            final(self).ship == (Ship {
                current_orientation: rotated(
                    old(self).ship.current_orientation,
                    old(self).ship.rotation,
                    input_state.held(InputAction::MoveLeft),
                    input_state.held(InputAction::MoveRight),
                ),
                ..old(self).ship
            }),
            final(player_manager).self_id == old(player_manager).self_id,
            final(player_manager).player_mapping == old(player_manager).player_mapping,
            old(player_manager).contains_id(old(player_manager).self_id) ==> final(player_manager).players@
                == old(player_manager).players@.update(
                    old(player_manager).index_of(old(player_manager).self_id),
                    Player {
                        direction: direction_of(final(self).ship.current_orientation),
                        ..old(player_manager).player_with_id(old(player_manager).self_id)
                    },
                ),
            !old(player_manager).contains_id(old(player_manager).self_id) ==> final(player_manager).players@
                == old(player_manager).players@,
    {
        let step = self.ship.rotation as i32;
        if input_state.is_down(InputAction::MoveLeft) {
            self.ship.current_orientation = self.ship.current_orientation - step;
        }
        if input_state.is_down(InputAction::MoveRight) {
            self.ship.current_orientation = self.ship.current_orientation + step;
        }
        if self.ship.current_orientation < 0 {
            self.ship.current_orientation = self.ship.current_orientation + MAX_ORIENTATION;
        }
        if self.ship.current_orientation >= MAX_ORIENTATION {
            self.ship.current_orientation = self.ship.current_orientation - MAX_ORIENTATION;
        }
        let direction = self.ship.get_direction();
        if let Some(me) = player_manager.get_self_mut() {
            me.direction = direction;
        }
    }

    /// Fires what the pressed keys ask for in this tick, as far as the
    /// delays, the store of items and the energy allow; the weapon fired,
    /// if any, is left in the ship's `weapon`. Whether an enemy antiwarp
    /// holds the ship, and where a warp without a portal puts it, are
    /// given. A bomb's shrapnel seed depends on the ship's floating-point
    /// heading, so the caller seeds a fired bomb.
    pub fn fire_weapons(
        &mut self,
        input_state: &InputState,
        player_manager: &mut PlayerManager,
        powerball_manager: &mut PowerballManager,
        map: &TileMap,
        settings: &ArenaSettings,
        current_tick: GameTick,
        afterburners_enabled: bool,
        antiwarped: bool,
        spawn_position: Position,
    ) -> (r: FireRequests)
        requires
            old(player_manager).wf(),
            map.wf(),
            old(player_manager).contains_id(old(player_manager).self_id),
            old(player_manager).player_with_id(old(player_manager).self_id).ship_kind != ShipKind::Spectator,
            ({
                let me = old(player_manager).player_with_id(old(player_manager).self_id);
                let ss = settings.ship(me.ship_kind);
                match me.position {
                    Some(pos) => {
                        let ctx = fire_context(me, pos, *map, *settings, old(self).ship, current_tick,
                            afterburners_enabled, antiwarped, spawn_position, old(powerball_manager).carry_state);
                        let start = FirePlan {
                            ship: old(self).ship,
                            weapon: None,
                            energy_cost: 0,
                            done: false,
                            position: me.position,
                            velocity_cleared: false,
                            brick: None,
                            powerball: None,
                        };
                        let p = plan_before_finish(*input_state, start, ctx, *settings, ss);
                        !p.done && p.weapon is Some && !ctx.in_safe ==> p.energy_cost * 1000 <= i32::MAX
                    },
                    None => true,
                }
            }),
        ensures
            final(player_manager).self_id == old(player_manager).self_id,
            final(player_manager).player_mapping == old(player_manager).player_mapping,
            final(powerball_manager).balls == old(powerball_manager).balls,
            ({
                let me = old(player_manager).player_with_id(old(player_manager).self_id);
                let ss = settings.ship(me.ship_kind);
                match me.position {
                    None => {
                        &&& final(self).ship == (Ship { weapon: None, ..old(self).ship })
                        &&& final(player_manager).players@ == old(player_manager).players@
                        &&& final(powerball_manager).carry_state == old(powerball_manager).carry_state
                        &&& r.brick is None && r.powerball is None
                    },
                    Some(pos) => {
                        let ctx = fire_context(me, pos, *map, *settings, old(self).ship, current_tick,
                            afterburners_enabled, antiwarped, spawn_position, old(powerball_manager).carry_state);
                        let plan = fire_plan(*input_state, old(self).ship, me, ctx, *settings, ss);
                        &&& final(self).ship == (Ship { weapon: if plan.done { None } else { plan.weapon }, ..plan.ship })
                        &&& final(player_manager).players@ == old(player_manager).players@.update(
                            old(player_manager).index_of(old(player_manager).self_id),
                            Player {
                                position: plan.position,
                                velocity: if plan.velocity_cleared {
                                    Velocity { x: PositionUnit(0), y: PositionUnit(0) }
                                } else {
                                    me.velocity
                                },
                                ..me
                            },
                        )
                        &&& final(powerball_manager).carry_state == if plan.done {
                            None
                        } else {
                            old(powerball_manager).carry_state
                        }
                        &&& r.brick == plan.brick
                        &&& r.powerball == plan.powerball
                    },
                }
            }),
    {
        proof {
            player_manager.lemma_lookup(player_manager.self_id);
        }
        let me = player_manager.get_self().unwrap();
        let ship_settings = settings.get_ship_settings(me.ship_kind);
        let me_position = match me.position {
            Some(position) => position,
            None => {
                self.ship.weapon = None;
                return FireRequests { brick: None, powerball: None };
            },
        };
        let in_safe = map.get_tile_from_position(&me_position) == TILE_ID_SAFE;
        let can_fast_shoot = !afterburners_enabled || !ship_settings.disable_fast_shooting;
        let flagging = me.flag_count > 0 || (me.carrying_ball && settings.powerball_flag_upgrades);
        let delay: i32 = ship_settings.bomb_fire_delay as i32 + if flagging {
            settings.flagger_bomb_fire_delay as i32
        } else {
            0
        };
        let carry = match &powerball_manager.carry_state {
            Some(c) => Some(#[verifier::truncate] (c.ball_id as u8)),
            None => None,
        };
        let ctx = FireContext {
            current_tick,
            position: me_position,
            in_safe,
            can_fast_shoot,
            flagging,
            bomb_fire_delay: if delay < 0 { 0 } else { delay },
            has_super: self.ship.super_remaining_ticks > 0,
            direction: me.direction,
            antiwarped,
            spawn_position,
            carry,
        };
        let start = FirePlan {
            ship: self.ship,
            weapon: None,
            energy_cost: 0,
            done: false,
            position: me.position,
            velocity_cleared: false,
            brick: None,
            powerball: None,
        };
        let a = run_items(input_state, start, &ctx);
        let b = run_brick_and_rocket(input_state, a, &ctx, ship_settings);
        let c = run_portal(input_state, b, &ctx, settings);
        let d = run_warp(input_state, c, &ctx, settings);
        let e = run_gun(input_state, d, &ctx, settings, ship_settings);
        let f = run_bomb(input_state, e, &ctx, settings, ship_settings, true);
        let g = run_bomb(input_state, f, &ctx, settings, ship_settings, false);
        let plan = run_finish(g, &ctx);
        self.ship = plan.ship;
        self.ship.weapon = if plan.done { None } else { plan.weapon };
        if plan.done {
            powerball_manager.clear_carry_state();
        }
        if let Some(me) = player_manager.get_self_mut() {
            me.position = plan.position;
            if plan.velocity_cleared {
                me.velocity.clear();
            }
        }
        FireRequests { brick: plan.brick, powerball: plan.powerball }
    }

    /// Of an explosion, the damage that reaches our ship once a running
    /// shield has taken its share; an EMP bomb also shuts the engine down.
    /// Nothing reaches a ship without energy, a player that is not in the
    /// arena or has no position, or one in a safe zone. `distance` is the
    /// ship's distance from the explosion in pixels along the longer axis,
    /// `shooter_distance` the shooter's, where the shooter has a position.
    pub fn explosion_damage(
        &mut self,
        player_manager: &PlayerManager,
        settings: &ArenaSettings,
        event: &WeaponExplosionEvent,
        distance: i32,
        shooter_distance: Option<i32>,
    ) -> (r: Option<i32>)
        requires
            player_manager.wf(),
            distance >= 0,
            shooter_distance matches Some(d) ==> d >= 0,
            exposed(old(self).ship, *player_manager) ==> {
                let me = player_manager.player_with_id(player_manager.self_id);
                &&& old(self).ship.shield_remaining_ticks > 0 ==> me.ship_kind != ShipKind::Spectator
                &&& damage_fits(*settings, *event, player_manager.self_id, old(self).ship,
                    settings.ship(me.ship_kind), distance, shooter_distance)
            },
        ensures
            !exposed(old(self).ship, *player_manager) ==> r is None && final(self).ship == old(self).ship,
            exposed(old(self).ship, *player_manager) ==> {
                let me = player_manager.player_with_id(player_manager.self_id);
                let hit = kind_damage(*settings, *event, player_manager.self_id, distance, shooter_distance);
                &&& r == Some(shielded(hit.0, old(self).ship, settings.ship(me.ship_kind)) as i32)
                &&& final(self).ship == match hit.1 {
                    Some(t) => Ship { emped_remaining_ticks: t, ..old(self).ship },
                    None => old(self).ship,
                }
            },
    {
        if self.ship.current_energy == 0 {
            return None;
        }
        proof {
            player_manager.lemma_lookup(player_manager.self_id);
        }
        let me = match player_manager.get_self() {
            Some(me) => me,
            None => return None,
        };
        if me.position.is_none() {
            return None;
        }
        if me.status & STATUS_SAFETY != 0 {
            return None;
        }
        let (mut damage, emp) = kind_blast(settings, event, player_manager.self_id, distance, shooter_distance);
        if let Some(ticks) = emp {
            self.ship.emped_remaining_ticks = ticks;
        }
        if self.ship.shield_remaining_ticks > 0 {
            let ship_settings = settings.get_ship_settings(me.ship_kind);
            assert(-0x8000_0000 * 0xFFFF_FFFF <= (damage as int) * (self.ship.shield_remaining_ticks as int) <= 0x7FFF_FFFF * 0xFFFF_FFFF) by (nonlinear_arith)
                requires
                    i32::MIN <= damage <= i32::MAX,
                    0 <= self.ship.shield_remaining_ticks <= 0xFFFF_FFFF;
            let reduction = div_i64(damage as i64 * self.ship.shield_remaining_ticks as i64, ship_settings.shield_time as i64);
            damage = damage - #[verifier::truncate] (reduction as i32);
        }
        Some(damage)
    }

    /// The range of the random roll that replaces the damage of a bullet or
    /// burst where the arena does not deal exact damage: the square root of
    /// the roll, in whole units, becomes the damage.
    pub fn damage_roll_range(settings: &ArenaSettings, event: &WeaponExplosionEvent, damage: i32) -> (r: Option<u32>)
        requires
            rolled(*settings, *event, damage) ==> (damage as u32 / 1000) * (damage as u32) <= u32::MAX,
        ensures
            r == if rolled(*settings, *event, damage) {
                Some((((damage as u32 / 1000) * (damage as u32)) / 1000 + 1) as u32)
            } else {
                None
            },
    {
        if !settings.exact_damage && damage > 0 {
            match &event.kind {
                WeaponKind::Bullet(_) | WeaponKind::BouncingBullet(_) | WeaponKind::Burst(_) => {
                    let d = damage as u32;
                    return Some(d / 1000 * d / 1000 + 1);
                },
                _ => {},
            }
        }
        None
    }

    /// Takes `damage` from an explosion, scaled for flaggers: the energy
    /// drops, but one's own bomb never kills (it leaves one unit instead);
    /// when the energy runs out our player waits out its explosion and the
    /// enter delay, and the death message for the server is returned.
    pub fn apply_damage(
        &mut self,
        player_manager: &mut PlayerManager,
        settings: &ArenaSettings,
        event: &WeaponExplosionEvent,
        damage: i32,
        explosion_duration: u32,
    ) -> (r: Option<DeathMessage>)
        requires
            old(player_manager).wf(),
            old(player_manager).contains_id(old(player_manager).self_id),
            ({
                let me = old(player_manager).player_with_id(old(player_manager).self_id);
                damage_taken(old(self).ship, me, *event, flagged_damage(damage, me, *settings)).1
                    ==> settings.enter_delay + (explosion_duration as u16) <= u16::MAX
            }),
        ensures
            final(player_manager).self_id == old(player_manager).self_id,
            final(player_manager).player_mapping == old(player_manager).player_mapping,
            ({
                let me = old(player_manager).player_with_id(old(player_manager).self_id);
                let taken = damage_taken(old(self).ship, me, *event, flagged_damage(damage, me, *settings));
                &&& final(self).ship == taken.0
                &&& taken.1 ==> {
                    &&& r == Some(DeathMessage { killer_id: event.shooter, bounty: me.bounty })
                    &&& final(player_manager).players@ == old(player_manager).players@.update(
                        old(player_manager).index_of(old(player_manager).self_id),
                        Player { enter_delay: (settings.enter_delay + (explosion_duration as u16)) as u16, ..me },
                    )
                }
                &&& !taken.1 ==> r is None && final(player_manager).players@ == old(player_manager).players@
            }),
    {
        proof {
            player_manager.lemma_lookup(player_manager.self_id);
        }
        let me = player_manager.get_self().unwrap();
        let mut damage = damage;
        if me.flag_count > 0 || (me.carrying_ball && settings.powerball_flag_upgrades) {
            damage = percent_i32(damage, settings.flagger_damage_percent);
        }
        let me_id = me.id;
        let bounty = me.bounty;
        if damage > 0 {
            let mut apply = true;
            if damage as u32 > self.ship.current_energy {
                let bomb = match &event.kind {
                    WeaponKind::Bomb(_) | WeaponKind::ProximityBomb(_) | WeaponKind::Thor(_) => true,
                    _ => false,
                };
                if bomb && event.shooter == me_id {
                    self.ship.current_energy = 1000;
                    apply = false;
                }
            }
            if apply {
                self.ship.current_energy = if self.ship.current_energy > damage as u32 {
                    self.ship.current_energy - damage as u32
                } else {
                    0
                };
                if self.ship.current_energy == 0 {
                    let delay = settings.enter_delay + #[verifier::truncate] (explosion_duration as u16);
                    if let Some(me) = player_manager.get_self_mut() {
                        me.enter_delay = delay;
                    }
                    return Some(DeathMessage { killer_id: event.shooter, bounty });
                }
            }
        }
        None
    }

    /// Index of the gun icon for the ship's guns, if it has any.
    pub fn get_gun_renderable_index(&self) -> (r: Option<usize>)
        ensures
            r == gun_icon(self.ship),
    {
        if self.ship.guns == 0 {
            return None;
        }
        let mut index: usize = 0;
        if self.ship.capability & CAPABILITY_MULTIFIRE != 0 {
            if self.ship.multifire {
                index = 3;
            } else {
                index = 6;
            }
        }
        if self.ship.capability & CAPABILITY_BOUNCING_BULLETS != 0 {
            index = index + 9;
        }
        Some(index + self.ship.guns as usize - 1)
    }

    /// Index of the bomb icon for the ship's bombs, if it has any.
    pub fn get_bomb_renderable_index(&self) -> (r: Option<usize>)
        ensures
            r == bomb_icon(self.ship),
    {
        if self.ship.bombs == 0 {
            return None;
        }
        let mut index: usize = 18;
        let prox = self.ship.capability & CAPABILITY_PROXIMITY != 0;
        if prox && self.ship.shrapnel == 0 {
            index = index + 3;
        } else if prox && self.ship.shrapnel > 0 {
            index = index + 9;
        } else if !prox && self.ship.shrapnel > 0 {
            index = index + 6;
        }
        Some(index + self.ship.bombs as usize - 1)
    }
}

/// An orientation within one turn stays within one turn after a tick of
/// turning, when a rotation step is at most a full turn.
pub proof fn lemma_rotation_stays_within_turn(orientation: i32, rotation: u32, left: bool, right: bool)
    requires
        0 <= orientation < MAX_ORIENTATION,
        rotation <= MAX_ORIENTATION,
    ensures
        rotation_fits(orientation, rotation, left, right),
        0 <= rotated(orientation, rotation, left, right) < MAX_ORIENTATION,
{
}


/// No weapon leaves a safe tile: whatever is pressed, a tick of firing
/// there ends with no weapon in the ship.
pub proof fn lemma_nothing_fires_in_safe(
    input: InputState,
    s: Ship,
    me: Player,
    ctx: FireContext,
    settings: ArenaSettings,
    ss: ShipSettings,
)
    requires
        ctx.in_safe,
    ensures
        ({
            let plan = fire_plan(input, s, me, ctx, settings, ss);
            (if plan.done { None } else { plan.weapon }) is None
        }),
{
    reveal(plan_finish);
}

/// One's own bomb never kills, unless its damage is exactly the energy
/// left: damage beyond the energy leaves one unit.
pub proof fn lemma_own_bomb_never_kills(s: Ship, me: Player, event: WeaponExplosionEvent, damage: i32)
    requires
        is_bomb(event.kind),
        event.shooter == me.id,
        damage as u32 != s.current_energy,
    ensures
        !damage_taken(s, me, event, damage).1,
{
}


/// A thor blasts as a bomb of level three, whatever level its bomb data
/// holds: its radius is four times the bomb radius, and the damage falls
/// off linearly from the full bomb damage at the centre to nothing at the
/// edge, here for a plain (not EMP, no bounces left) thor of another
/// player whose own ship is not hit.
pub proof fn lemma_thor_blast(
    settings: ArenaSettings,
    event: WeaponExplosionEvent,
    b: BombWeapon,
    me_id: PlayerId,
    distance: i32,
)
    requires
        event.kind == WeaponKind::Thor(b),
        !b.emp,
        b.remaining_bounces == 0,
        event.shooter != me_id,
        distance >= 0,
    ensures
        ({
            let radius = 4 * settings.bomb_explode_pixels;
            kind_damage(settings, event, me_id, distance, None).0 == if distance < radius {
                (radius - distance) * trunc_div(settings.bomb_damage_level as int, radius)
            } else {
                0
            }
        }),
        kind_damage(settings, event, me_id, distance, None).1 is None,
{
}

/// The level held in a thor's bomb data makes no difference to its blast.
pub proof fn lemma_thor_level_ignored(
    settings: ArenaSettings,
    event: WeaponExplosionEvent,
    b: BombWeapon,
    level: u8,
    me_id: PlayerId,
    distance: i32,
    shooter_distance: Option<i32>,
)
    requires
        event.kind == WeaponKind::Thor(b),
    ensures
        kind_damage(settings, event, me_id, distance, shooter_distance)
            == kind_damage(settings, WeaponExplosionEvent { kind: WeaponKind::Thor(BombWeapon { level, ..b }), ..event },
                me_id, distance, shooter_distance),
{
}

} // verus!
