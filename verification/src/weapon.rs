use vstd::prelude::*;

use crate::math::Position;
use crate::player::PlayerId;

verus! {

/// A gun shot: its level, whether it is a multifire spread, and the link
/// that ties the bullets of one spread together.
#[derive(Copy, Clone, Debug, PartialEq, Eq)]
pub struct BulletWeapon {
    pub level: u8,
    pub multi: bool,
    pub link_id: Option<u32>,
}

/// A bomb, mine or thor, with the shrapnel it scatters and the bounces it
/// has left; `rng_seed` drives the shrapnel's spread.
#[derive(Copy, Clone, Debug, PartialEq, Eq)]
pub struct BombWeapon {
    pub level: u8,
    pub shrapnel_count: u8,
    pub shrapnel_level: u8,
    pub shrapnel_bouncing: bool,
    pub mine: bool,
    pub emp: bool,
    pub remaining_bounces: u32,
    pub rng_seed: u32,
}

/// A burst, which comes alive once it first bounces.
#[derive(Copy, Clone, Debug, PartialEq, Eq)]
pub struct BurstWeapon {
    pub active: bool,
}

/// A decoy, which keeps the direction the ship faced when it was dropped.
#[derive(Copy, Clone, Debug, PartialEq, Eq)]
pub struct DecoyWeapon {
    pub initial_rotation: u8,
}

/// A piece of shrapnel: its level, and whether it bounces.
#[derive(Copy, Clone, Debug, PartialEq, Eq)]
pub struct ShrapnelWeapon {
    pub level: u8,
    pub bouncing: bool,
}

/// What a ship fires in one tick.
#[derive(Copy, Clone, Debug, PartialEq, Eq)]
pub enum WeaponKind {
    Bullet(BulletWeapon),
    BouncingBullet(BulletWeapon),
    Bomb(BombWeapon),
    ProximityBomb(BombWeapon),
    Thor(BombWeapon),
    Burst(BurstWeapon),
    Repel,
    Decoy(DecoyWeapon),
    Shrapnel(ShrapnelWeapon),
}

/// A weapon that went off: what it was, where, who fired it, the player
/// it struck directly, if any, and the ticks it had left to live.
#[derive(Copy, Clone, Debug)]
pub struct WeaponExplosionEvent {
    pub kind: WeaponKind,
    pub position: Position,
    pub shooter: PlayerId,
    pub hit_player: Option<PlayerId>,
    pub remaining_ticks: u32,
}

} // verus!
