use vstd::prelude::*;

use crate::ship::{ShipKind, ship_index};

verus! {

/// Per-ship limits and starting values announced by the arena.
#[derive(Copy, Clone, Debug)]
pub struct ShipSettings {
    pub initial_energy: u16,
    pub maximum_energy: u16,
    pub upgrade_energy: u16,
    pub initial_recharge: u16,
    pub maximum_recharge: u16,
    pub upgrade_recharge: u16,
    pub initial_rotation: u16,
    pub maximum_rotation: u16,
    pub upgrade_rotation: u16,
    pub initial_thrust: u16,
    pub maximum_thrust: u16,
    pub upgrade_thrust: u16,
    pub initial_speed: u16,
    pub maximum_speed: u16,
    pub upgrade_speed: u16,
    pub initial_guns: u8,
    pub max_guns: u8,
    pub initial_bombs: u8,
    pub max_bombs: u8,
    pub initial_repel: u8,
    pub max_repel: u8,
    pub initial_burst: u8,
    pub max_burst: u8,
    pub initial_decoy: u8,
    pub max_decoy: u8,
    pub initial_thor: u8,
    pub max_thor: u8,
    pub initial_brick: u8,
    pub max_brick: u8,
    pub initial_rocket: u8,
    pub max_rocket: u8,
    pub initial_portal: u8,
    pub max_portal: u8,
    pub stealth_status: u8,
    pub cloak_status: u8,
    pub xradar_status: u8,
    pub antiwarp_status: u8,
    pub super_time: u32,
    pub shield_time: u32,
    pub shrapnel_rate: u8,
    pub max_shrapnel: u8,
    pub initial_bounty: u16,
    pub attach_bounty: u16,
    pub turret_limit: u8,
    pub powerball_friction: u16,
    pub powerball_throw_timer: u16,
    pub radius: u16,
    pub bomb_fire_delay: u16,
    pub prize_share_limit: u16,
    pub afterburner_energy: u16,
    pub stealth_energy: u16,
    pub cloak_energy: u16,
    pub xradar_energy: u16,
    pub antiwarp_energy: u16,
    pub disable_fast_shooting: bool,
    pub rocket_time: u16,
    pub bullet_fire_energy: u16,
    pub multi_fire_energy: u16,
    pub bullet_fire_delay: u16,
    pub multi_fire_delay: u16,
    pub bomb_fire_energy: u16,
    pub bomb_fire_energy_upgrade: u16,
    pub mine_fire_energy: u16,
    pub mine_fire_energy_upgrade: u16,
    pub mine_fire_delay: u16,
    pub bomb_bounce_count: u8,
    pub emp_bomb: bool,
    pub bomb_speed: i16,
    pub powerball_speed: u16,
}

impl ShipSettings {
    /// Collision radius in pixels; a radius of 0 means the default of 14.
    pub fn get_radius(&self) -> (r: u16)
        ensures
            r == (if self.radius == 0 { 14 } else { self.radius }),
    {
        if self.radius == 0 {
            14
        } else {
            self.radius
        }
    }
}

/// Number of prize kinds that carry a weight (every prize but `None`).
pub const PRIZE_WEIGHT_COUNT: usize = 28;

/// Relative chances of each prize, indexed by prize id minus one.
#[derive(Copy, Clone, Debug)]
pub struct PrizeWeights {
    pub weights: [u8; 28],
}

/// Sum of the first `n` weights.
pub open spec fn weight_prefix(w: Seq<u8>, n: int) -> int
    decreases n,
{
    if n <= 0 {
        0
    } else {
        weight_prefix(w, n - 1) + w[n - 1]
    }
}

pub proof fn lemma_weight_prefix_bounds(w: Seq<u8>, n: int)
    requires
        0 <= n <= w.len(),
    ensures
        0 <= weight_prefix(w, n) <= 255 * n,
    decreases n,
{
    if n > 0 {
        lemma_weight_prefix_bounds(w, n - 1);
    }
}

pub proof fn lemma_weight_prefix_monotone(w: Seq<u8>, a: int, b: int)
    requires
        0 <= a <= b <= w.len(),
    ensures
        weight_prefix(w, a) <= weight_prefix(w, b),
    decreases b,
{
    if a < b {
        lemma_weight_prefix_monotone(w, a, b - 1);
    }
}

impl PrizeWeights {
    pub open spec fn total(&self) -> int {
        weight_prefix(self.weights@, 28)
    }

    pub fn calculate_total_weight(&self) -> (r: u32)
        ensures
            r == self.total(),
    {
        let mut total: u32 = 0;
        let mut i: usize = 0;
        while i < 28
            invariant
                i <= 28,
                total == weight_prefix(self.weights@, i as int),
                self.weights@.len() == 28,
            decreases 28 - i,
        {
            proof {
                lemma_weight_prefix_bounds(self.weights@, i as int);
            }
            total = total + self.weights[i] as u32;
            i = i + 1;
        }
        total
    }

    pub fn get_weights(&self) -> (r: &[u8; 28])
        ensures
            r@ == self.weights@,
    {
        &self.weights
    }
}

/// The arena settings that the game logic reads.
#[derive(Copy, Clone, Debug)]
pub struct ArenaSettings {
    pub ship_settings: [ShipSettings; 8],
    pub prize_weights: PrizeWeights,
    pub door_delay: i16,
    pub door_mode: i16,
    pub carry_flags: u8,
    pub flag_drop_delay: u16,
    pub enter_delay: u16,
    pub prize_factor: u16,
    pub prize_delay: u16,
    pub prize_hide_count: u16,
    pub prize_min_exist: i16,
    pub prize_max_exist: i16,
    pub prize_negative_factor: u16,
    pub minimum_virtual: u16,
    pub upgrade_virtual: u16,
    pub engine_shutdown_time: u16,
    pub multi_prize_count: u8,
    pub flag_drop_reset_reward: u32,
    pub bounty_increase_for_kill: i16,
    pub death_prize_time: u16,
    pub rocket_thrust: i32,
    pub rocket_speed: i32,
    pub repel_speed: i32,
    pub repel_time: u16,
    pub jitter_time: u16,
    pub flagger_thrust_adjustment: i16,
    pub flagger_speed_adjustment: i16,
    pub flagger_bomb_fire_delay: i16,
    pub flagger_fire_cost_percent: u16,
    pub flagger_damage_percent: u16,
    pub flagger_gun_upgrade: bool,
    pub powerball_flag_upgrades: bool,
    pub powerball_gun_allowed: bool,
    pub powerball_bomb_allowed: bool,
    pub antiwarp_pixels: u16,
    pub antiwarp_settle_delay: u16,
    pub warp_point_delay: u16,
    pub bullet_damage_level: i32,
    pub bullet_damage_upgrade: i32,
    pub bullet_alive_time: i32,
    pub inactive_shrap_damage: i32,
    pub shrapnel_damage_percent: u16,
    pub bomb_damage_level: i32,
    pub bomb_explode_pixels: u16,
    pub ebomb_damage_percent: u16,
    pub ebomb_shutdown_time: u16,
    pub bouncing_bomb_damage_percent: u16,
    pub burst_damage_level: i32,
    pub exact_damage: bool,
    pub extra_position_data: bool,
}

impl ArenaSettings {
    pub open spec fn ship(&self, kind: ShipKind) -> ShipSettings {
        self.ship_settings@[ship_index(kind) as int]
    }

    /// Settings of a playable ship; spectators have none.
    pub fn get_ship_settings(&self, kind: ShipKind) -> (r: &ShipSettings)
        requires
            kind != ShipKind::Spectator,
        ensures
            *r == self.ship(kind),
    {
        let index = kind.network_value() as usize;
        &self.ship_settings[index]
    }
}

} // verus!
