use nullspace::arena_settings::{ArenaSettings, PrizeWeights, ShipSettings};
use nullspace::client::{
    read_compressed_map, CompressedMapOutcome, apply_arena_door_mode, apply_collected_prizes, apply_player_death, delay_fire_after_pickup,
    shares_prize_pickup,
};
use nullspace::clock::GameTick;
use nullspace::map::{MapError, TileMap};
use nullspace::math::{Position, PositionUnit, Velocity};
use nullspace::net::packet::s2c::{
    CollectedPrizeMessage, FlagPositionMessage, PlayerDeathMessage, PrizePickupMessage,
};
use nullspace::flag::FlagController;
use nullspace::player::{Player, PlayerId, PlayerManager};
use nullspace::prize::{apply_prize_id, Prize, PrizeError, PrizeManager};
use nullspace::ship::{Ship, ShipKind};

fn ship_settings() -> ShipSettings {
    ShipSettings {
        initial_energy: 1000,
        maximum_energy: 1700,
        upgrade_energy: 100,
        initial_recharge: 400,
        maximum_recharge: 1000,
        upgrade_recharge: 50,
        initial_rotation: 200,
        maximum_rotation: 300,
        upgrade_rotation: 10,
        initial_thrust: 16,
        maximum_thrust: 20,
        upgrade_thrust: 1,
        initial_speed: 2000,
        maximum_speed: 6000,
        upgrade_speed: 400,
        initial_guns: 1,
        max_guns: 3,
        initial_bombs: 1,
        max_bombs: 3,
        initial_repel: 2,
        max_repel: 3,
        initial_burst: 0,
        max_burst: 2,
        initial_decoy: 0,
        max_decoy: 1,
        initial_thor: 0,
        max_thor: 1,
        initial_brick: 0,
        max_brick: 2,
        initial_rocket: 0,
        max_rocket: 2,
        initial_portal: 0,
        max_portal: 1,
        stealth_status: 1,
        cloak_status: 0,
        xradar_status: 2,
        antiwarp_status: 0,
        super_time: 3000,
        shield_time: 2000,
        shrapnel_rate: 2,
        max_shrapnel: 10,
        initial_bounty: 3,
        attach_bounty: 0,
        turret_limit: 2,
        powerball_friction: 0,
        powerball_throw_timer: 0,
        radius: 0,
        bomb_fire_delay: 50,
        prize_share_limit: 20,
        afterburner_energy: 1200,
        stealth_energy: 5,
        cloak_energy: 10,
        xradar_energy: 7,
        antiwarp_energy: 8,
        disable_fast_shooting: false,
        rocket_time: 300,
        bullet_fire_energy: 30,
        multi_fire_energy: 40,
        bullet_fire_delay: 25,
        multi_fire_delay: 30,
        bomb_fire_energy: 600,
        bomb_fire_energy_upgrade: 100,
        mine_fire_energy: 500,
        mine_fire_energy_upgrade: 50,
        mine_fire_delay: 80,
        bomb_bounce_count: 0,
        emp_bomb: false,
        bomb_speed: 2000,
        powerball_speed: 3000,
    }
}

fn settings() -> ArenaSettings {
    ArenaSettings {
        ship_settings: [ship_settings(); 8],
        prize_weights: PrizeWeights { weights: [0; 28] },
        door_delay: 100,
        door_mode: -1,
        carry_flags: 1,
        flag_drop_delay: 600,
        enter_delay: 300,
        prize_factor: 1000,
        prize_delay: 1500,
        prize_hide_count: 30,
        prize_min_exist: 1000,
        prize_max_exist: 1200,
        prize_negative_factor: 0,
        minimum_virtual: 10,
        upgrade_virtual: 10,
        engine_shutdown_time: 300,
        multi_prize_count: 3,
        flag_drop_reset_reward: 500,
        bounty_increase_for_kill: 2,
        death_prize_time: 900,
        rocket_thrust: 20,
        rocket_speed: 3000,
        repel_speed: 4000,
        repel_time: 225,
        jitter_time: 60,
        flagger_thrust_adjustment: -2,
        flagger_speed_adjustment: -100,
        flagger_bomb_fire_delay: 10,
        flagger_fire_cost_percent: 1000,
        flagger_damage_percent: 1000,
        flagger_gun_upgrade: true,
        powerball_flag_upgrades: true,
        powerball_gun_allowed: true,
        powerball_bomb_allowed: true,
        antiwarp_pixels: 400,
        antiwarp_settle_delay: 100,
        warp_point_delay: 4000,
        bullet_damage_level: 200_000,
        bullet_damage_upgrade: 100_000,
        bullet_alive_time: 550,
        inactive_shrap_damage: 50_000,
        shrapnel_damage_percent: 500,
        bomb_damage_level: 1_000_000,
        bomb_explode_pixels: 80,
        ebomb_damage_percent: 500,
        ebomb_shutdown_time: 300,
        bouncing_bomb_damage_percent: 500,
        burst_damage_level: 300_000,
        exact_damage: true,
        extra_position_data: false,
    }
}

fn warbird(s: &ArenaSettings) -> Ship {
    let mut ship = Ship::new();
    ship.reset(s, GameTick::new(100), ShipKind::Warbird);
    ship
}

#[test]
fn reset_gives_initial_ship() {
    let s = settings();
    let ship = warbird(&s);
    assert_eq!(ship.kind, ShipKind::Warbird);
    assert_eq!(ship.max_energy, 1_000_000);
    assert_eq!(ship.current_energy, 1_000_000);
    assert_eq!((ship.recharge, ship.rotation, ship.thrust, ship.speed), (400, 200, 16, 2000));
    assert_eq!((ship.guns, ship.bombs, ship.repels), (1, 1, 2));
    assert_eq!(ship.bounty, 3);
    assert_eq!(ship.next_bomb_tick, GameTick::new(100));
    assert_eq!(ship.capability, nullspace::ship::CAPABILITY_XRADAR);
}

#[test]
fn spectator_reset_keeps_no_capabilities() {
    let s = settings();
    let mut ship = warbird(&s);
    ship.reset(&s, GameTick::new(5), ShipKind::Spectator);
    assert_eq!(ship.kind, ShipKind::Spectator);
    assert_eq!((ship.capability, ship.bounty, ship.status), (0, 0, 0));
}

#[test]
fn prize_ids_name_prizes() {
    assert_eq!(Prize::try_from(8), Ok(Prize::Guns));
    assert_eq!(Prize::try_from(-8), Ok(Prize::Guns));
    assert_eq!(Prize::try_from(0), Ok(Prize::NoPrize));
    assert_eq!(Prize::try_from(28), Ok(Prize::Portal));
    assert_eq!(Prize::try_from(29), Err(PrizeError::InvalidPrizeId));
    assert_eq!(Prize::try_from(-29), Err(PrizeError::InvalidPrizeId));
}

#[test]
fn prizes_raise_and_lower_within_limits() {
    let s = settings();
    let mut ship = warbird(&s);
    assert_eq!(apply_prize_id(&s, &mut ship, GameTick::new(100), 8), Ok((Prize::Guns, false)));
    assert_eq!(ship.guns, 2);
    apply_prize_id(&s, &mut ship, GameTick::new(100), 8).unwrap();
    apply_prize_id(&s, &mut ship, GameTick::new(100), 8).unwrap();
    assert_eq!(ship.guns, 3);
    assert_eq!(apply_prize_id(&s, &mut ship, GameTick::new(100), -8), Ok((Prize::Guns, true)));
    assert_eq!(ship.guns, 2);
    apply_prize_id(&s, &mut ship, GameTick::new(100), 2).unwrap();
    assert_eq!(ship.max_energy, 1_100_000);
    apply_prize_id(&s, &mut ship, GameTick::new(100), 1).unwrap();
    assert_eq!(ship.recharge, 450);
    assert_eq!(apply_prize_id(&s, &mut ship, GameTick::new(100), 40), Err(PrizeError::InvalidPrizeId));
    assert_eq!(ship.recharge, 450);
}

#[test]
fn disabled_prize_becomes_full_charge() {
    let s = settings();
    let mut ship = warbird(&s);
    ship.current_energy = 10;
    assert_eq!(apply_prize_id(&s, &mut ship, GameTick::new(100), 5), Ok((Prize::FullCharge, false)));
    assert_eq!(ship.current_energy, ship.max_energy);
}

#[test]
fn collected_prizes_raise_bounty_each_time() {
    let s = settings();
    let mut ship = warbird(&s);
    let warp = apply_collected_prizes(&s, &mut ship, GameTick::new(100), &CollectedPrizeMessage { count: 2, prize_id: 9 });
    assert!(!warp);
    assert_eq!(ship.bombs, 3);
    assert_eq!(ship.bounty, 5);
    let warp = apply_collected_prizes(&s, &mut ship, GameTick::new(100), &CollectedPrizeMessage { count: 0, prize_id: 7 });
    assert!(warp);
    assert_eq!(ship.bounty, 5);
}

#[test]
fn pickup_delays_fire() {
    let s = settings();
    let mut ship = warbird(&s);
    delay_fire_after_pickup(&mut ship, &s, GameTick::new(1000));
    assert_eq!(ship.next_bomb_tick, GameTick::new(1050));
    assert_eq!(ship.next_bullet_tick, GameTick::new(1050));
}

#[test]
fn teammate_prizes_are_shared_below_limit() {
    let s = settings();
    let mut pm = PlayerManager::new();
    pm.add_player(Player::new(PlayerId::new(1), "me", "", ShipKind::Warbird, 0, 0, 0));
    pm.add_player(Player::new(PlayerId::new(2), "mate", "", ShipKind::Warbird, 0, 0, 0));
    pm.add_player(Player::new(PlayerId::new(3), "foe", "", ShipKind::Warbird, 1, 0, 0));
    pm.self_id = PlayerId::new(1);
    let pickup = |player: u16, prize_id: i16| PrizePickupMessage {
        timestamp: GameTick::new(0),
        x: 10,
        y: 10,
        prize_id,
        player_id: PlayerId::new(player),
    };
    assert!(shares_prize_pickup(&pm, &s, &pickup(2, 8)));
    assert!(!shares_prize_pickup(&pm, &s, &pickup(3, 8)));
    assert!(!shares_prize_pickup(&pm, &s, &pickup(2, 7)));
    pm.get_by_id_mut(PlayerId::new(1)).unwrap().bounty = 20;
    assert!(!shares_prize_pickup(&pm, &s, &pickup(2, 8)));
}

#[test]
fn death_credits_killer_and_leaves_green() {
    let s = settings();
    let mut pm = PlayerManager::new();
    pm.add_player(Player::new(PlayerId::new(1), "killer", "", ShipKind::Warbird, 0, 0, 100));
    pm.add_player(Player::new(PlayerId::new(2), "victim", "", ShipKind::Warbird, 1, 0, 0));
    {
        let killer = pm.get_by_id_mut(PlayerId::new(1)).unwrap();
        killer.bounty = 10;
        killer.flag_count = 1;
    }
    {
        let victim = pm.get_by_id_mut(PlayerId::new(2)).unwrap();
        victim.flag_count = 2;
        victim.position = Some(Position::new(PositionUnit(16000 * 5 + 10), PositionUnit(16000 * 7)));
        victim.velocity = Velocity::new(PositionUnit(5), PositionUnit(0));
    }
    let mut prizes = PrizeManager::new();
    let message = PlayerDeathMessage {
        killer_id: PlayerId::new(1),
        killed_id: PlayerId::new(2),
        bounty: 600,
        flag_transfer: 2,
        prize_id: 12,
    };
    apply_player_death(&mut pm, &mut prizes, &s, &message, 80);
    let killer = pm.get_by_id(PlayerId::new(1)).unwrap();
    assert_eq!(killer.wins, 1);
    assert_eq!(killer.kill_points, 700);
    assert_eq!(killer.flag_count, 3);
    assert_eq!(killer.flag_remaining_ticks, 600);
    assert_eq!(killer.bounty, 12);
    let victim = pm.get_by_id(PlayerId::new(2)).unwrap();
    assert_eq!(victim.losses, 1);
    assert_eq!(victim.flag_count, 0);
    assert_eq!(victim.enter_delay, 380);
    assert_eq!(victim.explosion_remaining_ticks, 80);
    assert_eq!(prizes.greens.len(), 1);
    let g = &prizes.greens[0];
    assert_eq!((g.x_tile, g.y_tile, g.prize_id, g.remaining_ticks), (5, 7, 12, 900));
}

#[test]
fn still_victim_leaves_no_green() {
    let s = settings();
    let mut pm = PlayerManager::new();
    pm.add_player(Player::new(PlayerId::new(1), "killer", "", ShipKind::Warbird, 0, 0, 0));
    pm.add_player(Player::new(PlayerId::new(2), "victim", "", ShipKind::Warbird, 1, 0, 0));
    pm.get_by_id_mut(PlayerId::new(2)).unwrap().position = Some(Position::empty());
    let mut prizes = PrizeManager::new();
    let message = PlayerDeathMessage {
        killer_id: PlayerId::new(1),
        killed_id: PlayerId::new(2),
        bounty: 1,
        flag_transfer: 0,
        prize_id: 12,
    };
    apply_player_death(&mut pm, &mut prizes, &s, &message, 80);
    assert!(prizes.greens.is_empty());
    assert_eq!(pm.get_by_id(PlayerId::new(1)).unwrap().flag_remaining_ticks, 0);
}

#[test]
fn greens_run_out() {
    let mut prizes = PrizeManager::new();
    prizes.spawn_green(1, 2, 3, 1);
    prizes.spawn_green(4, 5, 6, 2);
    prizes.expire_greens();
    assert_eq!(prizes.greens.len(), 1);
    assert_eq!((prizes.greens[0].x_tile, prizes.greens[0].remaining_ticks), (4, 1));
    prizes.expire_greens();
    assert!(prizes.greens.is_empty());
}

#[test]
fn map_loads_tiles_and_doors() {
    let mut data = Vec::new();
    for (id, x, y) in [(1u32, 3u32, 4u32), (162, 10, 10), (170, 20, 20)] {
        data.extend_from_slice(&((id << 24) | (y << 12) | x).to_le_bytes());
    }
    assert!(TileMap::data_fits(&data));
    let map = TileMap::new("test.lvl", &data, None).unwrap();
    assert_eq!(map.get_tile(3, 4), 1);
    assert_eq!(map.get_tile(10, 10), 162);
    assert!(map.is_door(10, 10));
    assert!(!map.is_door(3, 4));
    assert!(map.is_solid(3, 4, 0));
    assert!(!map.is_solid(5, 5, 0));
    assert_eq!(map.doors.len(), 1);
}

#[test]
fn map_with_bad_bitmap_header_is_refused() {
    let data = vec![b'B', b'M', 100, 0, 0, 0, 0, 0];
    assert!(matches!(TileMap::new("bad.lvl", &data, None), Err(MapError::InvalidBitmapHeader)));
}

#[test]
fn tiles_outside_the_grid_do_not_fit() {
    let data = ((1u32 << 24) | (1023 << 12) | 1023).to_le_bytes().to_vec();
    assert!(TileMap::data_fits(&data));
    let station = ((219u32 << 24) | (1023 << 12) | 1023).to_le_bytes().to_vec();
    assert!(!TileMap::data_fits(&station));
}

#[test]
fn fixed_door_mode_shows_on_doors() {
    let mut data = Vec::new();
    data.extend_from_slice(&((162u32 << 24) | (10 << 12) | 10).to_le_bytes());
    let mut map = TileMap::new("doors.lvl", &data, None).unwrap();
    let mut s = settings();
    apply_arena_door_mode(&mut map, &s, GameTick::new(7));
    assert!(map.door_rng.is_none());
    s.door_mode = 0;
    apply_arena_door_mode(&mut map, &s, GameTick::new(7));
    let rng = map.door_rng.unwrap();
    assert_eq!((rng.current_mode, rng.last_mode, rng.last_tick), (0, 0, GameTick::new(7)));
}

#[test]
fn flag_positions_grow_the_flag_list() {
    let mut flags = FlagController::new();
    assert_eq!(flags.count(), 0);
    flags.handle_flag_position_message(&FlagPositionMessage { flag_id: 3, x: 1, y: 2, owner_freq: 0 });
    assert_eq!(flags.count(), 4);
    flags.clear();
    assert_eq!(flags.count(), 0);
}

#[test]
fn compressed_map_inflates_and_loads() {
    let mut data = Vec::new();
    data.extend_from_slice(&((162u32 << 24) | (10 << 12) | 10).to_le_bytes());
    data.extend_from_slice(&((7u32 << 24) | (1 << 12) | 2).to_le_bytes());
    let packed = miniz_oxide::deflate::compress_to_vec_zlib(&data, 6);
    match read_compressed_map("zip.lvl", &packed, None) {
        CompressedMapOutcome::Read(Ok(map), inflated) => {
            assert_eq!(inflated, data);
            assert_eq!(map.get_tile(2, 1), 7);
            assert!(map.is_door(10, 10));
            assert_eq!(map.filename, "zip.lvl");
        }
        _ => panic!("expected a map"),
    }
    assert!(matches!(read_compressed_map("zip.lvl", &data, None), CompressedMapOutcome::NotInflated));
    let station = ((219u32 << 24) | (1023 << 12) | 1023).to_le_bytes();
    let packed = miniz_oxide::deflate::compress_to_vec_zlib(&station, 6);
    assert!(matches!(read_compressed_map("bad.lvl", &packed, None), CompressedMapOutcome::Misfit(_)));
}

#[test]
fn spectators_get_the_invalid_id_error_too() {
    let s = settings();
    let mut ship = Ship::new();
    assert_eq!(apply_prize_id(&s, &mut ship, GameTick::new(100), 29), Err(PrizeError::InvalidPrizeId));
    assert_eq!(apply_prize_id(&s, &mut ship, GameTick::new(100), -40), Err(PrizeError::InvalidPrizeId));
    assert_eq!(ship.kind, ShipKind::Spectator);
}

#[test]
fn guns_are_granted_whatever_the_recharge() {
    let s = settings();
    let mut ship = warbird(&s);
    ship.recharge = u32::MAX;
    assert_eq!(apply_prize_id(&s, &mut ship, GameTick::new(100), 8), Ok((Prize::Guns, false)));
    assert_eq!(ship.guns, 2);
    assert_eq!(ship.recharge, u32::MAX);
    assert_eq!(apply_prize_id(&s, &mut ship, GameTick::new(100), -8), Ok((Prize::Guns, true)));
    assert_eq!(ship.guns, 1);
}

#[test]
fn spawn_prizes_keep_timers_bounty_and_kind() {
    let mut s = settings();
    s.prize_weights.weights[7] = 10;
    let mut ship = warbird(&s);
    ship.recharge = u32::MAX;
    ship.bounty = 17;
    ship.shield_remaining_ticks = 5;
    nullspace::prize::apply_random_prizes(&s, &mut ship, GameTick::new(100), 2);
    assert_eq!(ship.guns, 3);
    assert_eq!((ship.bounty, ship.shield_remaining_ticks, ship.super_remaining_ticks), (17, 5, 0));
    assert_eq!(ship.kind, ShipKind::Warbird);
}
