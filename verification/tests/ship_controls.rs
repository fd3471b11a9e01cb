use nullspace::arena_settings::{ArenaSettings, PrizeWeights, ShipSettings};
use nullspace::client::{
    attach, generate_position_message, get_extra_position_data, ClientRequest, MovementController,
    SpectateController,
};
use nullspace::clock::GameTick;
use nullspace::input::{InputAction, InputState};
use nullspace::map::TileMap;
use nullspace::math::{Position, PositionUnit, Velocity};
use nullspace::player::{Player, PlayerId, PlayerManager, STATUS_FLASH, STATUS_SAFETY, STATUS_STEALTH, STATUS_XRADAR};
use nullspace::powerball::{CarryState, PowerballManager};
use nullspace::ship::{Ship, ShipKind, CAPABILITY_BOUNCING_BULLETS, CAPABILITY_MULTIFIRE, CAPABILITY_PROXIMITY, CAPABILITY_STEALTH};
use nullspace::ship_controller::{ShipController, MAX_ORIENTATION};
use nullspace::weapon::{BombWeapon, BulletWeapon, WeaponExplosionEvent, WeaponKind};

fn ship_settings() -> ShipSettings {
    ShipSettings {
        initial_energy: 1000,
        maximum_energy: 1700,
        upgrade_energy: 100,
        initial_recharge: 400,
        maximum_recharge: 1000,
        upgrade_recharge: 50,
        initial_rotation: 200,
        maximum_rotation: 300,
        upgrade_rotation: 10,
        initial_thrust: 16,
        maximum_thrust: 20,
        upgrade_thrust: 1,
        initial_speed: 2000,
        maximum_speed: 6000,
        upgrade_speed: 400,
        initial_guns: 1,
        max_guns: 3,
        initial_bombs: 1,
        max_bombs: 3,
        initial_repel: 2,
        max_repel: 3,
        initial_burst: 0,
        max_burst: 2,
        initial_decoy: 0,
        max_decoy: 1,
        initial_thor: 0,
        max_thor: 1,
        initial_brick: 0,
        max_brick: 2,
        initial_rocket: 0,
        max_rocket: 2,
        initial_portal: 0,
        max_portal: 1,
        stealth_status: 1,
        cloak_status: 0,
        xradar_status: 2,
        antiwarp_status: 0,
        super_time: 3000,
        shield_time: 2000,
        shrapnel_rate: 2,
        max_shrapnel: 10,
        initial_bounty: 3,
        attach_bounty: 0,
        turret_limit: 2,
        powerball_friction: 0,
        powerball_throw_timer: 0,
        radius: 0,
        bomb_fire_delay: 50,
        prize_share_limit: 20,
        afterburner_energy: 1200,
        stealth_energy: 5,
        cloak_energy: 10,
        xradar_energy: 7,
        antiwarp_energy: 8,
        disable_fast_shooting: false,
        rocket_time: 300,
        bullet_fire_energy: 30,
        multi_fire_energy: 40,
        bullet_fire_delay: 25,
        multi_fire_delay: 30,
        bomb_fire_energy: 600,
        bomb_fire_energy_upgrade: 100,
        mine_fire_energy: 500,
        mine_fire_energy_upgrade: 50,
        mine_fire_delay: 80,
        bomb_bounce_count: 0,
        emp_bomb: false,
        bomb_speed: 2000,
        powerball_speed: 3000,
    }
}

fn settings() -> ArenaSettings {
    ArenaSettings {
        ship_settings: [ship_settings(); 8],
        prize_weights: PrizeWeights { weights: [0; 28] },
        door_delay: 100,
        door_mode: -1,
        carry_flags: 1,
        flag_drop_delay: 600,
        enter_delay: 300,
        prize_factor: 1000,
        prize_delay: 1500,
        prize_hide_count: 30,
        prize_min_exist: 1000,
        prize_max_exist: 1200,
        prize_negative_factor: 0,
        minimum_virtual: 10,
        upgrade_virtual: 10,
        engine_shutdown_time: 300,
        multi_prize_count: 3,
        flag_drop_reset_reward: 500,
        bounty_increase_for_kill: 2,
        death_prize_time: 900,
        rocket_thrust: 20,
        rocket_speed: 3000,
        repel_speed: 4000,
        repel_time: 225,
        jitter_time: 60,
        flagger_thrust_adjustment: -2,
        flagger_speed_adjustment: -100,
        flagger_bomb_fire_delay: 10,
        flagger_fire_cost_percent: 1000,
        flagger_damage_percent: 1000,
        flagger_gun_upgrade: true,
        powerball_flag_upgrades: true,
        powerball_gun_allowed: true,
        powerball_bomb_allowed: true,
        antiwarp_pixels: 400,
        antiwarp_settle_delay: 100,
        warp_point_delay: 4000,
        bullet_damage_level: 200_000,
        bullet_damage_upgrade: 100_000,
        bullet_alive_time: 550,
        inactive_shrap_damage: 50_000,
        shrapnel_damage_percent: 500,
        bomb_damage_level: 1_000_000,
        bomb_explode_pixels: 80,
        ebomb_damage_percent: 500,
        ebomb_shutdown_time: 300,
        bouncing_bomb_damage_percent: 500,
        burst_damage_level: 300_000,
        exact_damage: true,
        extra_position_data: false,
    }
}

fn controller(s: &ArenaSettings) -> ShipController {
    let mut sc = ShipController::new();
    sc.reset_ship(s, GameTick::new(100), ShipKind::Warbird);
    sc
}

fn tile(x: i32, y: i32) -> Position {
    Position::new(PositionUnit(16000 * x + 8000), PositionUnit(16000 * y + 8000))
}

fn arena() -> PlayerManager {
    let mut pm = PlayerManager::new();
    pm.add_player(Player::new(PlayerId::new(1), "me", "", ShipKind::Warbird, 0, 0, 0));
    pm.add_player(Player::new(PlayerId::new(2), "mate", "", ShipKind::Warbird, 0, 0, 0));
    pm.add_player(Player::new(PlayerId::new(3), "foe", "", ShipKind::Warbird, 1, 0, 0));
    pm.self_id = PlayerId::new(1);
    pm.get_by_id_mut(PlayerId::new(1)).unwrap().position = Some(tile(1, 1));
    pm
}

fn safe_map() -> TileMap {
    let data = ((171u32 << 24) | (5 << 12) | 5).to_le_bytes().to_vec();
    TileMap::new("safe.lvl", &data, None).unwrap()
}

fn pressed(action: InputAction) -> InputState {
    let mut input = InputState::new();
    input.set_triggered(action);
    input
}

fn held(action: InputAction) -> InputState {
    let mut input = InputState::new();
    input.set_down(action, true);
    input
}

#[test]
fn effects_count_down_and_portal_expires() {
    let mut sc = ShipController::new();
    sc.ship.portal_remaining_ticks = 1;
    sc.ship.portal_position = Some(tile(2, 2));
    sc.ship.shield_remaining_ticks = 5;
    sc.ship.rocket_remaining_ticks = 0;
    sc.tick_effects();
    assert_eq!(sc.ship.portal_remaining_ticks, 0);
    assert!(sc.ship.portal_position.is_none());
    assert_eq!(sc.ship.shield_remaining_ticks, 4);
    assert_eq!(sc.ship.rocket_remaining_ticks, 0);
}

#[test]
fn running_status_costs_energy_until_it_runs_out() {
    let mut sc = ShipController::new();
    sc.ship.status = STATUS_STEALTH;
    sc.ship.current_energy = 12;
    sc.tick_status(STATUS_STEALTH, 5);
    assert_eq!((sc.ship.current_energy, sc.ship.status), (7, STATUS_STEALTH));
    sc.tick_status(STATUS_STEALTH, 7);
    assert_eq!((sc.ship.current_energy, sc.ship.status), (7, 0));
}

#[test]
fn abilities_recharge_and_toggle_with_capability() {
    let s = settings();
    let mut sc = controller(&s);
    sc.ship.current_energy = 999_800;
    sc.tick_abilities(&pressed(InputAction::XRadar), &s.ship_settings[0]);
    assert_eq!(sc.ship.status, STATUS_FLASH | STATUS_XRADAR);
    assert_eq!(sc.ship.current_energy, 1_000_000 - 7);
    sc.tick_abilities(&pressed(InputAction::Stealth), &s.ship_settings[0]);
    assert_eq!(sc.ship.status & STATUS_STEALTH, 0);
    sc.ship.capability |= CAPABILITY_STEALTH;
    sc.tick_abilities(&pressed(InputAction::Stealth), &s.ship_settings[0]);
    assert_eq!(sc.ship.status, STATUS_FLASH | STATUS_XRADAR | STATUS_STEALTH);
    assert_eq!(sc.ship.current_energy, 1_000_000 - 7 - 5);
}

#[test]
fn rotation_wraps_within_one_turn_and_sets_direction() {
    let s = settings();
    let mut sc = controller(&s);
    let mut pm = arena();
    sc.ship.current_orientation = 100;
    sc.perform_rotation(&held(InputAction::MoveLeft), &mut pm);
    assert_eq!(sc.ship.current_orientation, MAX_ORIENTATION - 100);
    assert_eq!(pm.get_self().unwrap().direction, 39);
    sc.perform_rotation(&held(InputAction::MoveRight), &mut pm);
    assert_eq!(sc.ship.current_orientation, 100);
    assert_eq!(pm.get_self().unwrap().direction, 0);
}

#[test]
fn icons_follow_weapon_upgrades() {
    let mut sc = ShipController::new();
    assert_eq!(sc.get_gun_renderable_index(), None);
    assert_eq!(sc.get_bomb_renderable_index(), None);
    sc.ship.guns = 2;
    sc.ship.bombs = 3;
    assert_eq!(sc.get_gun_renderable_index(), Some(1));
    assert_eq!(sc.get_bomb_renderable_index(), Some(20));
    sc.ship.capability = CAPABILITY_MULTIFIRE | CAPABILITY_BOUNCING_BULLETS | CAPABILITY_PROXIMITY;
    sc.ship.multifire = true;
    sc.ship.shrapnel = 4;
    assert_eq!(sc.get_gun_renderable_index(), Some(13));
    assert_eq!(sc.get_bomb_renderable_index(), Some(29));
}

#[test]
fn afterburners_raise_limits_and_cost_energy() {
    let s = settings();
    let mut sc = controller(&s);
    let pm = arena();
    let plain = sc.perform_acceleration(&InputState::new(), &pm, &s);
    assert!(!plain.afterburners);
    assert_eq!((plain.thrust, plain.speed), (Some(16), 2000));
    let boosted = sc.perform_acceleration(&held(InputAction::Afterburner), &pm, &s);
    assert!(boosted.afterburners);
    assert_eq!((boosted.thrust, boosted.speed), (Some(20), 6000));
    assert_eq!(sc.ship.current_energy, 1_000_000 - 1200);
}

#[test]
fn flaggers_fly_slower() {
    let s = settings();
    let mut sc = controller(&s);
    let mut pm = arena();
    pm.get_by_id_mut(PlayerId::new(1)).unwrap().flag_count = 1;
    let a = sc.perform_acceleration(&InputState::new(), &pm, &s);
    assert_eq!((a.thrust, a.speed), (Some(14), 1900));
}

#[test]
fn bullets_fire_when_ready_and_cost_energy() {
    let s = settings();
    let mut sc = controller(&s);
    let mut pm = arena();
    let mut balls = PowerballManager::new();
    let map = safe_map();
    let requests = sc.fire_weapons(&held(InputAction::Bullet), &mut pm, &mut balls, &map, &s, GameTick::new(200), false, false, tile(9, 9));
    assert!(requests.brick.is_none() && requests.powerball.is_none());
    assert_eq!(sc.ship.weapon, Some(WeaponKind::Bullet(BulletWeapon { level: 0, multi: false, link_id: None })));
    assert_eq!(sc.ship.current_energy, 1_000_000 - 30_000);
    assert_eq!(sc.ship.next_bullet_tick, GameTick::new(225));
    assert_eq!(sc.ship.next_bomb_tick, GameTick::new(225));
    assert_eq!(sc.ship.next_repel_tick, GameTick::new(250));
    sc.fire_weapons(&held(InputAction::Bullet), &mut pm, &mut balls, &map, &s, GameTick::new(210), false, false, tile(9, 9));
    assert_eq!(sc.ship.weapon, None);
}

#[test]
fn nothing_fires_on_a_safe_tile() {
    let s = settings();
    let mut sc = controller(&s);
    let mut pm = arena();
    {
        let me = pm.get_by_id_mut(PlayerId::new(1)).unwrap();
        me.position = Some(tile(5, 5));
        me.velocity = Velocity::new(PositionUnit(30), PositionUnit(40));
    }
    let mut balls = PowerballManager::new();
    sc.fire_weapons(&held(InputAction::Bomb), &mut pm, &mut balls, &safe_map(), &s, GameTick::new(200), false, false, tile(9, 9));
    assert_eq!(sc.ship.weapon, None);
    assert_eq!(sc.ship.current_energy, 1_000_000);
    let me = pm.get_self().unwrap();
    assert_eq!((me.velocity.x.0, me.velocity.y.0), (0, 0));
}

#[test]
fn repel_is_spent_and_delays_weapons() {
    let s = settings();
    let mut sc = controller(&s);
    let mut pm = arena();
    let mut balls = PowerballManager::new();
    sc.fire_weapons(&pressed(InputAction::Repel), &mut pm, &mut balls, &safe_map(), &s, GameTick::new(200), false, false, tile(9, 9));
    assert_eq!(sc.ship.weapon, Some(WeaponKind::Repel));
    assert_eq!(sc.ship.repels, 1);
    assert_eq!(sc.ship.next_bomb_tick, GameTick::new(250));
    assert_eq!(sc.ship.next_repel_tick, GameTick::new(250));
}

#[test]
fn warp_with_the_ball_shoots_it() {
    let s = settings();
    let mut sc = controller(&s);
    let mut pm = arena();
    let mut balls = PowerballManager::new();
    balls.carry_state = Some(CarryState { ball_id: 2, remaining_ticks: 10 });
    let requests = sc.fire_weapons(&pressed(InputAction::Warp), &mut pm, &mut balls, &safe_map(), &s, GameTick::new(200), false, false, tile(9, 9));
    assert_eq!(requests.powerball, Some(2));
    assert!(balls.carry_state.is_none());
    assert_eq!(sc.ship.weapon, None);
    assert_eq!(sc.ship.next_bullet_tick, GameTick::new(260));
}

#[test]
fn warp_at_full_energy_moves_to_spawn() {
    let s = settings();
    let mut sc = controller(&s);
    let mut pm = arena();
    let mut balls = PowerballManager::new();
    sc.fire_weapons(&pressed(InputAction::Warp), &mut pm, &mut balls, &safe_map(), &s, GameTick::new(200), false, false, tile(9, 9));
    let me = pm.get_self().unwrap();
    assert_eq!(me.position.unwrap().x.0, tile(9, 9).x.0);
    assert_eq!(sc.ship.current_energy, 1000);
    assert_eq!(sc.ship.fake_antiwarp_remaining_ticks, 100);
}

#[test]
fn direct_bullet_hit_deals_level_damage() {
    let s = settings();
    let mut sc = controller(&s);
    let mut pm = arena();
    let event = WeaponExplosionEvent {
        kind: WeaponKind::Bullet(BulletWeapon { level: 1, multi: false, link_id: None }),
        position: tile(1, 1),
        shooter: PlayerId::new(3),
        hit_player: Some(PlayerId::new(1)),
        remaining_ticks: 0,
    };
    let damage = sc.explosion_damage(&pm, &s, &event, 0, None);
    assert_eq!(damage, Some(300_000));
    assert_eq!(sc.apply_damage(&mut pm, &s, &event, 300_000, 80).map(|m| m.bounty), None);
    assert_eq!(sc.ship.current_energy, 700_000);
}

#[test]
fn bomb_damage_falls_off_and_shields_take_a_share() {
    let s = settings();
    let mut sc = controller(&s);
    let pm = arena();
    let bomb = BombWeapon {
        level: 0,
        shrapnel_count: 0,
        shrapnel_level: 0,
        shrapnel_bouncing: false,
        mine: false,
        emp: false,
        remaining_bounces: 0,
        rng_seed: 0,
    };
    let event = WeaponExplosionEvent {
        kind: WeaponKind::Bomb(bomb),
        position: tile(1, 1),
        shooter: PlayerId::new(3),
        hit_player: None,
        remaining_ticks: 0,
    };
    assert_eq!(sc.explosion_damage(&pm, &s, &event, 40, None), Some(500_000));
    assert_eq!(sc.explosion_damage(&pm, &s, &event, 80, None), Some(0));
    assert_eq!(sc.explosion_damage(&pm, &s, &event, 40, Some(60)), Some(500_000 - 125_000));
    sc.ship.shield_remaining_ticks = 1000;
    assert_eq!(sc.explosion_damage(&pm, &s, &event, 40, None), Some(250_000));
}

#[test]
fn no_damage_in_safety() {
    let s = settings();
    let mut sc = controller(&s);
    let mut pm = arena();
    pm.get_by_id_mut(PlayerId::new(1)).unwrap().status = STATUS_SAFETY;
    let event = WeaponExplosionEvent {
        kind: WeaponKind::Bullet(BulletWeapon { level: 0, multi: false, link_id: None }),
        position: tile(1, 1),
        shooter: PlayerId::new(3),
        hit_player: Some(PlayerId::new(1)),
        remaining_ticks: 0,
    };
    assert_eq!(sc.explosion_damage(&pm, &s, &event, 0, None), None);
}

#[test]
fn running_out_of_energy_is_death() {
    let s = settings();
    let mut sc = controller(&s);
    let mut pm = arena();
    sc.ship.current_energy = 100_000;
    let event = WeaponExplosionEvent {
        kind: WeaponKind::Bullet(BulletWeapon { level: 0, multi: false, link_id: None }),
        position: tile(1, 1),
        shooter: PlayerId::new(3),
        hit_player: Some(PlayerId::new(1)),
        remaining_ticks: 0,
    };
    let death = sc.apply_damage(&mut pm, &s, &event, 200_000, 80).unwrap();
    assert_eq!((death.killer_id, death.bounty), (PlayerId::new(3), 0));
    assert_eq!(sc.ship.current_energy, 0);
    assert_eq!(pm.get_self().unwrap().enter_delay, 380);
}

#[test]
fn own_bomb_never_kills() {
    let s = settings();
    let mut sc = controller(&s);
    let mut pm = arena();
    sc.ship.current_energy = 100_000;
    let bomb = BombWeapon {
        level: 0,
        shrapnel_count: 0,
        shrapnel_level: 0,
        shrapnel_bouncing: false,
        mine: false,
        emp: false,
        remaining_bounces: 0,
        rng_seed: 0,
    };
    let event = WeaponExplosionEvent {
        kind: WeaponKind::Bomb(bomb),
        position: tile(1, 1),
        shooter: PlayerId::new(1),
        hit_player: None,
        remaining_ticks: 0,
    };
    assert!(sc.apply_damage(&mut pm, &s, &event, 500_000, 80).is_none());
    assert_eq!(sc.ship.current_energy, 1000);
}

#[test]
fn inexact_bullet_damage_is_rolled() {
    let mut s = settings();
    let event = WeaponExplosionEvent {
        kind: WeaponKind::Bullet(BulletWeapon { level: 0, multi: false, link_id: None }),
        position: tile(1, 1),
        shooter: PlayerId::new(3),
        hit_player: Some(PlayerId::new(1)),
        remaining_ticks: 0,
    };
    assert_eq!(ShipController::damage_roll_range(&s, &event, 300_000), None);
    s.exact_damage = false;
    assert_eq!(ShipController::damage_roll_range(&s, &event, 300_000), Some(90_001));
    assert_eq!(ShipController::damage_roll_range(&s, &event, 0), None);
}

#[test]
fn attach_key_attaches_then_detaches() {
    let s = settings();
    let mut pm = arena();
    let mut mc = MovementController::Ship(controller(&s));
    match attach(&mut pm, &mut mc, &s, PlayerId::new(2), false) {
        ClientRequest::Attach(m) => assert_eq!(m.player_id, PlayerId::new(2)),
        other => panic!("unexpected {:?}", other),
    }
    assert_eq!(pm.get_self().unwrap().attach_parent, PlayerId::new(2));
    assert_eq!(pm.get_by_id(PlayerId::new(2)).unwrap().children, vec![PlayerId::new(1)]);
    match &mc {
        MovementController::Ship(sc) => assert_eq!(sc.pending_attach_target, Some(PlayerId::new(2))),
        _ => panic!("expected a ship"),
    }
    match attach(&mut pm, &mut mc, &s, PlayerId::new(2), false) {
        ClientRequest::Attach(m) => assert!(!m.player_id.valid()),
        other => panic!("unexpected {:?}", other),
    }
    assert!(!pm.get_self().unwrap().attach_parent.valid());
    assert!(pm.get_by_id(PlayerId::new(2)).unwrap().children.is_empty());
}

#[test]
fn attach_key_refusals() {
    let s = settings();
    let mut pm = arena();
    let mut mc = MovementController::Ship(controller(&s));
    match attach(&mut pm, &mut mc, &s, PlayerId::new(3), false) {
        ClientRequest::Notify(t) => assert_eq!(t, "Must attach to somebody of same frequency."),
        other => panic!("unexpected {:?}", other),
    }
    assert!(matches!(attach(&mut pm, &mut mc, &s, PlayerId::new(2), true), ClientRequest::Nothing));
    assert!(!pm.get_self().unwrap().attach_parent.valid());
    let mut spectating = MovementController::Spectate(SpectateController { spectate_player_id: None, last_spectate_freq: 0 });
    assert!(matches!(attach(&mut pm, &mut spectating, &s, PlayerId::new(2), false), ClientRequest::Nothing));
}

#[test]
fn extra_data_carries_energy_items_and_crown_timer() {
    let s = settings();
    let pm = arena();
    let mut sc = controller(&s);
    sc.crown_remaining_ticks = 1500;
    let mc = MovementController::Ship(sc);
    assert!(get_extra_position_data(&pm, &mc, &s, false).is_none());
    let extra = get_extra_position_data(&pm, &mc, &s, true).unwrap();
    assert_eq!((extra.energy, extra.flag_timer, extra.s2c_latency), (1000, 15, 0));
    assert_eq!(extra.items.repels, 2);
    assert!(!extra.items.shield_active);
}

#[test]
fn position_message_reports_pixels_and_state() {
    let s = settings();
    let mut pm = arena();
    {
        let me = pm.get_by_id_mut(PlayerId::new(1)).unwrap();
        me.position = Some(Position::new(PositionUnit(48_500), PositionUnit(32_000)));
        me.velocity = Velocity::new(PositionUnit(5), PositionUnit(-7));
        me.bounty = 9;
    }
    let mc = MovementController::Ship(controller(&s));
    let m = generate_position_message(&pm, &mc, &s, false, GameTick::new(77)).unwrap();
    assert_eq!((m.x_position, m.y_position, m.x_velocity, m.y_velocity), (48, 32, 5, -7));
    assert_eq!((m.bounty, m.energy, m.weapon_info, m.timestamp), (9, 1000, 0, GameTick::new(77)));
    assert!(m.extra_info.is_none());
    pm.get_by_id_mut(PlayerId::new(1)).unwrap().position = None;
    let unplaced = generate_position_message(&pm, &mc, &s, false, GameTick::new(77)).unwrap();
    assert_eq!((unplaced.x_position, unplaced.y_position), (0xFFFF, 0xFFFF));
}

#[test]
fn ship_kinds_and_ships_start_empty() {
    let ship = Ship::new();
    assert!(ship.weapon.is_none());
    assert_eq!(ship.kind, ShipKind::Spectator);
}
