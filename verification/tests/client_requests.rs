use nullspace::chat::ChatCommand;
use nullspace::client::{
    get_freq, get_view_self, handle_chat_command, handle_ship_request, validate_packet_timestamp,
    ClientRequest, MovementController, OutboundPositionQueue, SpectateController,
};
use nullspace::ship_controller::ShipController;
use nullspace::clock::GameTick;
use nullspace::game_view::{get_highest_points_player_id, get_player_name_view, is_radar_visible};
use nullspace::net::connection::ConnectionClock;
use nullspace::net::packet::c2s::ArenaRequest;
use nullspace::player::{Player, PlayerId, PlayerManager, STATUS_SAFETY, STATUS_STEALTH};
use nullspace::radar::get_radar_tile_color;
use nullspace::render::text_renderer::TextColor;
use nullspace::ship::{Ship, ShipKind};

fn arena() -> PlayerManager {
    let mut pm = PlayerManager::new();
    pm.add_player(Player::new(PlayerId::new(1), "me", "", ShipKind::Warbird, 2, 0, 0));
    pm.add_player(Player::new(PlayerId::new(2), "you", "", ShipKind::Javelin, 3, 0, 0));
    pm.self_id = PlayerId::new(1);
    pm
}

fn full_ship() -> Ship {
    let mut ship = Ship::new();
    ship.kind = ShipKind::Warbird;
    ship.max_energy = 1000;
    ship.current_energy = 1000;
    ship
}

fn flying(ship: Ship) -> MovementController {
    MovementController::Ship(ShipController { ship, pending_attach_target: None, crown_remaining_ticks: 0 })
}

fn spectating(target: Option<u16>) -> MovementController {
    MovementController::Spectate(SpectateController {
        spectate_player_id: target.map(PlayerId::new),
        last_spectate_freq: 7,
    })
}

#[test]
fn ship_request_needs_other_ship_and_full_energy() {
    let pm = arena();
    match handle_ship_request(&pm, &spectating(None), ShipKind::Warbird) {
        ClientRequest::Notify(t) => assert_eq!(t, "You are already in that type of ship."),
        _ => panic!("expected a notice"),
    }
    let mut ship = full_ship();
    assert!(matches!(handle_ship_request(&pm, &flying(ship), ShipKind::Shark), ClientRequest::RequestShip(ShipKind::Shark)));
    ship.current_energy = 999;
    match handle_ship_request(&pm, &flying(ship), ShipKind::Shark) {
        ClientRequest::Notify(t) => assert_eq!(t, "Must have full energy to change ship types."),
        _ => panic!("expected a notice"),
    }
    let mut spec = arena();
    spec.get_by_id_mut(PlayerId::new(1)).unwrap().ship_kind = ShipKind::Spectator;
    assert!(matches!(handle_ship_request(&spec, &spectating(None), ShipKind::Spectator), ClientRequest::Nothing));
}

#[test]
fn frequency_command_checks() {
    let pm = arena();
    match handle_chat_command(&pm, &spectating(None), &ChatCommand::ChangeFrequency(2)) {
        ClientRequest::Notify(t) => assert_eq!(t, "You are already on that frequency."),
        _ => panic!("expected a notice"),
    }
    let mut ship = full_ship();
    ship.current_energy = 1;
    match handle_chat_command(&pm, &flying(ship), &ChatCommand::ChangeFrequency(5)) {
        ClientRequest::Notify(t) => assert_eq!(t, "Not enough energy to change frequencies."),
        _ => panic!("expected a notice"),
    }
    ship.status = STATUS_SAFETY;
    assert!(matches!(handle_chat_command(&pm, &flying(ship), &ChatCommand::ChangeFrequency(5)), ClientRequest::ChangeFrequency(5)));
}

#[test]
fn go_command_picks_arena() {
    let pm = arena();
    match handle_chat_command(&pm, &spectating(None), &ChatCommand::Go(String::new())) {
        ClientRequest::JoinArena(m) => {
            assert!(matches!(m.request, ArenaRequest::AnyPublic));
            assert_eq!((m.ship_kind, m.x_resolution, m.y_resolution), (ShipKind::Spectator, 1920, 1080));
        }
        _ => panic!("expected a join"),
    }
    match handle_chat_command(&pm, &spectating(None), &ChatCommand::Go("7".to_string())) {
        ClientRequest::JoinArena(m) => assert!(matches!(m.request, ArenaRequest::SpecificPublic(7))),
        _ => panic!("expected a join"),
    }
    match handle_chat_command(&pm, &spectating(None), &ChatCommand::Go("duel".to_string())) {
        ClientRequest::JoinArena(m) => match m.request {
            ArenaRequest::Name(n) => assert_eq!(n, "duel"),
            _ => panic!("expected a named arena"),
        },
        _ => panic!("expected a join"),
    }
    let mut ship = full_ship();
    ship.current_energy = 0;
    match handle_chat_command(&pm, &flying(ship), &ChatCommand::Go("duel".to_string())) {
        ClientRequest::Notify(t) => assert_eq!(t, "Must have full energy to change arenas."),
        _ => panic!("expected a notice"),
    }
}

#[test]
fn followed_player_and_team() {
    let pm = arena();
    assert_eq!(get_view_self(&pm, PlayerId::new(1), &flying(full_ship())).unwrap().name, "me");
    assert_eq!(get_view_self(&pm, PlayerId::new(1), &spectating(Some(2))).unwrap().name, "you");
    assert_eq!(get_view_self(&pm, PlayerId::new(1), &spectating(None)).unwrap().name, "me");
    assert!(get_view_self(&pm, PlayerId::new(9), &flying(full_ship())).is_none());
    assert_eq!(get_freq(&pm, PlayerId::new(1), &flying(full_ship())), 2);
    assert_eq!(get_freq(&pm, PlayerId::new(1), &spectating(Some(2))), 3);
    assert_eq!(get_freq(&pm, PlayerId::new(1), &spectating(None)), 7);
    assert_eq!(get_freq(&pm, PlayerId::new(9), &flying(full_ship())), 0xFFFF);
}

#[test]
fn old_packets_are_flagged() {
    assert!(validate_packet_timestamp(GameTick::new(1000), GameTick::new(899)));
    assert!(!validate_packet_timestamp(GameTick::new(1000), GameTick::new(900)));
}

#[test]
fn clock_asks_for_sync_every_five_hundred_ticks() {
    let mut clock = ConnectionClock::new();
    let mut asked = 0;
    for _ in 0..1200 {
        if clock.tick() {
            asked += 1;
        }
    }
    assert_eq!(clock.current_tick, GameTick::new(1200));
    assert_eq!(asked, 2);
    assert_eq!(clock.last_sync_req, GameTick::new(1002));
}

#[test]
fn points_leader_wears_crown() {
    let mut pm = arena();
    assert_eq!(get_highest_points_player_id(&pm), PlayerId::invalid());
    pm.get_by_id_mut(PlayerId::new(2)).unwrap().kill_points = 10;
    pm.get_by_id_mut(PlayerId::new(1)).unwrap().flag_points = 10;
    assert_eq!(get_highest_points_player_id(&pm), PlayerId::new(1));
    pm.get_by_id_mut(PlayerId::new(2)).unwrap().flag_points = 1;
    assert_eq!(get_highest_points_player_id(&pm), PlayerId::new(2));
}

#[test]
fn stealthed_enemies_hide_from_radar() {
    let mut pm = arena();
    assert!(is_radar_visible(&pm, PlayerId::new(2), 2));
    pm.get_by_id_mut(PlayerId::new(2)).unwrap().status = STATUS_STEALTH;
    assert!(!is_radar_visible(&pm, PlayerId::new(2), 2));
    assert!(is_radar_visible(&pm, PlayerId::new(2), 3));
    pm.attach_player(PlayerId::new(1), PlayerId::new(2));
    assert!(is_radar_visible(&pm, PlayerId::new(2), 2));
    assert!(!is_radar_visible(&pm, PlayerId::new(9), 2));
}

#[test]
fn name_labels() {
    let mut p = Player::new(PlayerId::new(1), "ace", "", ShipKind::Warbird, 2, 0, 0);
    p.bounty = 40;
    assert_eq!(get_player_name_view(&p, 2, None), ("ace(40)".to_string(), TextColor::Yellow));
    p.flag_count = 3;
    assert_eq!(get_player_name_view(&p, 5, Some(12)), ("ace(40:3)[120]".to_string(), TextColor::DarkRed));
    p.carrying_ball = true;
    assert_eq!(get_player_name_view(&p, 5, None), ("ace(40:3) (Ball)".to_string(), TextColor::DarkRed));
    p.flag_count = 0;
    p.carrying_ball = false;
    assert_eq!(get_player_name_view(&p, 5, Some(0)), ("ace(40)[0]".to_string(), TextColor::Blue));
}

#[test]
fn radar_tile_colors() {
    assert_eq!(get_radar_tile_color(0, 0, 0, 0, 0), 0xFF0A190A);
    assert_eq!(get_radar_tile_color(250, 0, 0, 0, 0), 0xFF0A190A);
    assert_eq!(get_radar_tile_color(171, 0, 0, 0, 0), 0xFF185218);
    assert_eq!(get_radar_tile_color(165, 0, 0, 0, 0), 0xFFADADAD);
    assert_eq!(get_radar_tile_color(1, 0, 0, 0, 0), 0xFF5A5A5A);
    assert_eq!(get_radar_tile_color(172, 10, 10, 0, 1), 0xFF219CAD);
    assert_eq!(get_radar_tile_color(172, 600, 10, 0, 1), 0xFF0839FF);
    assert_eq!(get_radar_tile_color(172, 600, 10, 1, 1), 0xFF219CAD);
}

#[test]
fn outbound_position_queue_waits_for_a_later_tick() {
    let mut q: OutboundPositionQueue<u32> = OutboundPositionQueue::new(GameTick::new(10));
    assert_eq!(q.next(GameTick::new(11)), None);
    q.push(7);
    q.push(8);
    assert_eq!(q.next(GameTick::new(10)), None);
    assert_eq!(q.next(GameTick::new(11)), Some(7));
    assert_eq!(q.next(GameTick::new(11)), None);
    assert_eq!(q.next(GameTick::new(12)), Some(8));
    assert_eq!(q.next(GameTick::new(13)), None);
}
