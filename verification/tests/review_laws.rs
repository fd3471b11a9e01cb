use nullspace::game_settings::GameSettings;
use nullspace::game_view::{ball_trail_for, decoy_ship_frame, trail_for, weapon_renderable};
use nullspace::math::{PositionUnit, Velocity};
use nullspace::proxy::ReceiveBuffer;
use nullspace::weapon::{BombWeapon, BulletWeapon, ShrapnelWeapon, WeaponKind};
use nullspace::chat::ChatController;
use nullspace::client::{
    apply_batched_position, apply_position_update, login_step, BatchedPositionUpdate, LoginResponse,
    LoginStep, PositionUpdate,
};
use nullspace::clock::GameTick;
use nullspace::game_view::is_player_visible;
use nullspace::map::TileMap;
use nullspace::net::connection::ClockSyncHistory;
use nullspace::net::packet::c2s::ArenaRequest;
use nullspace::net::packet::s2c::ChatKind;
use nullspace::player::{Player, PlayerId, PlayerManager, STATUS_CLOAK, STATUS_FLASH};
use nullspace::render::animation_renderer::AnimationRenderer;
use nullspace::render::game_sprites::GameSpriteKind;
use nullspace::render::layer::Layer;
use nullspace::ship::ShipKind;

fn arena() -> PlayerManager {
    let mut pm = PlayerManager::new();
    pm.add_player(Player::new(PlayerId::new(1), "me", "", ShipKind::Warbird, 0, 0, 0));
    pm.add_player(Player::new(PlayerId::new(2), "you", "", ShipKind::Javelin, 1, 0, 0));
    pm.add_player(Player::new(PlayerId::new(3), "them", "", ShipKind::Spider, 1, 0, 0));
    pm.self_id = PlayerId::new(1);
    pm
}

fn update(id: u16, status: u8) -> PositionUpdate {
    PositionUpdate {
        player_id: PlayerId::new(id),
        x: 512,
        y: 300,
        x_velocity: -20,
        y_velocity: 7,
        direction: 12,
        bounty: 40,
        status,
        ping: 9,
        extra: None,
    }
}

#[test]
fn newer_position_moves_our_ship_directly() {
    let mut pm = arena();
    let applied = apply_position_update(&mut pm, &update(1, 0), GameTick::new(50), GameTick::new(60)).unwrap();
    assert!(applied.newer && !applied.flash && applied.lerp_target.is_none());
    let me = pm.get_by_id(PlayerId::new(1)).unwrap();
    assert_eq!(me.position.unwrap().x.0, 512_000);
    assert_eq!((me.velocity.x.0, me.velocity.y.0), (-20, 7));
    assert_eq!((me.direction, me.bounty, me.ping), (12, 40, 9));
    assert_eq!(me.last_position_timestamp, GameTick::new(50));
}

#[test]
fn other_players_head_for_the_new_position() {
    let mut pm = arena();
    let applied = apply_position_update(&mut pm, &update(2, 0), GameTick::new(50), GameTick::new(60)).unwrap();
    let (target, ticks) = applied.lerp_target.unwrap();
    assert_eq!((target.x.0, target.y.0, ticks), (512_000, 300_000, 10));
    assert!(pm.get_by_id(PlayerId::new(2)).unwrap().position.is_none());
}

#[test]
fn older_position_only_flashes() {
    let mut pm = arena();
    apply_position_update(&mut pm, &update(2, 0), GameTick::new(500), GameTick::new(500)).unwrap();
    let applied = apply_position_update(&mut pm, &update(2, STATUS_FLASH), GameTick::new(100), GameTick::new(500)).unwrap();
    assert!(!applied.newer && applied.stale_far);
    let you = pm.get_by_id(PlayerId::new(2)).unwrap();
    assert_eq!(you.status & STATUS_FLASH, STATUS_FLASH);
    assert_eq!(you.last_position_timestamp, GameTick::new(500));
    assert!(apply_position_update(&mut pm, &update(9, 0), GameTick::new(1), GameTick::new(1)).is_none());
}

#[test]
fn batched_positions_take_velocity_and_status() {
    let mut pm = arena();
    let entry = BatchedPositionUpdate {
        player_id: PlayerId::new(3),
        x: 10,
        y: 20,
        x_velocity: 5,
        y_velocity: 6,
        direction: 3,
        status: Some(STATUS_CLOAK),
    };
    let applied = apply_batched_position(&mut pm, &entry, GameTick::new(30), GameTick::new(31)).unwrap();
    assert_eq!(applied.lerp_target.unwrap().1, 1);
    let them = pm.get_by_id(PlayerId::new(3)).unwrap();
    assert_eq!((them.direction, them.status, them.velocity.x.0), (3, STATUS_CLOAK, 5));
}

#[test]
fn login_answers() {
    match login_step(LoginResponse::Accepted, false) {
        LoginStep::JoinArena(m) => {
            assert_eq!((m.ship_kind, m.x_resolution, m.y_resolution), (ShipKind::Spectator, 1920, 1080));
            assert!(matches!(m.request, ArenaRequest::AnyPublic));
        }
        _ => panic!("expected to join"),
    }
    assert!(matches!(login_step(LoginResponse::Unregistered, true), LoginStep::SendRegistration));
    assert!(matches!(login_step(LoginResponse::Unregistered, false), LoginStep::SendNewUserPassword));
    assert!(matches!(login_step(LoginResponse::Refused, true), LoginStep::Disconnect));
}

#[test]
fn cloaked_enemies_are_hidden() {
    let mut pm = arena();
    pm.get_by_id_mut(PlayerId::new(2)).unwrap().status = STATUS_CLOAK;
    let you = pm.get_by_id(PlayerId::new(2)).unwrap();
    assert!(!is_player_visible(you, false, 0));
    assert!(is_player_visible(you, true, 0));
    assert!(is_player_visible(you, false, 1));
}

#[test]
fn recent_names_stay_distinct_ignoring_case() {
    let mut chat = ChatController::new();
    for name in ["a", "b", "A", "c", "d", "e", "f"] {
        chat.handle_chat_message(ChatKind::Private, name.to_string(), "hi".to_string());
    }
    assert_eq!(chat.recent_private, vec!["A", "c", "d", "e", "f"]);
    chat.handle_chat_message(ChatKind::Public, "g".to_string(), "hi".to_string());
    assert_eq!(chat.recent_private.len(), 5);
}

#[test]
fn clearing_bricks_restores_the_tiles() {
    let mut data = Vec::new();
    data.extend_from_slice(&((7u32 << 24) | (4 << 12) | 3).to_le_bytes());
    let mut map = TileMap::new("bricks.lvl", &data, None).unwrap();
    let before = map.tiles.clone();
    map.insert_brick(3, 4, 0, GameTick::new(100));
    map.insert_brick(5, 5, 1, GameTick::new(100));
    map.insert_brick(3, 4, 1, GameTick::new(200));
    map.insert_brick(2000, 4, 1, GameTick::new(200));
    assert_eq!(map.bricks.len(), 2);
    assert_ne!(map.tiles, before);
    map.clear_bricks();
    assert!(map.bricks.is_empty());
    assert_eq!(map.tiles, before);
}

#[test]
fn other_players_survive_add_and_remove() {
    let mut pm = arena();
    pm.remove_player(PlayerId::new(1));
    assert_eq!(pm.get_by_id(PlayerId::new(3)).unwrap().name, "them");
    assert_eq!(pm.get_by_id(PlayerId::new(2)).unwrap().name, "you");
    pm.add_player(Player::new(PlayerId::new(2), "again", "", ShipKind::Shark, 4, 0, 0));
    assert_eq!(pm.get_by_id(PlayerId::new(3)).unwrap().name, "them");
    assert_eq!(pm.get_by_id(PlayerId::new(2)).unwrap().name, "again");
    assert_eq!(pm.players.len(), 2);
}

#[test]
fn average_ping_lies_between_low_and_high() {
    let mut h = ClockSyncHistory::new();
    for ping in [30, -10, 50, 7] {
        h.insert(ping, 0);
    }
    let (low, average, high) = (h.get_low_ping(), h.get_average_ping(), h.get_high_ping());
    assert_eq!((low, average, high), (-10, 19, 50));
    assert!(low <= average && average <= high);
}

#[test]
fn updated_animation_frames_stay_in_range() {
    let mut r = AnimationRenderer::new();
    r.add(GameSpriteKind::Ships, GameTick::new(0), 2, 6, 40, 0, 0, Layer::Explosions);
    r.add(GameSpriteKind::Ships, GameTick::new(0), 0, 3, 10, 0, 0, Layer::Explosions);
    r.update(GameTick::new(39));
    assert_eq!(r.animations.len(), 1);
    let a = &r.animations[0];
    assert!(a.frame_start <= a.current_frame && a.current_frame < a.frame_end);
    assert_eq!(a.current_frame, 5);
}

#[test]
fn trails_are_due_by_weapon_kind() {
    let settings = GameSettings::new();
    let bullet = WeaponKind::Bullet(BulletWeapon { level: 1, multi: false, link_id: None });
    let t = trail_for(&bullet, &settings, GameTick::new(12), GameTick::new(10)).unwrap();
    assert_eq!((t.kind, t.frame_start, t.frame_end, t.duration), (GameSpriteKind::Gradient, 56, 70, 14));
    assert!(trail_for(&bullet, &settings, GameTick::new(11), GameTick::new(10)).is_none());
    let bomb = WeaponKind::Bomb(BombWeapon {
        level: 2,
        shrapnel_count: 0,
        shrapnel_level: 0,
        shrapnel_bouncing: false,
        mine: false,
        emp: false,
        remaining_bounces: 0,
        rng_seed: 0,
    });
    assert!(trail_for(&bomb, &settings, GameTick::new(14), GameTick::new(10)).is_none());
    let t = trail_for(&bomb, &settings, GameTick::new(15), GameTick::new(10)).unwrap();
    assert_eq!((t.kind, t.frame_start, t.frame_end, t.duration), (GameSpriteKind::Trail, 20, 30, 30));
    let moving = Velocity::new(PositionUnit(3), PositionUnit(0));
    assert!(ball_trail_for(&settings, GameTick::new(13), GameTick::new(10), moving).is_some());
    assert!(ball_trail_for(&settings, GameTick::new(13), GameTick::new(10), Velocity::empty()).is_none());
}

#[test]
fn weapon_frames_by_kind() {
    let bouncing = WeaponKind::BouncingBullet(BulletWeapon { level: 2, multi: false, link_id: None });
    assert_eq!(weapon_renderable(&bouncing, 10, 0), Some((GameSpriteKind::Bullets, 8 + 20 + 2)));
    let mine = WeaponKind::Bomb(BombWeapon {
        level: 1,
        shrapnel_count: 0,
        shrapnel_level: 0,
        shrapnel_bouncing: false,
        mine: true,
        emp: true,
        remaining_bounces: 0,
        rng_seed: 0,
    });
    assert_eq!(weapon_renderable(&mine, 35, 0), Some((GameSpriteKind::Mines, 10 + 40 + 3)));
    let shrapnel = WeaponKind::Shrapnel(ShrapnelWeapon { level: 0, bouncing: true });
    assert_eq!(weapon_renderable(&shrapnel, 0, 0), Some((GameSpriteKind::Shrapnel, 30)));
    assert_eq!(weapon_renderable(&WeaponKind::Repel, 0, 25), Some((GameSpriteKind::Repel, 4)));
    assert_eq!(decoy_ship_frame(10, 12, 2), 80 + 8);
}

#[test]
fn received_bytes_fill_the_free_part() {
    let mut b = ReceiveBuffer::new();
    b.offset = 4094;
    assert_eq!(b.fill_insert_slice(&[1, 2, 3]), 2);
    assert_eq!(&b.buffer[4092..], &[0, 0, 1, 2]);
    b.offset = 0;
    assert_eq!(b.fill_insert_slice(&[9]), 1);
    assert_eq!(b.buffer[0], 9);
}
