use nullspace::client::{
    apply_frequency_change, apply_player_entering, apply_player_leaving, apply_score_update,
    apply_team_and_ship_change, apply_turret_link_create, chat_sender, death_notification,
};
use nullspace::clock::GameTick;
use nullspace::math::{Position, PositionUnit};
use nullspace::net::packet::s2c::{
    ChatKind, PlayerDeathMessage, PlayerEnteringEntry, PlayerFrequencyChangeMessage,
    PlayerLeavingMessage, PlayerTeamAndShipChangeMessage, ScoreUpdateMessage, TurretLinkCreateMessage,
};
use nullspace::player::{Player, PlayerId, PlayerManager, STATUS_SAFETY};
use nullspace::render::text_renderer::TextColor;
use nullspace::ship::ShipKind;

fn player(id: u16, name: &str, frequency: u16) -> Player {
    Player::new(PlayerId::new(id), name, "", ShipKind::Warbird, frequency, 0, 0)
}

fn manager_with(players: &[(u16, &str, u16)]) -> PlayerManager {
    let mut pm = PlayerManager::new();
    for (id, name, frequency) in players {
        pm.add_player(player(*id, name, *frequency));
    }
    pm
}

fn entry(id: u16, name: &str, ship_kind: ShipKind, attach_parent: u16) -> PlayerEnteringEntry {
    PlayerEnteringEntry {
        ship_kind,
        name: name.to_string(),
        squad: "sq".to_string(),
        kill_points: 10,
        flag_points: 20,
        player_id: PlayerId::new(id),
        frequency: 3,
        kills: 4,
        deaths: 5,
        attach_parent: PlayerId::new(attach_parent),
        flag_count: 1,
        has_koth: false,
    }
}

#[test]
fn added_player_is_found_by_id_and_name() {
    let pm = manager_with(&[(1, "alpha", 0), (2, "beta", 1)]);
    assert_eq!(pm.players.len(), 2);
    assert_eq!(pm.get_by_id(PlayerId::new(2)).unwrap().name, "beta");
    assert_eq!(pm.get_by_name("alpha").unwrap().id, PlayerId::new(1));
    assert!(pm.get_by_id(PlayerId::new(3)).is_none());
    assert!(pm.get_by_id(PlayerId::invalid()).is_none());
    assert!(pm.get_by_name("gamma").is_none());
}

#[test]
fn adding_same_id_replaces_player() {
    let mut pm = manager_with(&[(1, "alpha", 0), (2, "beta", 1)]);
    let old = pm.add_player(player(1, "alpha2", 5));
    assert_eq!(old.unwrap().name, "alpha");
    assert_eq!(pm.players.len(), 2);
    assert_eq!(pm.get_by_id(PlayerId::new(1)).unwrap().name, "alpha2");
    assert_eq!(pm.get_by_id(PlayerId::new(2)).unwrap().name, "beta");
}

#[test]
fn removed_player_is_gone_and_last_takes_its_place() {
    let mut pm = manager_with(&[(1, "a", 0), (2, "b", 0), (3, "c", 0)]);
    let removed = pm.remove_player(PlayerId::new(1));
    assert_eq!(removed.unwrap().name, "a");
    assert!(pm.get_by_id(PlayerId::new(1)).is_none());
    assert_eq!(pm.players[0].name, "c");
    assert_eq!(pm.get_by_id(PlayerId::new(3)).unwrap().name, "c");
    assert!(pm.remove_player(PlayerId::new(1)).is_none());
}

#[test]
fn frequency_count_counts_team() {
    let pm = manager_with(&[(1, "a", 0), (2, "b", 1), (3, "c", 1)]);
    assert_eq!(pm.get_frequency_count(1), 2);
    assert_eq!(pm.get_frequency_count(0), 1);
    assert_eq!(pm.get_frequency_count(7), 0);
}

#[test]
fn attach_then_detach_restores_links() {
    let mut pm = manager_with(&[(1, "a", 0), (2, "b", 0)]);
    pm.attach_player(PlayerId::new(2), PlayerId::new(1));
    assert_eq!(pm.get_by_id(PlayerId::new(2)).unwrap().attach_parent, PlayerId::new(1));
    assert_eq!(pm.get_by_id(PlayerId::new(1)).unwrap().children, vec![PlayerId::new(2)]);
    pm.detach_player(PlayerId::new(2));
    assert_eq!(pm.get_by_id(PlayerId::new(2)).unwrap().attach_parent, PlayerId::invalid());
    assert!(pm.get_by_id(PlayerId::new(1)).unwrap().children.is_empty());
}

#[test]
fn detach_all_children_reports_self() {
    let mut pm = manager_with(&[(1, "a", 0), (2, "b", 0), (3, "c", 0)]);
    pm.self_id = PlayerId::new(3);
    pm.attach_player(PlayerId::new(2), PlayerId::new(1));
    assert!(!pm.detach_all_children(PlayerId::new(1)));
    pm.attach_player(PlayerId::new(3), PlayerId::new(1));
    assert!(pm.detach_all_children(PlayerId::new(1)));
    assert_eq!(pm.get_by_id(PlayerId::new(3)).unwrap().attach_parent, PlayerId::invalid());
    assert!(pm.get_by_id(PlayerId::new(1)).unwrap().children.is_empty());
}

#[test]
fn rating_and_points() {
    let mut p = player(1, "a", 0);
    p.kill_points = 500;
    p.flag_points = 100;
    p.wins = 10;
    p.losses = 5;
    assert_eq!(p.get_points(), 600);
    assert_eq!(p.get_rating(), (500 + 50) * 10 / 110);
    p.kill_points = -5000;
    assert_eq!(p.get_rating(), 0);
}

#[test]
fn synchronized_within_two_hundred_ticks() {
    let mut p = player(1, "a", 0);
    p.last_position_timestamp = GameTick::new(1000);
    assert!(p.is_synchronized(GameTick::new(1199)));
    assert!(!p.is_synchronized(GameTick::new(1200)));
    assert!(p.is_synchronized(GameTick::new(801)));
    assert!(!p.is_synchronized(GameTick::new(800)));
}

#[test]
fn chat_sender_from_player_and_remote_text() {
    let pm = manager_with(&[(4, "dave", 0)]);
    assert_eq!(chat_sender(&pm, ChatKind::Public, PlayerId::new(4), "hi"), "dave");
    assert_eq!(chat_sender(&pm, ChatKind::Team, PlayerId::new(9), "hi"), "");
    assert_eq!(chat_sender(&pm, ChatKind::Arena, PlayerId::new(4), "hi"), "");
    assert_eq!(chat_sender(&pm, ChatKind::RemotePrivate, PlayerId::new(4), "(eve)>:hello"), "eve)>");
    assert_eq!(chat_sender(&pm, ChatKind::RemotePrivate, PlayerId::new(4), ":eve:hello"), "eve");
    assert_eq!(chat_sender(&pm, ChatKind::RemotePrivate, PlayerId::new(4), "no colon"), "");
    assert_eq!(chat_sender(&pm, ChatKind::RemotePrivate, PlayerId::new(4), ""), "");
}

#[test]
fn death_notice_only_when_we_are_involved() {
    let mut pm = manager_with(&[(1, "killer", 0), (2, "victim", 1), (3, "me", 0)]);
    pm.get_by_id_mut(PlayerId::new(2)).unwrap().bounty = 25;
    let message = PlayerDeathMessage {
        killer_id: PlayerId::new(1),
        killed_id: PlayerId::new(2),
        bounty: 25,
        flag_transfer: 0,
        prize_id: 0,
    };
    pm.self_id = PlayerId::new(3);
    assert!(death_notification(&pm, &message).is_none());
    pm.self_id = PlayerId::new(1);
    let (text, color) = death_notification(&pm, &message).unwrap();
    assert_eq!(text, "victim(25) killed by: killer");
    assert_eq!(color, TextColor::Yellow);
    pm.get_by_id_mut(PlayerId::new(2)).unwrap().frequency = 0;
    let (text, _) = death_notification(&pm, &message).unwrap();
    assert_eq!(text, "victim(0) killed by: killer");
}

#[test]
fn score_update_replaces_scores() {
    let mut pm = manager_with(&[(1, "a", 0)]);
    apply_score_update(
        &mut pm,
        &ScoreUpdateMessage { player_id: PlayerId::new(1), kill_points: 7, flag_points: 8, kills: 9, deaths: 10 },
    );
    let p = pm.get_by_id(PlayerId::new(1)).unwrap();
    assert_eq!((p.kill_points, p.flag_points, p.wins, p.losses), (7, 8, 9, 10));
}

#[test]
fn frequency_change_detaches_children() {
    let mut pm = manager_with(&[(1, "a", 0), (2, "b", 0)]);
    pm.self_id = PlayerId::new(2);
    pm.attach_player(PlayerId::new(2), PlayerId::new(1));
    let tell = apply_frequency_change(&mut pm, &PlayerFrequencyChangeMessage { player_id: PlayerId::new(1), frequency: 4 });
    assert!(tell);
    assert_eq!(pm.get_by_id(PlayerId::new(1)).unwrap().frequency, 4);
    assert_eq!(pm.get_by_id(PlayerId::new(2)).unwrap().attach_parent, PlayerId::invalid());
}

#[test]
fn turret_link_without_destination_detaches_self() {
    let mut pm = manager_with(&[(1, "a", 0), (2, "b", 0)]);
    pm.self_id = PlayerId::new(2);
    let attach = TurretLinkCreateMessage { requester_id: PlayerId::new(2), destination_id: Some(PlayerId::new(1)) };
    assert!(!apply_turret_link_create(&mut pm, &attach));
    assert_eq!(pm.get_by_id(PlayerId::new(2)).unwrap().attach_parent, PlayerId::new(1));
    let detach = TurretLinkCreateMessage { requester_id: PlayerId::new(1), destination_id: None };
    assert!(apply_turret_link_create(&mut pm, &detach));
    assert_eq!(pm.get_by_id(PlayerId::new(2)).unwrap().attach_parent, PlayerId::invalid());
    assert!(pm.get_by_id(PlayerId::new(1)).unwrap().children.is_empty());
}

#[test]
fn entering_players_and_their_children() {
    let mut pm = manager_with(&[(1, "old", 0)]);
    pm.self_id = PlayerId::new(7);
    let entries = vec![
        entry(5, "child", ShipKind::Javelin, 6),
        entry(6, "parent", ShipKind::Warbird, 0xFFFF),
        entry(7, "me", ShipKind::Spectator, 0xFFFF),
    ];
    let spectating = apply_player_entering(&mut pm, &entries, GameTick::new(50));
    assert!(spectating);
    assert_eq!(pm.players.len(), 4);
    let child = pm.get_by_id(PlayerId::new(5)).unwrap();
    assert_eq!(child.name, "child");
    assert_eq!(child.squad, "sq");
    assert_eq!(child.ship_kind, ShipKind::Javelin);
    assert_eq!((child.kill_points, child.flag_points, child.wins, child.losses), (10, 20, 4, 5));
    assert_eq!(child.flag_count, 1);
    assert_eq!(child.attach_parent, PlayerId::new(6));
    assert_eq!(child.last_position_timestamp, GameTick::new(50));
    assert!(child.position.is_none());
    assert_eq!(pm.get_by_id(PlayerId::new(6)).unwrap().children, vec![PlayerId::new(5)]);
    let me = pm.get_by_id(PlayerId::new(7)).unwrap();
    assert_eq!(me.position.map(|p| (p.x.0, p.y.0)), Some((0, 0)));
    assert_eq!(pm.get_by_id(PlayerId::new(1)).unwrap().name, "old");
}

#[test]
fn entering_in_a_ship_is_not_spectating() {
    let mut pm = PlayerManager::new();
    pm.self_id = PlayerId::new(7);
    let spectating = apply_player_entering(&mut pm, &vec![entry(7, "me", ShipKind::Shark, 0xFFFF)], GameTick::new(1));
    assert!(!spectating);
}

#[test]
fn leaving_player_is_removed_and_children_freed() {
    let mut pm = manager_with(&[(1, "a", 0), (2, "b", 0)]);
    pm.attach_player(PlayerId::new(2), PlayerId::new(1));
    let gone = apply_player_leaving(&mut pm, &PlayerLeavingMessage { player_id: PlayerId::new(1) });
    assert_eq!(gone.unwrap().name, "a");
    assert!(pm.get_by_id(PlayerId::new(1)).is_none());
    assert_eq!(pm.get_by_id(PlayerId::new(2)).unwrap().attach_parent, PlayerId::invalid());
    assert!(apply_player_leaving(&mut pm, &PlayerLeavingMessage { player_id: PlayerId::new(1) }).is_none());
}

#[test]
fn ship_change_clears_position_outside_safety() {
    let mut pm = manager_with(&[(1, "a", 0), (2, "b", 0)]);
    let placed = Position::new(PositionUnit(16000), PositionUnit(32000));
    pm.get_by_id_mut(PlayerId::new(1)).unwrap().position = Some(placed);
    pm.get_by_id_mut(PlayerId::new(2)).unwrap().position = Some(placed);
    pm.get_by_id_mut(PlayerId::new(2)).unwrap().status = STATUS_SAFETY;
    let change = PlayerTeamAndShipChangeMessage { ship_kind: ShipKind::Shark, player_id: PlayerId::new(1), frequency: 9 };
    apply_team_and_ship_change(&mut pm, &change, PlayerId::new(5));
    let p = pm.get_by_id(PlayerId::new(1)).unwrap();
    assert_eq!((p.ship_kind, p.frequency), (ShipKind::Shark, 9));
    assert!(p.position.is_none());
    let change = PlayerTeamAndShipChangeMessage { ship_kind: ShipKind::Shark, player_id: PlayerId::new(2), frequency: 9 };
    apply_team_and_ship_change(&mut pm, &change, PlayerId::new(5));
    assert!(pm.get_by_id(PlayerId::new(2)).unwrap().position.is_some());
}

#[test]
fn own_player_keeps_place_when_spectating() {
    let mut pm = manager_with(&[(1, "me", 0)]);
    let placed = Position::new(PositionUnit(16000), PositionUnit(32000));
    pm.get_by_id_mut(PlayerId::new(1)).unwrap().position = Some(placed);
    let change = PlayerTeamAndShipChangeMessage { ship_kind: ShipKind::Spectator, player_id: PlayerId::new(1), frequency: 8025 };
    apply_team_and_ship_change(&mut pm, &change, PlayerId::new(1));
    let p = pm.get_by_id(PlayerId::new(1)).unwrap();
    assert_eq!(p.position.map(|q| (q.x.0, q.y.0)), Some((16000, 32000)));
}
