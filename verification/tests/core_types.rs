use nullspace::clock::GameTick;
use nullspace::map::Tile;
use nullspace::math::{div_i32, PixelUnit, Position, PositionUnit, Rectangle, Vector2i};
use nullspace::net::packet::bi::{
    ClockSyncRequestMessage, ClockSyncResponseMessage, ItemSet, ReliableAckMessage,
    ReliableDataMessage,
};
use nullspace::net::packet::bytes::{get_u16_le, get_u32_le, push_u32_le};
use nullspace::rng::VieRng;
use nullspace::ship::ShipKind;

#[test]
fn tick_diff_forward_and_back() {
    let a = GameTick::new(100);
    let b = GameTick::new(250);
    assert_eq!(b.diff(&a), 150);
    assert_eq!(a.diff(&b), -150);
    assert!(b.is_after(&a));
    assert!(!a.is_after(&b));
    assert!(a.is_at_or_after(&a));
}

#[test]
fn tick_diff_across_wrap() {
    let before = GameTick::new(0xFFFF_FFF0);
    let after = GameTick::new(0x10);
    assert_eq!(after.diff(&before), 0x20);
    assert_eq!(before.diff(&after), -0x20);
}

#[test]
fn tick_plus_then_diff_gives_distance() {
    for start in [0u32, 5, 0x7FFF_FFFF, 0xFFFF_FFFF] {
        for ticks in [0i32, 1, -1, 1000, -1000, i32::MAX, i32::MIN] {
            let t = GameTick::new(start);
            assert_eq!(t.plus(ticks).diff(&t), ticks);
        }
    }
}

#[test]
fn tick_plus_wraps() {
    assert_eq!(GameTick::new(0xFFFF_FFFF).plus(2).value(), 1);
    assert_eq!(GameTick::new(1).plus(-2).value(), 0xFFFF_FFFF);
}

#[test]
fn div_rounds_toward_zero() {
    assert_eq!(div_i32(7, 2), 3);
    assert_eq!(div_i32(-7, 2), -3);
    assert_eq!(div_i32(7, -2), -3);
    assert_eq!(div_i32(-7, -2), 3);
}

#[test]
fn units_convert() {
    assert_eq!(PixelUnit::from_position_unit(PositionUnit(16000)).0, 16);
    assert_eq!(PositionUnit::from_pixel_unit(PixelUnit(3)).0, 3000);
    let p = Position::from_tile(2, 5);
    assert_eq!(p.x.0, 32000);
    assert_eq!(p.y.0, 80000);
    assert_eq!(p.to_tile(), (2, 5));
}

#[test]
fn rectangles_intersect_both_ways() {
    let a = Rectangle::new(Position::new(PositionUnit(0), PositionUnit(0)), Position::new(PositionUnit(10), PositionUnit(10)));
    let b = Rectangle::new(Position::new(PositionUnit(5), PositionUnit(5)), Position::new(PositionUnit(20), PositionUnit(20)));
    let c = Rectangle::new(Position::new(PositionUnit(30), PositionUnit(30)), Position::new(PositionUnit(40), PositionUnit(40)));
    assert!(a.intersects(&b));
    assert!(b.intersects(&a));
    assert!(!a.intersects(&c));
    assert!(!c.intersects(&a));
    assert!(a.contains(Position::new(PositionUnit(5), PositionUnit(5))));
    assert!(!a.contains(Position::new(PositionUnit(15), PositionUnit(5))));
}

#[test]
fn vectors_add_and_subtract() {
    let v = Vector2i::new(3, -4).plus(Vector2i::new(1, 1));
    assert_eq!((v.x, v.y), (4, -3));
    let w = v.minus(Vector2i::new(4, -3));
    assert_eq!((w.x, w.y), (0, 0));
}

#[test]
fn rng_sequence() {
    let mut rng = VieRng::new(12345);
    assert_eq!(rng.peek_next(), 207482538);
    assert_eq!(rng.next(), 207482538);
    assert_eq!(rng.next(), 1793057208);
    assert_eq!(rng.next(), 274476628);
    assert_eq!(VieRng::new(0).peek_next(), 123);
    assert_eq!(VieRng::new(1).peek_next(), 16930);
}

#[test]
fn tile_packs_and_unpacks() {
    let t = Tile::from_parts(172, 1023, 17);
    assert_eq!(t.id(), 172);
    assert_eq!(t.x(), 1023);
    assert_eq!(t.y(), 17);
    assert_eq!(t.value, (172u32 << 24) | (17 << 12) | 1023);
}

#[test]
fn ship_network_values_round_trip() {
    let kinds = [
        ShipKind::Warbird,
        ShipKind::Javelin,
        ShipKind::Spider,
        ShipKind::Leviathan,
        ShipKind::Terrier,
        ShipKind::Weasel,
        ShipKind::Lancaster,
        ShipKind::Shark,
        ShipKind::Spectator,
    ];
    for (i, kind) in kinds.iter().enumerate() {
        assert_eq!(kind.network_value() as usize, i);
        assert_eq!(ShipKind::from_network_value(i as u8), *kind);
    }
    assert_eq!(ShipKind::from_network_value(200), ShipKind::Spectator);
}

#[test]
fn item_set_round_trip() {
    let items = ItemSet::parse(0x3FFF_FFFF);
    assert!(items.shield_active && items.super_active);
    assert_eq!((items.bursts, items.repels, items.portals), (15, 15, 15));
    assert_eq!(items.pack(), 0x3FFF_FFFF);
    let some = ItemSet::parse((3 << 6) | (2 << 26) | 1);
    assert!(some.shield_active);
    assert!(!some.super_active);
    assert_eq!(some.repels, 3);
    assert_eq!(some.portals, 2);
    assert_eq!(some.pack(), (3 << 6) | (2 << 26) | 1);
    assert_eq!(ItemSet::empty().pack(), 0);
}

#[test]
fn core_messages_serialize() {
    assert_eq!(ReliableAckMessage { id: 0x01020304 }.serialize(), vec![0, 4, 4, 3, 2, 1]);
    assert_eq!(
        ReliableDataMessage { id: 7, data: vec![9, 8] }.serialize(),
        vec![0, 3, 7, 0, 0, 0, 9, 8]
    );
    let sync = ClockSyncRequestMessage::new(GameTick::new(0x100), 2, 3);
    assert_eq!(sync.serialize(), vec![0, 5, 0, 1, 0, 0, 2, 0, 0, 0, 3, 0, 0, 0]);
    assert_eq!(
        ClockSyncResponseMessage { request_timestamp: 1, response_timestamp: 0xFF }.serialize(),
        vec![0, 6, 1, 0, 0, 0, 0xFF, 0, 0, 0]
    );
}

#[test]
fn little_endian_bytes() {
    let mut out = Vec::new();
    push_u32_le(&mut out, 0xA1B2C3D4);
    assert_eq!(out, vec![0xD4, 0xC3, 0xB2, 0xA1]);
    assert_eq!(get_u32_le(&out, 0), 0xA1B2C3D4);
    assert_eq!(get_u16_le(&out, 2), 0xA1B2);
}
