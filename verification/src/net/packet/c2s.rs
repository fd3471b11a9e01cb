use vstd::prelude::*;

use crate::clock::GameTick;
use crate::net::packet::bi::ExtraPositionData;
use crate::net::packet::s2c::ChatKind;
use crate::player::PlayerId;
use crate::ship::ShipKind;

verus! {

/// Where our ship is and how it moves, with what it fired and, where the
/// arena asks for it, extra data on its energy and items.
#[derive(Copy, Clone, Debug)]
pub struct PositionMessage {
    pub direction: u8,
    pub timestamp: GameTick,
    pub x_position: u16,
    pub y_position: u16,
    pub x_velocity: i16,
    pub y_velocity: i16,
    pub togglables: u8,
    pub bounty: u16,
    pub energy: u16,
    pub weapon_info: u16,
    pub extra_info: Option<ExtraPositionData>,
}

/// Tells the server that we died, who killed us and the bounty we had.
#[derive(Copy, Clone, Debug)]
pub struct DeathMessage {
    pub killer_id: PlayerId,
    pub bounty: u16,
}

/// Drops a brick on a tile.
#[derive(Copy, Clone, Debug, PartialEq, Eq)]
pub struct DropBrickMessage {
    pub x: u16,
    pub y: u16,
}

/// Tells the server that we took the prize at a tile.
#[derive(Copy, Clone, Debug)]
pub struct TakePrizeMessage {
    pub timestamp: GameTick,
    pub x: u16,
    pub y: u16,
    pub prize: i16,
}

/// A chat line to send: its channel, the player it is addressed to on the
/// channels that address one, and the text.
#[derive(Clone, Debug)]
pub struct SendChatMessage {
    pub kind: ChatKind,
    pub target: Option<PlayerId>,
    pub text: String,
}

/// Asks the server to attach our ship to a player, or to detach it when
/// the id is not a player's.
#[derive(Copy, Clone, Debug)]
pub struct AttachRequestMessage {
    pub player_id: PlayerId,
}

/// Which arena to join.
#[derive(Clone, Debug)]
pub enum ArenaRequest {
    AnyPublic,
    SpecificPublic(u16),
    Name(String),
}

/// Asks to join an arena in a ship, with the screen size the client draws.
#[derive(Clone, Debug)]
pub struct ArenaJoinMessage {
    pub ship_kind: ShipKind,
    pub x_resolution: u16,
    pub y_resolution: u16,
    pub request: ArenaRequest,
}

} // verus!
