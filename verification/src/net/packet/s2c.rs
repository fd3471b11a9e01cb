use vstd::prelude::*;

use crate::clock::GameTick;
use crate::player::PlayerId;
use crate::ship::ShipKind;

verus! {

/// The channel a chat line arrived on.
#[derive(Copy, Clone, Debug, PartialEq, Eq, Structural)]
pub enum ChatKind {
    Arena,
    PublicMacro,
    Public,
    Team,
    Frequency,
    Private,
    Warning,
    RemotePrivate,
    Error,
    Channel,
    Fuchsia,
}

/// Where a powerball is, who holds it, and since when.
#[derive(Copy, Clone, Debug)]
pub struct PowerballPositionMessage {
    pub ball_id: u8,
    pub x: u16,
    pub y: u16,
    pub x_velocity: i16,
    pub y_velocity: i16,
    pub owner_id: PlayerId,
    pub timestamp: GameTick,
}

/// A flag lies on the map at a tile, owned by a team.
#[derive(Copy, Clone, Debug)]
pub struct FlagPositionMessage {
    pub flag_id: u16,
    pub x: u16,
    pub y: u16,
    pub owner_freq: u16,
}

/// A player picked up or claimed a flag.
#[derive(Copy, Clone, Debug)]
pub struct FlagClaimMessage {
    pub flag_id: u16,
    pub player_id: PlayerId,
}

/// A player dropped every flag it carried.
#[derive(Copy, Clone, Debug)]
pub struct FlagDropMessage {
    pub player_id: PlayerId,
}

/// The owning team of each turf flag, in flag order.
#[derive(Clone, Debug)]
pub struct TurfFlagUpdateMessage {
    pub flag_teams: Vec<u16>,
}

/// A chat line: its channel, the sender's id where there is one, and the text.
#[derive(Clone, Debug)]
pub struct ChatMessage {
    pub kind: ChatKind,
    pub sender: PlayerId,
    pub message: String,
}

/// One player killed another.
#[derive(Copy, Clone, Debug)]
pub struct PlayerDeathMessage {
    pub killer_id: PlayerId,
    pub killed_id: PlayerId,
    pub bounty: u16,
    pub flag_transfer: u16,
    pub prize_id: i16,
}

/// A player's scores as the server counts them.
#[derive(Copy, Clone, Debug)]
pub struct ScoreUpdateMessage {
    pub player_id: PlayerId,
    pub kill_points: i32,
    pub flag_points: i32,
    pub kills: u16,
    pub deaths: u16,
}

/// A player moved to another team.
#[derive(Copy, Clone, Debug)]
pub struct PlayerFrequencyChangeMessage {
    pub player_id: PlayerId,
    pub frequency: u16,
}

/// A player attaches to another one, or detaches when there is no destination.
#[derive(Copy, Clone, Debug)]
pub struct TurretLinkCreateMessage {
    pub requester_id: PlayerId,
    pub destination_id: Option<PlayerId>,
}

/// Every player attached to this one is detached.
#[derive(Copy, Clone, Debug)]
pub struct TurretLinkDestroyMessage {
    pub player_id: PlayerId,
}

/// A player left the arena.
#[derive(Copy, Clone, Debug)]
pub struct PlayerLeavingMessage {
    pub player_id: PlayerId,
}

/// The seeds and time the game state is to be synchronized to.
#[derive(Copy, Clone, Debug)]
pub struct SynchronizationRequestMessage {
    pub prize_seed: u32,
    pub door_seed: u32,
    pub timestamp: GameTick,
    pub checksum_key: u32,
}

/// A player changed ship and team.
#[derive(Copy, Clone, Debug)]
pub struct PlayerTeamAndShipChangeMessage {
    pub ship_kind: ShipKind,
    pub player_id: PlayerId,
    pub frequency: u16,
}

/// A player picked up the prize on a tile.
#[derive(Copy, Clone, Debug)]
pub struct PrizePickupMessage {
    pub timestamp: GameTick,
    pub x: u16,
    pub y: u16,
    pub prize_id: i16,
    pub player_id: PlayerId,
}

/// The server grants our ship a prize a number of times.
#[derive(Copy, Clone, Debug)]
pub struct CollectedPrizeMessage {
    pub count: u16,
    pub prize_id: i16,
}

/// One player of a batch that entered the arena.
#[derive(Clone, Debug)]
pub struct PlayerEnteringEntry {
    pub ship_kind: ShipKind,
    pub name: String,
    pub squad: String,
    pub kill_points: i32,
    pub flag_points: i32,
    pub player_id: PlayerId,
    pub frequency: u16,
    pub kills: u16,
    pub deaths: u16,
    pub attach_parent: PlayerId,
    pub flag_count: u16,
    pub has_koth: bool,
}

} // verus!
