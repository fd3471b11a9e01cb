use vstd::prelude::*;

use crate::arena_settings::ArenaSettings;
use crate::clock::{GameTick, tick_diff};
use crate::math::{PixelUnit, Position, PositionUnit, Velocity, trunc_div};
use crate::net::packet::s2c::PowerballPositionMessage;
use crate::player::{Player, PlayerId, PlayerManager};
use crate::ship::ShipKind;

verus! {

pub const MAX_BALL_COUNT: usize = 8;
pub const BALL_START_FRICTION: u32 = 1000000;

/// Number of ticks a ball stays phased once a player could pick it up.
pub const PICKUP_PHASE_TICKS: u32 = 100;

#[derive(Copy, Clone, Debug, PartialEq, Eq, Structural)]
pub enum PowerballState {
    Invalid,
    World,
    Carried,
}

#[derive(Copy, Clone, Debug)]
pub struct Powerball {
    pub carrier_id: PlayerId,
    pub frequency: u16,
    pub friction_delta: i16,
    pub friction: u32,
    pub position: Position,
    pub velocity: Velocity,
    pub timestamp: GameTick,
    pub state: PowerballState,
    /// Ticks the ball stays invisible because a player is about to pick it up.
    pub remaining_pickup_ticks: u32,
    pub current_sim_tick: GameTick,
    pub last_trail_tick: GameTick,
}

/// A ball slot that holds no ball.
pub open spec fn empty_ball() -> Powerball {
    Powerball {
        carrier_id: PlayerId { value: 0xFFFF },
        frequency: 0xFFFF,
        friction_delta: 0,
        friction: 0,
        position: Position { x: PositionUnit(0), y: PositionUnit(0) },
        velocity: Velocity { x: PositionUnit(0), y: PositionUnit(0) },
        timestamp: GameTick { value: 0 },
        state: PowerballState::Invalid,
        remaining_pickup_ticks: 0,
        current_sim_tick: GameTick { value: 0 },
        last_trail_tick: GameTick { value: 0 },
    }
}

impl Powerball {
    pub fn empty() -> (r: Powerball)
        ensures
            r == empty_ball(),
    {
        Powerball {
            carrier_id: PlayerId::invalid(),
            frequency: 0xFFFF,
            friction_delta: 0,
            friction: 0,
            position: Position::empty(),
            velocity: Velocity::empty(),
            timestamp: GameTick::empty(),
            state: PowerballState::Invalid,
            remaining_pickup_ticks: 0,
            current_sim_tick: GameTick::empty(),
            last_trail_tick: GameTick::empty(),
        }
    }

    /// The ball cannot be picked up: someone is about to take it, or it was
    /// thrown less than `pass_delay` ticks ago.
    pub fn is_phasing(&self, current_tick: GameTick, pass_delay: i32) -> (r: bool)
        ensures
            r == (self.remaining_pickup_ticks > 0 || tick_diff(current_tick.value, self.timestamp.value) < pass_delay),
    {
        self.remaining_pickup_ticks > 0 || current_tick.diff(&self.timestamp) < pass_delay
    }
}

/// The ball we hold and the ticks left before it is thrown.
#[derive(Copy, Clone, Debug)]
pub struct CarryState {
    pub ball_id: usize,
    pub remaining_ticks: u32,
}

pub struct PowerballManager {
    pub balls: [Powerball; 8],
    pub carry_state: Option<CarryState>,
}

/// The message moves the ball into the world: the slot is empty, the
/// message is newer, or a carried ball got a real timestamp.
pub open spec fn takes_world_position(b: Powerball, m: PowerballPositionMessage) -> bool {
    ||| b.state == PowerballState::Invalid
    ||| tick_diff(m.timestamp.value, b.timestamp.value) > 0
    ||| (b.state == PowerballState::Carried && m.timestamp.value != 0)
}

/// Where the message puts the ball, in position units.
pub open spec fn message_position(m: PowerballPositionMessage) -> Position {
    Position { x: PositionUnit((m.x * 1000) as i32), y: PositionUnit((m.y * 1000) as i32) }
}

/// The ball after a message that moves it into the world.
pub open spec fn world_ball(b: Powerball, m: PowerballPositionMessage, pm: PlayerManager, settings: ArenaSettings) -> Powerball {
    let owner = pm.contains_id(m.owner_id);
    let p = pm.player_with_id(m.owner_id);
    let kind = if owner { p.ship_kind } else { ShipKind::Warbird };
    Powerball {
        carrier_id: m.owner_id,
        frequency: if owner { p.frequency } else { 0xFFFF },
        friction_delta: settings.ship(kind).powerball_friction as i16,
        friction: BALL_START_FRICTION,
        position: message_position(m),
        velocity: Velocity { x: PositionUnit(m.x_velocity as i32), y: PositionUnit(m.y_velocity as i32) },
        timestamp: m.timestamp,
        state: PowerballState::World,
        remaining_pickup_ticks: if owner { 0 } else { b.remaining_pickup_ticks },
        current_sim_tick: m.timestamp,
        last_trail_tick: b.last_trail_tick,
    }
}

/// The ball after a message that gives it to a carrier.
pub open spec fn held_ball(b: Powerball, m: PowerballPositionMessage, pm: PlayerManager) -> Powerball {
    let owner = pm.contains_id(m.owner_id);
    Powerball {
        carrier_id: m.owner_id,
        timestamp: m.timestamp,
        position: message_position(m),
        velocity: Velocity { x: PositionUnit(0), y: PositionUnit(0) },
        state: if owner { PowerballState::Carried } else { PowerballState::Invalid },
        frequency: if owner { pm.player_with_id(m.owner_id).frequency } else { b.frequency },
        ..b
    }
}

/// We just picked the ball up ourselves.
pub open spec fn is_new_pickup(b: Powerball, m: PowerballPositionMessage, pm: PlayerManager) -> bool {
    &&& b.state != PowerballState::Carried
    &&& m.owner_id == pm.self_id
    &&& pm.contains_id(pm.self_id)
    &&& pm.player_with_id(pm.self_id).ship_kind != ShipKind::Spectator
}

/// The players after the player with `id`, if listed, has its ball flag set to `carrying`.
pub open spec fn with_ball_flag(pm: PlayerManager, id: PlayerId, carrying: bool) -> Seq<Player> {
    if pm.contains_id(id) {
        pm.players@.update(pm.index_of(id), Player { carrying_ball: carrying, ..pm.player_with_id(id) })
    } else {
        pm.players@
    }
}

/// The carry state once ball `id` is gone from our hands.
pub open spec fn carry_without(c: Option<CarryState>, id: int) -> Option<CarryState> {
    match c {
        Some(s) => if s.ball_id == id { None } else { c },
        None => None,
    }
}

impl PowerballManager {
    /// The ball in slot `id`.
    pub open spec fn slot(&self, id: u8) -> Powerball {
        self.balls@[id as int]
    }

    pub fn new() -> (r: PowerballManager)
        ensures
            forall|i: int| 0 <= i < 8 ==> #[trigger] r.balls@[i] == empty_ball(),
            r.carry_state is None,
    {
        PowerballManager { balls: [Powerball::empty(); 8], carry_state: None }
    }

    pub fn clear_carry_state(&mut self)
        ensures
            final(self).carry_state is None,
            final(self).balls == old(self).balls,
    {
        self.carry_state = None;
    }

    pub fn get_carry_remaining_ticks(&self) -> (r: Option<u32>)
        ensures
            r == match self.carry_state {
                Some(c) => Some(c.remaining_ticks),
                None => None::<u32>,
            },
    {
        if let Some(carry_state) = &self.carry_state {
            return Some(carry_state.remaining_ticks);
        }
        None
    }

    /// Counts down the throw timer of the ball we hold. When it runs out the
    /// carry ends and the ball's id is returned, so that it can be thrown.
    pub fn tick_carry_state(&mut self) -> (r: Option<u8>)
        ensures
            final(self).balls == old(self).balls,
            match old(self).carry_state {
                Some(c) => if c.remaining_ticks <= 1 {
                    r == Some(c.ball_id as u8) && final(self).carry_state is None
                } else {
                    r is None && final(self).carry_state == Some(CarryState { remaining_ticks: (c.remaining_ticks - 1) as u32, ..c })
                },
                None => r is None && final(self).carry_state is None,
            },
    {
        if let Some(c) = self.carry_state {
            let mut carry = c;
            if carry.remaining_ticks > 0 {
                carry.remaining_ticks = carry.remaining_ticks - 1;
            }
            if carry.remaining_ticks == 0 {
                self.carry_state = None;
                return Some(carry.ball_id as u8);
            }
            self.carry_state = Some(carry);
        }
        None
    }

    pub fn get_ball_by_id(&self, ball_id: u8) -> (r: Option<&Powerball>)
        ensures
            ball_id < 8 ==> r == Some(&self.balls@[ball_id as int]),
            ball_id >= 8 ==> r is None,
    {
        if ball_id >= 8 {
            None
        } else {
            Some(&self.balls[ball_id as usize])
        }
    }

    pub fn get_ball_by_id_mut(&mut self, ball_id: u8) -> (r: Option<&mut Powerball>)
        ensures
            ball_id < 8 ==> (r matches Some(b) && *b == old(self).balls@[ball_id as int]
                && final(self).balls@ == old(self).balls@.update(ball_id as int, *final(b))
                && final(self).carry_state == old(self).carry_state),
            ball_id >= 8 ==> r is None && *final(self) == *old(self),
    {
        if ball_id >= 8 {
            None
        } else {
            Some(&mut self.balls[ball_id as usize])
        }
    }

    pub fn is_carrying_ball(&self, player_id: PlayerId) -> (r: bool)
        ensures
            r == exists|i: int| 0 <= i < 8 && (#[trigger] self.balls@[i]).carrier_id == player_id,
    {
        let mut i: usize = 0;
        while i < 8
            invariant
                i <= 8,
                forall|j: int| 0 <= j < i ==> (#[trigger] self.balls@[j]).carrier_id != player_id,
            decreases 8 - i,
        {
            if self.balls[i].carrier_id == player_id {
                return true;
            }
            i = i + 1;
        }
        false
    }

    /// Applies a ball position from the server. Returns true when the ball
    /// was just picked up by our own player.
    pub fn on_ball_position_message(
        &mut self,
        player_manager: &mut PlayerManager,
        settings: &ArenaSettings,
        message: &PowerballPositionMessage,
    ) -> (r: bool)
        requires
            old(player_manager).wf(),
            message.ball_id < 8 && takes_world_position(old(self).slot(message.ball_id), *message)
                && old(player_manager).contains_id(message.owner_id)
                ==> old(player_manager).player_with_id(message.owner_id).ship_kind != ShipKind::Spectator,
        ensures
            final(player_manager).wf(),
            final(player_manager).self_id == old(player_manager).self_id,
            final(player_manager).player_mapping == old(player_manager).player_mapping,
            message.ball_id >= 8 ==> {
                &&& !r
                &&& *final(self) == *old(self)
                &&& final(player_manager).players@ == old(player_manager).players@
            },
            message.ball_id < 8 && takes_world_position(old(self).slot(message.ball_id), *message) ==> {
                &&& !r
                &&& final(self).balls@ == old(self).balls@.update(message.ball_id as int,
                    world_ball(old(self).slot(message.ball_id), *message, *old(player_manager), *settings))
                &&& final(self).carry_state == carry_without(old(self).carry_state, message.ball_id as int)
                &&& final(player_manager).players@ == with_ball_flag(*old(player_manager), message.owner_id, false)
            },
            message.ball_id < 8 && !takes_world_position(old(self).slot(message.ball_id), *message)
                && message.timestamp.value == 0 && message.owner_id.value != 0xFFFF ==> {
                let pickup = is_new_pickup(old(self).slot(message.ball_id), *message, *old(player_manager));
                &&& r == pickup
                &&& final(self).balls@ == old(self).balls@.update(message.ball_id as int,
                    held_ball(old(self).slot(message.ball_id), *message, *old(player_manager)))
                &&& final(self).carry_state == if pickup {
                    Some(CarryState {
                        ball_id: message.ball_id as usize,
                        remaining_ticks: settings.ship(old(player_manager).player_with_id(old(player_manager).self_id).ship_kind).powerball_throw_timer as u32,
                    })
                } else {
                    old(self).carry_state
                }
                &&& final(player_manager).players@ == with_ball_flag(*old(player_manager), message.owner_id, true)
            },
            message.ball_id < 8 && !takes_world_position(old(self).slot(message.ball_id), *message)
                && message.timestamp.value == 0 && message.owner_id.value == 0xFFFF ==> {
                &&& !r
                &&& final(self).balls@ == old(self).balls@.update(message.ball_id as int,
                    Powerball { state: PowerballState::Invalid, ..old(self).slot(message.ball_id) })
                &&& final(self).carry_state == carry_without(old(self).carry_state, message.ball_id as int)
                &&& final(player_manager).players@ == with_ball_flag(*old(player_manager), old(self).slot(message.ball_id).carrier_id, false)
            },
            message.ball_id < 8 && !takes_world_position(old(self).slot(message.ball_id), *message)
                && message.timestamp.value != 0 ==> {
                &&& !r
                &&& *final(self) == *old(self)
                &&& final(player_manager).players@ == old(player_manager).players@
            },
    {
        if message.ball_id >= 8 {
            return false;
        }
        let id = message.ball_id as usize;
        let ghost pm0 = *player_manager;
        let mut carry_state = self.carry_state;
        let mut ball = self.balls[id];
        let new_ball_world_position = ball.state == PowerballState::Invalid
            || message.timestamp.is_after(&ball.timestamp)
            || (ball.state == PowerballState::Carried && message.timestamp.value() != 0);
        let mut new_pickup = false;
        if new_ball_world_position {
            ball.carrier_id = message.owner_id;
            ball.timestamp = message.timestamp;
            ball.position = Position::from_pixels(PixelUnit(message.x as i32), PixelUnit(message.y as i32));
            ball.velocity = Velocity::new(PositionUnit(message.x_velocity as i32), PositionUnit(message.y_velocity as i32));
            ball.frequency = 0xFFFF;
            ball.state = PowerballState::World;
            ball.current_sim_tick = message.timestamp;
            if let Some(carry) = carry_state {
                if carry.ball_id == id {
                    carry_state = None;
                }
            }
            let mut carrier_ship_kind = ShipKind::Warbird;
            if let Some(carrier) = player_manager.get_by_id_mut(message.owner_id) {
                carrier_ship_kind = carrier.ship_kind;
                ball.frequency = carrier.frequency;
                ball.remaining_pickup_ticks = 0;
                carrier.carrying_ball = false;
            }
            proof {
                PlayerManager::lemma_same_ids_wf(&pm0, player_manager);
            }
            ball.friction_delta = settings.get_ship_settings(carrier_ship_kind).powerball_friction as i16;
            ball.friction = BALL_START_FRICTION;
        } else if message.timestamp.value() == 0 {
            if message.owner_id != PlayerId::invalid() {
                ball.timestamp = message.timestamp;
                ball.carrier_id = message.owner_id;
                ball.position = Position::from_pixels(PixelUnit(message.x as i32), PixelUnit(message.y as i32));
                ball.velocity = Velocity::empty();
                if ball.state != PowerballState::Carried && ball.carrier_id == player_manager.self_id {
                    if let Some(me) = player_manager.get_self() {
                        if me.ship_kind != ShipKind::Spectator {
                            let remaining_ticks = settings.get_ship_settings(me.ship_kind).powerball_throw_timer as u32;
                            carry_state = Some(CarryState { ball_id: id, remaining_ticks });
                            new_pickup = true;
                        }
                    }
                }
                if let Some(carrier) = player_manager.get_by_id_mut(message.owner_id) {
                    ball.state = PowerballState::Carried;
                    ball.frequency = carrier.frequency;
                    carrier.carrying_ball = true;
                } else {
                    ball.state = PowerballState::Invalid;
                }
                proof {
                    PlayerManager::lemma_same_ids_wf(&pm0, player_manager);
                }
            } else {
                ball.state = PowerballState::Invalid;
                if let Some(player) = player_manager.get_by_id_mut(ball.carrier_id) {
                    player.carrying_ball = false;
                }
                proof {
                    PlayerManager::lemma_same_ids_wf(&pm0, player_manager);
                }
                if let Some(carry) = carry_state {
                    if carry.ball_id == id {
                        carry_state = None;
                    }
                }
            }
        } else {
            return false;
        }
        self.balls[id] = ball;
        self.carry_state = carry_state;
        new_pickup
    }
}

/// The goal tile coordinate of a position coordinate.
pub open spec fn goal_tile(v: i32) -> int {
    trunc_div(v as int, 16000)
}

/// Corner goals: each team scores in its own quarter of the map.
pub open spec fn team_goal_mode3(x: int, y: int, frequency: u16) -> bool {
    let corner = frequency % 4;
    if corner == 0 {
        x < 512 && y < 512
    } else if corner == 1 {
        y >= 512 && y < 512
    } else if corner == 2 {
        x < 512 && y >= 512
    } else {
        x >= 512 && y >= 512
    }
}

/// Diagonal goals: the map is cut along both diagonals into four parts.
pub open spec fn team_goal_mode5(x: int, y: int, frequency: u16) -> bool {
    let direction = frequency % 4;
    if direction == 0 {
        if y < 512 { x < y } else { x + y < 1024 }
    } else if direction == 1 {
        if x < 512 { x + y >= 1024 } else { x < y }
    } else if direction == 2 {
        if x < 512 { x >= y } else { x + y < 1024 }
    } else {
        if y <= 512 { x + y >= 1024 } else { x >= y }
    }
}

/// Whether a goal at `position` belongs to the team `frequency` under the
/// arena's powerball goal mode.
pub open spec fn team_goal(powerball_mode: u8, position: Position, frequency: u16) -> bool {
    let x = goal_tile(position.x.0);
    let y = goal_tile(position.y.0);
    if powerball_mode == 1 {
        if frequency & 1 != 0 { x >= 512 } else { x < 512 }
    } else if powerball_mode == 2 {
        if frequency & 1 != 0 { y >= 512 } else { y < 512 }
    } else if powerball_mode == 3 {
        team_goal_mode3(x, y, frequency)
    } else if powerball_mode == 4 {
        !team_goal_mode3(x, y, frequency)
    } else if powerball_mode == 5 {
        team_goal_mode5(x, y, frequency)
    } else if powerball_mode == 6 {
        !team_goal_mode5(x, y, frequency)
    } else {
        false
    }
}

pub fn is_team_goal(powerball_mode: u8, position: Position, frequency: u16) -> (r: bool)
    ensures
        r == team_goal(powerball_mode, position, frequency),
{
    let x = position.x.0 / 16000;
    let y = position.y.0 / 16000;
    match powerball_mode {
        0 => false,
        1 => {
            if frequency & 1 != 0 {
                x >= 512
            } else {
                x < 512
            }
        },
        2 => {
            if frequency & 1 != 0 {
                y >= 512
            } else {
                y < 512
            }
        },
        3 => is_team_goal_mode3(position, frequency),
        4 => !is_team_goal_mode3(position, frequency),
        5 => is_team_goal_mode5(position, frequency),
        6 => !is_team_goal_mode5(position, frequency),
        _ => false,
    }
}

fn is_team_goal_mode3(position: Position, frequency: u16) -> (r: bool)
    ensures
        r == team_goal_mode3(goal_tile(position.x.0), goal_tile(position.y.0), frequency),
{
    let corner = frequency % 4;
    let x = position.x.0 / 16000;
    let y = position.y.0 / 16000;
    match corner {
        0 => x < 512 && y < 512,
        1 => y >= 512 && y < 512,
        2 => x < 512 && y >= 512,
        _ => x >= 512 && y >= 512,
    }
}

fn is_team_goal_mode5(position: Position, frequency: u16) -> (r: bool)
    ensures
        r == team_goal_mode5(goal_tile(position.x.0), goal_tile(position.y.0), frequency),
{
    let direction = frequency % 4;
    let x = position.x.0 / 16000;
    let y = position.y.0 / 16000;
    match direction {
        0 => {
            if y < 512 {
                x < y
            } else {
                x + y < 1024
            }
        },
        1 => {
            if x < 512 {
                x + y >= 1024
            } else {
                x < y
            }
        },
        2 => {
            if x < 512 {
                x >= y
            } else {
                x + y < 1024
            }
        },
        _ => {
            if y <= 512 {
                x + y >= 1024
            } else {
                x >= y
            }
        },
    }
}


/// Half-map goals: in goal mode 1 even teams own the goals in the left
/// half of the map (tile x below 512) and odd teams those in the right
/// half; in mode 2 even teams own the top half (tile y below 512) and odd
/// teams the bottom half.
pub proof fn lemma_half_map_goals(position: Position, frequency: u16)
    ensures
        ({
            let x = trunc_div(position.x.0 as int, 16000);
            let y = trunc_div(position.y.0 as int, 16000);
            let odd = frequency % 2 == 1;
            &&& team_goal(1, position, frequency) == ((odd && x >= 512) || (!odd && x < 512))
            &&& team_goal(2, position, frequency) == ((odd && y >= 512) || (!odd && y < 512))
        }),
{
    assert((frequency & 1 != 0) == (frequency % 2 == 1)) by (bit_vector);
}

} // verus!
