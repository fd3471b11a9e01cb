use vstd::prelude::*;

use crate::arena_settings::ArenaSettings;
use crate::clock::{GameTick, tick_diff};
use crate::map::{AnimatedTileKind, Tile, TileMap, tile_x_of, tile_y_of};
use crate::math::{Position, PositionUnit, Rectangle, rects_intersect};
use crate::net::packet::s2c::{FlagClaimMessage, FlagDropMessage, FlagPositionMessage, TurfFlagUpdateMessage};
use crate::player::{Player, PlayerId, PlayerManager, collider_of, synchronized};
use crate::ship::ShipKind;

verus! {

/// A flag lying on the map.
#[derive(Copy, Clone, Debug)]
pub struct FlagWorldState {
    pub x_tile: u16,
    pub y_tile: u16,
    pub frequency: u16,
    pub hidden_ticks_remaining: u32,
    pub pickup_delay_ticks_remaining: u32,
}

#[derive(Copy, Clone, Debug)]
pub enum GameFlag {
    Turf(FlagWorldState),
    Carried(PlayerId),
    World(FlagWorldState),
    Unknown,
}

pub struct FlagController {
    pub flags: Vec<GameFlag>,
}

/// Ticks a flag stays hidden after a player touched it.
pub const PICKUP_HIDE_TICKS: u32 = 300;
/// Ticks between two of our requests for the same flag.
pub const PICKUP_DELAY_TICKS: u32 = 20;

/// What a tick of the flags asks of the connection.
pub struct FlagTickActions {
    /// Flags our ship touched, to be requested from the server in this order.
    pub flag_requests: Vec<u16>,
    /// Our flag timer ran out: every carried flag is to be dropped.
    pub drop_flags: bool,
}

/// How many flags a player may carry; 0 means no limit.
pub open spec fn carry_limit(settings: ArenaSettings) -> u16 {
    if settings.carry_flags == 1 {
        256
    } else if settings.carry_flags > 1 {
        (settings.carry_flags - 1) as u16
    } else {
        0
    }
}

/// The one-tile box of a flag.
pub open spec fn flag_collider(s: FlagWorldState) -> Rectangle {
    Rectangle {
        min: Position { x: PositionUnit((s.x_tile * 16000) as i32), y: PositionUnit((s.y_tile * 16000) as i32) },
        max: Position { x: PositionUnit(((s.x_tile + 1) * 16000) as i32), y: PositionUnit(((s.y_tile + 1) * 16000) as i32) },
    }
}

/// The player gets as far as the position check for this flag.
pub open spec fn may_reach_flag(p: Player, s: FlagWorldState, carry: u16) -> bool {
    &&& p.ship_kind != ShipKind::Spectator
    &&& p.enter_delay == 0
    &&& p.frequency != s.frequency
    &&& !(carry > 0 && p.flag_count >= carry)
}

/// The player touches the flag and could take it.
pub open spec fn touches_flag(p: Player, s: FlagWorldState, settings: ArenaSettings, carry: u16, tick: GameTick) -> bool {
    let radius = settings.ship(p.ship_kind).radius;
    &&& may_reach_flag(p, s, carry)
    &&& synchronized(p, tick)
    &&& rects_intersect(collider_of(p, if radius == 0 { 14 } else { radius }), flag_collider(s))
}

/// Timers of a flag after one tick.
pub open spec fn counted_down(s: FlagWorldState) -> FlagWorldState {
    FlagWorldState {
        hidden_ticks_remaining: if s.hidden_ticks_remaining > 0 { (s.hidden_ticks_remaining - 1) as u32 } else { 0 },
        pickup_delay_ticks_remaining: if s.pickup_delay_ticks_remaining > 0 { (s.pickup_delay_ticks_remaining - 1) as u32 } else { 0 },
        ..s
    }
}

/// The flag after the first `n` players were checked against it, and
/// whether we requested it meanwhile.
pub open spec fn players_swept(
    s: FlagWorldState,
    world: bool,
    players: Seq<Player>,
    self_id: PlayerId,
    settings: ArenaSettings,
    carry: u16,
    tick: GameTick,
    n: int,
) -> (FlagWorldState, bool)
    decreases n,
{
    if n <= 0 {
        (s, false)
    } else {
        let (s1, requested) = players_swept(s, world, players, self_id, settings, carry, tick, n - 1);
        let p = players[n - 1];
        if touches_flag(p, s1, settings, carry, tick) {
            let s2 = if world { FlagWorldState { hidden_ticks_remaining: PICKUP_HIDE_TICKS, ..s1 } } else { s1 };
            if p.id == self_id && s2.pickup_delay_ticks_remaining == 0 {
                (FlagWorldState { pickup_delay_ticks_remaining: PICKUP_DELAY_TICKS, ..s2 }, true)
            } else {
                (s2, requested)
            }
        } else {
            (s1, requested)
        }
    }
}

/// A flag after one tick, and whether we request it.
pub open spec fn flag_ticked(f: GameFlag, players: Seq<Player>, self_id: PlayerId, settings: ArenaSettings, tick: GameTick) -> (GameFlag, bool) {
    let carry = carry_limit(settings);
    match f {
        GameFlag::World(s) => {
            let s0 = counted_down(s);
            if s0.hidden_ticks_remaining > 0 {
                (GameFlag::World(s0), false)
            } else {
                let (s1, requested) = players_swept(s0, true, players, self_id, settings, carry, tick, players.len() as int);
                (GameFlag::World(s1), requested)
            }
        },
        GameFlag::Turf(s) => {
            let (s1, requested) = players_swept(counted_down(s), false, players, self_id, settings, carry, tick, players.len() as int);
            (GameFlag::Turf(s1), requested)
        },
        _ => (f, false),
    }
}

/// The first `n` flags after one tick, and the ids we request, in order.
pub open spec fn flags_ticked(flags: Seq<GameFlag>, players: Seq<Player>, self_id: PlayerId, settings: ArenaSettings, tick: GameTick, n: int) -> (Seq<GameFlag>, Seq<u16>)
    decreases n,
{
    if n <= 0 {
        (Seq::empty(), Seq::empty())
    } else {
        let (fs, requests) = flags_ticked(flags, players, self_id, settings, tick, n - 1);
        let (f, requested) = flag_ticked(flags[n - 1], players, self_id, settings, tick);
        (fs.push(f), if requested { requests.push((n - 1) as u16) } else { requests })
    }
}

/// A flag whose position check is reached for player `p`.
pub open spec fn sync_checked(f: GameFlag, p: Player, settings: ArenaSettings) -> bool {
    match f {
        GameFlag::World(s) => s.hidden_ticks_remaining <= 1 && may_reach_flag(p, s, carry_limit(settings)),
        GameFlag::Turf(s) => may_reach_flag(p, s, carry_limit(settings)),
        _ => false,
    }
}

/// The flag list after growing it with unknown flags so that `id` is a valid index.
pub open spec fn resized_to_fit(flags: Seq<GameFlag>, id: int) -> Seq<GameFlag> {
    if id >= flags.len() {
        flags + Seq::new((id + 1 - flags.len()) as nat, |i: int| GameFlag::Unknown)
    } else {
        flags
    }
}

/// A turf flag owned by `frequency` at the map tile `tile`.
pub open spec fn turf_flag_at(tile: Tile, frequency: u16) -> GameFlag {
    GameFlag::Turf(FlagWorldState {
        x_tile: tile_x_of(tile.value),
        y_tile: tile_y_of(tile.value),
        frequency,
        hidden_ticks_remaining: 0,
        pickup_delay_ticks_remaining: 0,
    })
}

/// The flags after a turf update with the owners `teams` on the map's turf
/// tiles `tiles`: the first `n` owners are applied.
pub open spec fn turf_applied(flags: Seq<GameFlag>, teams: Seq<u16>, tiles: Seq<Tile>, n: int) -> Seq<GameFlag>
    decreases n,
{
    if n <= 0 {
        flags
    } else {
        let prev = turf_applied(flags, teams, tiles, n - 1);
        if n - 1 < tiles.len() {
            prev.update(n - 1, turf_flag_at(tiles[n - 1], teams[n - 1]))
        } else {
            prev
        }
    }
}

proof fn lemma_turf_applied_len(flags: Seq<GameFlag>, teams: Seq<u16>, tiles: Seq<Tile>, n: int)
    requires
        (if n < tiles.len() { n } else { tiles.len() as int }) <= flags.len(),
    ensures
        turf_applied(flags, teams, tiles, n).len() == flags.len(),
    decreases n,
{
    if n > 0 {
        lemma_turf_applied_len(flags, teams, tiles, n - 1);
    }
}

proof fn lemma_players_swept_frequency(
    s: FlagWorldState,
    world: bool,
    players: Seq<Player>,
    self_id: PlayerId,
    settings: ArenaSettings,
    carry: u16,
    tick: GameTick,
    n: int,
)
    ensures
        players_swept(s, world, players, self_id, settings, carry, tick, n).0.frequency == s.frequency,
        players_swept(s, world, players, self_id, settings, carry, tick, n).0.x_tile == s.x_tile,
        players_swept(s, world, players, self_id, settings, carry, tick, n).0.y_tile == s.y_tile,
    decreases n,
{
    if n > 0 {
        lemma_players_swept_frequency(s, world, players, self_id, settings, carry, tick, n - 1);
    }
}

proof fn lemma_flags_ticked_len(flags: Seq<GameFlag>, players: Seq<Player>, self_id: PlayerId, settings: ArenaSettings, tick: GameTick, n: int)
    requires
        n >= 0,
    ensures
        flags_ticked(flags, players, self_id, settings, tick, n).0.len() == n,
    decreases n,
{
    if n > 0 {
        lemma_flags_ticked_len(flags, players, self_id, settings, tick, n - 1);
    }
}

impl FlagController {
    pub fn new() -> (r: FlagController)
        ensures
            r.flags@.len() == 0,
    {
        FlagController { flags: Vec::new() }
    }

    pub fn clear(&mut self)
        ensures
            final(self).flags@.len() == 0,
    {
        self.flags.clear();
    }

    pub fn count(&self) -> (r: usize)
        ensures
            r == self.flags@.len(),
    {
        self.flags.len()
    }

    fn resize_to_fit_id(&mut self, id: u16)
        ensures
            final(self).flags@ == resized_to_fit(old(self).flags@, id as int),
    {
        let ghost old_flags = self.flags@;
        while self.flags.len() <= id as usize
            invariant
                old_flags.len() <= self.flags@.len() <= (if id >= old_flags.len() { id + 1 } else { old_flags.len() as int }),
                self.flags@.subrange(0, old_flags.len() as int) == old_flags,
                forall|i: int| old_flags.len() <= i < self.flags@.len() ==> #[trigger] self.flags@[i] == GameFlag::Unknown,
            decreases id + 1 - self.flags@.len(),
        {
            self.flags.push(GameFlag::Unknown);
        }
        assert(self.flags@ =~= resized_to_fit(old_flags, id as int));
    }

    /// Counts the flag timers down, checks which players touch the flags,
    /// and runs our own flag timer. Returns the flags our ship asks for and
    /// whether our carried flags are to be dropped.
    pub fn tick(&mut self, player_manager: &mut PlayerManager, settings: &ArenaSettings, current_tick: GameTick) -> (r: FlagTickActions)
        requires
            old(player_manager).wf(),
            forall|i: int, j: int| 0 <= i < old(self).flags@.len() && 0 <= j < old(player_manager).players@.len()
                && sync_checked(old(self).flags@[i], old(player_manager).players@[j], *settings)
                ==> tick_diff(current_tick.value, old(player_manager).players@[j].last_position_timestamp.value) != i32::MIN,
        ensures
            final(player_manager).wf(),
            final(player_manager).self_id == old(player_manager).self_id,
            final(player_manager).player_mapping == old(player_manager).player_mapping,
            ({
                let (fs, requests) = flags_ticked(old(self).flags@, old(player_manager).players@, old(player_manager).self_id,
                    *settings, current_tick, old(self).flags@.len() as int);
                &&& final(self).flags@ == fs
                &&& r.flag_requests@ == requests
            }),
            ({
                let pm = *old(player_manager);
                let me = pm.player_with_id(pm.self_id);
                if pm.contains_id(pm.self_id) && me.flag_count > 0 && me.flag_remaining_ticks > 0 {
                    &&& final(player_manager).players@ == pm.players@.update(pm.index_of(pm.self_id),
                        Player { flag_remaining_ticks: (me.flag_remaining_ticks - 1) as u32, ..me })
                    &&& r.drop_flags == (me.flag_remaining_ticks == 1)
                } else {
                    &&& final(player_manager).players@ == pm.players@
                    &&& !r.drop_flags
                }
            }),
    {
        let carry_allowed: u16 = if settings.carry_flags == 1 {
            256
        } else if settings.carry_flags > 1 {
            settings.carry_flags as u16 - 1
        } else {
            0
        };
        let ghost flags0 = self.flags@;
        let ghost players = player_manager.players@;
        let self_id = player_manager.self_id;
        let mut flag_requests: Vec<u16> = Vec::new();
        let mut flag_id: usize = 0;
        while flag_id < self.flags.len()
            invariant
                flag_id <= self.flags@.len(),
                self.flags@.len() == flags0.len(),
                players == player_manager.players@,
                self_id == player_manager.self_id,
                carry_allowed == carry_limit(*settings),
                forall|i: int, j: int| 0 <= i < flags0.len() && 0 <= j < players.len()
                    && sync_checked(flags0[i], players[j], *settings)
                    ==> tick_diff(current_tick.value, players[j].last_position_timestamp.value) != i32::MIN,
                forall|i: int| flag_id <= i < flags0.len() ==> #[trigger] self.flags@[i] == flags0[i],
                self.flags@.subrange(0, flag_id as int) == flags_ticked(flags0, players, self_id, *settings, current_tick, flag_id as int).0,
                flag_requests@ == flags_ticked(flags0, players, self_id, *settings, current_tick, flag_id as int).1,
            decreases flags0.len() - flag_id,
        {
            proof {
                lemma_flags_ticked_len(flags0, players, self_id, *settings, current_tick, flag_id as int);
            }
            let flag = self.flags[flag_id];
            let (new_flag, requested) = match flag {
                GameFlag::World(state) => {
                    let s = Self::count_down(state);
                    if s.hidden_ticks_remaining > 0 {
                        (GameFlag::World(s), false)
                    } else {
                        let (s1, requested) = Self::sweep_players(s, true, player_manager, settings, carry_allowed, current_tick, Ghost(flag));
                        (GameFlag::World(s1), requested)
                    }
                },
                GameFlag::Turf(state) => {
                    let s = Self::count_down(state);
                    let (s1, requested) = Self::sweep_players(s, false, player_manager, settings, carry_allowed, current_tick, Ghost(flag));
                    (GameFlag::Turf(s1), requested)
                },
                _ => (flag, false),
            };
            self.flags.set(flag_id, new_flag);
            if requested {
                flag_requests.push(flag_id as u16);
            }
            proof {
                let prev = flags_ticked(flags0, players, self_id, *settings, current_tick, flag_id as int);
                assert(flags_ticked(flags0, players, self_id, *settings, current_tick, flag_id + 1).0 == prev.0.push(new_flag));
                assert(self.flags@.subrange(0, flag_id + 1) =~= prev.0.push(new_flag));
            }
            flag_id = flag_id + 1;
        }
        proof {
            assert(self.flags@ =~= self.flags@.subrange(0, flags0.len() as int));
        }
        let ghost pm0 = *player_manager;
        let mut drop_flags = false;
        if let Some(me) = player_manager.get_self_mut() {
            if me.flag_count > 0 && me.flag_remaining_ticks > 0 {
                me.flag_remaining_ticks = me.flag_remaining_ticks - 1;
                if me.flag_remaining_ticks == 0 {
                    drop_flags = true;
                }
            }
        }
        proof {
            PlayerManager::lemma_same_ids_wf(&pm0, player_manager);
        }
        FlagTickActions { flag_requests, drop_flags }
    }

    fn count_down(s: FlagWorldState) -> (r: FlagWorldState)
        ensures
            r == counted_down(s),
    {
        let mut state = s;
        if state.hidden_ticks_remaining > 0 {
            state.hidden_ticks_remaining = state.hidden_ticks_remaining - 1;
        }
        if state.pickup_delay_ticks_remaining > 0 {
            state.pickup_delay_ticks_remaining = state.pickup_delay_ticks_remaining - 1;
        }
        state
    }

    /// Checks every player against the flag in state `s`.
    fn sweep_players(
        s: FlagWorldState,
        world: bool,
        player_manager: &PlayerManager,
        settings: &ArenaSettings,
        carry_allowed: u16,
        current_tick: GameTick,
        Ghost(flag): Ghost<GameFlag>,
    ) -> (r: (FlagWorldState, bool))
        requires
            world ==> (flag matches GameFlag::World(f) && s == counted_down(f) && s.hidden_ticks_remaining == 0),
            !world ==> (flag matches GameFlag::Turf(f) && s == counted_down(f)),
            carry_allowed == carry_limit(*settings),
            forall|j: int| 0 <= j < player_manager.players@.len() && sync_checked(flag, player_manager.players@[j], *settings)
                ==> tick_diff(current_tick.value, player_manager.players@[j].last_position_timestamp.value) != i32::MIN,
        ensures
            r == players_swept(s, world, player_manager.players@, player_manager.self_id, *settings, carry_allowed, current_tick,
                player_manager.players@.len() as int),
    {
        let ghost players = player_manager.players@;
        let mut state = s;
        let mut requested = false;
        let mut j: usize = 0;
        while j < player_manager.players.len()
            invariant
                j <= players.len(),
                players == player_manager.players@,
                world ==> (flag matches GameFlag::World(f) && s == counted_down(f) && s.hidden_ticks_remaining == 0),
                !world ==> (flag matches GameFlag::Turf(f) && s == counted_down(f)),
                carry_allowed == carry_limit(*settings),
                forall|k: int| 0 <= k < players.len() && sync_checked(flag, players[k], *settings)
                    ==> tick_diff(current_tick.value, players[k].last_position_timestamp.value) != i32::MIN,
                (state, requested) == players_swept(s, world, players, player_manager.self_id, *settings, carry_allowed, current_tick, j as int),
            decreases players.len() - j,
        {
            proof {
                lemma_players_swept_frequency(s, world, players, player_manager.self_id, *settings, carry_allowed, current_tick, j as int);
            }
            let player = &player_manager.players[j];
            let eligible = player.ship_kind != ShipKind::Spectator && player.enter_delay == 0
                && player.frequency != state.frequency && !(carry_allowed > 0 && player.flag_count >= carry_allowed);
            if eligible {
                proof {
                    assert(sync_checked(flag, players[j as int], *settings));
                }
                if player.is_synchronized(current_tick) {
                    let flag_box = Rectangle::new(
                        Position::from_tile(state.x_tile as i32, state.y_tile as i32),
                        Position::from_tile(state.x_tile as i32 + 1, state.y_tile as i32 + 1),
                    );
                    let player_collider = player.get_collider(settings.get_ship_settings(player.ship_kind).get_radius());
                    if player_collider.intersects(&flag_box) {
                        proof {
                            assert(flag_box == flag_collider(state));
                        }
                        if world {
                            state.hidden_ticks_remaining = PICKUP_HIDE_TICKS;
                        }
                        if player.id == player_manager.self_id && state.pickup_delay_ticks_remaining == 0 {
                            state.pickup_delay_ticks_remaining = PICKUP_DELAY_TICKS;
                            requested = true;
                        }
                    } else {
                        proof {
                            assert(flag_box == flag_collider(state));
                        }
                    }
                }
            }
            j = j + 1;
        }
        (state, requested)
    }

    pub fn handle_flag_position_message(&mut self, message: &FlagPositionMessage)
        ensures
            final(self).flags@ == resized_to_fit(old(self).flags@, message.flag_id as int).update(message.flag_id as int,
                GameFlag::World(FlagWorldState {
                    x_tile: message.x,
                    y_tile: message.y,
                    frequency: message.owner_freq,
                    hidden_ticks_remaining: 0,
                    pickup_delay_ticks_remaining: 0,
                })),
    {
        self.resize_to_fit_id(message.flag_id);
        self.flags.set(message.flag_id as usize, GameFlag::World(FlagWorldState {
            x_tile: message.x,
            y_tile: message.y,
            frequency: message.owner_freq,
            hidden_ticks_remaining: 0,
            pickup_delay_ticks_remaining: 0,
        }));
    }

    /// A player took a flag: with carried flags it is now in the player's
    /// hands and its drop timer starts; with turf flags the flag on the map
    /// changes owner.
    pub fn handle_flag_claim_message(
        &mut self,
        message: &FlagClaimMessage,
        player_manager: &mut PlayerManager,
        map: &TileMap,
        settings: &ArenaSettings,
    )
        requires
            old(player_manager).wf(),
            map.wf(),
            settings.carry_flags > 0 && old(player_manager).contains_id(message.player_id)
                ==> old(player_manager).player_with_id(message.player_id).flag_count < 0xFFFF,
        ensures
            final(player_manager).wf(),
            final(player_manager).self_id == old(player_manager).self_id,
            final(player_manager).player_mapping == old(player_manager).player_mapping,
            ({
                let pm = *old(player_manager);
                let id = message.flag_id as int;
                let resized = resized_to_fit(old(self).flags@, id);
                let tiles = map.animated_tiles@[6]@;
                if settings.carry_flags > 0 {
                    &&& final(self).flags@ == resized.update(id, GameFlag::Carried(message.player_id))
                    &&& final(player_manager).players@ == if pm.contains_id(message.player_id) {
                        let p = pm.player_with_id(message.player_id);
                        pm.players@.update(pm.index_of(message.player_id), Player {
                            flag_count: (p.flag_count + 1) as u16,
                            flag_remaining_ticks: settings.flag_drop_delay as u32,
                            ..p
                        })
                    } else {
                        pm.players@
                    }
                } else {
                    &&& final(player_manager).players@ == pm.players@
                    &&& final(self).flags@ == if id < tiles.len() && pm.contains_id(message.player_id) {
                        resized.update(id, turf_flag_at(tiles[id], pm.player_with_id(message.player_id).frequency))
                    } else {
                        resized
                    }
                }
            }),
    {
        self.resize_to_fit_id(message.flag_id);
        if settings.carry_flags > 0 {
            self.flags.set(message.flag_id as usize, GameFlag::Carried(message.player_id));
            let ghost pm0 = *player_manager;
            if let Some(player) = player_manager.get_by_id_mut(message.player_id) {
                player.flag_count = player.flag_count + 1;
                player.flag_remaining_ticks = settings.flag_drop_delay as u32;
            }
            proof {
                PlayerManager::lemma_same_ids_wf(&pm0, player_manager);
            }
        } else {
            let flag_tiles = &map.animated_tiles[AnimatedTileKind::Flag.index()];
            let flag_id = message.flag_id as usize;
            if flag_id < flag_tiles.len() {
                if let Some(player) = player_manager.get_by_id(message.player_id) {
                    let tile = flag_tiles[flag_id];
                    self.flags.set(flag_id, GameFlag::Turf(FlagWorldState {
                        x_tile: tile.x(),
                        y_tile: tile.y(),
                        frequency: player.frequency,
                        hidden_ticks_remaining: 0,
                        pickup_delay_ticks_remaining: 0,
                    }));
                }
            }
        }
    }

    /// The player dropped all its flags.
    pub fn handle_flag_drop_message(&mut self, message: &FlagDropMessage, player_manager: &mut PlayerManager)
        requires
            old(player_manager).wf(),
        ensures
            final(player_manager).wf(),
            final(player_manager).self_id == old(player_manager).self_id,
            final(player_manager).player_mapping == old(player_manager).player_mapping,
            final(self).flags@ == old(self).flags@,
            final(player_manager).players@ == if old(player_manager).contains_id(message.player_id) {
                old(player_manager).players@.update(old(player_manager).index_of(message.player_id),
                    Player { flag_count: 0, ..old(player_manager).player_with_id(message.player_id) })
            } else {
                old(player_manager).players@
            },
    {
        let ghost pm0 = *player_manager;
        if let Some(player) = player_manager.get_by_id_mut(message.player_id) {
            player.flag_count = 0;
        }
        proof {
            PlayerManager::lemma_same_ids_wf(&pm0, player_manager);
        }
    }

    /// Sets the owners of the turf flags, in flag order.
    pub fn handle_turf_update_message(&mut self, message: &TurfFlagUpdateMessage, map: &TileMap)
        requires
            map.wf(),
            ({
                let n = if message.flag_teams@.len() < map.animated_tiles@[6]@.len() {
                    message.flag_teams@.len() as int
                } else {
                    map.animated_tiles@[6]@.len() as int
                };
                n <= resized_to_fit(old(self).flags@, (message.flag_teams@.len() as u16) as int).len()
            }),
        ensures
            final(self).flags@ == turf_applied(
                resized_to_fit(old(self).flags@, (message.flag_teams@.len() as u16) as int),
                message.flag_teams@,
                map.animated_tiles@[6]@,
                message.flag_teams@.len() as int,
            ),
    {
        self.resize_to_fit_id(message.flag_teams.len() as u16);
        let ghost resized = self.flags@;
        let flag_tiles = &map.animated_tiles[AnimatedTileKind::Flag.index()];
        let mut flag_id: usize = 0;
        while flag_id < message.flag_teams.len()
            invariant
                flag_id <= message.flag_teams@.len(),
                flag_tiles@ == map.animated_tiles@[6]@,
                ({
                    let n = if message.flag_teams@.len() < flag_tiles@.len() {
                        message.flag_teams@.len() as int
                    } else {
                        flag_tiles@.len() as int
                    };
                    n <= resized.len()
                }),
                self.flags@ == turf_applied(resized, message.flag_teams@, flag_tiles@, flag_id as int),
            decreases message.flag_teams@.len() - flag_id,
        {
            proof {
                lemma_turf_applied_len(resized, message.flag_teams@, flag_tiles@, flag_id as int);
            }
            let frequency = message.flag_teams[flag_id];
            if flag_id < flag_tiles.len() {
                let tile = flag_tiles[flag_id];
                self.flags.set(flag_id, GameFlag::Turf(FlagWorldState {
                    x_tile: tile.x(),
                    y_tile: tile.y(),
                    frequency,
                    hidden_ticks_remaining: 0,
                    pickup_delay_ticks_remaining: 0,
                }));
            }
            flag_id = flag_id + 1;
        }
    }
}

} // verus!
