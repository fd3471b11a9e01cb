use vstd::prelude::*;

use crate::clock::{GameTick, tick_diff};
use crate::math::{Position, PositionUnit, Rectangle, Velocity, sat_i32};
use crate::net::packet::bi::ExtraPositionData;
use crate::ship::ShipKind;

verus! {

pub const STATUS_STEALTH: u8 = 1;
pub const STATUS_CLOAK: u8 = 2;
pub const STATUS_XRADAR: u8 = 4;
pub const STATUS_ANTIWARP: u8 = 8;
pub const STATUS_FLASH: u8 = 16;
pub const STATUS_SAFETY: u8 = 32;
pub const STATUS_UFO: u8 = 64;
pub const STATUS_INERT: u8 = 128;

/// Items of another player, packed as in position packets.
#[derive(Copy, Clone)]
pub struct PlayerItemSet {
    pub items: u32,
}

impl PlayerItemSet {
    pub fn new(items: u32) -> (r: PlayerItemSet)
        ensures
            r.items == items,
    {
        PlayerItemSet { items }
    }

    pub fn has_shields(&self) -> (r: bool)
        ensures
            r == ((self.items & 1) > 0),
    {
        (self.items & 1) > 0
    }

    pub fn has_super(&self) -> (r: bool)
        ensures
            r == (((self.items >> 1) & 1) > 0),
    {
        ((self.items >> 1) & 1) > 0
    }

    pub fn bursts(&self) -> (r: u8)
        ensures
            r == ((self.items >> 2) & 0x0F) as u8,
    {
        ((self.items >> 2) & 0x0F) as u8
    }

    pub fn repels(&self) -> (r: u8)
        ensures
            r == ((self.items >> 6) & 0x0F) as u8,
    {
        ((self.items >> 6) & 0x0F) as u8
    }

    pub fn thors(&self) -> (r: u8)
        ensures
            r == ((self.items >> 10) & 0x0F) as u8,
    {
        ((self.items >> 10) & 0x0F) as u8
    }

    pub fn bricks(&self) -> (r: u8)
        ensures
            r == ((self.items >> 14) & 0x0F) as u8,
    {
        ((self.items >> 14) & 0x0F) as u8
    }

    pub fn decoys(&self) -> (r: u8)
        ensures
            r == ((self.items >> 18) & 0x0F) as u8,
    {
        ((self.items >> 18) & 0x0F) as u8
    }

    pub fn rockets(&self) -> (r: u8)
        ensures
            r == ((self.items >> 22) & 0x0F) as u8,
    {
        ((self.items >> 22) & 0x0F) as u8
    }

    pub fn portals(&self) -> (r: u8)
        ensures
            r == ((self.items >> 26) & 0x0F) as u8,
    {
        ((self.items >> 26) & 0x0F) as u8
    }
}

/// A player's number in the arena; 0xFFFF means no player.
#[derive(PartialEq, Eq, Structural, Clone, Copy, Hash, Debug)]
pub struct PlayerId {
    pub value: u16,
}

impl PlayerId {
    pub fn new(value: u16) -> (r: PlayerId)
        ensures
            r.value == value,
    {
        PlayerId { value }
    }

    pub open spec fn is_valid(&self) -> bool {
        self.value != 0xFFFF
    }

    pub fn valid(&self) -> (r: bool)
        ensures
            r == self.is_valid(),
    {
        self.value != 0xFFFF
    }

    pub fn invalid() -> (r: PlayerId)
        ensures
            r.value == 0xFFFF,
    {
        PlayerId::new(0xFFFF)
    }
}

pub struct Player {
    pub id: PlayerId,
    pub name: String,
    pub squad: String,
    pub ship_kind: ShipKind,
    pub frequency: u16,
    pub position: Option<Position>,
    pub velocity: Velocity,
    pub lerp_velocity: Velocity,
    pub lerp_remaining_ticks: u32,
    pub direction: u8,
    pub bounty: u16,
    pub status: u8,
    pub ping: u8,
    pub attach_parent: PlayerId,
    pub children: Vec<PlayerId>,
    pub flag_count: u16,
    pub flag_remaining_ticks: u32,
    pub last_position_timestamp: GameTick,
    pub enter_delay: u16,
    pub last_extra_data_timestamp: Option<GameTick>,
    pub extra_position_data: Option<ExtraPositionData>,
    pub flag_points: i32,
    pub kill_points: i32,
    pub wins: u16,
    pub losses: u16,
    pub explosion_remaining_ticks: u32,
    pub flash_remaining_ticks: u32,
    pub carrying_ball: bool,
}

/// The box of half-width `radius` pixels around the player, or a point at
/// the origin when the player has no position.
pub open spec fn collider_of(p: Player, radius: u16) -> Rectangle {
    match p.position {
        Some(c) => Rectangle {
            min: Position { x: PositionUnit(sat_i32(c.x.0 - radius * 1000)), y: PositionUnit(sat_i32(c.y.0 - radius * 1000)) },
            max: Position { x: PositionUnit(sat_i32(c.x.0 + radius * 1000)), y: PositionUnit(sat_i32(c.y.0 + radius * 1000)) },
        },
        None => Rectangle {
            min: Position { x: PositionUnit(0), y: PositionUnit(0) },
            max: Position { x: PositionUnit(0), y: PositionUnit(0) },
        },
    }
}

/// The position was updated within the last 200 ticks, on either side of `tick`.
pub open spec fn synchronized(p: Player, tick: GameTick) -> bool {
    -PLAYER_SYNC_TIMEOUT < tick_diff(tick.value, p.last_position_timestamp.value) < PLAYER_SYNC_TIMEOUT
}

/// Number of ticks within which a player's position still counts as current.
pub const PLAYER_SYNC_TIMEOUT: i32 = 200;

/// The score shown as a player's rating.
pub open spec fn rating_of(wins: u16, losses: u16, kill_points: i32) -> u32 {
    let r = crate::math::trunc_div((kill_points + (wins - losses) * 10) * 10, wins + 100);
    if r < 0 { 0 } else { r as u32 }
}

impl Player {
    pub fn new(
        id: PlayerId,
        name: &str,
        squad: &str,
        ship_kind: ShipKind,
        frequency: u16,
        flag_points: i32,
        kill_points: i32,
    ) -> (r: Player)
        ensures
            r.id == id && r.name@ == name@ && r.squad@ == squad@,
            r.ship_kind == ship_kind && r.frequency == frequency,
            r.flag_points == flag_points && r.kill_points == kill_points,
            r.position is None,
            r.velocity.x.0 == 0 && r.velocity.y.0 == 0,
            r.lerp_velocity.x.0 == 0 && r.lerp_velocity.y.0 == 0,
            r.lerp_remaining_ticks == 0 && r.direction == 0,
            r.bounty == 0 && r.status == 0 && r.ping == 0,
            r.attach_parent.value == 0xFFFF,
            r.children@.len() == 0,
            r.flag_count == 0 && r.flag_remaining_ticks == 0,
            r.last_position_timestamp.value == 0,
            r.enter_delay == 0,
            r.last_extra_data_timestamp is None,
            r.extra_position_data is None,
            r.wins == 0 && r.losses == 0,
            r.explosion_remaining_ticks == 0 && r.flash_remaining_ticks == 0,
            !r.carrying_ball,
    {
        Player {
            id,
            name: name.to_owned(),
            squad: squad.to_owned(),
            position: None,
            velocity: Velocity::new(PositionUnit(0), PositionUnit(0)),
            lerp_velocity: Velocity::new(PositionUnit(0), PositionUnit(0)),
            lerp_remaining_ticks: 0,
            direction: 0,
            ship_kind,
            frequency,
            bounty: 0,
            status: 0,
            ping: 0,
            attach_parent: PlayerId::invalid(),
            children: Vec::new(),
            flag_count: 0,
            flag_remaining_ticks: 0,
            last_position_timestamp: GameTick::empty(),
            enter_delay: 0,
            last_extra_data_timestamp: None,
            extra_position_data: None,
            flag_points,
            kill_points,
            wins: 0,
            losses: 0,
            explosion_remaining_ticks: 0,
            flash_remaining_ticks: 0,
            carrying_ball: false,
        }
    }

    /// The box the player occupies, or a point at the origin when the
    /// player has no position.
    pub fn get_collider(&self, radius: u16) -> (r: Rectangle)
        ensures
            r == collider_of(*self, radius),
    {
        if let Some(position) = self.position {
            Rectangle::from_radius(position, PositionUnit(radius as i32 * 1000))
        } else {
            Rectangle::from_radius(Position::empty(), PositionUnit(0))
        }
    }

    pub fn is_dead(&self) -> (r: bool)
        ensures
            r == (self.enter_delay > 0),
    {
        self.enter_delay > 0
    }

    /// The player's position was updated within the last 200 ticks, on
    /// either side of `current_tick`.
    pub fn is_synchronized(&self, current_tick: GameTick) -> (r: bool)
        requires
            tick_diff(current_tick.value, self.last_position_timestamp.value) != i32::MIN,
        ensures
            r == synchronized(*self, current_tick),
    {
        let d = current_tick.diff(&self.last_position_timestamp);
        let a = if d < 0 { -d } else { d };
        a < PLAYER_SYNC_TIMEOUT
    }

    pub fn get_points(&self) -> (r: i32)
        ensures
            r == vstd::wrapping::i32_specs::wrapping_add(self.flag_points, self.kill_points),
    {
        self.flag_points.wrapping_add(self.kill_points)
    }

    pub fn get_rating(&self) -> (r: u32)
        ensures
            r == rating_of(self.wins, self.losses, self.kill_points),
    {
        let wins = self.wins as i64;
        let losses = self.losses as i64;
        let kill_points = self.kill_points as i64;
        let r = ((kill_points + (wins - losses) * 10) * 10) / (wins + 100);
        proof {
            assert(r == crate::math::trunc_div((kill_points + (wins - losses) * 10) * 10, wins + 100));
        }
        if r < 0 {
            return 0;
        }
        assert(r <= u32::MAX) by (nonlinear_arith)
            requires
                r == crate::math::trunc_div((kill_points + (wins - losses) * 10) * 10, wins + 100),
                kill_points <= i32::MAX, wins >= 0, wins <= 65535, losses >= 0, r >= 0;
        r as u32
    }
}

/// What ties a player to others: its parent and its children.
pub type Link = (PlayerId, Seq<PlayerId>);

pub open spec fn invalid_id() -> PlayerId {
    PlayerId { value: 0xFFFF }
}

/// The ids of the players, in list order.
pub open spec fn ids_of(players: Seq<Player>) -> Seq<PlayerId> {
    players.map_values(|p: Player| p.id)
}

/// The parent and children of each player, in list order.
pub open spec fn links_of(players: Seq<Player>) -> Seq<Link> {
    players.map_values(|p: Player| (p.attach_parent, p.children@))
}

/// Everything but the parent and children is the same.
pub open spec fn same_but_links(a: Player, b: Player) -> bool {
    &&& a.id == b.id && a.name@ == b.name@ && a.squad@ == b.squad@
    &&& a.ship_kind == b.ship_kind && a.frequency == b.frequency
    &&& a.position == b.position && a.velocity == b.velocity && a.lerp_velocity == b.lerp_velocity
    &&& a.lerp_remaining_ticks == b.lerp_remaining_ticks && a.direction == b.direction
    &&& a.bounty == b.bounty && a.status == b.status && a.ping == b.ping
    &&& a.flag_count == b.flag_count && a.flag_remaining_ticks == b.flag_remaining_ticks
    &&& a.last_position_timestamp == b.last_position_timestamp
    &&& a.enter_delay == b.enter_delay && a.last_extra_data_timestamp == b.last_extra_data_timestamp
    &&& a.extra_position_data == b.extra_position_data
    &&& a.flag_points == b.flag_points && a.kill_points == b.kill_points
    &&& a.wins == b.wins && a.losses == b.losses
    &&& a.explosion_remaining_ticks == b.explosion_remaining_ticks
    &&& a.flash_remaining_ticks == b.flash_remaining_ticks && a.carrying_ball == b.carrying_ball
}

pub open spec fn all_same_but_links(a: Seq<Player>, b: Seq<Player>) -> bool {
    a.len() == b.len() && forall|i: int| 0 <= i < a.len() ==> same_but_links(#[trigger] a[i], b[i])
}

pub open spec fn has_id(ids: Seq<PlayerId>, id: PlayerId) -> bool {
    exists|i: int| 0 <= i < ids.len() && ids[i] == id
}

/// The position of `id` in `ids` (meaningful when it occurs once).
pub open spec fn pos_of(ids: Seq<PlayerId>, id: PlayerId) -> int {
    choose|i: int| 0 <= i < ids.len() && ids[i] == id
}

/// No id occurs twice.
pub open spec fn unique_ids(ids: Seq<PlayerId>) -> bool {
    forall|i: int, j: int| 0 <= i < ids.len() && 0 <= j < ids.len() && i != j ==> ids[i] != ids[j]
}

/// The first position of `x` in `s` at or after `from`; `s.len()` if none.
pub open spec fn first_pos(s: Seq<PlayerId>, x: PlayerId, from: int) -> int
    decreases s.len() - from,
{
    if from >= s.len() {
        s.len() as int
    } else if s[from] == x {
        from
    } else {
        first_pos(s, x, from + 1)
    }
}

/// `s` without the first occurrence of `x`, the last element taking its place.
pub open spec fn swap_remove_first(s: Seq<PlayerId>, x: PlayerId) -> Seq<PlayerId> {
    let k = first_pos(s, x, 0);
    if k >= s.len() { s } else { s.update(k, s.last()).drop_last() }
}

/// The list after removing the element at `k`, the last element taking its place.
pub open spec fn swap_removed<T>(s: Seq<T>, k: int) -> Seq<T> {
    s.update(k, s.last()).drop_last()
}

/// Links after `pid` is detached from its parent.
pub open spec fn detach_links(ids: Seq<PlayerId>, links: Seq<Link>, pid: PlayerId) -> Seq<Link> {
    if !has_id(ids, pid) {
        links
    } else {
        let i = pos_of(ids, pid);
        let parent = links[i].0;
        let l1 = links.update(i, (invalid_id(), links[i].1));
        if has_id(ids, parent) {
            let j = pos_of(ids, parent);
            l1.update(j, (l1[j].0, swap_remove_first(l1[j].1, pid)))
        } else {
            l1
        }
    }
}

/// Links after `requester` is attached to `parent`.
pub open spec fn attach_links(ids: Seq<PlayerId>, links: Seq<Link>, requester: PlayerId, parent: PlayerId) -> Seq<Link> {
    let l = detach_links(ids, links, requester);
    if has_id(ids, requester) {
        let i = pos_of(ids, requester);
        let l2 = l.update(i, (parent, l[i].1));
        if has_id(ids, parent) {
            let j = pos_of(ids, parent);
            l2.update(j, (l2[j].0, l2[j].1.push(requester)))
        } else {
            l2
        }
    } else {
        l
    }
}

/// Links after every child of `parent` is detached.
pub open spec fn detach_children_links(ids: Seq<PlayerId>, links: Seq<Link>, parent: PlayerId) -> Seq<Link> {
    let l = Seq::new(links.len(), |i: int| (if links[i].0 == parent { invalid_id() } else { links[i].0 }, links[i].1));
    if has_id(ids, parent) {
        let j = pos_of(ids, parent);
        l.update(j, (l[j].0, Seq::<PlayerId>::empty()))
    } else {
        l
    }
}

/// The number of players on `frequency` among the first `n`.
pub open spec fn frequency_count(players: Seq<Player>, frequency: u16, n: int) -> int
    decreases n,
{
    if n <= 0 {
        0
    } else {
        frequency_count(players, frequency, n - 1) + if players[n - 1].frequency == frequency { 1int } else { 0int }
    }
}

/// The first position at or after `from` of a player named `name`.
pub open spec fn name_pos(players: Seq<Player>, name: Seq<char>, from: int) -> int
    decreases players.len() - from,
{
    if from >= players.len() {
        players.len() as int
    } else if players[from].name@ == name {
        from
    } else {
        name_pos(players, name, from + 1)
    }
}

pub const INVALID_PLAYER_INDEX: u16 = 0xFFFF;

/// The players of the arena, with a table from player id to list position.
pub struct PlayerManager {
    pub players: Vec<Player>,
    pub self_id: PlayerId,
    pub player_mapping: Vec<u16>,
}

impl PlayerManager {
    /// The table agrees with the list: each listed id maps to its position
    /// and each mapped id is listed there.
    pub closed spec fn wf(&self) -> bool {
        &&& self.player_mapping@.len() == 65535
        &&& self.players@.len() <= 65535
        &&& forall|i: int| 0 <= i < self.players@.len() ==> {
            &&& (#[trigger] self.players@[i]).id.value < 65535
            &&& self.player_mapping@[self.players@[i].id.value as int] == i
        }
        &&& forall|k: int| 0 <= k < 65535 && #[trigger] self.player_mapping@[k] != 0xFFFF ==> {
            &&& self.player_mapping@[k] < self.players@.len()
            &&& self.players@[self.player_mapping@[k] as int].id.value == k
        }
    }

    pub open spec fn ids(&self) -> Seq<PlayerId> {
        ids_of(self.players@)
    }

    pub open spec fn contains_id(&self, id: PlayerId) -> bool {
        has_id(self.ids(), id)
    }

    /// The list position of the player with `id`.
    pub open spec fn index_of(&self, id: PlayerId) -> int {
        pos_of(self.ids(), id)
    }

    pub open spec fn player_with_id(&self, id: PlayerId) -> Player {
        self.players@[self.index_of(id)]
    }

    pub proof fn lemma_lookup(&self, id: PlayerId)
        requires
            self.wf(),
        ensures
            unique_ids(self.ids()),
            self.ids().len() == self.players@.len(),
            self.contains_id(id) ==> id.value < 65535,
            id.value < 65535 ==> (self.contains_id(id) <==> self.player_mapping@[id.value as int] != 0xFFFF),
            self.contains_id(id) ==> self.index_of(id) == self.player_mapping@[id.value as int] as int,
            self.contains_id(id) ==> 0 <= self.index_of(id) < self.players@.len()
                && self.players@[self.index_of(id)].id == id,
    {
        let ids = self.ids();
        assert forall|i: int, j: int| 0 <= i < ids.len() && 0 <= j < ids.len() && i != j implies ids[i] != ids[j] by {
            let a = self.players@[i];
            let b = self.players@[j];
            if ids[i] == ids[j] {
                assert(self.player_mapping@[a.id.value as int] == i);
                assert(self.player_mapping@[b.id.value as int] == j);
            }
        }
        if self.contains_id(id) {
            let i = pos_of(ids, id);
            assert(self.players@[i].id == id);
        }
        if id.value < 65535 && self.player_mapping@[id.value as int] != 0xFFFF {
            let k = self.player_mapping@[id.value as int] as int;
            assert(ids[k] == id);
        }
    }

    /// An id that is not listed leaves room for one more player.
    proof fn lemma_room_for(&self, id: PlayerId)
        requires
            self.wf(),
            !self.contains_id(id),
            id.value < 65535,
        ensures
            self.players@.len() < 65535,
    {
        self.lemma_lookup(id);
        let vals = self.players@.map_values(|p: Player| p.id.value as int);
        assert(vals.no_duplicates()) by {
            assert forall|i: int, j: int| 0 <= i < vals.len() && 0 <= j < vals.len() && i != j implies vals[i] != vals[j] by {
                assert(self.ids()[i] != self.ids()[j]);
            }
        }
        vals.unique_seq_to_set();
        let range = vstd::set_lib::set_int_range(0, 65535).remove(id.value as int);
        vstd::set_lib::lemma_int_range(0, 65535);
        assert(vals.to_set().subset_of(range)) by {
            assert forall|v: int| vals.to_set().contains(v) implies range.contains(v) by {
                let i = choose|i: int| 0 <= i < vals.len() && vals[i] == v;
                assert(self.players@[i].id.value < 65535);
                assert(self.ids()[i] != id);
            }
        }
        vstd::set_lib::lemma_len_subset(vals.to_set(), range);
    }

    /// Changing players in place, without changing their ids or the table,
    /// keeps the manager well formed.
    pub proof fn lemma_same_ids_wf(a: &PlayerManager, b: &PlayerManager)
        requires
            a.wf(),
            b.player_mapping@ == a.player_mapping@,
            b.players@.len() == a.players@.len(),
            forall|i: int| 0 <= i < a.players@.len() ==> (#[trigger] b.players@[i]).id == a.players@[i].id,
        ensures
            b.wf(),
            b.ids() == a.ids(),
    {
        assert(b.ids() =~= a.ids());
    }

    pub fn new() -> (r: PlayerManager)
        ensures
            r.wf(),
            r.players@.len() == 0,
            r.self_id.value == 0xFFFF,
    {
        let mut player_mapping: Vec<u16> = Vec::new();
        let mut i: usize = 0;
        while i < 65535
            invariant
                i <= 65535,
                player_mapping@.len() == i,
                forall|k: int| 0 <= k < i ==> player_mapping@[k] == 0xFFFF,
            decreases 65535 - i,
        {
            player_mapping.push(INVALID_PLAYER_INDEX);
            i = i + 1;
        }
        PlayerManager { players: Vec::new(), self_id: PlayerId::invalid(), player_mapping }
    }

    /// Takes the player with `player_id` out of the arena and returns it.
    /// The last player in the list takes its place.
    pub fn remove_player(&mut self, player_id: PlayerId) -> (r: Option<Player>)
        requires
            old(self).wf(),
        ensures
            final(self).wf(),
            final(self).self_id == old(self).self_id,
            old(self).contains_id(player_id) ==> {
                &&& r == Some(old(self).player_with_id(player_id))
                &&& final(self).players@ == swap_removed(old(self).players@, old(self).index_of(player_id))
            },
            !old(self).contains_id(player_id) ==> r is None && final(self).players@ == old(self).players@,
            !final(self).contains_id(player_id),
    {
        proof {
            self.lemma_lookup(player_id);
        }
        if !player_id.valid() {
            return None;
        }
        let index = self.player_mapping[player_id.value as usize];
        if index == INVALID_PLAYER_INDEX {
            return None;
        }
        let ghost old_players = self.players@;
        let ghost old_mapping = self.player_mapping@;
        let last = self.players.len() - 1;
        let swap_player_id = self.players[last].id;
        self.player_mapping.set(swap_player_id.value as usize, index);
        self.player_mapping.set(player_id.value as usize, INVALID_PLAYER_INDEX);
        let result = self.players.swap_remove(index as usize);
        proof {
            let n = old_players.len() as int;
            let idx = index as int;
            assert(self.players@ =~= swap_removed(old_players, idx));
            assert forall|i: int| 0 <= i < self.players@.len() implies {
                &&& (#[trigger] self.players@[i]).id.value < 65535
                &&& self.player_mapping@[self.players@[i].id.value as int] == i
            } by {
                if i == idx {
                    assert(self.players@[i] == old_players[n - 1]);
                } else {
                    assert(self.players@[i] == old_players[i]);
                    assert(old_mapping[old_players[i].id.value as int] == i);
                    assert(old_players[i].id != player_id);
                    assert(old_players[i].id != swap_player_id);
                }
            }
            assert forall|k: int| 0 <= k < 65535 && #[trigger] self.player_mapping@[k] != 0xFFFF implies {
                &&& self.player_mapping@[k] < self.players@.len()
                &&& self.players@[self.player_mapping@[k] as int].id.value == k
            } by {
                if k == swap_player_id.value as int {
                    assert(k != player_id.value as int);
                    assert(idx < n - 1);
                } else {
                    assert(old_mapping[k] != 0xFFFF);
                    let j = old_mapping[k] as int;
                    assert(old_players[j].id.value == k);
                    assert(j != idx);
                    assert(j != n - 1);
                }
            }
            self.lemma_lookup(player_id);
        }
        Some(result)
    }

    /// Puts `player` in the arena. Returns the player that had the same id
    /// before, if any.
    pub fn add_player(&mut self, player: Player) -> (r: Option<Player>)
        requires
            old(self).wf(),
            player.id.is_valid(),
        ensures
            final(self).wf(),
            final(self).self_id == old(self).self_id,
            old(self).contains_id(player.id) ==> {
                &&& r == Some(old(self).player_with_id(player.id))
                &&& final(self).players@ == swap_removed(old(self).players@, old(self).index_of(player.id)).push(player)
            },
            !old(self).contains_id(player.id) ==> r is None && final(self).players@ == old(self).players@.push(player),
            final(self).contains_id(player.id),
            final(self).player_with_id(player.id) == player,
    {
        let existed = self.remove_player(player.id);
        let ghost mid_players = self.players@;
        let ghost mid_mapping = self.player_mapping@;
        proof {
            self.lemma_lookup(player.id);
            self.lemma_room_for(player.id);
        }
        let id = player.id.value as usize;
        self.player_mapping.set(id, self.players.len() as u16);
        self.players.push(player);
        proof {
            let n = mid_players.len() as int;
            assert forall|i: int| 0 <= i < self.players@.len() implies {
                &&& (#[trigger] self.players@[i]).id.value < 65535
                &&& self.player_mapping@[self.players@[i].id.value as int] == i
            } by {
                if i < n {
                    assert(self.players@[i] == mid_players[i]);
                    assert(mid_mapping[mid_players[i].id.value as int] == i);
                    assert(mid_players[i].id.value != id);
                }
            }
            assert forall|k: int| 0 <= k < 65535 && #[trigger] self.player_mapping@[k] != 0xFFFF implies {
                &&& self.player_mapping@[k] < self.players@.len()
                &&& self.players@[self.player_mapping@[k] as int].id.value == k
            } by {
                if k != id {
                    assert(mid_mapping[k] != 0xFFFF);
                    let j = mid_mapping[k] as int;
                    assert(self.players@[j] == mid_players[j]);
                }
            }
            assert(self.wf());
            self.lemma_lookup(player.id);
        }
        existed
    }

    /// The player with `player_id`, if it is in the arena.
    pub fn get_by_id(&self, player_id: PlayerId) -> (r: Option<&Player>)
        requires
            self.wf(),
        ensures
            self.contains_id(player_id) ==> r == Some(&self.player_with_id(player_id)),
            !self.contains_id(player_id) ==> r is None,
    {
        proof {
            self.lemma_lookup(player_id);
        }
        if !player_id.valid() {
            return None;
        }
        let index = self.player_mapping[player_id.value as usize];
        if index == INVALID_PLAYER_INDEX {
            return None;
        }
        Some(&self.players[index as usize])
    }

    /// The player with `player_id` for changing, if it is in the arena.
    pub fn get_by_id_mut(&mut self, player_id: PlayerId) -> (r: Option<&mut Player>)
        requires
            old(self).wf(),
        ensures
            old(self).contains_id(player_id) ==> (r matches Some(p) && *p == old(self).player_with_id(player_id)
                && final(self).players@ == old(self).players@.update(old(self).index_of(player_id), *final(p))
                && final(self).player_mapping == old(self).player_mapping
                && final(self).self_id == old(self).self_id),
            !old(self).contains_id(player_id) ==> r is None && *final(self) == *old(self),
    {
        proof {
            self.lemma_lookup(player_id);
        }
        if !player_id.valid() {
            return None;
        }
        let index = self.player_mapping[player_id.value as usize];
        if index == INVALID_PLAYER_INDEX {
            return None;
        }
        Some(&mut self.players[index as usize])
    }

    /// Our own player, if it is in the arena.
    pub fn get_self(&self) -> (r: Option<&Player>)
        requires
            self.wf(),
        ensures
            self.contains_id(self.self_id) ==> r == Some(&self.player_with_id(self.self_id)),
            !self.contains_id(self.self_id) ==> r is None,
    {
        self.get_by_id(self.self_id)
    }

    /// Our own player for changing, if it is in the arena.
    pub fn get_self_mut(&mut self) -> (r: Option<&mut Player>)
        requires
            old(self).wf(),
        ensures
            old(self).contains_id(old(self).self_id) ==> (r matches Some(p)
                && *p == old(self).player_with_id(old(self).self_id)
                && final(self).players@ == old(self).players@.update(old(self).index_of(old(self).self_id), *final(p))
                && final(self).player_mapping == old(self).player_mapping
                && final(self).self_id == old(self).self_id),
            !old(self).contains_id(old(self).self_id) ==> r is None && *final(self) == *old(self),
    {
        let id = self.self_id;
        self.get_by_id_mut(id)
    }

    /// The first player in the list named exactly `name`.
    pub fn get_by_name(&self, name: &str) -> (r: Option<&Player>)
        ensures
            name_pos(self.players@, name@, 0) < self.players@.len()
                ==> r == Some(&self.players@[name_pos(self.players@, name@, 0)]),
            name_pos(self.players@, name@, 0) >= self.players@.len() ==> r is None,
    {
        let target = name.to_owned();
        let mut i: usize = 0;
        while i < self.players.len()
            invariant
                i <= self.players@.len(),
                target@ == name@,
                name_pos(self.players@, name@, 0) == name_pos(self.players@, name@, i as int),
            decreases self.players@.len() - i,
        {
            if self.players[i].name == target {
                return Some(&self.players[i]);
            }
            i = i + 1;
        }
        None
    }

    /// The first player in the list named exactly `name`, for changing.
    pub fn get_by_name_mut(&mut self, name: &str) -> (r: Option<&mut Player>)
        ensures
            name_pos(old(self).players@, name@, 0) < old(self).players@.len() ==> (r matches Some(p)
                && *p == old(self).players@[name_pos(old(self).players@, name@, 0)]
                && final(self).players@ == old(self).players@.update(name_pos(old(self).players@, name@, 0), *final(p))
                && final(self).player_mapping == old(self).player_mapping
                && final(self).self_id == old(self).self_id),
            name_pos(old(self).players@, name@, 0) >= old(self).players@.len() ==> r is None && *final(self) == *old(self),
    {
        let target = name.to_owned();
        let mut i: usize = 0;
        while i < self.players.len()
            invariant
                *self == *old(self),
                i <= self.players@.len(),
                target@ == name@,
                name_pos(self.players@, name@, 0) == name_pos(self.players@, name@, i as int),
            decreases self.players@.len() - i,
        {
            if self.players[i].name == target {
                return Some(&mut self.players[i]);
            }
            i = i + 1;
        }
        None
    }

    /// Number of players on `frequency`.
    pub fn get_frequency_count(&self, frequency: u16) -> (r: usize)
        ensures
            r == frequency_count(self.players@, frequency, self.players@.len() as int),
    {
        let mut count: usize = 0;
        let mut i: usize = 0;
        while i < self.players.len()
            invariant
                i <= self.players@.len(),
                count == frequency_count(self.players@, frequency, i as int),
                count <= i,
            decreases self.players@.len() - i,
        {
            if self.players[i].frequency == frequency {
                count = count + 1;
            }
            i = i + 1;
        }
        count
    }

    /// The list position of the player with `player_id`, if it is listed.
    fn find_index(&self, player_id: PlayerId) -> (r: Option<usize>)
        requires
            self.wf(),
        ensures
            self.contains_id(player_id) ==> r == Some(self.index_of(player_id) as usize),
            !self.contains_id(player_id) ==> r is None,
    {
        proof {
            self.lemma_lookup(player_id);
        }
        if !player_id.valid() {
            return None;
        }
        let index = self.player_mapping[player_id.value as usize];
        if index == INVALID_PLAYER_INDEX {
            None
        } else {
            Some(index as usize)
        }
    }

    /// Sets the parent of the player at `i`.
    fn set_parent(&mut self, i: usize, parent: PlayerId)
        requires
            old(self).wf(),
            i < old(self).players@.len(),
        ensures
            final(self).wf(),
            final(self).self_id == old(self).self_id,
            final(self).player_mapping == old(self).player_mapping,
            all_same_but_links(old(self).players@, final(self).players@),
            links_of(final(self).players@) == links_of(old(self).players@).update(i as int, (parent, links_of(old(self).players@)[i as int].1)),
    {
        let ghost old_players = self.players@;
        self.players[i].attach_parent = parent;
        proof {
            assert(self.players@ =~= old_players.update(i as int, self.players@[i as int]));
            assert(links_of(self.players@) =~= links_of(old_players).update(i as int, (parent, links_of(old_players)[i as int].1)));
            assert(self.wf());
        }
    }

    /// Replaces the children of the player at `j` with what `f` makes of them.
    fn remove_child(&mut self, j: usize, child: PlayerId)
        requires
            old(self).wf(),
            j < old(self).players@.len(),
        ensures
            final(self).wf(),
            final(self).self_id == old(self).self_id,
            final(self).player_mapping == old(self).player_mapping,
            all_same_but_links(old(self).players@, final(self).players@),
            links_of(final(self).players@) == links_of(old(self).players@).update(j as int,
                (links_of(old(self).players@)[j as int].0, swap_remove_first(links_of(old(self).players@)[j as int].1, child))),
    {
        let ghost old_players = self.players@;
        let ghost kids = self.players@[j as int].children@;
        let mut k: usize = 0;
        let n = self.players[j].children.len();
        while k < n
            invariant
                *self == *old(self),
                self.players@ == old_players,
                j < old_players.len(),
                kids == old_players[j as int].children@,
                n == kids.len(),
                k <= n,
                first_pos(kids, child, 0) == first_pos(kids, child, k as int),
        ensures
            k < n ==> first_pos(kids, child, 0) == k,
            k >= n ==> first_pos(kids, child, 0) == n,
            *self == *old(self),
            self.players@ == old_players,
            decreases n - k,
        {
            if self.players[j].children[k] == child {
                break;
            }
            k = k + 1;
        }
        if k < n {
            self.players[j].children.swap_remove(k);
        }
        proof {
            assert(self.players@ =~= old_players.update(j as int, self.players@[j as int]));
            assert(self.players@[j as int].children@ =~= swap_remove_first(kids, child));
            assert(links_of(self.players@) =~= links_of(old_players).update(j as int,
                (links_of(old_players)[j as int].0, swap_remove_first(links_of(old_players)[j as int].1, child))));
            assert(self.wf());
        }
    }

    /// The player no longer has a parent, and the parent no longer lists it
    /// among its children.
    pub fn detach_player(&mut self, player_id: PlayerId)
        requires
            old(self).wf(),
        ensures
            final(self).wf(),
            final(self).self_id == old(self).self_id,
            final(self).player_mapping == old(self).player_mapping,
            all_same_but_links(old(self).players@, final(self).players@),
            links_of(final(self).players@) == detach_links(old(self).ids(), links_of(old(self).players@), player_id),
    {
        let ghost ids = self.ids();
        let ghost links = links_of(self.players@);
        let Some(i) = self.find_index(player_id) else {
            return;
        };
        let parent_id = self.players[i].attach_parent;
        self.set_parent(i, PlayerId::invalid());
        proof {
            assert(self.ids() =~= ids) by {
                assert forall|x: int| 0 <= x < ids.len() implies self.ids()[x] == ids[x] by {
                    assert(same_but_links(old(self).players@[x], self.players@[x]));
                }
            }
        }
        if let Some(j) = self.find_index(parent_id) {
            self.remove_child(j, player_id);
        }
    }

    /// The requester leaves its old parent and becomes a child of `parent_id`.
    pub fn attach_player(&mut self, requester_id: PlayerId, parent_id: PlayerId)
        requires
            old(self).wf(),
        ensures
            final(self).wf(),
            final(self).self_id == old(self).self_id,
            final(self).player_mapping == old(self).player_mapping,
            all_same_but_links(old(self).players@, final(self).players@),
            links_of(final(self).players@) == attach_links(old(self).ids(), links_of(old(self).players@), requester_id, parent_id),
    {
        let ghost ids = self.ids();
        let ghost links0 = links_of(self.players@);
        self.detach_player(requester_id);
        let ghost l = links_of(self.players@);
        assert(l == detach_links(ids, links0, requester_id));
        proof {
            assert(self.ids() =~= ids) by {
                assert forall|x: int| 0 <= x < ids.len() implies self.ids()[x] == ids[x] by {
                    assert(same_but_links(old(self).players@[x], self.players@[x]));
                }
            }
        }
        if let Some(i) = self.find_index(requester_id) {
            assert(i as int == pos_of(ids, requester_id));
            self.set_parent(i, parent_id);
            let ghost l2 = links_of(self.players@);
            assert(l2 == l.update(i as int, (parent_id, l[i as int].1)));
            proof {
                assert(self.ids() =~= ids) by {
                    assert forall|x: int| 0 <= x < ids.len() implies self.ids()[x] == ids[x] by {
                        assert(same_but_links(old(self).players@[x], self.players@[x]));
                    }
                }
            }
            if let Some(j) = self.find_index(parent_id) {
                let ghost before = self.players@;
                self.players[j].children.push(requester_id);
                proof {
                    assert(self.players@ =~= before.update(j as int, self.players@[j as int]));
                    assert(links_of(self.players@) =~= links_of(before).update(j as int,
                        (links_of(before)[j as int].0, links_of(before)[j as int].1.push(requester_id))));
                    assert(self.wf());
                }
            }
        }
    }

    /// Every player attached to `parent_id` becomes detached, and the parent
    /// keeps no children. Returns true when our own player was one of them.
    pub fn detach_all_children(&mut self, parent_id: PlayerId) -> (r: bool)
        requires
            old(self).wf(),
        ensures
            final(self).wf(),
            final(self).self_id == old(self).self_id,
            final(self).player_mapping == old(self).player_mapping,
            all_same_but_links(old(self).players@, final(self).players@),
            links_of(final(self).players@) == detach_children_links(old(self).ids(), links_of(old(self).players@), parent_id),
            r == exists|i: int| 0 <= i < old(self).players@.len() && #[trigger] old(self).players@[i].attach_parent == parent_id
                && old(self).players@[i].id == old(self).self_id,
    {
        let ghost old_players = self.players@;
        let ghost links = links_of(self.players@);
        let mut self_was_child = false;
        let mut i: usize = 0;
        while i < self.players.len()
            invariant
                self.wf(),
                self.self_id == old(self).self_id,
                self.player_mapping == old(self).player_mapping,
                i <= self.players@.len(),
                all_same_but_links(old_players, self.players@),
                forall|x: int| 0 <= x < self.players@.len() ==> (#[trigger] self.players@[x]).children@ == old_players[x].children@,
                forall|x: int| 0 <= x < i ==> (#[trigger] self.players@[x]).attach_parent
                    == (if old_players[x].attach_parent == parent_id { invalid_id() } else { old_players[x].attach_parent }),
                forall|x: int| i <= x < self.players@.len() ==> (#[trigger] self.players@[x]).attach_parent == old_players[x].attach_parent,
                self_was_child == exists|x: int| 0 <= x < i && #[trigger] old_players[x].attach_parent == parent_id
                    && old_players[x].id == self.self_id,
            decreases self.players@.len() - i,
        {
            if self.players[i].attach_parent == parent_id {
                let ghost before = self.players@;
                self.players[i].attach_parent = PlayerId::invalid();
                if self.players[i].id == self.self_id {
                    self_was_child = true;
                }
                proof {
                    assert(self.players@ =~= before.update(i as int, self.players@[i as int]));
                    assert(self.wf());
                }
            }
            i = i + 1;
        }
        let ghost mid = self.players@;
        proof {
            assert(links_of(mid) =~= Seq::new(links.len(), |x: int| (if links[x].0 == parent_id { invalid_id() } else { links[x].0 }, links[x].1)));
            assert(self.ids() =~= ids_of(old_players)) by {
                assert forall|x: int| 0 <= x < old_players.len() implies self.ids()[x] == ids_of(old_players)[x] by {
                    assert(same_but_links(old_players[x], self.players@[x]));
                }
            }
        }
        if let Some(j) = self.find_index(parent_id) {
            self.players[j].children.clear();
            proof {
                assert(self.players@ =~= mid.update(j as int, self.players@[j as int]));
                assert(links_of(self.players@) =~= links_of(mid).update(j as int, (links_of(mid)[j as int].0, Seq::<PlayerId>::empty())));
                assert(self.wf());
            }
        }
        self_was_child
    }
}

/// Detaching a listed player leaves it without a parent.
pub proof fn lemma_detach_clears_parent(ids: Seq<PlayerId>, links: Seq<Link>, pid: PlayerId)
    requires
        links.len() == ids.len(),
        has_id(ids, pid),
    ensures
        detach_links(ids, links, pid)[pos_of(ids, pid)].0 == invalid_id(),
        detach_links(ids, links, pid).len() == links.len(),
{
}

/// Attaching a listed player to another listed player makes that one its
/// parent and lists it among the parent's children.
pub proof fn lemma_attach_sets_parent(ids: Seq<PlayerId>, links: Seq<Link>, requester: PlayerId, parent: PlayerId)
    requires
        unique_ids(ids),
        links.len() == ids.len(),
        has_id(ids, requester),
        has_id(ids, parent),
        requester != parent,
    ensures
        attach_links(ids, links, requester, parent)[pos_of(ids, requester)].0 == parent,
        attach_links(ids, links, requester, parent)[pos_of(ids, parent)].1.contains(requester),
{
    let i = pos_of(ids, requester);
    let j = pos_of(ids, parent);
    assert(i != j);
    let l = detach_links(ids, links, requester);
    let l2 = l.update(i, (parent, l[i].1));
    assert(l2[j].1.push(requester).last() == requester);
}

/// Detaching a player right after attaching it undoes the attachment: the
/// links are those of detaching it alone. This holds when the new parent
/// did not already list it among its children.
pub proof fn lemma_attach_then_detach(ids: Seq<PlayerId>, links: Seq<Link>, requester: PlayerId, parent: PlayerId)
    requires
        unique_ids(ids),
        links.len() == ids.len(),
        has_id(ids, requester),
        has_id(ids, parent),
        requester != parent,
        !detach_links(ids, links, requester)[pos_of(ids, parent)].1.contains(requester),
    ensures
        detach_links(ids, attach_links(ids, links, requester, parent), requester) == detach_links(ids, links, requester),
{
    let i = pos_of(ids, requester);
    let j = pos_of(ids, parent);
    assert(i != j);
    let l = detach_links(ids, links, requester);
    let a = attach_links(ids, links, requester, parent);
    let kids = l[j].1;
    let pushed = kids.push(requester);
    assert(first_pos(pushed, requester, 0) == kids.len()) by {
        assert forall|k: int| 0 <= k <= kids.len() implies first_pos(pushed, requester, k) == kids.len() by {
            lemma_first_pos_from(pushed, requester, k);
        }
    }
    assert(swap_remove_first(pushed, requester) =~= kids);
    assert(detach_links(ids, a, requester) =~= l);
}

/// No occurrence of `x` between `from` and the last element means the first
/// one from `from` is the last element.
proof fn lemma_first_pos_from(s: Seq<PlayerId>, x: PlayerId, from: int)
    requires
        0 <= from < s.len(),
        s.last() == x,
        forall|k: int| from <= k < s.len() - 1 ==> s[k] != x,
    ensures
        first_pos(s, x, from) == s.len() - 1,
    decreases s.len() - from,
{
    if from < s.len() - 1 {
        lemma_first_pos_from(s, x, from + 1);
    }
}

/// Removing a player right after adding it gives back that player and
/// leaves its id out of the arena.
pub proof fn lemma_add_then_remove(added: PlayerManager, p: Player, after: PlayerManager, removed: Option<Player>)
    requires
        added.wf(),
        added.contains_id(p.id),
        added.player_with_id(p.id) == p,
        added.contains_id(p.id) ==> removed == Some(added.player_with_id(p.id)),
        !after.contains_id(p.id),
    ensures
        removed == Some(p),
        !after.contains_id(p.id),
{
}


/// The player with id `q` stands at position `j` of a well-formed manager.
proof fn lemma_found_at(pm: PlayerManager, q: PlayerId, j: int)
    requires
        pm.wf(),
        0 <= j < pm.players@.len(),
        pm.players@[j].id == q,
    ensures
        pm.contains_id(q),
        pm.player_with_id(q) == pm.players@[j],
{
    assert(pm.ids()[j] == q);
    pm.lemma_lookup(q);
}

/// Removing a player leaves every other player in the arena, found by id
/// unchanged, and no other player comes in.
pub proof fn lemma_remove_keeps_others(before: PlayerManager, after: PlayerManager, removed: PlayerId, q: PlayerId)
    requires
        before.wf(),
        after.wf(),
        q != removed,
        before.contains_id(removed) ==> after.players@ == swap_removed(before.players@, before.index_of(removed)),
        !before.contains_id(removed) ==> after.players@ == before.players@,
    ensures
        after.contains_id(q) == before.contains_id(q),
        before.contains_id(q) ==> after.player_with_id(q) == before.player_with_id(q),
{
    before.lemma_lookup(q);
    before.lemma_lookup(removed);
    after.lemma_lookup(q);
    let n = before.players@.len() as int;
    if before.contains_id(removed) {
        let idx = before.index_of(removed);
        if before.contains_id(q) {
            let i = before.index_of(q);
            assert(i != idx);
            let j = if i == n - 1 { idx } else { i };
            assert(after.players@[j] == before.players@[i]);
            lemma_found_at(after, q, j);
        }
        if after.contains_id(q) {
            let j = after.index_of(q);
            let i = if j == idx { n - 1 } else { j };
            assert(before.players@[i] == after.players@[j]);
            lemma_found_at(before, q, i);
        }
    } else {
        assert(after.ids() =~= before.ids());
    }
}

/// Adding a player leaves every other player in the arena, found by id
/// unchanged, and no other player comes in.
pub proof fn lemma_add_keeps_others(before: PlayerManager, after: PlayerManager, added: Player, q: PlayerId)
    requires
        before.wf(),
        after.wf(),
        q != added.id,
        before.contains_id(added.id) ==> after.players@
            == swap_removed(before.players@, before.index_of(added.id)).push(added),
        !before.contains_id(added.id) ==> after.players@ == before.players@.push(added),
    ensures
        after.contains_id(q) == before.contains_id(q),
        before.contains_id(q) ==> after.player_with_id(q) == before.player_with_id(q),
{
    before.lemma_lookup(q);
    before.lemma_lookup(added.id);
    after.lemma_lookup(q);
    let n = before.players@.len() as int;
    let contained = before.contains_id(added.id);
    let idx = before.index_of(added.id);
    if before.contains_id(q) {
        let i = before.index_of(q);
        let j = if contained && i == n - 1 { idx } else { i };
        assert(after.players@[j] == before.players@[i]);
        lemma_found_at(after, q, j);
    }
    if after.contains_id(q) {
        let j = after.index_of(q);
        let last = after.players@.len() - 1;
        assert(j != last);
        let i = if contained && j == idx { n - 1 } else { j };
        assert(before.players@[i] == after.players@[j]);
        lemma_found_at(before, q, i);
    }
}

} // verus!
