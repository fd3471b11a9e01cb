use vstd::prelude::*;
use vstd::string::{StrSliceExecFns, StringExecFns};

use crate::arena_settings::ArenaSettings;
use crate::math::{div_i32, trunc_div};
use crate::chat::ChatCommand;
use crate::clock::{GameTick, tick_add, tick_diff};
use crate::net::packet::c2s::{ArenaJoinMessage, ArenaRequest, AttachRequestMessage, PositionMessage};
use crate::net::packet::bi::{ExtraPositionData, ItemSet};
use crate::attach::{AttachKind, attach_decision, attach_error_text, can_attach_to};
use crate::text::{parse_u16, parsed_u16};
use crate::lvz::{inflate_zlib, zlib_decoded};
use crate::map::{DoorRng, MapError, TileMap, doors_applied, loaded_map, map_data_fits, tile_data_start};
use crate::math::{Position, PositionUnit, Velocity};
use crate::net::packet::s2c::{
    ChatKind, CollectedPrizeMessage, PlayerDeathMessage, PlayerFrequencyChangeMessage,
    PlayerEnteringEntry, PlayerLeavingMessage, PlayerTeamAndShipChangeMessage, PrizePickupMessage, ScoreUpdateMessage, TurretLinkCreateMessage,
};
use crate::player::{
    Player, PlayerId, PlayerManager, STATUS_FLASH, STATUS_SAFETY, all_same_but_links, attach_links, detach_children_links,
    detach_links, has_id, ids_of, links_of, pos_of, same_but_links, swap_removed,
};
use crate::prize::{abs_i32, apply_prize_id, prize_effect, prize_id_fits};
use crate::rng::VieRng;
use crate::ship::{Ship, ShipKind};
use crate::ship_controller::ShipController;
use crate::prize::{PrizeGreen, PrizeManager};
use crate::render::text_renderer::TextColor;
use crate::text::{decimal, push_decimal};
use vstd::wrapping::{i32_specs, u16_specs};

verus! {

/// The first position at or after `from` holding a colon; the length if none.
pub open spec fn colon_pos(m: Seq<char>, from: int) -> int
    decreases m.len() - from,
{
    if from < 0 || from >= m.len() {
        m.len() as int
    } else if m[from] == ':' {
        from
    } else {
        colon_pos(m, from + 1)
    }
}


/// The sender of a remote private line, written `(name)>text` or
/// `:name:text`: the text from the second character up to the next colon,
/// or nothing when there is no colon.
pub open spec fn remote_sender(m: Seq<char>) -> Seq<char> {
    if m.len() == 0 {
        Seq::empty()
    } else {
        let p = colon_pos(m, 1);
        if p < m.len() { m.subrange(1, p) } else { Seq::empty() }
    }
}

/// The name a chat line is filed under: the sending player's name on the
/// channels that carry a player id, the name written in the text of a
/// remote private line, and nothing on the others.
pub open spec fn chat_sender_name(players: PlayerManager, kind: ChatKind, sender: PlayerId, message: Seq<char>) -> Seq<char> {
    match kind {
        ChatKind::Public | ChatKind::PublicMacro | ChatKind::Team | ChatKind::Frequency | ChatKind::Private =>
            if players.contains_id(sender) { players.player_with_id(sender).name@ } else { Seq::empty() },
        ChatKind::RemotePrivate => remote_sender(message),
        _ => Seq::empty(),
    }
}

/// The name a received chat line is filed under.
pub fn chat_sender(players: &PlayerManager, kind: ChatKind, sender: PlayerId, message: &str) -> (r: String)
    requires
        players.wf(),
        kind == ChatKind::RemotePrivate && message@.len() > 0 ==> (message@[0] as u32) < 128,
    ensures
        r@ == chat_sender_name(*players, kind, sender, message@),
{
    proof {
        reveal_strlit("");
    }
    match kind {
        ChatKind::Public | ChatKind::PublicMacro | ChatKind::Team | ChatKind::Frequency | ChatKind::Private => {
            match players.get_by_id(sender) {
                Some(p) => p.name.clone(),
                None => String::from_str(""),
            }
        },
        ChatKind::RemotePrivate => {
            let n = message.unicode_len();
            if n == 0 {
                return String::from_str("");
            }
            let mut k: usize = 1;
            while k < n
                invariant_except_break
                    1 <= k <= n,
                    n == message@.len(),
                    colon_pos(message@, 1) == colon_pos(message@, k as int),
                ensures
                    1 <= k <= n,
                    n == message@.len(),
                    k == colon_pos(message@, 1),
                decreases n - k,
            {
                if message.get_char(k) == ':' {
                    break;
                }
                k = k + 1;
            }
            if k < n {
                String::from_str(message.substring_char(1, k))
            } else {
                String::from_str("")
            }
        },
        _ => String::from_str(""),
    }
}

/// `killed(bounty) killed by: killer`
pub open spec fn death_text(killed_name: Seq<char>, bounty: u16, killer_name: Seq<char>) -> Seq<char> {
    killed_name + "("@ + decimal(bounty as nat) + ") killed by: "@ + killer_name
}

/// The notice of a kill that involves our own player: the killed player's
/// name and bounty (none between teammates) and the killer's name, in
/// yellow. Kills between others, and kills of unknown players, give none.
pub open spec fn death_notice(pm: PlayerManager, m: PlayerDeathMessage) -> Option<(Seq<char>, TextColor)> {
    if pm.contains_id(m.killer_id) && pm.contains_id(m.killed_id) {
        let killer = pm.player_with_id(m.killer_id);
        let killed = pm.player_with_id(m.killed_id);
        if killer.id == pm.self_id || killed.id == pm.self_id {
            let bounty: u16 = if killer.frequency == killed.frequency { 0 } else { killed.bounty };
            Some((death_text(killed.name@, bounty, killer.name@), TextColor::Yellow))
        } else {
            None
        }
    } else {
        None
    }
}

/// The notification to show for a kill, if it involves our own player.
pub fn death_notification(players: &PlayerManager, message: &PlayerDeathMessage) -> (r: Option<(String, TextColor)>)
    requires
        players.wf(),
    ensures
        match r {
            Some((text, color)) => death_notice(*players, *message) == Some((text@, color)),
            None => death_notice(*players, *message) is None,
        },
{
    let Some(killer) = players.get_by_id(message.killer_id) else {
        return None;
    };
    let Some(killed) = players.get_by_id(message.killed_id) else {
        return None;
    };
    let self_involved = killer.id == players.self_id || killed.id == players.self_id;
    if !self_involved {
        return None;
    }
    let bounty: u16 = if killer.frequency == killed.frequency { 0 } else { killed.bounty };
    let mut text = killed.name.clone();
    proof {
        reveal_strlit("(");
        reveal_strlit(") killed by: ");
    }
    text.append("(");
    push_decimal(&mut text, bounty as u64);
    text.append(") killed by: ");
    text.append(killer.name.as_str());
    Some((text, TextColor::Yellow))
}

/// The killer after a kill: one more win, the bounty added to its kill
/// points, the flags of the killed player, its own bounty raised by the
/// arena's reward, and the flag timer restarted when flags changed hands or
/// a large enough bounty was collected while carrying flags.
pub open spec fn credited_killer(p: Player, settings: ArenaSettings, m: PlayerDeathMessage) -> Player {
    Player {
        flag_remaining_ticks: if (p.flag_count > 0 && m.bounty > (settings.flag_drop_reset_reward as u16)) || m.flag_transfer > 0 {
            settings.flag_drop_delay as u32
        } else {
            p.flag_remaining_ticks
        },
        flag_count: (p.flag_count + m.flag_transfer) as u16,
        wins: u16_specs::wrapping_add(p.wins, 1),
        kill_points: i32_specs::wrapping_add(p.kill_points, m.bounty as i32),
        bounty: u16_specs::wrapping_add_signed(p.bounty, settings.bounty_increase_for_kill),
        ..p
    }
}

/// The killed player: exploding for `explosion_duration` ticks, waiting the
/// arena's enter delay after that, one more loss, and no flags.
pub open spec fn debited_killed(p: Player, settings: ArenaSettings, explosion_duration: u32) -> Player {
    Player {
        enter_delay: (settings.enter_delay + (explosion_duration as u16)) as u16,
        explosion_remaining_ticks: explosion_duration,
        losses: u16_specs::wrapping_add(p.losses, 1),
        flag_count: 0,
        flag_remaining_ticks: 0,
        ..p
    }
}

/// The players after a kill is credited and debited, before the killed
/// player's children are detached.
pub open spec fn players_after_death(pm: PlayerManager, settings: ArenaSettings, m: PlayerDeathMessage, explosion_duration: u32) -> Seq<Player> {
    let a = if pm.contains_id(m.killer_id) {
        pm.players@.update(pm.index_of(m.killer_id), credited_killer(pm.player_with_id(m.killer_id), settings, m))
    } else {
        pm.players@
    };
    if pm.contains_id(m.killed_id) {
        let k = pm.index_of(m.killed_id);
        a.update(k, debited_killed(a[k], settings, explosion_duration))
    } else {
        a
    }
}

/// A moving player that dies with a prize leaves it behind as a green on
/// the tile where it died, for the arena's death prize time.
pub open spec fn death_green(pm: PlayerManager, settings: ArenaSettings, m: PlayerDeathMessage) -> Option<PrizeGreen> {
    if pm.contains_id(m.killed_id) {
        let p = pm.player_with_id(m.killed_id);
        match p.position {
            Some(pos) => if m.prize_id > 0 && (p.velocity.x.0 != 0 || p.velocity.y.0 != 0) {
                Some(PrizeGreen {
                    remaining_ticks: settings.death_prize_time as u32,
                    x_tile: trunc_div(pos.x.0 as int, 16000) as u16,
                    y_tile: trunc_div(pos.y.0 as int, 16000) as u16,
                    prize_id: m.prize_id as i32,
                })
            } else {
                None
            },
            None => None,
        }
    } else {
        None
    }
}

/// Applies a kill to the players and prizes. `explosion_duration` is how
/// long a dying ship explodes, in ticks.
pub fn apply_player_death(
    players: &mut PlayerManager,
    prizes: &mut PrizeManager,
    settings: &ArenaSettings,
    message: &PlayerDeathMessage,
    explosion_duration: u32,
)
    requires
        old(players).wf(),
        old(players).contains_id(message.killer_id) ==>
            old(players).player_with_id(message.killer_id).flag_count + message.flag_transfer <= u16::MAX,
        settings.enter_delay + (explosion_duration as u16) <= u16::MAX,
    ensures
        final(players).wf(),
        final(players).self_id == old(players).self_id,
        final(players).player_mapping == old(players).player_mapping,
        ({
            let mid = players_after_death(*old(players), *settings, *message, explosion_duration);
            if old(players).contains_id(message.killed_id) {
                &&& all_same_but_links(mid, final(players).players@)
                &&& links_of(final(players).players@) == detach_children_links(old(players).ids(), links_of(mid), message.killed_id)
            } else {
                final(players).players@ == mid
            }
        }),
        final(prizes).greens@ == (match death_green(*old(players), *settings, *message) {
            Some(g) => old(prizes).greens@.push(g),
            None => old(prizes).greens@,
        }),
        final(prizes).seed == old(prizes).seed,
        final(prizes).spawn_tick_counter == old(prizes).spawn_tick_counter,
{
    let ghost pm0 = *players;
    if let Some(killer) = players.get_by_id_mut(message.killer_id) {
        if (killer.flag_count > 0 && message.bounty > settings.flag_drop_reset_reward as u16) || message.flag_transfer > 0 {
            killer.flag_remaining_ticks = settings.flag_drop_delay as u32;
        }
        killer.flag_count = killer.flag_count + message.flag_transfer;
        killer.wins = killer.wins.wrapping_add(1);
        killer.kill_points = killer.kill_points.wrapping_add(message.bounty as i32);
        killer.bounty = killer.bounty.wrapping_add_signed(settings.bounty_increase_for_kill);
    }
    proof {
        PlayerManager::lemma_same_ids_wf(&pm0, players);
    }
    let ghost pm1 = *players;
    let mut killed_found = false;
    if let Some(killed) = players.get_by_id_mut(message.killed_id) {
        killed_found = true;
        killed.enter_delay = settings.enter_delay + explosion_duration as u16;
        killed.explosion_remaining_ticks = explosion_duration;
        killed.losses = killed.losses.wrapping_add(1);
        killed.flag_count = 0;
        killed.flag_remaining_ticks = 0;
        if let Some(position) = killed.position {
            let was_moving = killed.velocity.x.0 != 0 || killed.velocity.y.0 != 0;
            if message.prize_id > 0 && was_moving {
                let x = div_i32(position.x.0, 16000) as u16;
                let y = div_i32(position.y.0, 16000) as u16;
                prizes.spawn_green(x, y, message.prize_id as i32, settings.death_prize_time as u32);
            }
        }
    }
    proof {
        PlayerManager::lemma_same_ids_wf(&pm1, players);
        assert(players.players@ == players_after_death(pm0, *settings, *message, explosion_duration));
    }
    if killed_found {
        players.detach_all_children(message.killed_id);
    }
}

/// The player with the scores the server sent.
pub open spec fn scored(p: Player, m: ScoreUpdateMessage) -> Player {
    Player { kill_points: m.kill_points, flag_points: m.flag_points, wins: m.kills, losses: m.deaths, ..p }
}

/// Takes over the scores the server counts for a player.
pub fn apply_score_update(players: &mut PlayerManager, message: &ScoreUpdateMessage)
    requires
        old(players).wf(),
    ensures
        final(players).wf(),
        final(players).self_id == old(players).self_id,
        final(players).player_mapping == old(players).player_mapping,
        final(players).players@ == (if old(players).contains_id(message.player_id) {
            old(players).players@.update(old(players).index_of(message.player_id),
                scored(old(players).player_with_id(message.player_id), *message))
        } else {
            old(players).players@
        }),
{
    let ghost pm0 = *players;
    if let Some(player) = players.get_by_id_mut(message.player_id) {
        player.kill_points = message.kill_points;
        player.flag_points = message.flag_points;
        player.wins = message.kills;
        player.losses = message.deaths;
    }
    proof {
        PlayerManager::lemma_same_ids_wf(&pm0, players);
    }
}

/// Our own player is among the players attached to `parent`.
pub open spec fn self_attached_to(ps: Seq<Player>, self_id: PlayerId, parent: PlayerId) -> bool {
    exists|i: int| 0 <= i < ps.len() && #[trigger] ps[i].attach_parent == parent && ps[i].id == self_id
}

/// The players after one of them moved to `frequency`.
pub open spec fn with_frequency(pm: PlayerManager, id: PlayerId, frequency: u16) -> Seq<Player> {
    if pm.contains_id(id) {
        pm.players@.update(pm.index_of(id), Player { frequency, ..pm.player_with_id(id) })
    } else {
        pm.players@
    }
}

/// Moves a player to another team and detaches everyone attached to it.
/// Returns true when our own player was attached to it, so that the server
/// is to be told that we detached.
pub fn apply_frequency_change(players: &mut PlayerManager, message: &PlayerFrequencyChangeMessage) -> (r: bool)
    requires
        old(players).wf(),
    ensures
        final(players).wf(),
        final(players).self_id == old(players).self_id,
        final(players).player_mapping == old(players).player_mapping,
        all_same_but_links(with_frequency(*old(players), message.player_id, message.frequency), final(players).players@),
        links_of(final(players).players@) == detach_children_links(old(players).ids(),
            links_of(with_frequency(*old(players), message.player_id, message.frequency)), message.player_id),
        r == self_attached_to(with_frequency(*old(players), message.player_id, message.frequency), old(players).self_id, message.player_id),
{
    let ghost pm0 = *players;
    if let Some(player) = players.get_by_id_mut(message.player_id) {
        player.frequency = message.frequency;
    }
    proof {
        PlayerManager::lemma_same_ids_wf(&pm0, players);
        assert(players.players@ == with_frequency(pm0, message.player_id, message.frequency));
    }
    players.detach_all_children(message.player_id)
}

/// Attaches a player to another one. A link without a destination detaches
/// our own player; the result is then true, and the server is to be told.
pub fn apply_turret_link_create(players: &mut PlayerManager, message: &TurretLinkCreateMessage) -> (r: bool)
    requires
        old(players).wf(),
    ensures
        final(players).wf(),
        final(players).self_id == old(players).self_id,
        final(players).player_mapping == old(players).player_mapping,
        all_same_but_links(old(players).players@, final(players).players@),
        match message.destination_id {
            None => r && links_of(final(players).players@)
                == detach_links(old(players).ids(), links_of(old(players).players@), old(players).self_id),
            Some(d) => !r && links_of(final(players).players@)
                == attach_links(old(players).ids(), links_of(old(players).players@), message.requester_id, d),
        },
{
    match message.destination_id {
        None => {
            let self_id = players.self_id;
            players.detach_player(self_id);
            true
        },
        Some(destination) => {
            players.attach_player(message.requester_id, destination);
            false
        },
    }
}

/// After a powerball pickup our ship may fire neither bombs nor bullets for
/// the ship's bomb delay.
pub fn delay_fire_after_pickup(ship: &mut Ship, settings: &ArenaSettings, current_tick: GameTick)
    requires
        old(ship).kind != ShipKind::Spectator,
    ensures
        *final(ship) == (Ship {
            next_bomb_tick: GameTick { value: tick_add(current_tick.value, settings.ship(old(ship).kind).bomb_fire_delay as int) },
            next_bullet_tick: GameTick { value: tick_add(current_tick.value, settings.ship(old(ship).kind).bomb_fire_delay as int) },
            ..*old(ship)
        }),
{
    let bomb_delay = settings.get_ship_settings(ship.kind).bomb_fire_delay;
    ship.next_bomb_tick = current_tick.plus(bomb_delay as i32);
    ship.next_bullet_tick = current_tick.plus(bomb_delay as i32);
}

/// The team of the player who picked up a prize, or no team when the player
/// is unknown.
pub open spec fn pickup_frequency(pm: PlayerManager, id: PlayerId) -> u16 {
    if pm.contains_id(id) { pm.player_with_id(id).frequency } else { 0xFFFF }
}

/// A prize picked up by a teammate is shared with our ship, unless it is a
/// warp or our bounty has reached the ship's share limit.
pub open spec fn prize_shared(pm: PlayerManager, settings: ArenaSettings, m: PrizePickupMessage) -> bool {
    &&& m.prize_id != 7
    &&& pm.contains_id(pm.self_id)
    &&& pm.player_with_id(pm.self_id).bounty < settings.ship(pm.player_with_id(pm.self_id).ship_kind).prize_share_limit
    &&& pm.player_with_id(pm.self_id).frequency == pickup_frequency(pm, m.player_id)
}

/// Whether our ship receives the prize a player picked up.
pub fn shares_prize_pickup(players: &PlayerManager, settings: &ArenaSettings, message: &PrizePickupMessage) -> (r: bool)
    requires
        players.wf(),
        players.contains_id(players.self_id) ==> players.player_with_id(players.self_id).ship_kind != ShipKind::Spectator,
    ensures
        r == prize_shared(*players, *settings, *message),
{
    if message.prize_id == 7 {
        return false;
    }
    let frequency = match players.get_by_id(message.player_id) {
        Some(p) => p.frequency,
        None => 0xFFFF,
    };
    match players.get_self() {
        Some(me) => {
            let share_limit = settings.get_ship_settings(me.ship_kind).prize_share_limit;
            me.bounty < share_limit && me.frequency == frequency
        },
        None => false,
    }
}

/// The ship after `n` grants of the prize `prize_id`, each one raising the
/// bounty by one.
pub open spec fn collected_prizes(settings: ArenaSettings, ship: Ship, tick: u32, prize_id: i32, n: nat) -> Ship
    decreases n,
{
    if n == 0 {
        ship
    } else {
        let s = collected_prizes(settings, ship, tick, prize_id, (n - 1) as nat);
        let s2 = if abs_i32(prize_id) <= 28 { prize_effect(settings, s, tick, prize_id) } else { s };
        Ship { bounty: vstd::wrapping::u16_specs::wrapping_add(s2.bounty, 1), ..s2 }
    }
}

/// Grants our ship the prizes the server awarded. Returns true when the
/// prize is a warp, which then moves the ship.
pub fn apply_collected_prizes(settings: &ArenaSettings, ship: &mut Ship, tick: GameTick, message: &CollectedPrizeMessage) -> (r: bool)
    requires
        old(ship).kind != ShipKind::Spectator,
        forall|k: nat| k < message.count ==> prize_id_fits(*settings,
            #[trigger] collected_prizes(*settings, *old(ship), tick.value, message.prize_id as i32, k), tick.value,
            message.prize_id as i32),
    ensures
        *final(ship) == collected_prizes(*settings, *old(ship), tick.value, message.prize_id as i32, message.count as nat),
        r == (message.prize_id == 7),
{
    let mut i: u16 = 0;
    while i < message.count
        invariant
            i <= message.count,
            old(ship).kind != ShipKind::Spectator,
            ship.kind == old(ship).kind,
            forall|k: nat| k < message.count ==> prize_id_fits(*settings,
                #[trigger] collected_prizes(*settings, *old(ship), tick.value, message.prize_id as i32, k), tick.value,
                message.prize_id as i32),
            *ship == collected_prizes(*settings, *old(ship), tick.value, message.prize_id as i32, i as nat),
        decreases message.count - i,
    {
        proof {
            assert(prize_id_fits(*settings,
                collected_prizes(*settings, *old(ship), tick.value, message.prize_id as i32, i as nat), tick.value,
                message.prize_id as i32));
        }
        let _ = apply_prize_id(settings, ship, tick, message.prize_id as i32);
        ship.bounty = ship.bounty.wrapping_add(1);
        i = i + 1;
    }
    message.prize_id == 7
}

/// Door state follows the arena's door mode: a fixed mode starts the door
/// generator afresh and shows that state on every door.
pub fn apply_arena_door_mode(map: &mut TileMap, settings: &ArenaSettings, current_tick: GameTick)
    requires
        old(map).wf(),
    ensures
        final(map).wf(),
        final(map).doors@ == old(map).doors@,
        final(map).bricks@ == old(map).bricks@,
        settings.door_mode >= 0 ==> {
            &&& final(map).tiles@ == doors_applied(old(map).tiles@, old(map).doors@, settings.door_mode as u8 as u32, old(map).doors@.len() as int)
            &&& final(map).door_rng == Some(DoorRng {
                rng: VieRng { seed: settings.door_mode as u32 as i32 },
                last_tick: current_tick,
                current_mode: settings.door_mode as u8,
                last_mode: settings.door_mode as u8,
            })
        },
        settings.door_mode < 0 ==> *final(map) == *old(map),
{
    if settings.door_mode >= 0 {
        let mode = settings.door_mode as u8;
        map.door_rng = Some(DoorRng::new(settings.door_mode as u32, current_tick, mode, mode));
        map.set_door_mode(mode);
    }
}

/// A player after changing ship and team: a player outside a safe zone
/// loses its position and speed, except that our own player keeps its place
/// when it becomes a spectator.
pub open spec fn changed_ship(p: Player, m: PlayerTeamAndShipChangeMessage, own_id: PlayerId) -> Player {
    let previous = match p.position {
        Some(q) => q,
        None => Position { x: PositionUnit(0), y: PositionUnit(0) },
    };
    let p1 = Player { ship_kind: m.ship_kind, frequency: m.frequency, ..p };
    let p2 = if p.status & STATUS_SAFETY == 0 {
        Player { position: None, velocity: Velocity { x: PositionUnit(0), y: PositionUnit(0) }, ..p1 }
    } else {
        p1
    };
    if p.id == own_id && m.ship_kind == ShipKind::Spectator {
        Player { position: Some(previous), ..p2 }
    } else {
        p2
    }
}

/// The players after one of them changed ship and team.
pub open spec fn with_changed_ship(pm: PlayerManager, m: PlayerTeamAndShipChangeMessage, own_id: PlayerId) -> Seq<Player> {
    if pm.contains_id(m.player_id) {
        pm.players@.update(pm.index_of(m.player_id), changed_ship(pm.player_with_id(m.player_id), m, own_id))
    } else {
        pm.players@
    }
}

/// Applies a change of ship and team, `own_id` being the id the server gave
/// us, and detaches everyone attached to the player. Returns true when our
/// own player was attached to it, so that the server is to be told.
pub fn apply_team_and_ship_change(players: &mut PlayerManager, message: &PlayerTeamAndShipChangeMessage, own_id: PlayerId) -> (r: bool)
    requires
        old(players).wf(),
    ensures
        final(players).wf(),
        final(players).self_id == old(players).self_id,
        final(players).player_mapping == old(players).player_mapping,
        all_same_but_links(with_changed_ship(*old(players), *message, own_id), final(players).players@),
        links_of(final(players).players@) == detach_children_links(old(players).ids(),
            links_of(with_changed_ship(*old(players), *message, own_id)), message.player_id),
        r == self_attached_to(with_changed_ship(*old(players), *message, own_id), old(players).self_id, message.player_id),
{
    let ghost pm0 = *players;
    if let Some(player) = players.get_by_id_mut(message.player_id) {
        let previous = match player.position {
            Some(q) => q,
            None => Position::empty(),
        };
        player.ship_kind = message.ship_kind;
        player.frequency = message.frequency;
        if player.status & STATUS_SAFETY == 0 {
            player.position = None;
            player.velocity = Velocity::empty();
        }
        if player.id == own_id && player.ship_kind == ShipKind::Spectator {
            player.position = Some(previous);
        }
    }
    proof {
        PlayerManager::lemma_same_ids_wf(&pm0, players);
        assert(players.players@ == with_changed_ship(pm0, *message, own_id));
    }
    players.detach_all_children(message.player_id)
}

/// Removing the same position from two lists that agree but for links keeps
/// them agreeing, and removes that position's links.
proof fn lemma_swap_removed_links(a: Seq<Player>, b: Seq<Player>, k: int)
    requires
        all_same_but_links(a, b),
        0 <= k < a.len(),
    ensures
        ids_of(a) == ids_of(b),
        all_same_but_links(swap_removed(a, k), swap_removed(b, k)),
        links_of(swap_removed(b, k)) == swap_removed(links_of(b), k),
{
    assert(ids_of(a) =~= ids_of(b)) by {
        assert forall|i: int| 0 <= i < a.len() implies ids_of(a)[i] == ids_of(b)[i] by {
            assert(same_but_links(a[i], b[i]));
        }
    }
    let sa = swap_removed(a, k);
    let sb = swap_removed(b, k);
    assert forall|i: int| 0 <= i < sa.len() implies same_but_links(#[trigger] sa[i], sb[i]) by {
        if i == k {
            assert(same_but_links(a[a.len() - 1], b[b.len() - 1]));
        } else {
            assert(same_but_links(a[i], b[i]));
        }
    }
    assert(links_of(sb) =~= swap_removed(links_of(b), k));
}

/// Takes a player out of the arena, after detaching everyone attached to
/// it. The last player in the list takes its place. Returns the player.
pub fn apply_player_leaving(players: &mut PlayerManager, message: &PlayerLeavingMessage) -> (r: Option<Player>)
    requires
        old(players).wf(),
    ensures
        final(players).wf(),
        final(players).self_id == old(players).self_id,
        !final(players).contains_id(message.player_id),
        ({
            let links = detach_children_links(old(players).ids(), links_of(old(players).players@), message.player_id);
            if old(players).contains_id(message.player_id) {
                let k = old(players).index_of(message.player_id);
                &&& all_same_but_links(swap_removed(old(players).players@, k), final(players).players@)
                &&& links_of(final(players).players@) == swap_removed(links, k)
                &&& r matches Some(p) && same_but_links(old(players).players@[k], p)
                    && p.attach_parent == links[k].0 && p.children@ == links[k].1
            } else {
                &&& r is None
                &&& all_same_but_links(old(players).players@, final(players).players@)
                &&& links_of(final(players).players@) == links
            }
        }),
{
    let ghost pm0 = *players;
    players.detach_all_children(message.player_id);
    let ghost pm1 = *players;
    proof {
        assert(ids_of(pm0.players@) =~= ids_of(pm1.players@)) by {
            assert forall|i: int| 0 <= i < pm0.players@.len() implies ids_of(pm0.players@)[i] == ids_of(pm1.players@)[i] by {
                assert(same_but_links(pm0.players@[i], pm1.players@[i]));
            }
        }
        if pm0.contains_id(message.player_id) {
            lemma_swap_removed_links(pm0.players@, pm1.players@, pm0.index_of(message.player_id));
            let k = pm0.index_of(message.player_id);
            assert(links_of(pm1.players@)[k] == (pm1.players@[k].attach_parent, pm1.players@[k].children@));
        }
    }
    players.remove_player(message.player_id)
}

/// The position among the first `n` entries of the last one for `id`, or -1.
pub open spec fn last_entry(es: Seq<PlayerEnteringEntry>, id: PlayerId, n: int) -> int
    decreases n,
{
    if n <= 0 {
        -1
    } else if es[n - 1].player_id == id {
        n - 1
    } else {
        last_entry(es, id, n - 1)
    }
}


/// The ids of the player list after the first `n` entries were added, each
/// one taking the place of a player with its id.
pub open spec fn ids_after_entering(ids: Seq<PlayerId>, es: Seq<PlayerEnteringEntry>, n: int) -> Seq<PlayerId>
    decreases n,
{
    if n <= 0 {
        ids
    } else {
        let prev = ids_after_entering(ids, es, n - 1);
        let id = es[n - 1].player_id;
        if has_id(prev, id) { swap_removed(prev, pos_of(prev, id)).push(id) } else { prev.push(id) }
    }
}

/// The ids of the entries among the first `n` that attach to `parent`, in order.
pub open spec fn child_ids(es: Seq<PlayerEnteringEntry>, parent: PlayerId, n: int) -> Seq<PlayerId>
    decreases n,
{
    if n <= 0 {
        Seq::empty()
    } else if es[n - 1].attach_parent.is_valid() && es[n - 1].attach_parent == parent {
        child_ids(es, parent, n - 1).push(es[n - 1].player_id)
    } else {
        child_ids(es, parent, n - 1)
    }
}

/// A player as an entry brings it in, `tick` being when it entered: placed at
/// the origin when it is our own player, not placed otherwise.
pub open spec fn entered_as(q: Player, e: PlayerEnteringEntry, self_id: PlayerId, tick: GameTick) -> bool {
    &&& q.id == e.player_id && q.name@ == e.name@ && q.squad@ == e.squad@
    &&& q.ship_kind == e.ship_kind && q.frequency == e.frequency
    &&& q.flag_points == e.flag_points && q.kill_points == e.kill_points
    &&& q.wins == e.kills && q.losses == e.deaths && q.flag_count == e.flag_count
    &&& q.attach_parent == e.attach_parent
    &&& q.last_position_timestamp == tick
    &&& q.position == (if e.player_id == self_id { Some(Position { x: PositionUnit(0), y: PositionUnit(0) }) } else { None })
    &&& q.velocity.x.0 == 0 && q.velocity.y.0 == 0
    &&& q.lerp_velocity.x.0 == 0 && q.lerp_velocity.y.0 == 0
    &&& q.lerp_remaining_ticks == 0 && q.direction == 0
    &&& q.bounty == 0 && q.status == 0 && q.ping == 0
    &&& q.flag_remaining_ticks == 0 && q.enter_delay == 0
    &&& q.last_extra_data_timestamp is None && q.extra_position_data is None
    &&& q.explosion_remaining_ticks == 0 && q.flash_remaining_ticks == 0
    &&& !q.carrying_ball
}

/// What each listed player is after the first `n` entries were added, before
/// any child is recorded: entered players as their last entry says, with no
/// children; the others as they were.
pub open spec fn entered_players(pm: PlayerManager, ps: Seq<Player>, es: Seq<PlayerEnteringEntry>, tick: GameTick, n: int) -> bool {
    forall|x: int| 0 <= x < ps.len() ==> {
        let q = #[trigger] ps[x];
        let k = last_entry(es, q.id, n);
        &&& k >= 0 ==> entered_as(q, es[k], pm.self_id, tick) && q.children@.len() == 0
        &&& k < 0 ==> pm.contains_id(q.id) && q == pm.player_with_id(q.id)
    }
}

/// Some entry brings our own player in as a spectator.
pub open spec fn self_entered_spectating(es: Seq<PlayerEnteringEntry>, self_id: PlayerId) -> bool {
    exists|j: int| 0 <= j < es.len() && (#[trigger] es[j]).player_id == self_id && es[j].ship_kind == ShipKind::Spectator
}

/// Adds the players of an entering batch, entered at `tick`, each one taking
/// the place of a player with its id; then records each one that is attached
/// as a child of its parent, where the parent is in the arena. Returns true
/// when our own player entered as a spectator.
pub fn apply_player_entering(players: &mut PlayerManager, entries: &Vec<PlayerEnteringEntry>, tick: GameTick) -> (r: bool)
    requires
        old(players).wf(),
        forall|j: int| 0 <= j < entries@.len() ==> (#[trigger] entries@[j]).player_id.is_valid(),
    ensures
        final(players).wf(),
        final(players).self_id == old(players).self_id,
        final(players).ids() == ids_after_entering(old(players).ids(), entries@, entries@.len() as int),
        forall|x: int| 0 <= x < final(players).players@.len() ==> {
            let q = #[trigger] final(players).players@[x];
            let k = last_entry(entries@, q.id, entries@.len() as int);
            &&& k >= 0 ==> entered_as(q, entries@[k], old(players).self_id, tick)
                && q.children@ == child_ids(entries@, q.id, entries@.len() as int)
            &&& k < 0 ==> old(players).contains_id(q.id)
                && same_but_links(q, old(players).player_with_id(q.id))
                && q.attach_parent == old(players).player_with_id(q.id).attach_parent
                && q.children@ == old(players).player_with_id(q.id).children@ + child_ids(entries@, q.id, entries@.len() as int)
        },
        r == self_entered_spectating(entries@, old(players).self_id),
{
    let ghost pm0 = *players;
    proof {
        assert forall|x: int| 0 <= x < pm0.players@.len() implies {
            let q = #[trigger] pm0.players@[x];
            pm0.contains_id(q.id) && q == pm0.player_with_id(q.id)
        } by {
            let q = pm0.players@[x];
            assert(pm0.ids()[x] == q.id);
            pm0.lemma_lookup(q.id);
        }
    }
    let mut self_spectating = false;
    let mut i: usize = 0;
    while i < entries.len()
        invariant
            i <= entries@.len(),
            players.wf(),
            players.self_id == pm0.self_id,
            pm0.wf(),
            forall|j: int| 0 <= j < entries@.len() ==> (#[trigger] entries@[j]).player_id.is_valid(),
            players.ids() == ids_after_entering(pm0.ids(), entries@, i as int),
            entered_players(pm0, players.players@, entries@, tick, i as int),
            self_spectating == exists|j: int| 0 <= j < i && (#[trigger] entries@[j]).player_id == pm0.self_id
                && entries@[j].ship_kind == ShipKind::Spectator,
        decreases entries@.len() - i,
    {
        let entry = &entries[i];
        let mut player = Player::new(
            entry.player_id,
            entry.name.as_str(),
            entry.squad.as_str(),
            entry.ship_kind,
            entry.frequency,
            entry.flag_points,
            entry.kill_points,
        );
        player.wins = entry.kills;
        player.losses = entry.deaths;
        player.flag_count = entry.flag_count;
        player.attach_parent = entry.attach_parent;
        player.last_position_timestamp = tick;
        if entry.player_id == players.self_id {
            player.position = Some(Position::empty());
            if player.ship_kind == ShipKind::Spectator {
                self_spectating = true;
            }
        }
        let ghost before = *players;
        let ghost p = player;
        proof {
            before.lemma_lookup(p.id);
        }
        players.add_player(player);
        proof {
            let ps = players.players@;
            let bs = before.players@;
            let n = i as int + 1;
            players.lemma_lookup(p.id);
            assert(players.ids() =~= ids_after_entering(pm0.ids(), entries@, n)) by {
                if before.contains_id(p.id) {
                    assert(ids_of(ps) =~= swap_removed(ids_of(bs), before.index_of(p.id)).push(p.id));
                } else {
                    assert(ids_of(ps) =~= ids_of(bs).push(p.id));
                }
            }
            assert forall|x: int| 0 <= x < ps.len() implies {
                let q = #[trigger] ps[x];
                let k = last_entry(entries@, q.id, n);
                &&& k >= 0 ==> entered_as(q, entries@[k], pm0.self_id, tick) && q.children@.len() == 0
                &&& k < 0 ==> pm0.contains_id(q.id) && q == pm0.player_with_id(q.id)
            } by {
                let q = ps[x];
                if x == ps.len() - 1 {
                    assert(q == p);
                } else {
                    let y = if before.contains_id(p.id) && x == before.index_of(p.id) { bs.len() - 1 } else { x };
                    assert(q == bs[y]);
                    assert(ids_of(ps)[x] == q.id);
                    assert(ids_of(ps)[ps.len() - 1] == p.id);
                    assert(q.id != p.id);
                    assert(last_entry(entries@, q.id, n) == last_entry(entries@, q.id, i as int));
                }
            }
        }
        i = i + 1;
    }
    let ghost pm1 = *players;
    let mut j: usize = 0;
    while j < entries.len()
        invariant
            j <= entries@.len(),
            players.wf(),
            players.self_id == pm0.self_id,
            players.ids() == pm1.ids(),
            players.players@.len() == pm1.players@.len(),
            forall|x: int| 0 <= x < pm1.players@.len() ==> {
                let q = #[trigger] players.players@[x];
                &&& same_but_links(pm1.players@[x], q)
                &&& q.attach_parent == pm1.players@[x].attach_parent
                &&& q.children@ == pm1.players@[x].children@ + child_ids(entries@, q.id, j as int)
            },
        decreases entries@.len() - j,
    {
        let parent_id = entries[j].attach_parent;
        let child_id = entries[j].player_id;
        let ghost before = *players;
        if parent_id.valid() {
            if let Some(parent) = players.get_by_id_mut(parent_id) {
                parent.children.push(child_id);
            }
        }
        proof {
            PlayerManager::lemma_same_ids_wf(&before, players);
            before.lemma_lookup(parent_id);
            assert forall|x: int| 0 <= x < pm1.players@.len() implies {
                let q = #[trigger] players.players@[x];
                &&& same_but_links(pm1.players@[x], q)
                &&& q.attach_parent == pm1.players@[x].attach_parent
                &&& q.children@ == pm1.players@[x].children@ + child_ids(entries@, q.id, j as int + 1)
            } by {
                let q = players.players@[x];
                assert(before.ids()[x] == q.id);
                if parent_id.is_valid() && before.contains_id(parent_id) && x == before.index_of(parent_id) {
                    assert(q.children@ =~= before.players@[x].children@.push(child_id));
                } else {
                    assert(q == before.players@[x]);
                }
            }
        }
        j = j + 1;
    }
    proof {
        assert forall|x: int| 0 <= x < players.players@.len() implies {
            let q = #[trigger] players.players@[x];
            let k = last_entry(entries@, q.id, entries@.len() as int);
            &&& k >= 0 ==> entered_as(q, entries@[k], pm0.self_id, tick)
                && q.children@ == child_ids(entries@, q.id, entries@.len() as int)
            &&& k < 0 ==> pm0.contains_id(q.id)
                && same_but_links(q, pm0.player_with_id(q.id))
                && q.attach_parent == pm0.player_with_id(q.id).attach_parent
                && q.children@ == pm0.player_with_id(q.id).children@ + child_ids(entries@, q.id, entries@.len() as int)
        } by {
            let q = players.players@[x];
            let q1 = pm1.players@[x];
            assert(same_but_links(q1, q));
            assert(q1.id == q.id);
            let k = last_entry(entries@, q.id, entries@.len() as int);
            assert(entered_players(pm0, pm1.players@, entries@, tick, entries@.len() as int));
            if k >= 0 {
                assert(entered_as(q1, entries@[k], pm0.self_id, tick));
                assert(q1.children@.len() == 0);
                assert(q.children@ =~= child_ids(entries@, q.id, entries@.len() as int));
                assert(entered_as(q, entries@[k], pm0.self_id, tick));
            } else {
                assert(q1 == pm0.player_with_id(q.id));
                assert(same_but_links(q, pm0.player_with_id(q.id)));
            }
        }
    }
    self_spectating
}

/// What a compressed map download comes to.
pub enum CompressedMapOutcome {
    /// The data is not a zlib stream; the download is ignored.
    NotInflated,
    /// The inflated map has a tile record outside the tile grid.
    Misfit(Vec<u8>),
    /// The map read from the inflated data, with that data.
    Read(Result<TileMap, MapError>, Vec<u8>),
}

/// Inflates a compressed map download and reads the map from it, under the
/// name `filename` and with the door generator `door_rng`.
pub fn read_compressed_map(filename: &str, compressed: &[u8], door_rng: Option<DoorRng>) -> (r: CompressedMapOutcome)
    ensures
        match r {
            CompressedMapOutcome::NotInflated => zlib_decoded(compressed@) is None,
            CompressedMapOutcome::Misfit(d) => zlib_decoded(compressed@) == Some(d@) && !map_data_fits(d@),
            CompressedMapOutcome::Read(m, d) => {
                &&& zlib_decoded(compressed@) == Some(d@)
                &&& map_data_fits(d@)
                &&& tile_data_start(d@) >= d@.len() ==> m == Err::<TileMap, MapError>(MapError::InvalidBitmapHeader)
                &&& tile_data_start(d@) < d@.len() ==> (m matches Ok(map) && loaded_map(map, filename@, d@, door_rng))
            },
        },
{
    let inflated = match inflate_zlib(compressed) {
        Ok(inflated) => inflated,
        Err(_) => return CompressedMapOutcome::NotInflated,
    };
    if !TileMap::data_fits(inflated.as_slice()) {
        return CompressedMapOutcome::Misfit(inflated);
    }
    let map = TileMap::new(filename, inflated.as_slice(), door_rng);
    CompressedMapOutcome::Read(map, inflated)
}

/// Position messages waiting to go out. One goes out per new local tick, so
/// that a weapon message and a plain position message never share a tick.
pub struct OutboundPositionQueue<T> {
    pub messages: Vec<T>,
    pub last_sent_local_tick: GameTick,
}

impl<T> OutboundPositionQueue<T> {
    /// An empty queue; nothing goes out before the tick after `now`.
    pub fn new(now: GameTick) -> (r: OutboundPositionQueue<T>)
        ensures
            r.messages@.len() == 0,
            r.last_sent_local_tick == now,
    {
        OutboundPositionQueue { messages: Vec::new(), last_sent_local_tick: now }
    }

    pub fn push(&mut self, message: T)
        ensures
            final(self).messages@ == old(self).messages@.push(message),
            final(self).last_sent_local_tick == old(self).last_sent_local_tick,
    {
        self.messages.push(message);
    }

    /// The oldest waiting message, when `local_tick` is later than the tick
    /// of the last one sent.
    pub fn next(&mut self, local_tick: GameTick) -> (r: Option<T>)
        ensures
            old(self).messages@.len() > 0 && tick_diff(local_tick.value, old(self).last_sent_local_tick.value) > 0 ==> {
                &&& r == Some(old(self).messages@[0])
                &&& final(self).messages@ == old(self).messages@.drop_first()
                &&& final(self).last_sent_local_tick == local_tick
            },
            !(old(self).messages@.len() > 0 && tick_diff(local_tick.value, old(self).last_sent_local_tick.value) > 0) ==> {
                &&& r is None
                &&& final(self).messages@ == old(self).messages@
                &&& final(self).last_sent_local_tick == old(self).last_sent_local_tick
            },
    {
        if self.messages.len() == 0 {
            return None;
        }
        if local_tick.is_after(&self.last_sent_local_tick) {
            self.last_sent_local_tick = local_tick;
            Some(self.messages.remove(0))
        } else {
            None
        }
    }
}

/// Whom a spectator follows.
pub struct SpectateController {
    /// The player followed, if any.
    pub spectate_player_id: Option<PlayerId>,
    /// The team of the player followed last.
    pub last_spectate_freq: u16,
}

/// How our player moves: flying its ship, or following others as a spectator.
pub enum MovementController {
    Ship(ShipController),
    Spectate(SpectateController),
}

/// Our ship lacks full energy.
pub open spec fn lacks_energy(controller: MovementController) -> bool {
    controller matches MovementController::Ship(sc) && sc.ship.current_energy < sc.ship.max_energy
}

/// What a request of the player amounts to: a notice to show (in yellow),
/// a message for the server, or nothing.
#[derive(Clone, Debug)]
pub enum ClientRequest {
    Notify(&'static str),
    RequestShip(ShipKind),
    ChangeFrequency(u32),
    JoinArena(ArenaJoinMessage),
    Attach(AttachRequestMessage),
    DetachAll,
    Nothing,
}

/// The attach key on `target_id`, the player selected in the statbox: a
/// spectator does nothing; a ship detaches its turrets, detaches itself
/// from its parent, or (unless an enemy antiwarp holds it) attaches to the
/// target and waits for the attachment to settle, or shows why it cannot.
pub fn attach(
    players: &mut PlayerManager,
    controller: &mut MovementController,
    settings: &ArenaSettings,
    target_id: PlayerId,
    antiwarped: bool,
) -> (r: ClientRequest)
    requires
        old(players).wf(),
    ensures
        final(players).wf(),
        final(players).self_id == old(players).self_id,
        final(players).player_mapping == old(players).player_mapping,
        match *old(controller) {
            MovementController::Spectate(_) => r is Nothing && *final(players) == *old(players)
                && *final(controller) == *old(controller),
            MovementController::Ship(sc) => match attach_decision(*old(players), sc.ship, *settings, target_id) {
                Err(e) => (r matches ClientRequest::Notify(t) && t@ == attach_error_text(e))
                    && *final(players) == *old(players) && *final(controller) == *old(controller),
                Ok(AttachKind::DetachChildren) => {
                    &&& r is DetachAll
                    &&& all_same_but_links(old(players).players@, final(players).players@)
                    &&& links_of(final(players).players@) == detach_children_links(old(players).ids(),
                        links_of(old(players).players@), old(players).self_id)
                    &&& *final(controller) == *old(controller)
                },
                Ok(AttachKind::DetachSelf) => {
                    &&& r matches ClientRequest::Attach(m) && !m.player_id.is_valid()
                    &&& all_same_but_links(old(players).players@, final(players).players@)
                    &&& links_of(final(players).players@) == detach_links(old(players).ids(),
                        links_of(old(players).players@), old(players).self_id)
                    &&& *final(controller) == *old(controller)
                },
                Ok(AttachKind::Attach(t)) => if antiwarped {
                    r is Nothing && *final(players) == *old(players) && *final(controller) == *old(controller)
                } else {
                    &&& r matches ClientRequest::Attach(m) && m.player_id == t
                    &&& all_same_but_links(old(players).players@, final(players).players@)
                    &&& links_of(final(players).players@) == attach_links(old(players).ids(),
                        links_of(old(players).players@), old(players).self_id, t)
                    &&& *final(controller) == MovementController::Ship(ShipController { pending_attach_target: Some(t), ..sc })
                },
            },
        },
{
    let sc = match controller {
        MovementController::Spectate(_) => return ClientRequest::Nothing,
        MovementController::Ship(sc) => ShipController {
            ship: sc.ship,
            pending_attach_target: sc.pending_attach_target,
            crown_remaining_ticks: sc.crown_remaining_ticks,
        },
    };
    let self_id = players.self_id;
    match can_attach_to(players, &sc, settings, target_id) {
        Ok(AttachKind::DetachChildren) => {
            players.detach_all_children(self_id);
            ClientRequest::DetachAll
        },
        Ok(AttachKind::DetachSelf) => {
            players.detach_player(self_id);
            ClientRequest::Attach(AttachRequestMessage { player_id: PlayerId::invalid() })
        },
        Ok(AttachKind::Attach(t)) => {
            if antiwarped {
                return ClientRequest::Nothing;
            }
            players.attach_player(self_id, t);
            *controller = MovementController::Ship(ShipController { pending_attach_target: Some(t), ..sc });
            ClientRequest::Attach(AttachRequestMessage { player_id: t })
        },
        Err(e) => ClientRequest::Notify(e.get_notification_string()),
    }
}

/// The items of our ship, as extra position data carries them.
pub open spec fn items_of(s: Ship) -> ItemSet {
    ItemSet {
        shield_active: s.shield_remaining_ticks > 0,
        super_active: s.super_remaining_ticks > 0,
        bursts: s.bursts,
        repels: s.repels,
        thors: s.thors,
        bricks: s.bricks,
        decoys: s.decoys,
        rockets: s.rockets,
        portals: s.portals,
    }
}

/// The extra data our position packets carry while we fly a ship and the
/// arena or the server asks for it: our energy in whole units, our items,
/// and the flag timer in seconds (the crown's where we hold no flag).
pub open spec fn extra_data_of(players: PlayerManager, controller: MovementController, settings: ArenaSettings, requested: bool) -> Option<ExtraPositionData> {
    let flag_timer: u16 = if players.contains_id(players.self_id) {
        (players.player_with_id(players.self_id).flag_remaining_ticks / 100) as u16
    } else {
        0
    };
    match controller {
        MovementController::Ship(sc) => if settings.extra_position_data || requested {
            Some(ExtraPositionData {
                energy: (sc.ship.current_energy / 1000) as u16,
                s2c_latency: 0,
                flag_timer: if flag_timer == 0 && sc.crown_remaining_ticks > 0 {
                    (sc.crown_remaining_ticks / 100) as u16
                } else {
                    flag_timer
                },
                items: items_of(sc.ship),
            })
        } else {
            None
        },
        MovementController::Spectate(_) => None,
    }
}

/// Extra position data for our next position packet, where the arena
/// settings or the server (`send_extra_position_info`) ask for it.
pub fn get_extra_position_data(
    players: &PlayerManager,
    controller: &MovementController,
    settings: &ArenaSettings,
    send_extra_position_info: bool,
) -> (r: Option<ExtraPositionData>)
    requires
        players.wf(),
    ensures
        r == extra_data_of(*players, *controller, *settings, send_extra_position_info),
{
    let mut flag_timer: u16 = 0;
    if let Some(me) = players.get_self() {
        flag_timer = #[verifier::truncate] ((me.flag_remaining_ticks / 100) as u16);
    }
    if let MovementController::Ship(sc) = controller {
        if settings.extra_position_data || send_extra_position_info {
            let items = ItemSet {
                shield_active: sc.ship.shield_remaining_ticks > 0,
                super_active: sc.ship.super_remaining_ticks > 0,
                bursts: sc.ship.bursts,
                repels: sc.ship.repels,
                thors: sc.ship.thors,
                bricks: sc.ship.bricks,
                decoys: sc.ship.decoys,
                rockets: sc.ship.rockets,
                portals: sc.ship.portals,
            };
            if flag_timer == 0 {
                if sc.crown_remaining_ticks > 0 {
                    flag_timer = #[verifier::truncate] ((sc.crown_remaining_ticks / 100) as u16);
                }
            }
            return Some(ExtraPositionData {
                energy: #[verifier::truncate] ((sc.ship.current_energy / 1000) as u16),
                s2c_latency: 0,
                flag_timer,
                items,
            });
        }
    }
    None
}

/// Our position packet for a tick in which we fire nothing: our pixel
/// position (all ones where we have none), velocity, direction, statuses,
/// bounty, energy in whole units while flying, and the extra data.
pub open spec fn position_message_of(
    players: PlayerManager,
    controller: MovementController,
    settings: ArenaSettings,
    requested: bool,
    timestamp: GameTick,
) -> Option<PositionMessage> {
    if !players.contains_id(players.self_id) {
        None
    } else {
        let me = players.player_with_id(players.self_id);
        let (x, y) = match me.position {
            Some(p) => (trunc_div(p.x.0 as int, 1000), trunc_div(p.y.0 as int, 1000)),
            None => (0xFFFF, 0xFFFF),
        };
        let energy: u32 = match controller {
            MovementController::Ship(sc) => sc.ship.current_energy / 1000,
            MovementController::Spectate(_) => 0,
        };
        Some(PositionMessage {
            direction: me.direction,
            timestamp,
            x_position: x as u16,
            y_position: y as u16,
            x_velocity: me.velocity.x.0 as i16,
            y_velocity: me.velocity.y.0 as i16,
            togglables: me.status,
            bounty: me.bounty,
            energy: energy as u16,
            weapon_info: 0,
            extra_info: extra_data_of(players, controller, settings, requested),
        })
    }
}

/// A position packet without a weapon, stamped with `timestamp`; none
/// while our player is not in the arena.
pub fn generate_position_message(
    players: &PlayerManager,
    controller: &MovementController,
    settings: &ArenaSettings,
    send_extra_position_info: bool,
    timestamp: GameTick,
) -> (r: Option<PositionMessage>)
    requires
        players.wf(),
    ensures
        r == position_message_of(*players, *controller, *settings, send_extra_position_info, timestamp),
{
    let me = match players.get_self() {
        Some(me) => me,
        None => return None,
    };
    let (x_position, y_position): (i32, i32) = if let Some(me_position) = me.position {
        (div_i32(me_position.x.0, 1000), div_i32(me_position.y.0, 1000))
    } else {
        (0xFFFF, 0xFFFF)
    };
    let energy: u32 = if let MovementController::Ship(sc) = controller {
        sc.ship.current_energy / 1000
    } else {
        0
    };
    Some(PositionMessage {
        direction: me.direction,
        timestamp,
        x_position: #[verifier::truncate] (x_position as u16),
        y_position: #[verifier::truncate] (y_position as u16),
        x_velocity: #[verifier::truncate] (me.velocity.x.0 as i16),
        y_velocity: #[verifier::truncate] (me.velocity.y.0 as i16),
        togglables: me.status,
        bounty: me.bounty,
        energy: #[verifier::truncate] (energy as u16),
        weapon_info: 0,
        extra_info: get_extra_position_data(players, controller, settings, send_extra_position_info),
    })
}

/// A request for a ship: refused when we already fly that ship (quietly for
/// a spectator) or when our ship lacks full energy; sent otherwise.
pub fn handle_ship_request(players: &PlayerManager, controller: &MovementController, ship_kind: ShipKind) -> (r: ClientRequest)
    requires
        players.wf(),
    ensures
        ({
            let same = players.contains_id(players.self_id) && players.player_with_id(players.self_id).ship_kind == ship_kind;
            if same {
                if ship_kind != ShipKind::Spectator {
                    r matches ClientRequest::Notify(t) && t@ == "You are already in that type of ship."@
                } else {
                    r is Nothing
                }
            } else if lacks_energy(*controller) {
                r matches ClientRequest::Notify(t) && t@ == "Must have full energy to change ship types."@
            } else {
                r matches ClientRequest::RequestShip(k) && k == ship_kind
            }
        }),
{
    proof {
        reveal_strlit("You are already in that type of ship.");
        reveal_strlit("Must have full energy to change ship types.");
    }
    if let Some(me) = players.get_self() {
        if me.ship_kind == ship_kind {
            if ship_kind != ShipKind::Spectator {
                return ClientRequest::Notify("You are already in that type of ship.");
            }
            return ClientRequest::Nothing;
        }
    }
    if let MovementController::Ship(sc) = controller {
        if !sc.ship.is_max_energy() {
            return ClientRequest::Notify("Must have full energy to change ship types.");
        }
    }
    ClientRequest::RequestShip(ship_kind)
}

/// The arena a `?go` target names: any public arena when empty, a public
/// arena by number when it is one, an arena by name otherwise.
pub open spec fn arena_request_for(target: Seq<char>, r: ArenaRequest) -> bool {
    if target.len() == 0 {
        r is AnyPublic
    } else {
        match parsed_u16(target) {
            Some(n) => r matches ArenaRequest::SpecificPublic(m) && m == n,
            None => r matches ArenaRequest::Name(name) && name@ == target,
        }
    }
}

/// A command typed into the chat. Changing team is refused when we are on
/// that team already, or fly outside a safe zone without full energy;
/// changing arena is refused when our ship lacks full energy.
pub fn handle_chat_command(players: &PlayerManager, controller: &MovementController, command: &ChatCommand) -> (r: ClientRequest)
    requires
        players.wf(),
    ensures
        match command {
            ChatCommand::ChangeFrequency(f) => {
                if players.contains_id(players.self_id) && players.player_with_id(players.self_id).frequency as u32 == *f {
                    r matches ClientRequest::Notify(t) && t@ == "You are already on that frequency."@
                } else if lacks_energy(*controller)
                    && (controller matches MovementController::Ship(sc) && sc.ship.status & STATUS_SAFETY == 0) {
                    r matches ClientRequest::Notify(t) && t@ == "Not enough energy to change frequencies."@
                } else {
                    r matches ClientRequest::ChangeFrequency(g) && g == *f
                }
            },
            ChatCommand::Go(target) => {
                if lacks_energy(*controller) {
                    r matches ClientRequest::Notify(t) && t@ == "Must have full energy to change arenas."@
                } else {
                    r matches ClientRequest::JoinArena(m) && m.ship_kind == ShipKind::Spectator
                        && m.x_resolution == 1920 && m.y_resolution == 1080 && arena_request_for(target@, m.request)
                }
            },
        },
{
    proof {
        reveal_strlit("You are already on that frequency.");
        reveal_strlit("Not enough energy to change frequencies.");
        reveal_strlit("Must have full energy to change arenas.");
    }
    match command {
        ChatCommand::ChangeFrequency(frequency) => {
            if let Some(me) = players.get_self() {
                if me.frequency as u32 == *frequency {
                    return ClientRequest::Notify("You are already on that frequency.");
                }
            }
            if let MovementController::Ship(sc) = controller {
                if sc.ship.status & STATUS_SAFETY == 0 && !sc.ship.is_max_energy() {
                    return ClientRequest::Notify("Not enough energy to change frequencies.");
                }
            }
            ClientRequest::ChangeFrequency(*frequency)
        },
        ChatCommand::Go(target) => {
            if let MovementController::Ship(sc) = controller {
                if !sc.ship.is_max_energy() {
                    return ClientRequest::Notify("Must have full energy to change arenas.");
                }
            }
            let request = if target.as_str().unicode_len() == 0 {
                ArenaRequest::AnyPublic
            } else {
                match parse_u16(target.as_str()) {
                    Some(number) => ArenaRequest::SpecificPublic(number),
                    None => ArenaRequest::Name(String::from_str(target.as_str())),
                }
            };
            ClientRequest::JoinArena(ArenaJoinMessage {
                ship_kind: ShipKind::Spectator,
                x_resolution: 1920,
                y_resolution: 1080,
                request,
            })
        },
    }
}

/// The team of the player we follow: our own player's, or the spectated
/// player's when we spectate someone; the last spectated team when we
/// spectate no one; 0xFFFF when that player is unknown.
pub fn get_freq(players: &PlayerManager, own_id: PlayerId, controller: &MovementController) -> (r: u16)
    requires
        players.wf(),
    ensures
        ({
            let followed = match controller {
                MovementController::Spectate(sc) => sc.spectate_player_id,
                MovementController::Ship(_) => Some(own_id),
            };
            match followed {
                None => controller matches MovementController::Spectate(sc) && r == sc.last_spectate_freq,
                Some(id) => if players.contains_id(id) { r == players.player_with_id(id).frequency } else { r == 0xFFFF },
            }
        }),
{
    let id = match controller {
        MovementController::Spectate(sc) => match sc.spectate_player_id {
            Some(target) => target,
            None => return sc.last_spectate_freq,
        },
        MovementController::Ship(_) => own_id,
    };
    match players.get_by_id(id) {
        Some(p) => p.frequency,
        None => 0xFFFF,
    }
}

/// The player the view follows: the spectated player when we spectate
/// someone, our own player otherwise.
pub fn get_view_self<'a>(players: &'a PlayerManager, own_id: PlayerId, controller: &MovementController) -> (r: Option<&'a Player>)
    requires
        players.wf(),
    ensures
        ({
            let id = match controller {
                MovementController::Spectate(sc) => match sc.spectate_player_id { Some(t) => t, None => own_id },
                MovementController::Ship(_) => own_id,
            };
            if players.contains_id(id) { r == Some(&players.player_with_id(id)) } else { r is None }
        }),
{
    let id = match controller {
        MovementController::Spectate(sc) => match sc.spectate_player_id {
            Some(target) => target,
            None => own_id,
        },
        MovementController::Ship(_) => own_id,
    };
    players.get_by_id(id)
}

/// A packet timestamp more than 100 ticks behind the current tick is out
/// of the normal range.
pub fn validate_packet_timestamp(current_tick: GameTick, timestamp: GameTick) -> (r: bool)
    ensures
        r == (crate::clock::tick_diff(current_tick.value, timestamp.value) > 100),
{
    current_tick.diff(&timestamp) > 100
}


/// A player's movement as a small or large position packet gives it: its
/// pixel position, velocity, direction, bounty, statuses, ping and extra
/// data.
#[derive(Copy, Clone, Debug)]
pub struct PositionUpdate {
    pub player_id: PlayerId,
    pub x: u16,
    pub y: u16,
    pub x_velocity: i16,
    pub y_velocity: i16,
    pub direction: u8,
    pub bounty: u16,
    pub status: u8,
    pub ping: u8,
    pub extra: Option<ExtraPositionData>,
}

/// A player's movement as an entry of a batched position packet gives it.
#[derive(Copy, Clone, Debug)]
pub struct BatchedPositionUpdate {
    pub player_id: PlayerId,
    pub x: u16,
    pub y: u16,
    pub x_velocity: i16,
    pub y_velocity: i16,
    pub direction: u8,
    pub status: Option<u8>,
}

/// What a position packet did to a known player: whether a flash is to be
/// shown at its place, whether the packet was newer than the last one
/// taken, whether an older packet lay far out of the normal range, and,
/// for another player, the position and the ticks since the packet that
/// its smoothed movement is to head for.
#[derive(Copy, Clone, Debug)]
pub struct PositionApplied {
    pub flash: bool,
    pub newer: bool,
    pub stale_far: bool,
    pub lerp_target: Option<(Position, i32)>,
}

/// The position of pixel (x, y).
pub open spec fn pixel_position(x: u16, y: u16) -> Position {
    Position { x: PositionUnit((x * 1000) as i32), y: PositionUnit((y * 1000) as i32) }
}

pub open spec fn velocity_of(x: i16, y: i16) -> Velocity {
    Velocity { x: PositionUnit(x as i32), y: PositionUnit(y as i32) }
}

/// The player after a position packet stamped `ts`: a flash in the packet
/// always shows (unless one is showing); everything else is taken only
/// from a packet newer than the last one taken, our own position directly
/// and another player's through its smoothed movement.
pub open spec fn position_applied(p: Player, u: PositionUpdate, ts: GameTick, self_id: PlayerId) -> Player {
    let p1 = if u.status & STATUS_FLASH != 0 && p.flash_remaining_ticks == 0 {
        Player { status: p.status | STATUS_FLASH, ..p }
    } else {
        p
    };
    if tick_diff(ts.value, p.last_position_timestamp.value) > 0 {
        Player {
            velocity: velocity_of(u.x_velocity, u.y_velocity),
            position: if p.id == self_id { Some(pixel_position(u.x, u.y)) } else { p.position },
            direction: u.direction,
            bounty: u.bounty,
            status: u.status,
            ping: u.ping,
            last_position_timestamp: ts,
            extra_position_data: if u.extra is Some { u.extra } else { p.extra_position_data },
            last_extra_data_timestamp: if u.extra is Some { Some(ts) } else { p.last_extra_data_timestamp },
            ..p1
        }
    } else {
        p1
    }
}

/// Takes a small or large position packet, stamped `message_timestamp`,
/// at `current_tick`; none for a player not in the arena.
pub fn apply_position_update(
    players: &mut PlayerManager,
    update: &PositionUpdate,
    message_timestamp: GameTick,
    current_tick: GameTick,
) -> (r: Option<PositionApplied>)
    requires
        old(players).wf(),
    ensures
        final(players).wf(),
        final(players).self_id == old(players).self_id,
        final(players).player_mapping == old(players).player_mapping,
        !old(players).contains_id(update.player_id) ==> r is None && final(players).players@ == old(players).players@,
        old(players).contains_id(update.player_id) ==> {
            let p = old(players).player_with_id(update.player_id);
            let newer = tick_diff(message_timestamp.value, p.last_position_timestamp.value) > 0;
            &&& final(players).players@ == old(players).players@.update(old(players).index_of(update.player_id),
                position_applied(p, *update, message_timestamp, old(players).self_id))
            &&& r == Some(PositionApplied {
                flash: update.status & STATUS_FLASH != 0 && p.position is Some,
                newer,
                stale_far: !newer && tick_diff(current_tick.value, message_timestamp.value) > 100,
                lerp_target: if newer && p.id != old(players).self_id {
                    Some((pixel_position(update.x, update.y), tick_diff(current_tick.value, message_timestamp.value)))
                } else {
                    None
                },
            })
        },
{
    let self_id = players.self_id;
    proof {
        players.lemma_lookup(update.player_id);
    }
    let ghost before = *players;
    let player = match players.get_by_id_mut(update.player_id) {
        Some(player) => player,
        None => return None,
    };
    let flash = update.status & STATUS_FLASH != 0 && player.position.is_some();
    if update.status & STATUS_FLASH != 0 {
        if player.flash_remaining_ticks == 0 {
            player.status = player.status | STATUS_FLASH;
        }
    }
    let newer = message_timestamp.is_after(&player.last_position_timestamp);
    let mut lerp_target: Option<(Position, i32)> = None;
    let mut stale_far = false;
    if newer {
        let position = Position::new(PositionUnit(update.x as i32 * 1000), PositionUnit(update.y as i32 * 1000));
        player.velocity = Velocity::new(PositionUnit(update.x_velocity as i32), PositionUnit(update.y_velocity as i32));
        if player.id != self_id {
            lerp_target = Some((position, current_tick.diff(&message_timestamp)));
        } else {
            player.position = Some(position);
        }
        player.direction = update.direction;
        player.bounty = update.bounty;
        player.status = update.status;
        player.ping = update.ping;
        player.last_position_timestamp = message_timestamp;
        if let Some(extra) = update.extra {
            player.extra_position_data = Some(extra);
            player.last_extra_data_timestamp = Some(message_timestamp);
        }
    } else {
        stale_far = validate_packet_timestamp(current_tick, message_timestamp);
    }
    proof {
        PlayerManager::lemma_same_ids_wf(&before, players);
    }
    Some(PositionApplied { flash, newer, stale_far, lerp_target })
}

/// The player after a batched position entry stamped `ts`, when it is
/// newer than the last packet taken: velocity, direction, timestamp and
/// any statuses given; its position goes through its smoothed movement.
pub open spec fn batched_applied(p: Player, u: BatchedPositionUpdate, ts: GameTick) -> Player {
    if tick_diff(ts.value, p.last_position_timestamp.value) > 0 {
        Player {
            velocity: velocity_of(u.x_velocity, u.y_velocity),
            direction: u.direction,
            last_position_timestamp: ts,
            status: match u.status {
                Some(st) => st,
                None => p.status,
            },
            ..p
        }
    } else {
        p
    }
}

/// Takes an entry of a batched position packet, stamped
/// `message_timestamp`, at `current_tick`; none for a player not in the
/// arena.
pub fn apply_batched_position(
    players: &mut PlayerManager,
    update: &BatchedPositionUpdate,
    message_timestamp: GameTick,
    current_tick: GameTick,
) -> (r: Option<PositionApplied>)
    requires
        old(players).wf(),
    ensures
        final(players).wf(),
        final(players).self_id == old(players).self_id,
        final(players).player_mapping == old(players).player_mapping,
        !old(players).contains_id(update.player_id) ==> r is None && final(players).players@ == old(players).players@,
        old(players).contains_id(update.player_id) ==> {
            let p = old(players).player_with_id(update.player_id);
            let newer = tick_diff(message_timestamp.value, p.last_position_timestamp.value) > 0;
            &&& final(players).players@ == old(players).players@.update(old(players).index_of(update.player_id),
                batched_applied(p, *update, message_timestamp))
            &&& r == Some(PositionApplied {
                flash: false,
                newer,
                stale_far: !newer && tick_diff(current_tick.value, message_timestamp.value) > 100,
                lerp_target: if newer {
                    Some((pixel_position(update.x, update.y), tick_diff(current_tick.value, message_timestamp.value)))
                } else {
                    None
                },
            })
        },
{
    proof {
        players.lemma_lookup(update.player_id);
    }
    let ghost before = *players;
    let player = match players.get_by_id_mut(update.player_id) {
        Some(player) => player,
        None => return None,
    };
    let newer = message_timestamp.is_after(&player.last_position_timestamp);
    let mut lerp_target: Option<(Position, i32)> = None;
    let mut stale_far = false;
    if newer {
        let position = Position::new(PositionUnit(update.x as i32 * 1000), PositionUnit(update.y as i32 * 1000));
        player.velocity = Velocity::new(PositionUnit(update.x_velocity as i32), PositionUnit(update.y_velocity as i32));
        lerp_target = Some((position, current_tick.diff(&message_timestamp)));
        player.direction = update.direction;
        player.last_position_timestamp = message_timestamp;
        if let Some(status) = update.status {
            player.status = status;
        }
    } else {
        stale_far = validate_packet_timestamp(current_tick, message_timestamp);
    }
    proof {
        PlayerManager::lemma_same_ids_wf(&before, players);
    }
    Some(PositionApplied { flash: false, newer, stale_far, lerp_target })
}

/// The server's answer to our password.
#[derive(Copy, Clone, Debug, PartialEq, Eq)]
pub enum LoginResponse {
    Accepted,
    Unregistered,
    Refused,
}

/// What we do after the password answer.
#[derive(Clone, Debug)]
pub enum LoginStep {
    JoinArena(ArenaJoinMessage),
    SendRegistration,
    SendNewUserPassword,
    Disconnect,
}

/// After logging in we join any public arena as a spectator at a full-HD
/// resolution; an unregistered name sends the registration form when the
/// server asks for one, else the password again as a new user; any other
/// answer ends the connection.
pub fn login_step(response: LoginResponse, registration_request: bool) -> (r: LoginStep)
    ensures
        response == LoginResponse::Accepted ==> (r matches LoginStep::JoinArena(m) && m.ship_kind == ShipKind::Spectator
            && m.x_resolution == 1920 && m.y_resolution == 1080 && m.request is AnyPublic),
        response == LoginResponse::Unregistered && registration_request ==> r is SendRegistration,
        response == LoginResponse::Unregistered && !registration_request ==> r is SendNewUserPassword,
        response == LoginResponse::Refused ==> r is Disconnect,
{
    match response {
        LoginResponse::Accepted => LoginStep::JoinArena(ArenaJoinMessage {
            ship_kind: ShipKind::Spectator,
            x_resolution: 1920,
            y_resolution: 1080,
            request: ArenaRequest::AnyPublic,
        }),
        LoginResponse::Unregistered => {
            if registration_request {
                LoginStep::SendRegistration
            } else {
                LoginStep::SendNewUserPassword
            }
        },
        LoginResponse::Refused => LoginStep::Disconnect,
    }
}

} // verus!
