use vstd::prelude::*;
use vstd::string::StringExecFns;

use crate::player::{Player, PlayerId, PlayerManager, STATUS_CLOAK, STATUS_STEALTH};
use crate::render::text_renderer::TextColor;
use crate::render::animation_renderer::{animation_index, get_animation_index};
use crate::render::game_sprites::GameSpriteKind;
use crate::game_settings::GameSettings;
use crate::clock::{GameTick, tick_diff};
use crate::math::Velocity;
use crate::weapon::WeaponKind;
use crate::text::{decimal, push_decimal};
use vstd::wrapping::i32_specs;

verus! {

/// The points of a player as `Player::get_points` counts them.
pub open spec fn points_of(p: Player) -> i32 {
    i32_specs::wrapping_add(p.flag_points, p.kill_points)
}

/// The leader among the first `n` players: the first one with the most
/// points, when those are above 0; no player otherwise. Also its points
/// (0 when there is none).
pub open spec fn points_leader(ps: Seq<Player>, n: int) -> (i32, PlayerId)
    decreases n,
{
    if n <= 0 {
        (0, PlayerId { value: 0xFFFF })
    } else {
        let (best, id) = points_leader(ps, n - 1);
        if points_of(ps[n - 1]) > best { (points_of(ps[n - 1]), ps[n - 1].id) } else { (best, id) }
    }
}

/// The player with the most points, who wears the crown; none when no one
/// has points above 0.
pub fn get_highest_points_player_id(players: &PlayerManager) -> (r: PlayerId)
    ensures
        r == points_leader(players.players@, players.players@.len() as int).1,
{
    let mut best_id = PlayerId::invalid();
    let mut best: i32 = 0;
    let mut i: usize = 0;
    while i < players.players.len()
        invariant
            i <= players.players@.len(),
            (best, best_id) == points_leader(players.players@, i as int),
        decreases players.players@.len() - i,
    {
        let points = players.players[i].get_points();
        if points > best {
            best = points;
            best_id = players.players[i].id;
        }
        i = i + 1;
    }
    best_id
}

/// Some child among the first `n` of `kids` is in the arena and not stealthed.
pub open spec fn unstealthed_child(pm: PlayerManager, kids: Seq<PlayerId>, n: int) -> bool {
    exists|k: int| 0 <= k < n && k < kids.len() && pm.contains_id(#[trigger] kids[k])
        && pm.player_with_id(kids[k]).status & STATUS_STEALTH == 0
}

/// A player shows on our radar when it is a teammate, is not stealthed, or
/// carries a turret that is not stealthed.
pub open spec fn radar_visible(pm: PlayerManager, id: PlayerId, view_freq: u16) -> bool {
    pm.contains_id(id) && {
        let p = pm.player_with_id(id);
        ||| p.frequency == view_freq
        ||| p.status & STATUS_STEALTH == 0
        ||| unstealthed_child(pm, p.children@, p.children@.len() as int)
    }
}

pub fn is_radar_visible(players: &PlayerManager, player_id: PlayerId, view_freq: u16) -> (r: bool)
    requires
        players.wf(),
    ensures
        r == radar_visible(*players, player_id, view_freq),
{
    let Some(player) = players.get_by_id(player_id) else {
        return false;
    };
    if player.frequency == view_freq {
        return true;
    }
    if player.status & STATUS_STEALTH == 0 {
        return true;
    }
    let mut k: usize = 0;
    while k < player.children.len()
        invariant
            players.wf(),
            players.contains_id(player_id),
            *player == players.player_with_id(player_id),
            k <= player.children@.len(),
            !unstealthed_child(*players, player.children@, k as int),
        decreases player.children@.len() - k,
    {
        let child_id = player.children[k];
        if let Some(child) = players.get_by_id(child_id) {
            if child.status & STATUS_STEALTH == 0 {
                return true;
            }
        }
        k = k + 1;
    }
    false
}

/// `name(bounty:flags)[ping] (Ball)`: the flag count only when the player
/// carries flags, the ping (in milliseconds, ten per tick) only when given,
/// and the ball mark only when it carries the ball.
pub open spec fn name_view_text(p: Player, ping: Option<u16>) -> Seq<char> {
    let flags = if p.flag_count > 0 { ":"@ + decimal(p.flag_count as nat) } else { Seq::empty() };
    let shown_ping = match ping {
        Some(v) => "["@ + decimal((v * 10) as nat) + "]"@,
        None => Seq::empty(),
    };
    let ball = if p.carrying_ball { " (Ball)"@ } else { Seq::empty() };
    p.name@ + "("@ + decimal(p.bounty as nat) + flags + ")"@ + shown_ping + ball
}

/// The color of a name: yellow for teammates, dark red for enemies who
/// carry flags or the ball, blue for other enemies.
pub open spec fn name_view_color(p: Player, view_freq: u16) -> TextColor {
    if p.frequency == view_freq {
        TextColor::Yellow
    } else if p.flag_count > 0 || p.carrying_ball {
        TextColor::DarkRed
    } else {
        TextColor::Blue
    }
}

/// The label drawn next to a ship, and its color.
pub fn get_player_name_view(player: &Player, view_freq: u16, ping: Option<u16>) -> (r: (String, TextColor))
    requires
        ping matches Some(v) ==> v * 10 <= u16::MAX,
    ensures
        r.0@ == name_view_text(*player, ping),
        r.1 == name_view_color(*player, view_freq),
{
    let color = if player.frequency == view_freq {
        TextColor::Yellow
    } else if player.flag_count > 0 || player.carrying_ball {
        TextColor::DarkRed
    } else {
        TextColor::Blue
    };
    proof {
        reveal_strlit("(");
        reveal_strlit(":");
        reveal_strlit(")");
        reveal_strlit("[");
        reveal_strlit("]");
        reveal_strlit(" (Ball)");
    }
    let mut text = player.name.clone();
    text.append("(");
    push_decimal(&mut text, player.bounty as u64);
    if player.flag_count > 0 {
        text.append(":");
        push_decimal(&mut text, player.flag_count as u64);
    }
    text.append(")");
    if let Some(v) = ping {
        text.append("[");
        push_decimal(&mut text, (v * 10) as u64);
        text.append("]");
    }
    if player.carrying_ball {
        text.append(" (Ball)");
    }
    proof {
        assert(text@ =~= name_view_text(*player, ping));
    }
    (text, color)
}


/// A ship is drawn when we see through cloaking with X-radar, when it is
/// not cloaked, or when it is on the frequency we view.
pub open spec fn player_visible(p: Player, using_xradar: bool, view_freq: u16) -> bool {
    using_xradar || p.status & STATUS_CLOAK == 0 || p.frequency == view_freq
}

/// Whether the ship of `player`, or of a turret riding on a ship, is drawn.
pub fn is_player_visible(player: &Player, using_xradar: bool, view_freq: u16) -> (r: bool)
    ensures
        r == player_visible(*player, using_xradar, view_freq),
{
    using_xradar || player.status & STATUS_CLOAK == 0 || player.frequency == view_freq
}


/// A trail to leave behind a weapon or the ball: the sheet, its first and
/// past-last frame, and how many ticks it plays.
#[derive(Copy, Clone, Debug)]
pub struct TrailSpec {
    pub kind: GameSpriteKind,
    pub frame_start: usize,
    pub frame_end: usize,
    pub duration: u32,
}

/// A gradient trail of 14 frames from `start`.
pub open spec fn gun_trail(start: int) -> TrailSpec {
    TrailSpec { kind: GameSpriteKind::Gradient, frame_start: start as usize, frame_end: (start + 14) as usize, duration: 14 }
}

/// A bomb trail of 10 frames from `start`.
pub open spec fn bomb_trail(start: int) -> TrailSpec {
    TrailSpec { kind: GameSpriteKind::Trail, frame_start: start as usize, frame_end: (start + 10) as usize, duration: 30 }
}

/// The trail a weapon leaves `since` ticks after its last one: bullets,
/// shrapnel and bursts every two ticks where gun trails are shown, bombs
/// and thors every five where bomb trails are; each level has its own
/// colour.
pub open spec fn trail_of(kind: WeaponKind, settings: GameSettings, since: i32) -> Option<TrailSpec> {
    let gun = settings.render_gun_trails && since >= 2;
    let bomb = settings.render_bomb_trails && since >= 5;
    match kind {
        WeaponKind::Bullet(b) => if gun { Some(gun_trail(b.level * 14 + 42)) } else { None },
        WeaponKind::BouncingBullet(b) => if gun { Some(gun_trail(b.level * 14 + 42)) } else { None },
        WeaponKind::Shrapnel(sh) => if gun { Some(gun_trail(sh.level * 14 + 42)) } else { None },
        WeaponKind::Burst(_) => if gun { Some(gun_trail(70)) } else { None },
        WeaponKind::Bomb(b) => if bomb { Some(bomb_trail(b.level * 10)) } else { None },
        WeaponKind::ProximityBomb(b) => if bomb { Some(bomb_trail(b.level * 10)) } else { None },
        WeaponKind::Thor(_) => if bomb { Some(bomb_trail(40)) } else { None },
        _ => None,
    }
}

/// The trail a weapon leaves now, if one is due; the caller then marks the
/// weapon's last trail as now.
pub fn trail_for(kind: &WeaponKind, game_settings: &GameSettings, current_tick: GameTick, last_trail_tick: GameTick)
    -> (r: Option<TrailSpec>)
    ensures
        r == trail_of(*kind, *game_settings, tick_diff(current_tick.value, last_trail_tick.value)),
{
    let since = current_tick.diff(&last_trail_tick);
    let gun = game_settings.render_gun_trails && since >= 2;
    let bomb = game_settings.render_bomb_trails && since >= 5;
    let gradient = |start: usize| -> (t: TrailSpec)
        requires
            start <= 10000,
        ensures
            t == gun_trail(start as int),
    {
        TrailSpec { kind: GameSpriteKind::Gradient, frame_start: start, frame_end: start + 14, duration: 14 }
    };
    let trail = |start: usize| -> (t: TrailSpec)
        requires
            start <= 10000,
        ensures
            t == bomb_trail(start as int),
    {
        TrailSpec { kind: GameSpriteKind::Trail, frame_start: start, frame_end: start + 10, duration: 30 }
    };
    match kind {
        WeaponKind::Bullet(b) => if gun { Some(gradient(b.level as usize * 14 + 42)) } else { None },
        WeaponKind::BouncingBullet(b) => if gun { Some(gradient(b.level as usize * 14 + 42)) } else { None },
        WeaponKind::Shrapnel(sh) => if gun { Some(gradient(sh.level as usize * 14 + 42)) } else { None },
        WeaponKind::Burst(_) => if gun { Some(gradient(70)) } else { None },
        WeaponKind::Bomb(b) => if bomb { Some(trail(b.level as usize * 10)) } else { None },
        WeaponKind::ProximityBomb(b) => if bomb { Some(trail(b.level as usize * 10)) } else { None },
        WeaponKind::Thor(_) => if bomb { Some(trail(40)) } else { None },
        _ => None,
    }
}

/// The trail the ball leaves now: every three ticks while it moves, where
/// ball trails are shown.
pub fn ball_trail_for(game_settings: &GameSettings, current_tick: GameTick, last_trail_tick: GameTick, velocity: Velocity)
    -> (r: Option<TrailSpec>)
    ensures
        r == if game_settings.render_ball_trails && tick_diff(current_tick.value, last_trail_tick.value) >= 3
            && (velocity.x.0 != 0 || velocity.y.0 != 0) {
            Some(TrailSpec { kind: GameSpriteKind::Powerball, frame_start: 20, frame_end: 30, duration: 30 })
        } else {
            None
        },
{
    if !game_settings.render_ball_trails || current_tick.diff(&last_trail_tick) < 3 {
        return None;
    }
    if velocity.x.0 != 0 || velocity.y.0 != 0 {
        Some(TrailSpec { kind: GameSpriteKind::Powerball, frame_start: 20, frame_end: 30, duration: 30 })
    } else {
        None
    }
}

/// The sheet and frame a weapon shows at `tick_value`: bullets by level
/// (bouncing ones after the plain ones), mines and bombs by level (EMP and
/// bouncing bombs in their own rows), thors, shrapnel by level and
/// bouncing, bursts (active ones further on), and a repel by the ticks it
/// has lived. Decoys show their owner's ship.
pub open spec fn weapon_frame(kind: WeaponKind, tick_value: u32, age_ticks: u32) -> Option<(GameSpriteKind, int)> {
    let fast = animation_index(tick_value, 4, 20) as int;
    let slow = animation_index(tick_value, 10, 100) as int;
    match kind {
        WeaponKind::Bullet(b) => Some((GameSpriteKind::Bullets, b.level * 4 + fast)),
        WeaponKind::BouncingBullet(b) => Some((GameSpriteKind::Bullets, b.level * 4 + 20 + fast)),
        WeaponKind::Bomb(b) => Some(bomb_frame(b.mine, b.emp, b.remaining_bounces, b.level, slow)),
        WeaponKind::ProximityBomb(b) => Some(bomb_frame(b.mine, b.emp, b.remaining_bounces, b.level, slow)),
        WeaponKind::Thor(_) => Some((GameSpriteKind::Bombs, 120 + slow)),
        WeaponKind::Shrapnel(sh) => Some((GameSpriteKind::Shrapnel,
            sh.level * 10 + (if sh.bouncing { 30int } else { 0 }) + animation_index(tick_value, 10, 60) as int)),
        WeaponKind::Repel => Some((GameSpriteKind::Repel, (age_ticks as int / 6) % 10)),
        WeaponKind::Burst(b) => Some((GameSpriteKind::Bullets, 16 + (if b.active { 20int } else { 0 }) + fast)),
        WeaponKind::Decoy(_) => None,
    }
}

pub open spec fn bomb_frame(mine: bool, emp: bool, bounces: u32, level: u8, anim: int) -> (GameSpriteKind, int) {
    if mine {
        (GameSpriteKind::Mines, level * 10 + (if emp { 40int } else { 0 }) + anim)
    } else {
        (GameSpriteKind::Bombs, level * 10 + (if emp { 40int } else if bounces > 0 { 80int } else { 0 }) + anim)
    }
}

/// The sheet and frame to draw a weapon with; `age_ticks` is how long it
/// has lived. None for a decoy, which shows its owner's ship.
pub fn weapon_renderable(kind: &WeaponKind, tick_value: u32, age_ticks: u32) -> (r: Option<(GameSpriteKind, usize)>)
    ensures
        match weapon_frame(*kind, tick_value, age_ticks) {
            Some((k, i)) => r == Some((k, i as usize)),
            None => r is None,
        },
{
    match kind {
        WeaponKind::Bullet(b) => {
            let a = get_animation_index(tick_value, 4, 20);
            Some((GameSpriteKind::Bullets, b.level as usize * 4 + a))
        },
        WeaponKind::BouncingBullet(b) => {
            let a = get_animation_index(tick_value, 4, 20);
            Some((GameSpriteKind::Bullets, b.level as usize * 4 + 20 + a))
        },
        WeaponKind::Bomb(b) | WeaponKind::ProximityBomb(b) => {
            let a = get_animation_index(tick_value, 10, 100);
            let base = b.level as usize * 10;
            if b.mine {
                Some((GameSpriteKind::Mines, if b.emp { base + 40 } else { base } + a))
            } else {
                Some((GameSpriteKind::Bombs, if b.emp { base + 40 } else if b.remaining_bounces > 0 { base + 80 } else { base } + a))
            }
        },
        WeaponKind::Thor(_) => {
            let a = get_animation_index(tick_value, 10, 100);
            Some((GameSpriteKind::Bombs, 120 + a))
        },
        WeaponKind::Shrapnel(sh) => {
            let a = get_animation_index(tick_value, 10, 60);
            Some((GameSpriteKind::Shrapnel, sh.level as usize * 10 + if sh.bouncing { 30 } else { 0 } + a))
        },
        WeaponKind::Repel => Some((GameSpriteKind::Repel, (age_ticks as usize / 6) % 10)),
        WeaponKind::Burst(b) => {
            let a = get_animation_index(tick_value, 4, 20);
            Some((GameSpriteKind::Bullets, 16 + if b.active { 20 } else { 0 } + a))
        },
        WeaponKind::Decoy(_) => None,
    }
}

/// The direction a decoy faces: it turns opposite to its owner, mirrored
/// about the direction it was dropped in.
pub open spec fn decoy_direction(initial_rotation: u8, player_direction: u8) -> int {
    ((initial_rotation + 40) - (((player_direction + 40) - initial_rotation) % 40)) % 40
}

/// The ship frame a decoy shows: its owner's ship, facing the decoy's way.
pub fn decoy_ship_frame(initial_rotation: u8, player_direction: u8, ship_index: u8) -> (r: usize)
    requires
        initial_rotation + 40 <= 255,
        player_direction + 40 <= 255,
        player_direction + 40 >= initial_rotation,
    ensures
        r == ship_index * 40 + decoy_direction(initial_rotation, player_direction),
{
    let orientation = ((initial_rotation + 40) - (((player_direction + 40) - initial_rotation) % 40)) % 40;
    ship_index as usize * 40 + orientation as usize
}

} // verus!
