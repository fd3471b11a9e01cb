use vstd::prelude::*;

use crate::render::text_renderer::FontKind;

verus! {

/// Where a kind of notification is shown.
#[derive(Copy, Clone, Debug, PartialEq, Eq, Structural)]
pub enum NotificationArea {
    Off,
    Center,
    Chat,
}

/// Whose names are drawn next to ships.
#[derive(Copy, Clone, Debug, PartialEq, Eq, Structural)]
pub enum RenderNameMode {
    Off,
    Others,
    All,
}

impl RenderNameMode {
    /// The next mode in the cycle Off, Others, All.
    pub fn next(&self) -> (r: RenderNameMode)
        ensures
            r == match *self {
                RenderNameMode::Off => RenderNameMode::Others,
                RenderNameMode::Others => RenderNameMode::All,
                RenderNameMode::All => RenderNameMode::Off,
            },
    {
        match self {
            RenderNameMode::Off => RenderNameMode::Others,
            RenderNameMode::Others => RenderNameMode::All,
            RenderNameMode::All => RenderNameMode::Off,
        }
    }

    pub fn to_str(&self) -> (r: &'static str)
        ensures
            r@ == match *self {
                RenderNameMode::Off => "Off"@,
                RenderNameMode::Others => "Others"@,
                RenderNameMode::All => "All"@,
            },
    {
        match self {
            RenderNameMode::Off => "Off",
            RenderNameMode::Others => "Others",
            RenderNameMode::All => "All",
        }
    }
}

/// The player's display preferences.
#[derive(Copy, Clone, Debug)]
pub struct GameSettings {
    pub kill_notify_area: NotificationArea,
    /// All kills go to the notification area, not only those involving us.
    pub kill_notify_others: bool,
    pub enter_notify_area: NotificationArea,
    pub leave_notify_area: NotificationArea,
    pub transparent_statbox: bool,
    pub chat_font_kind: FontKind,
    pub name_length: u8,
    pub chat_lines: u8,
    pub radar_target_bounty: u16,
    pub radar_transparent: bool,
    pub map_transparent: bool,
    pub radar_grid: bool,
    pub render_stars: bool,
    pub render_exhaust: bool,
    pub render_bomb_trails: bool,
    pub render_gun_trails: bool,
    pub render_ball_trails: bool,
    pub render_name_mode: RenderNameMode,
    pub render_player_ping: bool,
    pub multifire_spawn: bool,
    pub statbox_size: u16,
}

impl GameSettings {
    pub fn new() -> (r: GameSettings)
        ensures
            r.kill_notify_area == NotificationArea::Center,
            !r.kill_notify_others,
            r.enter_notify_area == NotificationArea::Center,
            r.leave_notify_area == NotificationArea::Center,
            !r.transparent_statbox,
            r.chat_font_kind == FontKind::Normal,
            r.name_length == 10,
            r.chat_lines == 8,
            r.radar_target_bounty == 100,
            !r.radar_transparent && !r.map_transparent && !r.radar_grid,
            r.render_stars && r.render_exhaust && r.render_bomb_trails,
            r.render_gun_trails && r.render_ball_trails,
            r.render_name_mode == RenderNameMode::All,
            r.render_player_ping,
            !r.multifire_spawn,
            r.statbox_size == 10,
    {
        GameSettings {
            kill_notify_area: NotificationArea::Center,
            kill_notify_others: false,
            enter_notify_area: NotificationArea::Center,
            leave_notify_area: NotificationArea::Center,
            transparent_statbox: false,
            chat_font_kind: FontKind::Normal,
            name_length: 10,
            chat_lines: 8,
            radar_target_bounty: 100,
            radar_transparent: false,
            map_transparent: false,
            radar_grid: false,
            render_stars: true,
            render_exhaust: true,
            render_bomb_trails: true,
            render_gun_trails: true,
            render_ball_trails: true,
            render_name_mode: RenderNameMode::All,
            render_player_ping: true,
            multifire_spawn: false,
            statbox_size: 10,
        }
    }
}

} // verus!
