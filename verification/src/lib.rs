//! Verified game logic of a Subspace client: map tiles and doors, players,
//! ships and prizes, flags and powerballs, chat input, level-object (lvz)
//! containers and the byte framing of core protocol messages.

pub mod clock;
pub mod rng;
pub mod map;
pub mod math;
pub mod arena_settings;
pub mod player;
pub mod prize;
pub mod ship;
pub mod weapon;
pub mod net;
pub mod powerball;
pub mod ship_controller;
pub mod attach;
pub mod flag;
pub mod render;
pub mod game_settings;
pub mod text;
pub mod chat;
pub mod input;
pub mod lvz;
pub mod menu;
pub mod notification;
pub mod proxy;
pub mod radar;
pub mod scenes;
pub mod select_box;
pub mod client;
pub mod game_view;
