pub mod animation_renderer;
pub mod colors;
pub mod game_sprites;
pub mod layer;
pub mod render_state;
pub mod sprite_renderer;
pub mod text_renderer;
