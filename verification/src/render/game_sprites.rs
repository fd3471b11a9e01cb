use vstd::prelude::*;

verus! {

/// The sprite sheets of the game graphics.
#[derive(Copy, Clone, Debug, PartialEq, Eq, Structural)]
pub enum GameSpriteKind {
    Ships,
    Bullets,
    Bombs,
    Mines,
    Shrapnel,
    Flag,
    Goal,
    AsteroidSmall,
    AsteroidLarge,
    AsteroidSmall2,
    SpaceStation,
    Wormhole,
    BulletExplosion,
    BombExplosion,
    PlayerExplosion,
    EmpExplosion,
    Flash,
    Colors,
    Powerball,
    Gradient,
    Trail,
    Spectate,
    Brick,
    Repel,
}

/// Columns and rows of frames in each sheet.
pub open spec fn sheet_grid(kind: GameSpriteKind) -> (u32, u32) {
    match kind {
        GameSpriteKind::Ships => (10, 32),
        GameSpriteKind::Bullets => (4, 10),
        GameSpriteKind::Bombs => (10, 13),
        GameSpriteKind::Mines => (10, 8),
        GameSpriteKind::Shrapnel => (10, 6),
        GameSpriteKind::Flag => (10, 2),
        GameSpriteKind::Goal => (9, 2),
        GameSpriteKind::AsteroidSmall => (15, 2),
        GameSpriteKind::AsteroidLarge => (10, 3),
        GameSpriteKind::AsteroidSmall2 => (15, 2),
        GameSpriteKind::SpaceStation => (5, 2),
        GameSpriteKind::Wormhole => (4, 6),
        GameSpriteKind::BulletExplosion => (7, 1),
        GameSpriteKind::BombExplosion => (4, 11),
        GameSpriteKind::PlayerExplosion => (6, 6),
        GameSpriteKind::EmpExplosion => (5, 2),
        GameSpriteKind::Flash => (6, 3),
        GameSpriteKind::Colors => (1, 1),
        GameSpriteKind::Powerball => (10, 3),
        GameSpriteKind::Gradient => (14, 8),
        GameSpriteKind::Trail => (10, 5),
        GameSpriteKind::Spectate => (11, 1),
        GameSpriteKind::Brick => (10, 2),
        GameSpriteKind::Repel => (5, 2),
    }
}

impl GameSpriteKind {
    /// Columns and rows of frames in the sheet.
    pub fn grid(&self) -> (r: (u32, u32))
        ensures
            r == sheet_grid(*self),
    {
        match self {
            GameSpriteKind::Ships => (10, 32),
            GameSpriteKind::Bullets => (4, 10),
            GameSpriteKind::Bombs => (10, 13),
            GameSpriteKind::Mines => (10, 8),
            GameSpriteKind::Shrapnel => (10, 6),
            GameSpriteKind::Flag => (10, 2),
            GameSpriteKind::Goal => (9, 2),
            GameSpriteKind::AsteroidSmall => (15, 2),
            GameSpriteKind::AsteroidLarge => (10, 3),
            GameSpriteKind::AsteroidSmall2 => (15, 2),
            GameSpriteKind::SpaceStation => (5, 2),
            GameSpriteKind::Wormhole => (4, 6),
            GameSpriteKind::BulletExplosion => (7, 1),
            GameSpriteKind::BombExplosion => (4, 11),
            GameSpriteKind::PlayerExplosion => (6, 6),
            GameSpriteKind::EmpExplosion => (5, 2),
            GameSpriteKind::Flash => (6, 3),
            GameSpriteKind::Colors => (1, 1),
            GameSpriteKind::Powerball => (10, 3),
            GameSpriteKind::Gradient => (14, 8),
            GameSpriteKind::Trail => (10, 5),
            GameSpriteKind::Spectate => (11, 1),
            GameSpriteKind::Brick => (10, 2),
            GameSpriteKind::Repel => (5, 2),
        }
    }
}

/// Why the game graphics could not be loaded; each carries the file name.
#[derive(Clone, Debug)]
pub enum GameSpriteLoadError {
    ImageFetchError(String),
    ImageDecodeError(String),
}

} // verus!
