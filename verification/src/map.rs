use vstd::prelude::*;

use crate::clock::{GameTick, tick_diff, tick_add};
use crate::clock::tick_diff as tick_diff_value;
use crate::arena_settings::ArenaSettings;
use crate::math::{Position, tile_of};
use crate::rng::{VieRng, next_seed};
use crate::net::packet::bytes::{read_le_u32, get_u32_le};

verus! {

pub type TileId = u8;

pub const TILE_ID_BORDER: TileId = 20;
pub const TILE_ID_FIRST_DOOR: TileId = 162;
pub const TILE_ID_LAST_DOOR: TileId = 169;
pub const TILE_ID_FLAG: TileId = 170;
pub const TILE_ID_SAFE: TileId = 171;
pub const TILE_ID_GOAL: TileId = 172;
pub const TILE_ID_WORMHOLE: TileId = 220;
pub const TILE_ID_FAKE_BRICK: TileId = 250;

/// Tiles per side of the map.
pub const MAP_DIM: usize = 1024;
/// Tiles in the map.
pub const MAP_TILE_COUNT: usize = 1048576;

/// A tile as stored in a map file: id in the top 8 bits, then 12 bits of
/// y and 12 bits of x.
#[derive(Copy, Clone, Debug)]
pub struct Tile {
    pub value: u32,
}

pub open spec fn tile_id_of(value: u32) -> u8 {
    ((value >> 24) & 0xFF) as u8
}

pub open spec fn tile_x_of(value: u32) -> u16 {
    (value & 0xFFF) as u16
}

pub open spec fn tile_y_of(value: u32) -> u16 {
    ((value >> 12) & 0xFFF) as u16
}

pub open spec fn tile_pack(id: u8, x: u16, y: u16) -> u32 {
    ((id as u32) << 24) | ((y as u32) << 12) | (x as u32)
}

impl Tile {
    pub fn new(value: u32) -> (r: Tile)
        ensures
            r.value == value,
    {
        Tile { value }
    }

    pub fn from_parts(id: TileId, x: u16, y: u16) -> (r: Tile)
        ensures
            r.value == tile_pack(id, x, y),
    {
        let value = ((id as u32) << 24) | ((y as u32) << 12) | (x as u32);
        Tile { value }
    }

    pub fn id(&self) -> (r: TileId)
        ensures
            r == tile_id_of(self.value),
            r as u32 == self.value >> 24,
    {
        let v = self.value;
        assert(((v >> 24u32) & 0xFF) == v >> 24u32 && (((v >> 24u32) & 0xFF) as u8) as u32 == v >> 24u32) by (bit_vector);
        ((self.value >> 24) & 0xFF) as TileId
    }

    pub fn x(&self) -> (r: u16)
        ensures
            r == tile_x_of(self.value),
            r < 4096,
    {
        let v = self.value;
        assert((v & 0xFFF) < 4096 && ((v & 0xFFF) as u16) < 4096) by (bit_vector);
        (self.value & 0xFFF) as u16
    }

    pub fn y(&self) -> (r: u16)
        ensures
            r == tile_y_of(self.value),
            r < 4096,
    {
        let v = self.value;
        assert(((v >> 12u32) & 0xFFF) < 4096 && (((v >> 12u32) & 0xFFF) as u16) < 4096) by (bit_vector);
        ((self.value >> 12) & 0xFFF) as u16
    }
}

/// A tile built from its parts gives its parts back, when the coordinates
/// fit in 12 bits.
pub proof fn lemma_tile_roundtrip(id: u8, x: u16, y: u16)
    requires
        x < 4096,
        y < 4096,
    ensures
        tile_id_of(tile_pack(id, x, y)) == id,
        tile_x_of(tile_pack(id, x, y)) == x,
        tile_y_of(tile_pack(id, x, y)) == y,
{
    let (i, a, b) = (id as u32, x as u32, y as u32);
    assert({
        let v = (i << 24u32) | (b << 12u32) | a;
        &&& ((v >> 24u32) & 0xFF) == i
        &&& (v & 0xFFF) == a
        &&& ((v >> 12u32) & 0xFFF) == b
    }) by (bit_vector)
        requires
            i < 256,
            a < 4096,
            b < 4096;
}

#[derive(Copy, Clone, Debug, PartialEq, Eq, Structural)]
pub enum AnimatedTileKind {
    Goal,
    AsteroidSmall,
    AsteroidSmall2,
    AsteroidLarge,
    SpaceStation,
    Wormhole,
    Flag,
}

pub const ANIMATED_TILE_KIND_COUNT: usize = 7;

pub open spec fn animated_kind_of(id: u8) -> Option<AnimatedTileKind> {
    if id == 172 { Some(AnimatedTileKind::Goal) }
    else if id == 216 { Some(AnimatedTileKind::AsteroidSmall) }
    else if id == 218 { Some(AnimatedTileKind::AsteroidSmall2) }
    else if id == 217 { Some(AnimatedTileKind::AsteroidLarge) }
    else if id == 219 { Some(AnimatedTileKind::SpaceStation) }
    else if id == 220 { Some(AnimatedTileKind::Wormhole) }
    else if id == 170 { Some(AnimatedTileKind::Flag) }
    else { None }
}

pub open spec fn animated_size(kind: AnimatedTileKind) -> u16 {
    match kind {
        AnimatedTileKind::Goal => 1,
        AnimatedTileKind::AsteroidSmall => 1,
        AnimatedTileKind::AsteroidSmall2 => 1,
        AnimatedTileKind::AsteroidLarge => 2,
        AnimatedTileKind::SpaceStation => 6,
        AnimatedTileKind::Wormhole => 5,
        AnimatedTileKind::Flag => 1,
    }
}

pub open spec fn animated_index(kind: AnimatedTileKind) -> int {
    match kind {
        AnimatedTileKind::Goal => 0,
        AnimatedTileKind::AsteroidSmall => 1,
        AnimatedTileKind::AsteroidSmall2 => 2,
        AnimatedTileKind::AsteroidLarge => 3,
        AnimatedTileKind::SpaceStation => 4,
        AnimatedTileKind::Wormhole => 5,
        AnimatedTileKind::Flag => 6,
    }
}

impl AnimatedTileKind {
    /// Width and height of the object in tiles.
    pub fn get_tile_size(&self) -> (r: u16)
        ensures
            r == animated_size(*self),
    {
        match self {
            AnimatedTileKind::Goal => 1,
            AnimatedTileKind::AsteroidSmall => 1,
            AnimatedTileKind::AsteroidSmall2 => 1,
            AnimatedTileKind::AsteroidLarge => 2,
            AnimatedTileKind::SpaceStation => 6,
            AnimatedTileKind::Wormhole => 5,
            AnimatedTileKind::Flag => 1,
        }
    }

    pub fn try_from_id(id: TileId) -> (r: Option<AnimatedTileKind>)
        ensures
            r == animated_kind_of(id),
    {
        match id {
            172 => Some(AnimatedTileKind::Goal),
            216 => Some(AnimatedTileKind::AsteroidSmall),
            218 => Some(AnimatedTileKind::AsteroidSmall2),
            217 => Some(AnimatedTileKind::AsteroidLarge),
            219 => Some(AnimatedTileKind::SpaceStation),
            220 => Some(AnimatedTileKind::Wormhole),
            170 => Some(AnimatedTileKind::Flag),
            _ => None,
        }
    }

    /// Position of this kind in a map's list of animated tile sets.
    pub fn index(&self) -> (r: usize)
        ensures
            r == animated_index(*self),
    {
        match self {
            AnimatedTileKind::Goal => 0,
            AnimatedTileKind::AsteroidSmall => 1,
            AnimatedTileKind::AsteroidSmall2 => 2,
            AnimatedTileKind::AsteroidLarge => 3,
            AnimatedTileKind::SpaceStation => 4,
            AnimatedTileKind::Wormhole => 5,
            AnimatedTileKind::Flag => 6,
        }
    }
}

pub struct AnimatedTileSet {
    pub tiles: Vec<Tile>,
}

#[derive(Copy, Clone, Debug, PartialEq, Eq, Structural)]
pub enum MapError {
    InvalidBitmapHeader,
}

/// The generator that drives door states, with the time it last moved.
#[derive(Copy, Clone, Debug)]
pub struct DoorRng {
    pub rng: VieRng,
    pub last_tick: GameTick,
    pub current_mode: u8,
    pub last_mode: u8,
}

impl DoorRng {
    pub fn new(seed: u32, last_tick: GameTick, current_mode: u8, last_mode: u8) -> (r: DoorRng)
        ensures
            r.rng.seed == seed as i32,
            r.last_tick == last_tick,
            r.current_mode == current_mode,
            r.last_mode == last_mode,
    {
        DoorRng { rng: VieRng::new(seed as i32), last_tick, current_mode, last_mode }
    }
}

/// A temporary wall placed by a player.
pub struct Brick {
    pub frequency: u16,
    pub end_tick: GameTick,
    pub tile: Tile,
}

pub struct TileMap {
    pub filename: String,
    pub tiles: Vec<TileId>,
    pub checksum: u32,
    pub animated_tiles: Vec<Vec<Tile>>,
    pub doors: Vec<Tile>,
    pub door_rng: Option<DoorRng>,
    pub bricks: Vec<Brick>,
}

/// The position of tile (x, y) in the tile grid.
pub open spec fn grid_index(x: int, y: int) -> int {
    y * 1024 + x
}

/// The first brick at tile (x, y), searching from `from`.
pub open spec fn brick_pos(bricks: Seq<Brick>, x: u16, y: u16, from: int) -> int
    decreases bricks.len() - from,
{
    if from >= bricks.len() {
        bricks.len() as int
    } else if tile_x_of(bricks[from].tile.value) == x && tile_y_of(bricks[from].tile.value) == y {
        from
    } else {
        brick_pos(bricks, x, y, from + 1)
    }
}

/// The tile id a solidity check applies to a tile that is not a brick.
pub open spec fn id_is_solid(id: u8) -> bool {
    if id == 0 { false }
    else if id < 170 { true }
    else if id == 220 { false }
    else if 192 <= id <= 240 { true }
    else if 242 <= id <= 252 { true }
    else { false }
}

/// Tile coordinate `v` moved by `offset`, clamped to `0..=65535`.
pub open spec fn offset_tile(v: u16, offset: int) -> u16 {
    let n = v + offset;
    if n < 0 { 0 } else if n > 65535 { 65535 } else { n as u16 }
}

/// The radius as the signed 16-bit number the search uses.
pub open spec fn signed_radius(r: u16) -> int {
    if r < 32768 { r as int } else { r - 65536 }
}

fn saturating_add_signed(v: u16, offset: i16) -> (r: u16)
    ensures
        r == offset_tile(v, offset as int),
{
    let n: i32 = v as i32 + offset as i32;
    if n < 0 { 0 } else if n > 65535 { 65535 } else { n as u16 }
}

/// Where tile records start: after the bitmap when the data is a bitmap
/// ("BM" and its size at offset 2), else at the beginning.
pub open spec fn tile_data_start(data: Seq<u8>) -> int {
    if data.len() >= 4 && data[0] == 66 && data[1] == 77 { read_le_u32(data, 2) as int } else { 0 }
}

/// The tile record number `k` of the map data.
pub open spec fn tile_record(data: Seq<u8>, k: int) -> u32 {
    read_le_u32(data, tile_data_start(data) + 4 * k)
}

pub open spec fn tile_record_count(data: Seq<u8>) -> int {
    (data.len() - tile_data_start(data)) / 4
}

/// The footprint of a record (one tile, or the square of an animated
/// object) lies within the tile grid.
pub open spec fn record_fits(v: u32) -> bool {
    let x = tile_x_of(v) as int;
    let y = tile_y_of(v) as int;
    let s = match animated_kind_of(tile_id_of(v)) {
        Some(k) => animated_size(k) as int,
        None => 1,
    };
    grid_index(x + s - 1, y + s - 1) < 1048576
}

/// `m` is the map read from `data` under the name `filename`: its tiles,
/// animated objects and doors as the tile records give them, no bricks,
/// the given door generator, and no checksum yet.
pub open spec fn loaded_map(m: TileMap, filename: Seq<char>, data: Seq<u8>, door_rng: Option<DoorRng>) -> bool {
    let (t, a, d) = records_loaded(data, tile_record_count(data));
    &&& m.wf()
    &&& m.filename@ == filename
    &&& m.tiles@ == t
    &&& forall|k: int| 0 <= k < 7 ==> (#[trigger] m.animated_tiles@[k])@ == a[k]
    &&& m.doors@ == d
    &&& m.bricks@.len() == 0
    &&& m.door_rng == door_rng
    &&& m.checksum == 0
}

/// Map data the loader can read without leaving the tile grid.
pub open spec fn map_data_fits(data: Seq<u8>) -> bool {
    &&& (data.len() >= 4 && data[0] == 66 && data[1] == 77 ==> data.len() >= 6)
    &&& forall|k: int| 0 <= k < tile_record_count(data) ==> record_fits(#[trigger] tile_record(data, k))
}

/// Grid cell `i` lies in the `size` by `size` square whose corner is (x, y).
pub open spec fn in_square(i: int, x: int, y: int, size: int) -> bool {
    exists|a: int, b: int| 0 <= a < size && 0 <= b < size && i == #[trigger] grid_index(x + b, y + a)
}

/// Grid cell `i` lies in the part of the square drawn once `rows` full rows
/// and `cols` cells of the next row are done.
pub open spec fn square_part(i: int, x: int, y: int, size: int, rows: int, cols: int) -> bool {
    exists|a: int, b: int| (0 <= a < rows && 0 <= b < size || a == rows && 0 <= b < cols) && i == #[trigger] grid_index(x + b, y + a)
}

/// The tile grid after the tile record `v` is drawn on it.
pub open spec fn record_drawn(tiles: Seq<u8>, v: u32) -> Seq<u8> {
    let x = tile_x_of(v) as int;
    let y = tile_y_of(v) as int;
    let id = tile_id_of(v);
    match animated_kind_of(id) {
        Some(k) => Seq::new(tiles.len(), |i: int| if in_square(i, x, y, animated_size(k) as int) { id } else { tiles[i] }),
        None => tiles.update(grid_index(x, y), id),
    }
}

/// Tile grid, animated object lists and door list after the first `n`
/// records of `data` were read.
pub open spec fn records_loaded(data: Seq<u8>, n: int) -> (Seq<u8>, Seq<Seq<Tile>>, Seq<Tile>)
    decreases n,
{
    if n <= 0 {
        (Seq::new(1048576, |i: int| 0u8), Seq::new(7, |k: int| Seq::<Tile>::empty()), Seq::<Tile>::empty())
    } else {
        let (t, a, d) = records_loaded(data, n - 1);
        let v = tile_record(data, n - 1);
        let tile = Tile { value: v };
        let id = tile_id_of(v);
        match animated_kind_of(id) {
            Some(k) => (record_drawn(t, v), a.update(animated_index(k), a[animated_index(k)].push(tile)), d),
            None => (record_drawn(t, v), a, if 162 <= id <= 169 { d.push(tile) } else { d }),
        }
    }
}

proof fn lemma_records_loaded_lists(data: Seq<u8>, n: int)
    ensures
        records_loaded(data, n).1.len() == 7,
    decreases n,
{
    if n > 0 {
        lemma_records_loaded_lists(data, n - 1);
    }
}

/// A random bit of the door state: `bit` when `t` has any of the low bits
/// `m`, computed the way the server does (through a signed remainder).
fn random_door_bit(t: u32, m: u32, bit: u32) -> (r: u32)
    requires
        m == 1 || m == 3 || m == 7 || m == 15,
    ensures
        r == (if t & m != 0 { bit } else { 0 }),
{
    let a0 = t & (0x8000_0000 | m);
    let mut a = a0;
    if a >= 0x8000_0000 {
        let b = (a - 1) | !m;
        a = if b == 0xFFFF_FFFF { 0 } else { b + 1 };
    }
    assert(a0 >= 0x8000_0000 ==> ((((a0 - 1) as u32) | !m) == 0xFFFF_FFFF <==> (t & m) == 0)) by (bit_vector)
        requires
            m == 1 || m == 3 || m == 7 || m == 15,
            a0 == t & (0x8000_0000 | m);
    assert(a0 < 0x8000_0000 ==> (a0 != 0 <==> (t & m) != 0)) by (bit_vector)
        requires
            m == 1 || m == 3 || m == 7 || m == 15,
            a0 == t & (0x8000_0000 | m);
    if a != 0 { bit } else { 0 }
}

/// The eight tile ids the doors show in door state `door_mode`.
fn door_table(door_mode: u32) -> (r: [u8; 8])
    ensures
        forall|k: int| 0 <= k < 8 ==> #[trigger] r@[k] == door_tile_for(door_mode, (162 + k) as u8),
{
    let bottom = door_mode & 0xFF;
    let m1: u32 = if bottom & 2 != 0 { 0xFFFF_FFFF } else { 0 };
    let m2: u32 = if bottom & 4 != 0 { 0xFFFF_FFFF } else { 0 };
    let m3: u32 = if bottom & 8 != 0 { 0xFFFF_FFFF } else { 0 };
    let m4: u32 = if bottom & 0x10 != 0 { 0xFFFF_FFFF } else { 0 };
    let m5: u32 = if bottom & 0x20 != 0 { 0xFFFF_FFFF } else { 0 };
    assert((m1 & 0xF9) <= 0xF9 && (m2 & 0xFA) <= 0xFA && (m3 & 0xFB) <= 0xFB && (m4 & 0xFC) <= 0xFC
        && (m5 & 0xFD) <= 0xFD) by (bit_vector);
    let e0 = ((!bottom & 1) << 3) | 0xA2;
    let e1 = (m1 & 0xF9) + 0xAA;
    let e2 = (m2 & 0xFA) + 0xAA;
    let e3 = (m3 & 0xFB) + 0xAA;
    let e4 = (m4 & 0xFC) + 0xAA;
    let e5 = (m5 & 0xFD) + 0xAA;
    let e6 = (!(bottom >> 5) & 2) | 0xA8;
    let e7: u32 = 0xAA - (if (bottom & 0x80) != 0 { 1u32 } else { 0u32 });
    assert({
        &&& (e0 as u8) == (if bottom & 1 != 0 { 162u8 } else { 170u8 })
        &&& (e1 as u8) == (if bottom & 2 != 0 { 163u8 } else { 170u8 })
        &&& (e2 as u8) == (if bottom & 4 != 0 { 164u8 } else { 170u8 })
        &&& (e3 as u8) == (if bottom & 8 != 0 { 165u8 } else { 170u8 })
        &&& (e4 as u8) == (if bottom & 16 != 0 { 166u8 } else { 170u8 })
        &&& (e5 as u8) == (if bottom & 32 != 0 { 167u8 } else { 170u8 })
        &&& (e6 as u8) == (if bottom & 64 != 0 { 168u8 } else { 170u8 })
        &&& (e7 as u8) == (if bottom & 128 != 0 { 169u8 } else { 170u8 })
    }) by (bit_vector)
        requires
            bottom == door_mode & 0xFF,
            m1 == (if bottom & 2 != 0 { 0xFFFF_FFFFu32 } else { 0u32 }),
            m2 == (if bottom & 4 != 0 { 0xFFFF_FFFFu32 } else { 0u32 }),
            m3 == (if bottom & 8 != 0 { 0xFFFF_FFFFu32 } else { 0u32 }),
            m4 == (if bottom & 16 != 0 { 0xFFFF_FFFFu32 } else { 0u32 }),
            m5 == (if bottom & 32 != 0 { 0xFFFF_FFFFu32 } else { 0u32 }),
            e0 == ((!bottom & 1) << 3) | 0xA2,
            e1 == (m1 & 0xF9) + 0xAA,
            e2 == (m2 & 0xFA) + 0xAA,
            e3 == (m3 & 0xFB) + 0xAA,
            e4 == (m4 & 0xFC) + 0xAA,
            e5 == (m5 & 0xFD) + 0xAA,
            e6 == (!(bottom >> 5) & 2) | 0xA8,
            e7 == 0xAA - (if (bottom & 0x80) != 0 { 1u32 } else { 0u32 });
    let r = [e0 as u8, e1 as u8, e2 as u8, e3 as u8, e4 as u8, e5 as u8, e6 as u8, e7 as u8];
    assert forall|k: int| 0 <= k < 8 implies #[trigger] r@[k] == door_tile_for(door_mode, (162 + k) as u8) by {
        assert(((162 + k) as u8) - 162 == k);
    }
    r
}

/// Showing a door state keeps the size of the tile grid.
pub proof fn lemma_doors_applied_len(tiles: Seq<u8>, doors: Seq<Tile>, mode: u32, n: int)
    requires
        n <= doors.len(),
        forall|i: int| 0 <= i < n ==> 0 <= #[trigger] tile_grid_index(doors[i]) < tiles.len(),
    ensures
        doors_applied(tiles, doors, mode, n).len() == tiles.len(),
    decreases n,
{
    if n > 0 {
        lemma_doors_applied_len(tiles, doors, mode, n - 1);
    }
}

/// Two tiles in the map with the same grid position have the same coordinates.
proof fn lemma_grid_index_unique(t: Tile, x: u16, y: u16)
    requires
        tile_x_of(t.value) < 1024,
        tile_y_of(t.value) < 1024,
        x < 1024,
        y < 1024,
        tile_grid_index(t) == grid_index(x as int, y as int),
    ensures
        tile_x_of(t.value) == x,
        tile_y_of(t.value) == y,
{
}

/// The search for a brick at (x, y) ends on such a brick or past the end.
proof fn lemma_brick_pos_found(bricks: Seq<Brick>, x: u16, y: u16, from: int)
    requires
        0 <= from,
    ensures
        brick_pos(bricks, x, y, from) <= bricks.len() || brick_pos(bricks, x, y, from) == from,
        from <= bricks.len() ==> from <= brick_pos(bricks, x, y, from) <= bricks.len(),
        brick_pos(bricks, x, y, from) < bricks.len() ==> {
            let k = brick_pos(bricks, x, y, from);
            tile_x_of(bricks[k].tile.value) == x && tile_y_of(bricks[k].tile.value) == y
        },
    decreases bricks.len() - from,
{
    if from < bricks.len() {
        lemma_brick_pos_found(bricks, x, y, from + 1);
    }
}

/// A brick at (x, y) is found by the search for (x, y), at or before its place.
proof fn lemma_brick_pos_finds(bricks: Seq<Brick>, x: u16, y: u16, j: int)
    requires
        0 <= j < bricks.len(),
        tile_x_of(bricks[j].tile.value) == x,
        tile_y_of(bricks[j].tile.value) == y,
    ensures
        brick_pos(bricks, x, y, 0) <= j,
{
    lemma_brick_pos_bound(bricks, x, y, 0, j);
}

proof fn lemma_brick_pos_bound(bricks: Seq<Brick>, x: u16, y: u16, from: int, j: int)
    requires
        0 <= from <= j < bricks.len(),
        tile_x_of(bricks[j].tile.value) == x,
        tile_y_of(bricks[j].tile.value) == y,
    ensures
        brick_pos(bricks, x, y, from) <= j,
    decreases j - from,
{
    if from < j {
        lemma_brick_pos_bound(bricks, x, y, from + 1, j);
    }
}

/// The position in the tile grid of a stored tile.
pub open spec fn tile_grid_index(t: Tile) -> int {
    grid_index(tile_x_of(t.value) as int, tile_y_of(t.value) as int)
}

/// The tile a door shows in door state `mode`: the door itself when its bit
/// is set, an open tile (170) otherwise.
pub open spec fn door_tile_for(mode: u32, door_id: u8) -> u8 {
    if (mode & 0xFF) & door_bit_mask(door_id - 162) != 0 { door_id } else { 170 }
}

/// The bit of a door state that belongs to door number `k` (0 to 7).
pub open spec fn door_bit_mask(k: int) -> u32 {
    if k == 0 { 1 } else if k == 1 { 2 } else if k == 2 { 4 } else if k == 3 { 8 }
    else if k == 4 { 16 } else if k == 5 { 32 } else if k == 6 { 64 } else { 128 }
}

/// The tile grid after the first `n` doors show door state `mode`.
pub open spec fn doors_applied(tiles: Seq<u8>, doors: Seq<Tile>, mode: u32, n: int) -> Seq<u8>
    decreases n,
{
    if n <= 0 {
        tiles
    } else {
        let d = doors[n - 1];
        doors_applied(tiles, doors, mode, n - 1).update(tile_grid_index(d), door_tile_for(mode, tile_id_of(d.value)))
    }
}

/// One bit of a random door state: set when `r` has any bit of `mask`.
pub open spec fn door_bit(r: i32, mask: u32, bit: u32) -> u32 {
    if (r as u32) & mask != 0 { bit } else { 0 }
}

/// The next door state for the arena's door mode setting, and the
/// generator seed afterwards.
pub open spec fn next_door_state(door_mode: i16, seed: i32) -> (i32, i32) {
    if door_mode == -2 {
        let s1 = next_seed(seed);
        (s1, s1)
    } else if door_mode == -1 {
        let r0 = next_seed(seed);
        let r1 = next_seed(r0);
        let r2 = next_seed(r1);
        let r3 = next_seed(r2);
        let r4 = next_seed(r3);
        let r5 = next_seed(r4);
        let r6 = next_seed(r5);
        ((door_bit(r6, 15, 0x80) + door_bit(r5, 7, 0x40) + door_bit(r4, 3, 0x20) + door_bit(r3, 15, 0x08)
            + door_bit(r2, 7, 0x04) + door_bit(r1, 3, 0x02) + door_bit(r0, 1, 0x11)) as i32, r6)
    } else if door_mode >= 0 {
        (door_mode as i32, seed)
    } else {
        (seed, seed)
    }
}

/// Generator seed, current and last door states and tile grid after `n`
/// door updates.
pub open spec fn door_updates(door_mode: i16, seed: i32, current: u8, last: u8, tiles: Seq<u8>, doors: Seq<Tile>, n: nat)
    -> (i32, u8, u8, Seq<u8>)
    decreases n,
{
    if n == 0 {
        (seed, current, last, tiles)
    } else {
        let (m, s) = next_door_state(door_mode, seed);
        door_updates(door_mode, s, m as u8, current, doors_applied(tiles, doors, m as u32, doors.len() as int), doors, (n - 1) as nat)
    }
}

/// Tile grid and brick list after expired bricks are taken away, looking at
/// bricks from position `i` on.
pub open spec fn bricks_expired(tiles: Seq<u8>, bricks: Seq<Brick>, now: u32, i: int) -> (Seq<u8>, Seq<Brick>)
    decreases bricks.len() - i,
{
    if i < 0 || i >= bricks.len() {
        (tiles, bricks)
    } else if tick_diff(now, bricks[i].end_tick.value) >= 0 {
        bricks_expired(tiles.update(tile_grid_index(bricks[i].tile), tile_id_of(bricks[i].tile.value)),
            swap_removed_bricks(bricks, i), now, i)
    } else {
        bricks_expired(tiles, bricks, now, i + 1)
    }
}

pub open spec fn swap_removed_bricks(s: Seq<Brick>, k: int) -> Seq<Brick> {
    s.update(k, s.last()).drop_last()
}

/// Tile grid after the first `n` bricks give back the tiles under them.
pub open spec fn bricks_restored(tiles: Seq<u8>, bricks: Seq<Brick>, n: int) -> Seq<u8>
    decreases n,
{
    if n <= 0 {
        tiles
    } else {
        bricks_restored(tiles, bricks, n - 1).update(tile_grid_index(bricks[n - 1].tile), tile_id_of(bricks[n - 1].tile.value))
    }
}

/// Every brick stands on its own tile, and that tile shows a brick.
pub open spec fn bricks_placed(tiles: Seq<u8>, bricks: Seq<Brick>) -> bool {
    &&& forall|i: int| 0 <= i < bricks.len() ==> tiles[tile_grid_index((#[trigger] bricks[i]).tile)] == TILE_ID_FAKE_BRICK
    &&& forall|i: int, j: int| 0 <= i < bricks.len() && 0 <= j < bricks.len() && i != j
        ==> tile_grid_index(#[trigger] bricks[i].tile) != tile_grid_index(#[trigger] bricks[j].tile)
}

impl TileMap {
    pub open spec fn wf(&self) -> bool {
        &&& self.tiles@.len() == 1048576
        &&& self.animated_tiles@.len() == 7
        &&& forall|i: int| 0 <= i < self.doors@.len() ==> {
            &&& 162 <= tile_id_of((#[trigger] self.doors@[i]).value) <= 169
            &&& tile_grid_index(self.doors@[i]) < 1048576
        }
        &&& forall|i: int| 0 <= i < self.bricks@.len() ==> {
            &&& tile_x_of((#[trigger] self.bricks@[i]).tile.value) < 1024
            &&& tile_y_of(self.bricks@[i].tile.value) < 1024
        }
    }

    /// The tile id at (x, y); outside the map it is the border.
    pub open spec fn tile_at(&self, x: u16, y: u16) -> u8 {
        if x >= 1024 || y >= 1024 { TILE_ID_BORDER } else { self.tiles@[grid_index(x as int, y as int)] }
    }

    /// Whether tile (x, y) blocks a ship of `frequency`.
    pub open spec fn solid_at(&self, x: u16, y: u16, frequency: u16) -> bool {
        let id = self.tile_at(x, y);
        let k = brick_pos(self.bricks@, x, y, 0);
        if id == 250 && k < self.bricks@.len() {
            self.bricks@[k].frequency != frequency
        } else {
            id_is_solid(id)
        }
    }

    /// Whether tile (x, y) blocks a ship when doors count as open.
    pub open spec fn solid_empty_doors_at(&self, x: u16, y: u16, frequency: u16) -> bool {
        let id = self.tile_at(x, y);
        if 162 <= id <= 169 { false } else { self.solid_at(x, y, frequency) }
    }

    /// An empty map: every tile is 0.
    pub fn empty(filename: &str) -> (r: TileMap)
        ensures
            r.wf(),
            r.filename@ == filename@,
            forall|i: int| 0 <= i < r.tiles@.len() ==> r.tiles@[i] == 0,
            forall|k: int| 0 <= k < 7 ==> (#[trigger] r.animated_tiles@[k])@.len() == 0,
            r.doors@.len() == 0,
            r.bricks@.len() == 0,
            r.door_rng is None,
            r.checksum == 0,
    {
        let mut tiles: Vec<TileId> = Vec::new();
        let mut i: usize = 0;
        while i < MAP_TILE_COUNT
            invariant
                i <= MAP_TILE_COUNT,
                tiles@.len() == i,
                forall|k: int| 0 <= k < i ==> tiles@[k] == 0,
            decreases MAP_TILE_COUNT - i,
        {
            tiles.push(0);
            i = i + 1;
        }
        let mut animated_tiles: Vec<Vec<Tile>> = Vec::new();
        let mut k: usize = 0;
        while k < ANIMATED_TILE_KIND_COUNT
            invariant
                k <= ANIMATED_TILE_KIND_COUNT,
                animated_tiles@.len() == k,
                forall|j: int| 0 <= j < k ==> (#[trigger] animated_tiles@[j])@.len() == 0,
            decreases ANIMATED_TILE_KIND_COUNT - k,
        {
            animated_tiles.push(Vec::new());
            k = k + 1;
        }
        TileMap {
            filename: filename.to_owned(),
            tiles,
            checksum: 0,
            animated_tiles,
            doors: Vec::new(),
            door_rng: None,
            bricks: Vec::new(),
        }
    }

    fn get_index(x: u16, y: u16) -> (r: usize)
        ensures
            r == grid_index(x as int, y as int),
    {
        y as usize * 1024 + x as usize
    }

    pub fn get_tile(&self, x: u16, y: u16) -> (r: TileId)
        requires
            self.wf(),
        ensures
            r == self.tile_at(x, y),
    {
        if x >= 1024 || y >= 1024 {
            return TILE_ID_BORDER;
        }
        let index = TileMap::get_index(x, y);
        self.tiles[index]
    }

    pub fn get_tile_from_position(&self, position: &Position) -> (r: TileId)
        requires
            self.wf(),
        ensures
            r == self.tile_at(tile_of(position.x.0), tile_of(position.y.0)),
    {
        let (tile_x, tile_y) = position.to_tile();
        self.get_tile(tile_x, tile_y)
    }

    pub fn is_door(&self, x: u16, y: u16) -> (r: bool)
        requires
            self.wf(),
        ensures
            r == (162 <= self.tile_at(x, y) <= 169),
    {
        let tile_id = self.get_tile(x, y);
        tile_id >= TILE_ID_FIRST_DOOR && tile_id <= TILE_ID_LAST_DOOR
    }

    pub fn is_door_position(&self, position: Position) -> (r: bool)
        requires
            self.wf(),
        ensures
            r == (162 <= self.tile_at(tile_of(position.x.0), tile_of(position.y.0)) <= 169),
    {
        let (tile_x, tile_y) = position.to_tile();
        self.is_door(tile_x, tile_y)
    }

    /// The first brick at tile (x, y).
    fn get_brick(&self, x: u16, y: u16) -> (r: Option<&Brick>)
        ensures
            brick_pos(self.bricks@, x, y, 0) < self.bricks@.len()
                ==> r == Some(&self.bricks@[brick_pos(self.bricks@, x, y, 0)]),
            brick_pos(self.bricks@, x, y, 0) >= self.bricks@.len() ==> r is None,
    {
        let mut i: usize = 0;
        while i < self.bricks.len()
            invariant
                i <= self.bricks@.len(),
                brick_pos(self.bricks@, x, y, 0) == brick_pos(self.bricks@, x, y, i as int),
            decreases self.bricks@.len() - i,
        {
            if self.bricks[i].tile.x() == x && self.bricks[i].tile.y() == y {
                return Some(&self.bricks[i]);
            }
            i = i + 1;
        }
        None
    }

    pub fn is_solid(&self, x: u16, y: u16, frequency: u16) -> (r: bool)
        requires
            self.wf(),
        ensures
            r == self.solid_at(x, y, frequency),
    {
        let tile_id = self.get_tile(x, y);
        if tile_id == 0 {
            return false;
        }
        if tile_id < 170 {
            return true;
        }
        if tile_id == 220 {
            return false;
        }
        if tile_id >= 192 && tile_id <= 240 {
            return true;
        }
        if tile_id == 250 {
            if let Some(brick) = self.get_brick(x, y) {
                return brick.frequency != frequency;
            }
        }
        if tile_id >= 242 && tile_id <= 252 {
            return true;
        }
        false
    }

    pub fn is_solid_position(&self, position: Position, frequency: u16) -> (r: bool)
        requires
            self.wf(),
        ensures
            r == self.solid_at(tile_of(position.x.0), tile_of(position.y.0), frequency),
    {
        let (tile_x, tile_y) = position.to_tile();
        self.is_solid(tile_x, tile_y, frequency)
    }

    pub fn is_solid_empty_doors(&self, x: u16, y: u16, frequency: u16) -> (r: bool)
        requires
            self.wf(),
        ensures
            r == self.solid_empty_doors_at(x, y, frequency),
    {
        let tile_id = self.get_tile(x, y);
        if tile_id >= TILE_ID_FIRST_DOOR && tile_id <= TILE_ID_LAST_DOOR {
            return false;
        }
        self.is_solid(x, y, frequency)
    }

    pub fn is_solid_empty_doors_position(&self, position: Position, frequency: u16) -> (r: bool)
        requires
            self.wf(),
        ensures
            r == self.solid_empty_doors_at(tile_of(position.x.0), tile_of(position.y.0), frequency),
    {
        let (tile_x, tile_y) = position.to_tile();
        self.is_solid_empty_doors(tile_x, tile_y, frequency)
    }

    /// Whether a ship of `radius` tiles fits at tile (x, y): no tile in the
    /// square of offsets `-radius..radius` around it is solid.
    pub fn can_fit(&self, x: u16, y: u16, radius: u16, frequency: u16) -> (r: bool)
        requires
            self.wf(),
            radius != 32768,
        ensures
            r == forall|oy: int, ox: int|
                -signed_radius(radius) <= oy < signed_radius(radius) && -signed_radius(radius) <= ox < signed_radius(radius)
                    ==> !#[trigger] self.solid_at(offset_tile(x, ox), offset_tile(y, oy), frequency),
    {
        let ghost rr = signed_radius(radius);
        let r16 = radius;
        assert(r16 < 32768 ==> (r16 as i16) as i32 == r16 as i32) by (bit_vector);
        assert(r16 >= 32768 ==> (r16 as i16) as i32 == (r16 as i32 - 65536) as i32) by (bit_vector);
        let rad = radius as i16;
        assert(rad as int == rr);
        let mut y_offset: i16 = -rad;
        while y_offset < rad
            invariant
                self.wf(),
                rad as int == signed_radius(radius),
                -rad <= y_offset,
                rad > 0 ==> y_offset <= rad,
                forall|oy: int, ox: int| -rad <= oy < y_offset && -rad <= ox < rad
                    ==> !#[trigger] self.solid_at(offset_tile(x, ox), offset_tile(y, oy), frequency),
            decreases rad - y_offset,
        {
            let mut x_offset: i16 = -rad;
            while x_offset < rad
                invariant
                    self.wf(),
                    rad as int == signed_radius(radius),
                    -rad <= y_offset < rad,
                    -rad <= x_offset,
                    x_offset <= rad,
                    forall|oy: int, ox: int| -rad <= oy < y_offset && -rad <= ox < rad
                        ==> !#[trigger] self.solid_at(offset_tile(x, ox), offset_tile(y, oy), frequency),
                    forall|ox: int| -rad <= ox < x_offset
                        ==> !#[trigger] self.solid_at(offset_tile(x, ox), offset_tile(y, y_offset as int), frequency),
                decreases rad - x_offset,
            {
                if self.is_solid(saturating_add_signed(x, x_offset), saturating_add_signed(y, y_offset), frequency) {
                    return false;
                }
                x_offset = x_offset + 1;
            }
            y_offset = y_offset + 1;
        }
        true
    }

    pub fn can_fit_position(&self, position: Position, radius: u16, frequency: u16) -> (r: bool)
        requires
            self.wf(),
            radius != 32768,
        ensures
            r == forall|oy: int, ox: int|
                -signed_radius(radius) <= oy < signed_radius(radius) && -signed_radius(radius) <= ox < signed_radius(radius)
                    ==> !#[trigger] self.solid_at(offset_tile(tile_of(position.x.0), ox), offset_tile(tile_of(position.y.0), oy), frequency),
    {
        let (x, y) = position.to_tile();
        self.can_fit(x, y, radius, frequency)
    }

    /// Advances the door generator by one door update and returns the new
    /// door state.
    fn update_door_seed(door_mode: i16, door_rng: &mut DoorRng) -> (r: i32)
        ensures
            (r, final(door_rng).rng.seed) == next_door_state(door_mode, old(door_rng).rng.seed),
            final(door_rng).last_tick == old(door_rng).last_tick,
            final(door_rng).current_mode == old(door_rng).current_mode,
            final(door_rng).last_mode == old(door_rng).last_mode,
    {
        let mut seed = door_rng.rng.seed;
        if door_mode == -2 {
            seed = door_rng.rng.next() as i32;
        } else if door_mode == -1 {
            let t0 = door_rng.rng.next();
            let t1 = door_rng.rng.next();
            let t2 = door_rng.rng.next();
            let t3 = door_rng.rng.next();
            let t4 = door_rng.rng.next();
            let t5 = door_rng.rng.next();
            let t6 = door_rng.rng.next();
            let b6 = random_door_bit(t6, 15, 0x80);
            let b5 = random_door_bit(t5, 7, 0x40);
            let b4 = random_door_bit(t4, 3, 0x20);
            let b3 = random_door_bit(t3, 15, 0x08);
            let b2 = random_door_bit(t2, 7, 0x04);
            let b1 = random_door_bit(t1, 3, 0x02);
            let b0 = random_door_bit(t0, 1, 0x11);
            seed = (b6 + b5 + b4 + b3 + b2 + b1 + b0) as i32;
        } else if door_mode >= 0 {
            seed = door_mode as i32;
        }
        seed
    }

    /// Shows door state `door_mode` on every door tile.
    fn apply_door_mode(doors: &Vec<Tile>, tiles: &mut Vec<TileId>, door_mode: u32)
        requires
            old(tiles)@.len() == 1048576,
            forall|i: int| 0 <= i < doors@.len() ==> {
                &&& 162 <= tile_id_of((#[trigger] doors@[i]).value) <= 169
                &&& tile_grid_index(doors@[i]) < 1048576
            },
        ensures
            final(tiles)@ == doors_applied(old(tiles)@, doors@, door_mode, doors@.len() as int),
            final(tiles)@.len() == 1048576,
    {
        let table = door_table(door_mode);
        let mut i: usize = 0;
        while i < doors.len()
            invariant
                i <= doors@.len(),
                tiles@.len() == 1048576,
                old(tiles)@.len() == 1048576,
                forall|k: int| 0 <= k < 8 ==> #[trigger] table@[k] == door_tile_for(door_mode, (162 + k) as u8),
                table@.len() == 8,
                forall|j: int| 0 <= j < doors@.len() ==> {
                    &&& 162 <= tile_id_of((#[trigger] doors@[j]).value) <= 169
                    &&& tile_grid_index(doors@[j]) < 1048576
                },
                tiles@ == doors_applied(old(tiles)@, doors@, door_mode, i as int),
            decreases doors@.len() - i,
        {
            let door_tile = doors[i];
            let index = (door_tile.id() - TILE_ID_FIRST_DOOR) as usize;
            let id = table[index];
            let tile_index = TileMap::get_index(door_tile.x(), door_tile.y());
            tiles.set(tile_index, id);
            i = i + 1;
            proof {
                assert forall|j: int| 0 <= j < i implies 0 <= #[trigger] tile_grid_index(doors@[j]) < old(tiles)@.len() by {
                    assert(tile_grid_index(doors@[j]) < 1048576);
                }
                lemma_doors_applied_len(old(tiles)@, doors@, door_mode, i as int);
            }
        }
    }

    /// Advances doors to `current_tick` and takes away expired bricks.
    pub fn tick(&mut self, settings: &ArenaSettings, current_tick: GameTick)
        requires
            old(self).wf(),
            bricks_placed(old(self).tiles@, old(self).bricks@),
        ensures
            final(self).wf(),
            ({
                let (tiles1, bricks1) = bricks_expired(old(self).tiles@, old(self).bricks@, current_tick.value, 0);
                &&& final(self).bricks@ == bricks1
                &&& final(self).doors@ == old(self).doors@
                &&& final(self).animated_tiles@ == old(self).animated_tiles@
                &&& if old(self).doors@.len() == 0 || old(self).door_rng is None {
                    final(self).tiles@ == tiles1 && final(self).door_rng == old(self).door_rng
                } else {
                    let rng = old(self).door_rng.unwrap();
                    let delay: int = if settings.door_delay > 0 { settings.door_delay as int } else { 1 };
                    let count = crate::math::trunc_div(tick_diff(current_tick.value, rng.last_tick.value) as int, delay);
                    let steps: nat = if count > 0 { count as nat } else { 0 };
                    let (seed, cur, last, tiles2) = door_updates(settings.door_mode, rng.rng.seed, rng.current_mode,
                        rng.last_mode, tiles1, old(self).doors@, steps);
                    &&& final(self).tiles@ == tiles2
                    &&& final(self).door_rng == Some(DoorRng {
                        rng: VieRng { seed },
                        last_tick: GameTick { value: tick_add(rng.last_tick.value, count * delay) },
                        current_mode: cur,
                        last_mode: last,
                    })
                }
            }),
    {
        self.tick_bricks(current_tick);
        if self.doors.len() == 0 {
            return;
        }
        let mut door_rng = match self.door_rng {
            Some(r) => r,
            None => {
                return;
            },
        };
        let tick_diff = current_tick.diff(&door_rng.last_tick);
        let delay: i32 = if settings.door_delay > 0 { settings.door_delay as i32 } else { 1 };
        let update_count = tick_diff / delay;
        let ghost steps: nat = if update_count > 0 { update_count as nat } else { 0 };
        let ghost tiles1 = self.tiles@;
        let ghost bricks1 = self.bricks@;
        let mut k: i32 = 0;
        while k < update_count
            invariant
                self.bricks@ == bricks1,
                self.doors@ == old(self).doors@,
                self.animated_tiles@ == old(self).animated_tiles@,
                0 <= k,
                update_count > 0 ==> k <= update_count,
                update_count <= 0 ==> k == 0,
                self.wf(),
                self.door_rng == old(self).door_rng,
                door_rng.last_tick == old(self).door_rng.unwrap().last_tick,
                door_updates(settings.door_mode, old(self).door_rng.unwrap().rng.seed, old(self).door_rng.unwrap().current_mode,
                    old(self).door_rng.unwrap().last_mode, tiles1, self.doors@, steps)
                    == door_updates(settings.door_mode, door_rng.rng.seed, door_rng.current_mode, door_rng.last_mode,
                        self.tiles@, self.doors@, (steps - k) as nat),
                steps == (if update_count > 0 { update_count as nat } else { 0nat }),
            decreases update_count - k,
        {
            let new_door_mode = Self::update_door_seed(settings.door_mode, &mut door_rng);
            door_rng.last_mode = door_rng.current_mode;
            door_rng.current_mode = new_door_mode as u8;
            Self::apply_door_mode(&self.doors, &mut self.tiles, new_door_mode as u32);
            k = k + 1;
        }
        assert(k as int == steps as int);
        assert(((steps - k) as nat) == 0nat);
        assert(door_updates(settings.door_mode, door_rng.rng.seed, door_rng.current_mode, door_rng.last_mode,
            self.tiles@, self.doors@, 0) == (door_rng.rng.seed, door_rng.current_mode, door_rng.last_mode, self.tiles@));
        assert(door_updates(settings.door_mode, old(self).door_rng.unwrap().rng.seed, old(self).door_rng.unwrap().current_mode,
            old(self).door_rng.unwrap().last_mode, tiles1, self.doors@, steps).3 == self.tiles@);
        assert((tick_diff >= 0 ==> 0 <= update_count * delay <= tick_diff) && (tick_diff < 0 ==> tick_diff <= update_count * delay <= 0)) by (nonlinear_arith)
            requires
                delay >= 1,
                update_count == crate::math::trunc_div(tick_diff as int, delay as int);
        door_rng.last_tick = door_rng.last_tick.plus(update_count * delay);
        self.door_rng = Some(door_rng);
        proof {
            let rng = old(self).door_rng.unwrap();
            let d: int = if settings.door_delay > 0 { settings.door_delay as int } else { 1 };
            assert(d == delay);
            let count = crate::math::trunc_div(tick_diff_value(current_tick.value, rng.last_tick.value) as int, d);
            assert(count == update_count);
            assert(self.tiles@ == door_updates(settings.door_mode, rng.rng.seed, rng.current_mode,
                rng.last_mode, tiles1, old(self).doors@, steps).3);
            assert(self.bricks@ == bricks_expired(old(self).tiles@, old(self).bricks@, current_tick.value, 0).1);
        }
    }

    /// Takes away every brick whose time is up and restores the tile under it.
    fn tick_bricks(&mut self, current_tick: GameTick)
        requires
            old(self).wf(),
            bricks_placed(old(self).tiles@, old(self).bricks@),
        ensures
            final(self).wf(),
            (final(self).tiles@, final(self).bricks@) == bricks_expired(old(self).tiles@, old(self).bricks@, current_tick.value, 0),
            final(self).doors@ == old(self).doors@,
            final(self).door_rng == old(self).door_rng,
            final(self).animated_tiles@ == old(self).animated_tiles@,
            bricks_placed(final(self).tiles@, final(self).bricks@),
    {
        let mut brick_index: usize = 0;
        loop
            invariant
                self.wf(),
                brick_index <= self.bricks@.len(),
                bricks_placed(self.tiles@, self.bricks@),
                bricks_expired(old(self).tiles@, old(self).bricks@, current_tick.value, 0)
                    == bricks_expired(self.tiles@, self.bricks@, current_tick.value, brick_index as int),
                self.doors@ == old(self).doors@,
                self.door_rng == old(self).door_rng,
                self.animated_tiles@ == old(self).animated_tiles@,
            ensures
                self.wf(),
                bricks_placed(self.tiles@, self.bricks@),
                (self.tiles@, self.bricks@) == bricks_expired(old(self).tiles@, old(self).bricks@, current_tick.value, 0),
                self.doors@ == old(self).doors@,
                self.door_rng == old(self).door_rng,
                self.animated_tiles@ == old(self).animated_tiles@,
            decreases self.bricks@.len() - brick_index, self.bricks@.len(),
        {
            if brick_index >= self.bricks.len() {
                break;
            }
            if current_tick.is_at_or_after(&self.bricks[brick_index].end_tick) {
                let tile = self.bricks[brick_index].tile;
                let tile_index = TileMap::get_index(tile.x(), tile.y());
                let ghost before_tiles = self.tiles@;
                let ghost before_bricks = self.bricks@;
                self.tiles.set(tile_index, tile.id());
                self.bricks.swap_remove(brick_index);
                proof {
                    let bi = brick_index as int;
                    assert(self.bricks@ =~= swap_removed_bricks(before_bricks, bi));
                    assert forall|i: int| 0 <= i < self.bricks@.len() implies
                        self.tiles@[tile_grid_index((#[trigger] self.bricks@[i]).tile)] == TILE_ID_FAKE_BRICK by {
                        let j = if i == bi { before_bricks.len() - 1 } else { i };
                        assert(self.bricks@[i] == before_bricks[j]);
                        assert(j != bi);
                    }
                    assert forall|i: int, j: int| 0 <= i < self.bricks@.len() && 0 <= j < self.bricks@.len() && i != j
                        implies tile_grid_index(#[trigger] self.bricks@[i].tile) != tile_grid_index(#[trigger] self.bricks@[j].tile) by {
                        let i2 = if i == bi { before_bricks.len() - 1 } else { i };
                        let j2 = if j == bi { before_bricks.len() - 1 } else { j };
                        assert(self.bricks@[i] == before_bricks[i2]);
                        assert(self.bricks@[j] == before_bricks[j2]);
                    }
                }
                continue;
            }
            brick_index = brick_index + 1;
        }
    }

    /// Puts the map back to the tiles under every brick and forgets the bricks.
    pub fn clear_bricks(&mut self)
        requires
            old(self).wf(),
        ensures
            final(self).wf(),
            final(self).tiles@ == bricks_restored(old(self).tiles@, old(self).bricks@, old(self).bricks@.len() as int),
            final(self).bricks@.len() == 0,
            final(self).doors@ == old(self).doors@,
            final(self).door_rng == old(self).door_rng,
            final(self).animated_tiles@ == old(self).animated_tiles@,
    {
        let mut i: usize = 0;
        while i < self.bricks.len()
            invariant
                self.wf(),
                i <= self.bricks@.len(),
                self.bricks@ == old(self).bricks@,
                self.tiles@ == bricks_restored(old(self).tiles@, old(self).bricks@, i as int),
                self.doors@ == old(self).doors@,
                self.door_rng == old(self).door_rng,
                self.animated_tiles@ == old(self).animated_tiles@,
            decreases self.bricks@.len() - i,
        {
            let tile = self.bricks[i].tile;
            let tile_index = TileMap::get_index(tile.x(), tile.y());
            self.tiles.set(tile_index, tile.id());
            i = i + 1;
        }
        self.bricks.clear();
    }

    /// Places a brick of `frequency` at tile (x, y) until `end_tick`,
    /// replacing a brick already there. Positions outside the map are ignored.
    pub fn insert_brick(&mut self, x: u16, y: u16, frequency: u16, end_tick: GameTick)
        requires
            old(self).wf(),
        ensures
            final(self).wf(),
            x >= 1024 || y >= 1024 ==> *final(self) == *old(self),
            x < 1024 && y < 1024 ==> ({
                let ti = grid_index(x as int, y as int);
                let k = brick_pos(old(self).bricks@, x, y, 0);
                let tiles1 = if k < old(self).bricks@.len() {
                    old(self).tiles@.update(ti, tile_id_of(old(self).bricks@[k].tile.value))
                } else {
                    old(self).tiles@
                };
                let bricks1 = if k < old(self).bricks@.len() {
                    swap_removed_bricks(old(self).bricks@, k)
                } else {
                    old(self).bricks@
                };
                &&& final(self).bricks@ == bricks1.push(Brick { frequency, end_tick, tile: Tile { value: tile_pack(tiles1[ti], x, y) } })
                &&& final(self).tiles@ == tiles1.update(ti, TILE_ID_FAKE_BRICK)
            }),
            final(self).doors@ == old(self).doors@,
            final(self).door_rng == old(self).door_rng,
            final(self).animated_tiles@ == old(self).animated_tiles@,
            final(self).filename == old(self).filename,
            final(self).checksum == old(self).checksum,
            bricks_placed(old(self).tiles@, old(self).bricks@) ==> bricks_placed(final(self).tiles@, final(self).bricks@),
            (final(self).tiles@, final(self).bricks@)
                == brick_inserted(old(self).tiles@, old(self).bricks@, x, y, frequency, end_tick),
    {
        if x >= 1024 || y >= 1024 {
            return;
        }
        let tile_index = TileMap::get_index(x, y);
        let mut index: usize = 0;
        while index < self.bricks.len()
            invariant
                *self == *old(self),
                index <= self.bricks@.len(),
                brick_pos(self.bricks@, x, y, 0) == brick_pos(self.bricks@, x, y, index as int),
            ensures
                *self == *old(self),
                index < self.bricks@.len() ==> brick_pos(self.bricks@, x, y, 0) == index,
                index >= self.bricks@.len() ==> brick_pos(self.bricks@, x, y, 0) >= self.bricks@.len(),
            decreases self.bricks@.len() - index,
        {
            if self.bricks[index].tile.x() == x && self.bricks[index].tile.y() == y {
                break;
            }
            index = index + 1;
        }
        let ghost before_bricks = self.bricks@;
        if index < self.bricks.len() {
            let id = self.bricks[index].tile.id();
            self.tiles.set(tile_index, id);
            self.bricks.swap_remove(index);
            assert(self.bricks@ =~= swap_removed_bricks(before_bricks, index as int));
        }
        let tile_id = self.get_tile(x, y);
        let tile = Tile::from_parts(tile_id, x, y);
        proof {
            lemma_tile_roundtrip(tile_id, x, y);
        }
        self.bricks.push(Brick { frequency, end_tick, tile });
        self.tiles.set(tile_index, TILE_ID_FAKE_BRICK);
        proof {
            if bricks_placed(old(self).tiles@, old(self).bricks@) {
                let ti = tile_index as int;
                let n = self.bricks@.len() - 1;
                assert forall|i: int| 0 <= i < self.bricks@.len() implies
                    self.tiles@[tile_grid_index((#[trigger] self.bricks@[i]).tile)] == TILE_ID_FAKE_BRICK by {
                    if i < n {
                        let j = if index < before_bricks.len() && i == index as int { before_bricks.len() - 1 } else { i };
                        assert(self.bricks@[i] == before_bricks[j]);
                        assert(tile_grid_index(before_bricks[j].tile) != ti) by {
                            if tile_grid_index(before_bricks[j].tile) == ti {
                                lemma_grid_index_unique(before_bricks[j].tile, x, y);
                                lemma_brick_pos_finds(before_bricks, x, y, j);
                                lemma_brick_pos_found(before_bricks, x, y, 0);
                                let k = brick_pos(before_bricks, x, y, 0);
                                assert(k == index as int);
                                assert(j != k);
                                assert(tile_grid_index(before_bricks[k].tile) == ti);
                            }
                        }
                    }
                }
                assert forall|i: int, j: int| 0 <= i < self.bricks@.len() && 0 <= j < self.bricks@.len() && i != j
                    implies tile_grid_index(#[trigger] self.bricks@[i].tile) != tile_grid_index(#[trigger] self.bricks@[j].tile) by {
                    if i < n && j < n {
                        let i2 = if index < before_bricks.len() && i == index as int { before_bricks.len() - 1 } else { i };
                        let j2 = if index < before_bricks.len() && j == index as int { before_bricks.len() - 1 } else { j };
                        assert(self.bricks@[i] == before_bricks[i2]);
                        assert(self.bricks@[j] == before_bricks[j2]);
                    } else {
                        let m = if i < n { i } else { j };
                        let m2 = if index < before_bricks.len() && m == index as int { before_bricks.len() - 1 } else { m };
                        assert(self.bricks@[m] == before_bricks[m2]);
                        if tile_grid_index(before_bricks[m2].tile) == ti {
                            lemma_grid_index_unique(before_bricks[m2].tile, x, y);
                            lemma_brick_pos_finds(before_bricks, x, y, m2);
                            lemma_brick_pos_found(before_bricks, x, y, 0);
                            let k = brick_pos(before_bricks, x, y, 0);
                            assert(k == index as int);
                            assert(m2 != k);
                            assert(tile_grid_index(before_bricks[k].tile) == ti);
                        }
                    }
                }
            }
        }
    }

    /// Sets the door generator to `seed` as of `timestamp`. When the doors
    /// already moved past `timestamp`, the last door state is shown again.
    pub fn set_door_seed(&mut self, seed: u32, timestamp: GameTick)
        requires
            old(self).wf(),
        ensures
            final(self).wf(),
            final(self).doors@ == old(self).doors@,
            final(self).bricks@ == old(self).bricks@,
            final(self).animated_tiles@ == old(self).animated_tiles@,
            match old(self).door_rng {
                Some(d) => if tick_diff(d.last_tick.value, timestamp.value) >= 0 {
                    &&& final(self).tiles@ == doors_applied(old(self).tiles@, old(self).doors@, d.last_mode as u32, old(self).doors@.len() as int)
                    &&& final(self).door_rng == Some(DoorRng { rng: VieRng { seed: seed as i32 }, last_tick: timestamp, current_mode: d.last_mode, last_mode: d.last_mode })
                } else {
                    &&& final(self).tiles@ == old(self).tiles@
                    &&& final(self).door_rng == Some(DoorRng { rng: VieRng { seed: seed as i32 }, last_tick: timestamp, current_mode: d.current_mode, last_mode: d.last_mode })
                },
                None => final(self).tiles@ == old(self).tiles@
                    && final(self).door_rng == Some(DoorRng { rng: VieRng { seed: seed as i32 }, last_tick: timestamp, current_mode: 0, last_mode: 0 }),
            },
    {
        if let Some(door_rng) = self.door_rng {
            if door_rng.last_tick.is_at_or_after(&timestamp) {
                Self::apply_door_mode(&self.doors, &mut self.tiles, door_rng.last_mode as u32);
                let mut d = door_rng;
                d.current_mode = d.last_mode;
                d.last_tick = timestamp;
                d.rng.seed = seed as i32;
                self.door_rng = Some(d);
                return;
            }
        }
        let (current_mode, last_mode) = if let Some(door_rng) = &self.door_rng {
            (door_rng.current_mode, door_rng.last_mode)
        } else {
            (0, 0)
        };
        self.door_rng = Some(DoorRng::new(seed, timestamp, current_mode, last_mode));
    }

    /// Shows door state `door_mode` on every door.
    pub fn set_door_mode(&mut self, door_mode: u8)
        requires
            old(self).wf(),
        ensures
            final(self).wf(),
            final(self).tiles@ == doors_applied(old(self).tiles@, old(self).doors@, door_mode as u32, old(self).doors@.len() as int),
            final(self).doors@ == old(self).doors@,
            final(self).bricks@ == old(self).bricks@,
            final(self).animated_tiles@ == old(self).animated_tiles@,
            match old(self).door_rng {
                Some(d) => final(self).door_rng == Some(DoorRng { current_mode: door_mode, last_mode: d.current_mode, ..d }),
                None => final(self).door_rng is None,
            },
    {
        Self::apply_door_mode(&self.doors, &mut self.tiles, door_mode as u32);
        if let Some(door_rng) = self.door_rng {
            let mut d = door_rng;
            d.last_mode = d.current_mode;
            d.current_mode = door_mode;
            self.door_rng = Some(d);
        }
    }

    /// Draws one animated object: its id on every cell of its square.
    fn draw_square(tiles: &mut Vec<TileId>, x: u16, y: u16, size: u16, id: TileId)
        requires
            old(tiles)@.len() == 1048576,
            1 <= size <= 6,
            x < 4096,
            y < 4096,
            grid_index(x + size - 1, y + size - 1) < 1048576,
        ensures
            final(tiles)@ == Seq::new(1048576, |i: int| if in_square(i, x as int, y as int, size as int) { id } else { old(tiles)@[i] }),
    {
        let ghost base = old(tiles)@;
        let mut oy: u16 = 0;
        while oy < size
            invariant
                oy <= size,
                1 <= size <= 6,
                x < 4096,
                y < 4096,
                grid_index(x + size - 1, y + size - 1) < 1048576,
                tiles@.len() == 1048576,
                base.len() == 1048576,
                forall|i: int| 0 <= i < 1048576 ==> #[trigger] tiles@[i] == (if square_part(i, x as int, y as int, size as int, oy as int, 0) { id } else { base[i] }),
            decreases size - oy,
        {
            let cy = y + oy;
            let mut ox: u16 = 0;
            while ox < size
                invariant
                    oy < size,
                    ox <= size,
                    cy == y + oy,
                    1 <= size <= 6,
                    x < 4096,
                    y < 4096,
                    grid_index(x + size - 1, y + size - 1) < 1048576,
                    tiles@.len() == 1048576,
                    base.len() == 1048576,
                    forall|i: int| 0 <= i < 1048576 ==> #[trigger] tiles@[i] == (if square_part(i, x as int, y as int, size as int, oy as int, ox as int) { id } else { base[i] }),
                decreases size - ox,
            {
                let cx = x + ox;
                let index: usize = cy as usize * 1024 + cx as usize;
                let ghost before = tiles@;
                tiles.set(index, id);
                proof {
                    assert forall|i: int| 0 <= i < 1048576 implies #[trigger] tiles@[i] == (if square_part(i, x as int, y as int, size as int, oy as int, ox + 1) { id } else { base[i] }) by {
                        if i == index as int {
                            assert(square_part(i, x as int, y as int, size as int, oy as int, ox + 1)) by {
                                assert(i == grid_index(x + ox, y + oy));
                            }
                        } else {
                            assert(before[i] == tiles@[i]);
                            if square_part(i, x as int, y as int, size as int, oy as int, ox + 1) {
                                let (a, b) = choose|a: int, b: int| (0 <= a < oy && 0 <= b < size || a == oy && 0 <= b < ox + 1) && i == #[trigger] grid_index(x + b, y + a);
                                assert(b != ox || a != oy);
                                assert(square_part(i, x as int, y as int, size as int, oy as int, ox as int));
                            }
                        }
                    }
                }
                ox = ox + 1;
            }
            proof {
                assert forall|i: int| 0 <= i < 1048576 implies #[trigger] tiles@[i] == (if square_part(i, x as int, y as int, size as int, oy + 1, 0) { id } else { base[i] }) by {
                    if square_part(i, x as int, y as int, size as int, oy + 1, 0) {
                        let (a, b) = choose|a: int, b: int| (0 <= a < oy + 1 && 0 <= b < size || a == oy + 1 && 0 <= b < 0) && i == #[trigger] grid_index(x + b, y + a);
                        assert(square_part(i, x as int, y as int, size as int, oy as int, size as int));
                    } else {
                        if square_part(i, x as int, y as int, size as int, oy as int, size as int) {
                            let (a, b) = choose|a: int, b: int| (0 <= a < oy && 0 <= b < size || a == oy && 0 <= b < size) && i == #[trigger] grid_index(x + b, y + a);
                            assert(square_part(i, x as int, y as int, size as int, oy + 1, 0));
                        }
                    }
                }
            }
            oy = oy + 1;
        }
        proof {
            assert forall|i: int| 0 <= i < 1048576 implies square_part(i, x as int, y as int, size as int, size as int, 0)
                == in_square(i, x as int, y as int, size as int) by {
                if square_part(i, x as int, y as int, size as int, size as int, 0) {
                    let (a, b) = choose|a: int, b: int| (0 <= a < size && 0 <= b < size || a == size && 0 <= b < 0) && i == #[trigger] grid_index(x + b, y + a);
                    assert(0 <= a < size && 0 <= b < size && i == grid_index(x + b, y + a));
                }
                if in_square(i, x as int, y as int, size as int) {
                    let (a, b) = choose|a: int, b: int| 0 <= a < size && 0 <= b < size && i == #[trigger] grid_index(x + b, y + a);
                    assert(square_part(i, x as int, y as int, size as int, size as int, 0));
                }
            }
            assert(tiles@ =~= Seq::new(1048576, |i: int| if in_square(i, x as int, y as int, size as int) { id } else { base[i] }));
        }
    }

    /// Reads a map file: optional bitmap, then 4-byte tile records.
    /// Whether the loader can read `data` without leaving the tile grid:
    /// every tile record, with the square of an animated object, lies in it.
    pub fn data_fits(data: &[u8]) -> (r: bool)
        ensures
            r == map_data_fits(data@),
    {
        let mut position: usize = 0;
        if data.len() >= 4 && data[0] == 66 && data[1] == 77 {
            if data.len() < 6 {
                return false;
            }
            position = get_u32_le(data, 2) as usize;
        }
        if position >= data.len() {
            return true;
        }
        let len = data.len();
        let tile_count = (len - position) / 4;
        let ghost start = position as int;
        let mut n: usize = 0;
        while n < tile_count
            invariant
                len == data@.len(),
                n <= tile_count,
                start == tile_data_start(data@),
                tile_count == tile_record_count(data@),
                position == start + 4 * n,
                position + 4 * (tile_count - n) <= data@.len(),
                data@.len() >= 4 && data@[0] == 66 && data@[1] == 77 ==> data@.len() >= 6,
                forall|k: int| 0 <= k < n ==> record_fits(#[trigger] tile_record(data@, k)),
            decreases tile_count - n,
        {
            let tile = Tile::new(get_u32_le(data, position));
            let x = tile.x() as usize;
            let y = tile.y() as usize;
            let size: usize = match AnimatedTileKind::try_from_id(tile.id()) {
                Some(kind) => kind.get_tile_size() as usize,
                None => 1,
            };
            proof {
                assert(tile.value == tile_record(data@, n as int));
            }
            if (y + size - 1) * 1024 + (x + size - 1) >= 1048576 {
                return false;
            }
            position = position + 4;
            n = n + 1;
        }
        true
    }

    pub fn new(filename: &str, data: &[u8], door_rng: Option<DoorRng>) -> (r: Result<TileMap, MapError>)
        requires
            map_data_fits(data@),
        ensures
            tile_data_start(data@) >= data@.len() ==> r == Err::<TileMap, MapError>(MapError::InvalidBitmapHeader),
            tile_data_start(data@) < data@.len() ==> (r matches Ok(m) && loaded_map(m, filename@, data@, door_rng)),
    {
        let mut map = Self::empty(filename);
        let mut position: usize = 0;
        map.door_rng = door_rng;
        if data.len() >= 4 {
            if data[0] == 66 && data[1] == 77 {
                position = get_u32_le(data, 2) as usize;
            }
        }
        if position >= data.len() {
            return Err(MapError::InvalidBitmapHeader);
        }
        let tile_count = (data.len() - position) / 4;
        let ghost start = position as int;
        proof {
            assert(map.tiles@ =~= records_loaded(data@, 0).0);
        }
        let mut n: usize = 0;
        while n < tile_count
            invariant
                n <= tile_count,
                start == tile_data_start(data@),
                tile_count == tile_record_count(data@),
                position == start + 4 * n,
                position + 4 * (tile_count - n) <= data@.len(),
                map_data_fits(data@),
                map.wf(),
                map.filename@ == filename@,
                map.bricks@.len() == 0,
                map.door_rng == door_rng,
                map.checksum == 0,
                map.tiles@ == records_loaded(data@, n as int).0,
                forall|k: int| 0 <= k < 7 ==> (#[trigger] map.animated_tiles@[k])@ == records_loaded(data@, n as int).1[k],
                map.doors@ == records_loaded(data@, n as int).2,
            decreases tile_count - n,
        {
            let tile = Tile::new(get_u32_le(data, position));
            let x = tile.x();
            let y = tile.y();
            let tile_id = tile.id();
            proof {
                assert(tile.value == tile_record(data@, n as int));
                assert(record_fits(tile_record(data@, n as int)));
            }
            let ghost prev = records_loaded(data@, n as int);
            if let Some(animated_tile) = AnimatedTileKind::try_from_id(tile_id) {
                let size = animated_tile.get_tile_size();
                let k = animated_tile.index();
                let ghost before_anim = map.animated_tiles@;
                map.animated_tiles[k].push(tile);
                Self::draw_square(&mut map.tiles, x, y, size, tile_id);
                proof {
                    lemma_records_loaded_lists(data@, n as int);
                    assert(records_loaded(data@, n + 1).1 == prev.1.update(k as int, prev.1[k as int].push(tile)));
                    assert(map.animated_tiles@[k as int]@ == before_anim[k as int]@.push(tile));
                    assert forall|j: int| 0 <= j < 7 implies (#[trigger] map.animated_tiles@[j])@ == records_loaded(data@, n + 1).1[j] by {
                        if j != k as int {
                            assert(map.animated_tiles@[j] == before_anim[j]);
                        }
                    }
                    assert(map.tiles@ =~= records_loaded(data@, n + 1).0);
                }
            } else {
                let index: usize = y as usize * 1024 + x as usize;
                map.tiles.set(index, tile_id);
                if tile_id >= TILE_ID_FIRST_DOOR && tile_id <= TILE_ID_LAST_DOOR {
                    map.doors.push(tile);
                }
            }
            assert(position + 4 <= data.len());
            position = position + 4;
            n = n + 1;
        }
        proof {
            assert(n as int == tile_record_count(data@));
        }
        Ok(map)
    }
}


/// The tile grid and bricks after a brick of `frequency` is placed at
/// (x, y) until `end_tick`, in place of a brick there; nothing changes for
/// a tile outside the map.
pub open spec fn brick_inserted(tiles: Seq<u8>, bricks: Seq<Brick>, x: u16, y: u16, frequency: u16, end_tick: GameTick)
    -> (Seq<u8>, Seq<Brick>)
{
    if x >= 1024 || y >= 1024 {
        (tiles, bricks)
    } else {
        let ti = grid_index(x as int, y as int);
        let k = brick_pos(bricks, x, y, 0);
        let tiles1 = if k < bricks.len() { tiles.update(ti, tile_id_of(bricks[k].tile.value)) } else { tiles };
        let bricks1 = if k < bricks.len() { swap_removed_bricks(bricks, k) } else { bricks };
        (tiles1.update(ti, TILE_ID_FAKE_BRICK),
            bricks1.push(Brick { frequency, end_tick, tile: Tile { value: tile_pack(tiles1[ti], x, y) } }))
    }
}

/// The grid and bricks after the first `n` placements of `list`, each a
/// tile (x, y), a frequency and an end tick.
pub open spec fn bricks_inserted_all(tiles: Seq<u8>, bricks: Seq<Brick>, list: Seq<(u16, u16, u16, GameTick)>, n: int)
    -> (Seq<u8>, Seq<Brick>)
    decreases n,
{
    if n <= 0 || n > list.len() {
        (tiles, bricks)
    } else {
        let (t, b) = bricks_inserted_all(tiles, bricks, list, n - 1);
        let (x, y, f, e) = list[n - 1];
        brick_inserted(t, b, x, y, f, e)
    }
}

/// Some brick stands on grid position `g`.
pub open spec fn under_brick(bricks: Seq<Brick>, g: int) -> bool {
    exists|i: int| 0 <= i < bricks.len() && tile_grid_index(#[trigger] bricks[i].tile) == g
}

/// The bricks stand on distinct tiles of the map, each remembering the
/// tile of `original` beneath it, and every other tile is as in `original`.
pub open spec fn bricks_over(tiles: Seq<u8>, bricks: Seq<Brick>, original: Seq<u8>) -> bool {
    &&& tiles.len() == 1048576
    &&& original.len() == 1048576
    &&& bricks_placed(tiles, bricks)
    &&& forall|i: int| 0 <= i < bricks.len() ==> {
        &&& tile_x_of((#[trigger] bricks[i]).tile.value) < 1024
        &&& tile_y_of(bricks[i].tile.value) < 1024
        &&& tile_id_of(bricks[i].tile.value) == original[tile_grid_index(bricks[i].tile)]
    }
    &&& forall|g: int| 0 <= g < 1048576 && !under_brick(bricks, g) ==> #[trigger] tiles[g] == original[g]
}

proof fn lemma_insert_keeps_bricks_over(
    tiles: Seq<u8>,
    bricks: Seq<Brick>,
    original: Seq<u8>,
    x: u16,
    y: u16,
    frequency: u16,
    end_tick: GameTick,
)
    requires
        bricks_over(tiles, bricks, original),
    ensures
        bricks_over(brick_inserted(tiles, bricks, x, y, frequency, end_tick).0,
            brick_inserted(tiles, bricks, x, y, frequency, end_tick).1, original),
{
    if x < 1024 && y < 1024 {
        let ti = grid_index(x as int, y as int);
        let n = bricks.len();
        let k = brick_pos(bricks, x, y, 0);
        lemma_brick_pos_found(bricks, x, y, 0);
        let tiles1 = if k < n { tiles.update(ti, tile_id_of(bricks[k].tile.value)) } else { tiles };
        let bricks1 = if k < n { swap_removed_bricks(bricks, k) } else { bricks };
        let nb = Brick { frequency, end_tick, tile: Tile { value: tile_pack(tiles1[ti], x, y) } };
        let t2 = tiles1.update(ti, TILE_ID_FAKE_BRICK);
        let b2 = bricks1.push(nb);
        lemma_tile_roundtrip(tiles1[ti], x, y);
        assert(tile_grid_index(nb.tile) == ti);
        // No brick but the one found stands on (x, y).
        assert forall|j: int| 0 <= j < n && j != k implies tile_grid_index(#[trigger] bricks[j].tile) != ti by {
            if tile_grid_index(bricks[j].tile) == ti {
                lemma_grid_index_unique(bricks[j].tile, x, y);
                lemma_brick_pos_finds(bricks, x, y, j);
                if k < n {
                    lemma_grid_index_unique(bricks[k].tile, x, y);
                }
            }
        }
        // Where each remaining brick came from.
        let m = |i: int| if k < n && i == k { n - 1 } else { i };
        assert forall|i: int| 0 <= i < bricks1.len() implies #[trigger] bricks1[i] == bricks[m(i)] && m(i) != k && 0 <= m(i) < n by {
        }
        assert(tiles1[ti] == original[ti]) by {
            if k >= n {
                assert(!under_brick(bricks, ti));
            }
        }
        assert forall|i: int| 0 <= i < b2.len() implies t2[tile_grid_index((#[trigger] b2[i]).tile)] == TILE_ID_FAKE_BRICK by {
            if i < bricks1.len() {
                assert(b2[i] == bricks1[i]);
                assert(bricks[m(i)] == bricks1[i]);
            }
        }
        assert forall|i: int, j: int| 0 <= i < b2.len() && 0 <= j < b2.len() && i != j
            implies tile_grid_index(#[trigger] b2[i].tile) != tile_grid_index(#[trigger] b2[j].tile) by {
            if i < bricks1.len() {
                assert(b2[i] == bricks1[i]);
            }
            if j < bricks1.len() {
                assert(b2[j] == bricks1[j]);
            }
            if i < bricks1.len() && j < bricks1.len() {
                assert(bricks[m(i)] == bricks1[i] && bricks[m(j)] == bricks1[j]);
            }
        }
        assert(bricks_placed(t2, b2));
        assert forall|i: int| 0 <= i < b2.len() implies {
            &&& tile_x_of((#[trigger] b2[i]).tile.value) < 1024
            &&& tile_y_of(b2[i].tile.value) < 1024
            &&& tile_id_of(b2[i].tile.value) == original[tile_grid_index(b2[i].tile)]
        } by {
            if i < bricks1.len() {
                assert(b2[i] == bricks1[i]);
                assert(bricks[m(i)] == bricks1[i]);
            }
        }
        assert forall|g: int| 0 <= g < 1048576 && !under_brick(b2, g) implies #[trigger] t2[g] == original[g] by {
            assert(g != ti) by {
                assert(tile_grid_index(b2[b2.len() - 1].tile) == ti);
            }
            assert(!under_brick(bricks, g)) by {
                if under_brick(bricks, g) {
                    let j = choose|j: int| 0 <= j < bricks.len() && tile_grid_index(#[trigger] bricks[j].tile) == g;
                    assert(j != k);
                    let i = if k < n && j == n - 1 { k } else { j };
                    assert(i < bricks1.len());
                    assert(bricks1[i] == bricks[m(i)]);
                    assert(b2[i] == bricks1[i]);
                }
            }
        }
    }
}

proof fn lemma_bricks_restored_at(tiles: Seq<u8>, bricks: Seq<Brick>, original: Seq<u8>, m: int)
    requires
        bricks_over(tiles, bricks, original),
        0 <= m <= bricks.len(),
    ensures
        bricks_restored(tiles, bricks, m).len() == 1048576,
        forall|g: int| 0 <= g < 1048576 ==> #[trigger] bricks_restored(tiles, bricks, m)[g] == if exists|i: int|
            0 <= i < m && tile_grid_index(#[trigger] bricks[i].tile) == g {
            original[g]
        } else {
            tiles[g]
        },
    decreases m,
{
    if m > 0 {
        lemma_bricks_restored_at(tiles, bricks, original, m - 1);
        let b = bricks[m - 1];
        assert(tile_x_of(b.tile.value) < 1024 && tile_y_of(b.tile.value) < 1024);
        assert forall|g: int| 0 <= g < 1048576 implies #[trigger] bricks_restored(tiles, bricks, m)[g] == if exists|i: int|
            0 <= i < m && tile_grid_index(#[trigger] bricks[i].tile) == g {
            original[g]
        } else {
            tiles[g]
        } by {
            if g != tile_grid_index(b.tile) {
                if exists|i: int| 0 <= i < m && tile_grid_index(#[trigger] bricks[i].tile) == g {
                    let i = choose|i: int| 0 <= i < m && tile_grid_index(#[trigger] bricks[i].tile) == g;
                    assert(i < m - 1);
                }
            }
        }
    }
}

/// Clearing the bricks gives back the tiles that every placement since
/// the last clearing covered: from a map without bricks, any placements
/// followed by clearing restore the tile grid.
pub proof fn lemma_clear_after_inserts(tiles: Seq<u8>, list: Seq<(u16, u16, u16, GameTick)>)
    requires
        tiles.len() == 1048576,
    ensures
        ({
            let (t, b) = bricks_inserted_all(tiles, Seq::empty(), list, list.len() as int);
            bricks_restored(t, b, b.len() as int) == tiles
        }),
{
    lemma_inserted_all_over(tiles, list, list.len() as int);
    let (t, b) = bricks_inserted_all(tiles, Seq::empty(), list, list.len() as int);
    lemma_bricks_restored_at(t, b, tiles, b.len() as int);
    assert forall|g: int| 0 <= g < 1048576 implies bricks_restored(t, b, b.len() as int)[g] == tiles[g] by {
        if !(exists|i: int| 0 <= i < b.len() && tile_grid_index(#[trigger] b[i].tile) == g) {
            assert(!under_brick(b, g));
        }
    }
    assert(bricks_restored(t, b, b.len() as int) =~= tiles);
}

proof fn lemma_inserted_all_over(tiles: Seq<u8>, list: Seq<(u16, u16, u16, GameTick)>, n: int)
    requires
        tiles.len() == 1048576,
        0 <= n <= list.len(),
    ensures
        bricks_over(bricks_inserted_all(tiles, Seq::empty(), list, n).0,
            bricks_inserted_all(tiles, Seq::empty(), list, n).1, tiles),
    decreases n,
{
    if n > 0 {
        lemma_inserted_all_over(tiles, list, n - 1);
        let (t, b) = bricks_inserted_all(tiles, Seq::empty(), list, n - 1);
        let (x, y, f, e) = list[n - 1];
        lemma_insert_keeps_bricks_over(t, b, tiles, x, y, f, e);
    } else {
        assert forall|g: int| 0 <= g < 1048576 && !under_brick(Seq::<Brick>::empty(), g) implies #[trigger] tiles[g] == tiles[g] by {}
    }
}


proof fn lemma_door_tile_bit(mode: u32, id: u8)
    requires
        162 <= id <= 169,
    ensures
        door_tile_for(mode, id) == if (mode >> ((id - 162) as u32)) & 1 == 1 { id } else { 170u8 },
{
    let k = (id - 162) as u32;
    assert(forall|m: u32, k: u32| k < 8 ==> (((m & 0xFF) & (1u32 << k) != 0) == ((m >> k) & 1 == 1))) by (bit_vector);
    assert(1u32 << 0u32 == 1 && 1u32 << 1u32 == 2 && 1u32 << 2u32 == 4 && 1u32 << 3u32 == 8 && 1u32 << 4u32 == 16
        && 1u32 << 5u32 == 32 && 1u32 << 6u32 == 64 && 1u32 << 7u32 == 128) by (bit_vector);
    assert(door_bit_mask(k as int) == 1u32 << k);
}

/// After door state `mode` is shown, a door of id 162 + k holds its own id
/// (closed) exactly when bit k of the state is set, and the open tile 170
/// otherwise; it holds for every door that no later door shares a tile with.
pub proof fn lemma_door_shows_state(tiles: Seq<u8>, doors: Seq<Tile>, mode: u32, i: int)
    requires
        0 <= i < doors.len(),
        forall|j: int| 0 <= j < doors.len() ==> tile_grid_index(#[trigger] doors[j]) < tiles.len(),
        162 <= tile_id_of(doors[i].value) <= 169,
        forall|j: int| i < j < doors.len() ==> tile_grid_index(#[trigger] doors[j]) != tile_grid_index(doors[i]),
    ensures
        ({
            let id = tile_id_of(doors[i].value);
            doors_applied(tiles, doors, mode, doors.len() as int)[tile_grid_index(doors[i])]
                == if (mode >> ((id - 162) as u32)) & 1 == 1 { id } else { 170u8 }
        }),
{
    lemma_door_tile_bit(mode, tile_id_of(doors[i].value));
    lemma_door_stays(tiles, doors, mode, i, doors.len() as int);
}

proof fn lemma_door_stays(tiles: Seq<u8>, doors: Seq<Tile>, mode: u32, i: int, n: int)
    requires
        0 <= i < n <= doors.len(),
        forall|j: int| 0 <= j < doors.len() ==> tile_grid_index(#[trigger] doors[j]) < tiles.len(),
        forall|j: int| i < j < doors.len() ==> tile_grid_index(#[trigger] doors[j]) != tile_grid_index(doors[i]),
    ensures
        doors_applied(tiles, doors, mode, n)[tile_grid_index(doors[i])] == door_tile_for(mode, tile_id_of(doors[i].value)),
    decreases n,
{
    lemma_doors_applied_len(tiles, doors, mode, n - 1);
    if n - 1 > i {
        lemma_door_stays(tiles, doors, mode, i, n - 1);
        assert(tile_grid_index(doors[n - 1]) != tile_grid_index(doors[i]));
    }
}

} // verus!
