use vstd::prelude::*;
use vstd::slice::slice_subrange;
use vstd::utf8::{decode_utf8, valid_utf8};

use miniz_oxide::inflate::DecompressError;
use miniz_oxide::inflate::decompress_to_vec_zlib;

use crate::net::packet::bytes::{get_u16_le, get_u32_le, read_le_u16, read_le_u32};
use crate::render::layer::Layer;
use crate::render::render_state::{ReferencePoint, reference_point_of};
use crate::render::sprite_renderer::SheetIndex;
use crate::text::str_from_utf8;

verus! {

/// Why a level-object download could not be read.
#[derive(Copy, Clone, Debug, PartialEq, Eq, Structural)]
pub enum LvzError {
    Eof,
    InvalidHeader,
    InvalidSectionHeader,
    InvalidObjectHeader,
    InvalidCompression,
}

/// When a level object is shown.
#[derive(Copy, Clone, Debug, PartialEq, Eq, Structural)]
pub enum DisplayMode {
    ShowAlways,
    EnterZone,
    EnterArena,
    Kill,
    Death,
    ServerControlled,
}

pub open spec fn display_mode_of(value: u16) -> DisplayMode {
    if value == 0 {
        DisplayMode::ShowAlways
    } else if value == 1 {
        DisplayMode::EnterZone
    } else if value == 2 {
        DisplayMode::EnterArena
    } else if value == 3 {
        DisplayMode::Kill
    } else if value == 4 {
        DisplayMode::Death
    } else {
        DisplayMode::ServerControlled
    }
}

impl DisplayMode {
    pub fn from_value(value: u16) -> (r: DisplayMode)
        ensures
            r == display_mode_of(value),
    {
        match value {
            0 => DisplayMode::ShowAlways,
            1 => DisplayMode::EnterZone,
            2 => DisplayMode::EnterArena,
            3 => DisplayMode::Kill,
            4 => DisplayMode::Death,
            _ => DisplayMode::ServerControlled,
        }
    }
}

/// Magic number of a level-object container and of its sections ("CONT").
pub const CONT_MAGIC: u32 = 0x544E4F43;
/// Magic numbers of an object section ("CLV1", "CLV2").
pub const CLV1_MAGIC: u32 = 0x31564C43;
pub const CLV2_MAGIC: u32 = 0x32564C43;

#[derive(Copy, Clone, Debug)]
pub struct LvzHeader {
    pub magic: u32,
    pub section_count: u32,
}

impl LvzHeader {
    /// Reads the 8-byte container header; returns it and the bytes after it.
    pub fn parse(data: &[u8]) -> (r: Option<(LvzHeader, &[u8])>)
        ensures
            data@.len() < 8 ==> r is None,
            data@.len() >= 8 ==> (r matches Some((h, rest)) && h.magic == read_le_u32(data@, 0)
                && h.section_count == read_le_u32(data@, 4) && rest@ == data@.subrange(8, data@.len() as int)),
    {
        if data.len() < 8 {
            return None;
        }
        let header = LvzHeader { magic: get_u32_le(data, 0), section_count: get_u32_le(data, 4) };
        Some((header, slice_subrange(data, 8, data.len())))
    }
}

/// The first zero byte at or after `from`, or the length when there is none.
pub open spec fn nul_pos(d: Seq<u8>, from: int) -> int
    decreases d.len() - from,
{
    if from >= d.len() || from < 0 {
        d.len() as int
    } else if d[from] == 0 {
        from
    } else {
        nul_pos(d, from + 1)
    }
}

proof fn lemma_nul_pos(d: Seq<u8>, from: int)
    requires
        0 <= from <= d.len(),
    ensures
        from <= nul_pos(d, from) <= d.len(),
        nul_pos(d, from) < d.len() ==> d[nul_pos(d, from)] == 0,
    decreases d.len() - from,
{
    if from < d.len() && d[from] != 0 {
        lemma_nul_pos(d, from + 1);
    }
}

/// The zero-terminated text that starts at `from`, with the position after
/// its terminator; none when there is no terminator or it is not UTF-8.
pub open spec fn c_string_at(d: Seq<u8>, from: int) -> Option<(Seq<char>, int)> {
    let n = nul_pos(d, from);
    if n >= d.len() || !valid_utf8(d.subrange(from, n)) {
        None
    } else {
        Some((decode_utf8(d.subrange(from, n)), n + 1))
    }
}

/// Reads the zero-terminated text at `from`.
fn read_c_string(data: &[u8], from: usize) -> (r: Option<(String, usize)>)
    requires
        from <= data@.len(),
    ensures
        match c_string_at(data@, from as int) {
            Some((s, end)) => r matches Some((t, e)) && t@ == s && e == end,
            None => r is None,
        },
{
    let mut n = from;
    while n < data.len()
        invariant_except_break
            from <= n <= data@.len(),
            nul_pos(data@, from as int) == nul_pos(data@, n as int),
        ensures
            n == nul_pos(data@, from as int),
        decreases data@.len() - n,
    {
        if data[n] == 0 {
            break;
        }
        n = n + 1;
    }
    proof {
        lemma_nul_pos(data@, from as int);
    }
    if n >= data.len() {
        return None;
    }
    match str_from_utf8(slice_subrange(data, from, n)) {
        Some(text) => Some((text.to_owned(), n + 1)),
        None => None,
    }
}

pub struct LvzSectionHeader {
    pub magic: u32,
    pub decompressed_size: u32,
    pub timestamp: u32,
    pub compressed_size: u32,
    pub filename: String,
}

/// A section header as read from bytes: the magic number, both sizes, the
/// timestamp, the file name, and the number of bytes it takes.
pub struct SectionHeaderView {
    pub magic: u32,
    pub decompressed_size: u32,
    pub timestamp: u32,
    pub compressed_size: u32,
    pub filename: Seq<char>,
    pub length: int,
}

/// The section header at the start of `d`.
pub open spec fn section_header_at(d: Seq<u8>) -> Option<SectionHeaderView> {
    if d.len() < 16 {
        None
    } else {
        match c_string_at(d, 16) {
            Some((name, end)) => Some(SectionHeaderView {
                magic: read_le_u32(d, 0),
                decompressed_size: read_le_u32(d, 4),
                timestamp: read_le_u32(d, 8),
                compressed_size: read_le_u32(d, 12),
                filename: name,
                length: end,
            }),
            None => None,
        }
    }
}

impl LvzSectionHeader {
    /// Reads a section header: four 32-bit numbers and a zero-terminated
    /// file name. Returns it and the bytes after it.
    pub fn parse(data: &[u8]) -> (r: Option<(LvzSectionHeader, &[u8])>)
        ensures
            match section_header_at(data@) {
                Some(v) => r matches Some((h, rest)) && h.magic == v.magic && h.decompressed_size == v.decompressed_size
                    && h.timestamp == v.timestamp && h.compressed_size == v.compressed_size && h.filename@ == v.filename
                    && rest@ == data@.subrange(v.length, data@.len() as int),
                None => r is None,
            },
    {
        if data.len() < 16 {
            return None;
        }
        let (filename, end) = match read_c_string(data, 16) {
            Some(found) => found,
            None => return None,
        };
        proof {
            lemma_nul_pos(data@, 16);
        }
        let header = LvzSectionHeader {
            magic: get_u32_le(data, 0),
            decompressed_size: get_u32_le(data, 4),
            timestamp: get_u32_le(data, 8),
            compressed_size: get_u32_le(data, 12),
            filename,
        };
        Some((header, slice_subrange(data, end, data.len())))
    }
}

#[derive(Copy, Clone, Debug)]
pub struct ObjectSectionHeader {
    pub magic: u32,
    pub object_count: u32,
    pub image_count: u32,
}

impl ObjectSectionHeader {
    /// Reads the 12-byte header of an object section.
    pub fn parse(data: &[u8]) -> (r: Option<(ObjectSectionHeader, &[u8])>)
        ensures
            data@.len() < 12 ==> r is None,
            data@.len() >= 12 ==> (r matches Some((h, rest)) && h.magic == read_le_u32(data@, 0)
                && h.object_count == read_le_u32(data@, 4) && h.image_count == read_le_u32(data@, 8)
                && rest@ == data@.subrange(12, data@.len() as int)),
    {
        if data.len() < 12 {
            return None;
        }
        let header = ObjectSectionHeader {
            magic: get_u32_le(data, 0),
            object_count: get_u32_le(data, 4),
            image_count: get_u32_le(data, 8),
        };
        Some((header, slice_subrange(data, 12, data.len())))
    }
}

/// Where an on-screen object is placed.
#[derive(Copy, Clone, Debug)]
pub struct ScreenObjectDefinition {
    pub x_reference_point: ReferencePoint,
    pub y_reference_point: ReferencePoint,
}

#[derive(Copy, Clone, Debug)]
pub enum DefinitionKind {
    MapObject,
    Screen(ScreenObjectDefinition),
}

/// A level object as the file describes it.
#[derive(Copy, Clone, Debug)]
pub struct ObjectDefinition {
    pub kind: DefinitionKind,
    pub id: u16,
    pub x: i16,
    pub y: i16,
    pub image_index: u8,
    pub layer: Layer,
    pub display_ticks: u16,
    pub display_mode: DisplayMode,
}

/// The layer numbered `value` in level files.
pub open spec fn layer_of(value: u8) -> Layer {
    if value == 0 {
        Layer::BelowAll
    } else if value == 1 {
        Layer::AfterBackground
    } else if value == 2 {
        Layer::AfterTiles
    } else if value == 3 {
        Layer::AfterWeapons
    } else if value == 4 {
        Layer::AfterShips
    } else if value == 5 {
        Layer::AfterGauges
    } else if value == 6 {
        Layer::AfterChat
    } else {
        Layer::TopMost
    }
}

/// The signed 16-bit number stored little-endian in `d[at]`, `d[at + 1]`.
pub open spec fn signed_le16(d: Seq<u8>, at: int) -> int {
    let raw = d[at] + 256 * d[at + 1];
    if raw >= 32768 { raw - 65536 } else { raw }
}

/// `v` read as a signed 16-bit number.
fn signed_u16(v: u16) -> (r: i16)
    ensures
        r == (if v >= 32768 { v - 65536 } else { v as int }),
{
    if v >= 32768 {
        (v as i32 - 65536) as i16
    } else {
        v as i16
    }
}

/// `v` read as a signed 16-bit number, divided by 16 and rounded down (an
/// arithmetic shift right by four).
fn signed_u16_div16(v: u16) -> (r: i16)
    ensures
        r == (if v >= 32768 { v - 65536 } else { v as int }) / 16,
{
    if v >= 32768 {
        let magnitude: i32 = 65536 - v as i32;
        -((magnitude + 15) / 16) as i16
    } else {
        (v / 16) as i16
    }
}

/// The object definition in the first 10 bytes of `d`.
pub open spec fn object_def_at(d: Seq<u8>) -> ObjectDefinition {
    let object = read_le_u16(d, 0);
    let xp = read_le_u16(d, 2);
    let yp = read_le_u16(d, 4);
    let packed = read_le_u16(d, 8);
    ObjectDefinition {
        kind: if object & 1 != 0 {
            DefinitionKind::MapObject
        } else {
            DefinitionKind::Screen(ScreenObjectDefinition {
                x_reference_point: reference_point_of(xp & 0x0F),
                y_reference_point: reference_point_of(yp & 0x0F),
            })
        },
        id: object >> 1,
        x: if object & 1 != 0 { signed_le16(d, 2) as i16 } else { (signed_le16(d, 2) / 16) as i16 },
        y: if object & 1 != 0 { signed_le16(d, 4) as i16 } else { (signed_le16(d, 4) / 16) as i16 },
        image_index: d[6],
        layer: layer_of(d[7]),
        display_ticks: packed & 0xFFF,
        display_mode: display_mode_of(packed >> 12),
    }
}

impl ObjectDefinition {
    /// Reads a 10-byte object definition: map objects carry world
    /// coordinates, screen objects carry a reference point in the low four
    /// bits of each coordinate.
    pub fn parse(data: &[u8]) -> (r: Option<(ObjectDefinition, &[u8])>)
        ensures
            data@.len() < 10 ==> r is None,
            data@.len() >= 10 ==> (r matches Some((o, rest)) && o == object_def_at(data@)
                && rest@ == data@.subrange(10, data@.len() as int)),
    {
        if data.len() < 10 {
            return None;
        }
        let object = get_u16_le(data, 0);
        let is_map_object = (object & 1) != 0;
        let id = object >> 1;
        let x_packed = get_u16_le(data, 2);
        let y_packed = get_u16_le(data, 4);
        let (x, y, kind) = if is_map_object {
            (signed_u16(x_packed), signed_u16(y_packed), DefinitionKind::MapObject)
        } else {
            let x_reference_point = ReferencePoint::from_value(x_packed & 0x0F);
            let x = signed_u16_div16(x_packed);
            let y_reference_point = ReferencePoint::from_value(y_packed & 0x0F);
            let y = signed_u16_div16(y_packed);
            (x, y, DefinitionKind::Screen(ScreenObjectDefinition { x_reference_point, y_reference_point }))
        };
        let image_index = data[6];
        let layer = Self::get_layer(data[7]);
        let display_packed = get_u16_le(data, 8);
        let display_ticks = display_packed & 0xFFF;
        let display_mode = DisplayMode::from_value(display_packed >> 12);
        let object = ObjectDefinition { kind, id, x, y, image_index, layer, display_ticks, display_mode };
        Some((object, slice_subrange(data, 10, data.len())))
    }

    fn get_layer(value: u8) -> (r: Layer)
        ensures
            r == layer_of(value),
    {
        match value {
            0 => Layer::BelowAll,
            1 => Layer::AfterBackground,
            2 => Layer::AfterTiles,
            3 => Layer::AfterWeapons,
            4 => Layer::AfterShips,
            5 => Layer::AfterGauges,
            6 => Layer::AfterChat,
            _ => Layer::TopMost,
        }
    }
}

/// An animation sheet of a level file: a grid of frames.
pub struct ImageDefinition {
    pub columns: u16,
    pub rows: u16,
    pub duration: u16,
    pub filename: String,
}

/// An image definition as plain values.
pub struct ImageView {
    pub columns: u16,
    pub rows: u16,
    pub duration: u16,
    pub filename: Seq<char>,
}

/// The image definition at the start of `d`, with the bytes it takes.
pub open spec fn image_def_at(d: Seq<u8>) -> Option<(ImageView, int)> {
    if d.len() < 7 {
        None
    } else {
        match c_string_at(d, 6) {
            Some((name, end)) => Some((
                ImageView { columns: read_le_u16(d, 0), rows: read_le_u16(d, 2), duration: read_le_u16(d, 4), filename: name },
                end,
            )),
            None => None,
        }
    }
}

impl ImageDefinition {
    pub open spec fn view(&self) -> ImageView {
        ImageView { columns: self.columns, rows: self.rows, duration: self.duration, filename: self.filename@ }
    }

    /// Reads an image definition: three 16-bit numbers and a zero-terminated
    /// file name.
    pub fn parse(data: &[u8]) -> (r: Option<(ImageDefinition, &[u8])>)
        ensures
            match image_def_at(data@) {
                Some((v, end)) => r matches Some((img, rest)) && img.view() == v && rest@ == data@.subrange(end, data@.len() as int),
                None => r is None,
            },
    {
        if data.len() < 7 {
            return None;
        }
        let columns = get_u16_le(data, 0);
        let rows = get_u16_le(data, 2);
        let duration = get_u16_le(data, 4);
        let (filename, end) = match read_c_string(data, 6) {
            Some(found) => found,
            None => return None,
        };
        proof {
            lemma_nul_pos(data@, 6);
        }
        Some((ImageDefinition { columns, rows, duration, filename }, slice_subrange(data, end, data.len())))
    }
}

/// A file carried in a level-object download.
pub struct LvzFileData {
    pub data: Vec<u8>,
    pub filename: String,
}

/// The objects, images and files of one download.
pub struct LvzContainer {
    pub objects: Vec<ObjectDefinition>,
    pub images: Vec<ImageDefinition>,
    pub files: Vec<LvzFileData>,
}

/// A container as plain values.
pub struct ContainerView {
    pub objects: Seq<ObjectDefinition>,
    pub images: Seq<ImageView>,
    pub files: Seq<(Seq<u8>, Seq<char>)>,
}

/// The first `n` object definitions of `d`, the bytes after them, and
/// whether all `n` could be read (reading stops at the first that cannot).
pub open spec fn objects_read(d: Seq<u8>, n: nat) -> (Seq<ObjectDefinition>, Seq<u8>, bool)
    decreases n,
{
    if n == 0 {
        (Seq::empty(), d, true)
    } else if d.len() < 10 {
        (Seq::empty(), d, false)
    } else {
        let (rest_objects, rest, ok) = objects_read(d.subrange(10, d.len() as int), (n - 1) as nat);
        (seq![object_def_at(d)] + rest_objects, rest, ok)
    }
}

/// The first `n` image definitions of `d`, up to the first that cannot be read.
pub open spec fn images_read(d: Seq<u8>, n: nat) -> Seq<ImageView>
    decreases n,
{
    if n == 0 {
        Seq::empty()
    } else {
        match image_def_at(d) {
            Some((img, end)) => seq![img] + images_read(d.subrange(end, d.len() as int), (n - 1) as nat),
            None => Seq::empty(),
        }
    }
}

/// The container after a section named `filename` with `data` is read: a
/// named or dated section is a file, otherwise it lists objects and images.
pub open spec fn section_read(c: ContainerView, filename: Seq<char>, timestamp: u32, data: Seq<u8>) -> ContainerView {
    if filename.len() > 0 || timestamp != 0 {
        ContainerView { files: c.files.push((data, filename)), ..c }
    } else if data.len() < 12 || (read_le_u32(data, 0) != CLV1_MAGIC && read_le_u32(data, 0) != CLV2_MAGIC) {
        c
    } else {
        let (objects, rest, ok) = objects_read(data.subrange(12, data.len() as int), read_le_u32(data, 4) as nat);
        ContainerView {
            objects: c.objects + objects,
            images: if ok { c.images + images_read(rest, read_le_u32(data, 8) as nat) } else { c.images },
            ..c
        }
    }
}

impl LvzContainer {
    pub open spec fn view(&self) -> ContainerView {
        ContainerView {
            objects: self.objects@,
            images: Seq::new(self.images@.len(), |i: int| self.images@[i].view()),
            files: Seq::new(self.files@.len(), |i: int| (self.files@[i].data@, self.files@[i].filename@)),
        }
    }

    pub fn new() -> (r: LvzContainer)
        ensures
            r.objects@.len() == 0 && r.images@.len() == 0 && r.files@.len() == 0,
    {
        LvzContainer { objects: Vec::new(), images: Vec::new(), files: Vec::new() }
    }

    /// Reads one section's contents into the container.
    fn parse_section(&mut self, header: &LvzSectionHeader, data: &[u8])
        ensures
            final(self).view() == section_read(old(self).view(), header.filename@, header.timestamp, data@),
    {
        let ghost c0 = self.view();
        if !header.filename.as_str().is_empty() || header.timestamp != 0 {
            let mut copy: Vec<u8> = Vec::new();
            crate::net::packet::bytes::push_bytes(&mut copy, data);
            self.files.push(LvzFileData { data: copy, filename: header.filename.clone() });
            proof {
                assert(self.view().files =~= c0.files.push((data@, header.filename@)));
                assert(self.view().images =~= c0.images);
            }
            return;
        }
        let Some((section, remaining)) = ObjectSectionHeader::parse(data) else {
            return;
        };
        if section.magic != CLV1_MAGIC && section.magic != CLV2_MAGIC {
            return;
        }
        let ghost d0 = remaining@;
        let ghost n0 = c0.objects.len() as int;
        let mut rest = remaining;
        let mut k: u32 = 0;
        let mut ok = true;
        while k < section.object_count && ok
            invariant
                k <= section.object_count,
                n0 == c0.objects.len(),
                self.objects@.len() >= n0,
                self.objects@.subrange(0, n0) == c0.objects,
                self.images@ == old(self).images@,
                self.files@ == old(self).files@,
                ok ==> objects_read(d0, section.object_count as nat) == ({
                    let (more, r, fine) = objects_read(rest@, (section.object_count - k) as nat);
                    (self.objects@.subrange(n0, self.objects@.len() as int) + more, r, fine)
                }),
                !ok ==> objects_read(d0, section.object_count as nat) == (self.objects@.subrange(n0, self.objects@.len() as int), rest@, false),
            decreases section.object_count - k, (if ok { 1int } else { 0int }),
        {
            let ghost before = self.objects@;
            match ObjectDefinition::parse(rest) {
                Some((object, after)) => {
                    self.objects.push(object);
                    proof {
                        assert(self.objects@.subrange(0, n0) =~= before.subrange(0, n0));
                        let (more, r, fine) = objects_read(after@, (section.object_count - k - 1) as nat);
                        assert(objects_read(rest@, (section.object_count - k) as nat) == (seq![object] + more, r, fine));
                        assert(before.subrange(n0, before.len() as int) + (seq![object] + more)
                            =~= self.objects@.subrange(n0, self.objects@.len() as int) + more);
                    }
                    rest = after;
                    k = k + 1;
                },
                None => {
                    proof {
                        assert(before.subrange(n0, before.len() as int) + Seq::<ObjectDefinition>::empty()
                            =~= before.subrange(n0, before.len() as int));
                    }
                    ok = false;
                },
            }
        }
        proof {
            if ok {
                assert(self.objects@.subrange(n0, self.objects@.len() as int) + Seq::<ObjectDefinition>::empty()
                    =~= self.objects@.subrange(n0, self.objects@.len() as int));
            }
            assert(self.objects@ =~= c0.objects + self.objects@.subrange(n0, self.objects@.len() as int));
        }
        if !ok {
            proof {
                assert(self.view().images =~= c0.images);
            }
            return;
        }
        let ghost r0 = rest@;
        let ghost m0 = self.images@.len() as int;
        let mut j: u32 = 0;
        let mut reading = true;
        while j < section.image_count && reading
            invariant
                j <= section.image_count,
                self.images@.len() >= m0,
                self.images@.subrange(0, m0) == old(self).images@,
                m0 == old(self).images@.len(),
                self.objects@ == c0.objects + objects_read(d0, section.object_count as nat).0,
                self.files@ == old(self).files@,
                reading ==> images_read(r0, section.image_count as nat)
                    == Seq::new((self.images@.len() - m0) as nat, |i: int| self.images@[m0 + i].view())
                    + images_read(rest@, (section.image_count - j) as nat),
                !reading ==> images_read(r0, section.image_count as nat)
                    == Seq::new((self.images@.len() - m0) as nat, |i: int| self.images@[m0 + i].view()),
            decreases section.image_count - j, (if reading { 1int } else { 0int }),
        {
            let ghost before = self.images@;
            match ImageDefinition::parse(rest) {
                Some((image, after)) => {
                    let ghost v = image.view();
                    self.images.push(image);
                    proof {
                        assert(self.images@.subrange(0, m0) =~= before.subrange(0, m0));
                        assert(Seq::new((self.images@.len() - m0) as nat, |i: int| self.images@[m0 + i].view())
                            =~= Seq::new((before.len() - m0) as nat, |i: int| before[m0 + i].view()).push(v));
                        let tail = images_read(after@, (section.image_count - j - 1) as nat);
                        assert(Seq::new((before.len() - m0) as nat, |i: int| before[m0 + i].view()) + (seq![v] + tail)
                            =~= Seq::new((before.len() - m0) as nat, |i: int| before[m0 + i].view()).push(v) + tail);
                    }
                    rest = after;
                    j = j + 1;
                },
                None => {
                    proof {
                        assert(Seq::new((before.len() - m0) as nat, |i: int| before[m0 + i].view()) + Seq::<ImageView>::empty()
                            =~= Seq::new((before.len() - m0) as nat, |i: int| before[m0 + i].view()));
                    }
                    reading = false;
                },
            }
        }
        proof {
            let added = Seq::new((self.images@.len() - m0) as nat, |i: int| self.images@[m0 + i].view());
            if reading {
                assert(added + Seq::<ImageView>::empty() =~= added);
            }
            assert(self.view().images =~= c0.images + added);
        }
    }
}

#[verifier::external_type_specification]
#[verifier::external_body]
pub struct ExDecompressError(DecompressError);

/// What zlib decompression makes of `data`: the inflated bytes, or none
/// when the data is not a valid zlib stream.
pub uninterp spec fn zlib_decoded(data: Seq<u8>) -> Option<Seq<u8>>;

/// `miniz_oxide::inflate::decompress_to_vec_zlib`: inflates a zlib stream.
/// It fails exactly when `zlib_decoded` has no result; what the inflated
/// bytes are is left to that name.
#[verifier::external_body]
pub(crate) fn inflate_zlib(data: &[u8]) -> (r: Result<Vec<u8>, DecompressError>)
    ensures
        match r {
            Ok(v) => zlib_decoded(data@) == Some(v@),
            Err(_) => zlib_decoded(data@) is None,
        },
{
    decompress_to_vec_zlib(data)
}

/// One section read from the start of `d` into `c`: the bytes after it
/// and the container, or the error that stops the reading.
pub open spec fn section_step(d: Seq<u8>, c: ContainerView) -> Result<(Seq<u8>, ContainerView), LvzError> {
    match section_header_at(d) {
        None => Err(LvzError::Eof),
        Some(h) => {
            let rest = d.subrange(h.length, d.len() as int);
            let after = rest.subrange(h.compressed_size as int, rest.len() as int);
            if h.magic != CONT_MAGIC {
                Err(LvzError::InvalidSectionHeader)
            } else if h.compressed_size != h.decompressed_size {
                match zlib_decoded(rest.subrange(0, h.compressed_size as int)) {
                    None => Err(LvzError::InvalidCompression),
                    Some(out) => Ok((after, section_read(c, h.filename, h.timestamp, out))),
                }
            } else if rest.len() < h.decompressed_size {
                Err(LvzError::Eof)
            } else {
                Ok((after, section_read(c, h.filename, h.timestamp, rest.subrange(0, h.decompressed_size as int))))
            }
        },
    }
}

/// The section at the start of `d` is compressed and claims more bytes
/// than are left.
pub open spec fn step_overruns(d: Seq<u8>) -> bool {
    match section_header_at(d) {
        None => false,
        Some(h) => h.magic == CONT_MAGIC && h.compressed_size != h.decompressed_size
            && h.compressed_size > d.len() - h.length,
    }
}

/// The container once `n` more sections of `d` are read into `c`, or the
/// error that stops the reading.
pub open spec fn sections_read(d: Seq<u8>, n: nat, c: ContainerView) -> Result<ContainerView, LvzError>
    decreases n,
{
    if n == 0 {
        Ok(c)
    } else {
        match section_step(d, c) {
            Err(e) => Err(e),
            Ok((rest, c2)) => sections_read(rest, (n - 1) as nat, c2),
        }
    }
}

/// Reading `n` sections of `d` would take a compressed section longer
/// than the data left.
pub open spec fn sections_overrun(d: Seq<u8>, n: nat) -> bool
    decreases n,
{
    if n == 0 {
        false
    } else if step_overruns(d) {
        true
    } else {
        match section_step(d, empty_container()) {
            Err(_) => false,
            Ok((rest, _)) => sections_overrun(rest, (n - 1) as nat),
        }
    }
}

/// A download whose reading would overrun its data.
pub open spec fn download_overruns(d: Seq<u8>) -> bool {
    d.len() >= 8 && read_le_u32(d, 0) == CONT_MAGIC && sections_overrun(d.subrange(8, d.len() as int), read_le_u32(d, 4) as nat)
}

pub open spec fn empty_container() -> ContainerView {
    ContainerView { objects: Seq::empty(), images: Seq::empty(), files: Seq::empty() }
}

/// What reading a whole download gives: its container, or the error.
pub open spec fn download_read(d: Seq<u8>) -> Result<ContainerView, LvzError> {
    if d.len() < 8 {
        Err(LvzError::Eof)
    } else if read_le_u32(d, 0) != CONT_MAGIC {
        Err(LvzError::InvalidHeader)
    } else {
        sections_read(d.subrange(8, d.len() as int), read_le_u32(d, 4) as nat, empty_container())
    }
}

/// Reads one section from the start of `data` into `container`; returns
/// the bytes after it.
fn read_section<'a>(container: &mut LvzContainer, data: &'a [u8]) -> (r: Result<&'a [u8], LvzError>)
    requires
        !step_overruns(data@),
    ensures
        match section_step(data@, old(container).view()) {
            Ok((rest, c)) => r matches Ok(after) && after@ == rest && final(container).view() == c,
            Err(e) => r matches Err(x) && x == e,
        },
        match (section_step(data@, old(container).view()), section_step(data@, empty_container())) {
            (Ok((a, _)), Ok((b, _))) => a == b,
            (Err(_), Err(_)) => true,
            _ => false,
        },
{
    let Some((section_header, remaining)) = LvzSectionHeader::parse(data) else {
        return Err(LvzError::Eof);
    };
    if section_header.magic != CONT_MAGIC {
        return Err(LvzError::InvalidSectionHeader);
    }
    let ghost h = section_header_at(data@).unwrap();
    assert(remaining@ == data@.subrange(h.length, data@.len() as int));
    assert(h.compressed_size == section_header.compressed_size);
    assert(h.decompressed_size == section_header.decompressed_size);
    assert(h.magic == CONT_MAGIC);
    proof {
        lemma_nul_pos(data@, 16);
    }
    assert(16 < h.length <= data@.len());
    assert(remaining@.len() == data@.len() - h.length);
    assert(section_header.compressed_size != section_header.decompressed_size ==> section_header.compressed_size <= remaining@.len());
    let compressed = section_header.compressed_size as usize;
    if section_header.compressed_size != section_header.decompressed_size {
        let decompressed = match inflate_zlib(slice_subrange(remaining, 0, compressed)) {
            Ok(decompressed) => decompressed,
            Err(_) => return Err(LvzError::InvalidCompression),
        };
        container.parse_section(&section_header, decompressed.as_slice());
    } else {
        if remaining.len() < section_header.decompressed_size as usize {
            return Err(LvzError::Eof);
        }
        container.parse_section(&section_header, slice_subrange(remaining, 0, section_header.decompressed_size as usize));
    }
    Ok(slice_subrange(remaining, compressed, remaining.len()))
}

/// Reads `count` sections of a download into `container`.
fn read_sections(container: &mut LvzContainer, data: &[u8], count: u32) -> (r: Result<(), LvzError>)
    requires
        !sections_overrun(data@, count as nat),
    ensures
        match sections_read(data@, count as nat, old(container).view()) {
            Ok(c) => r is Ok && final(container).view() == c,
            Err(e) => r == Err::<(), LvzError>(e),
        },
{
    let ghost c0 = container.view();
    let mut rest = data;
    let mut k: u32 = 0;
    while k < count
        invariant
            k <= count,
            c0 == old(container).view(),
            !sections_overrun(rest@, (count - k) as nat),
            sections_read(data@, count as nat, c0) == sections_read(rest@, (count - k) as nat, container.view()),
        decreases count - k,
    {
        match read_section(container, rest) {
            Ok(after) => {
                rest = after;
            },
            Err(e) => {
                assert(sections_read(rest@, (count - k) as nat, container.view()) == Err::<ContainerView, LvzError>(e));
                return Err(e);
            },
        }
        k = k + 1;
    }
    Ok(())
}

/// Whether the section at the start of `data` is compressed and claims more
/// bytes than are left.
fn section_overruns(data: &[u8]) -> (r: bool)
    ensures
        r == step_overruns(data@),
{
    match LvzSectionHeader::parse(data) {
        Some((h, rest)) => {
            proof {
                lemma_nul_pos(data@, 16);
            }
            h.magic == CONT_MAGIC && h.compressed_size != h.decompressed_size && h.compressed_size as usize > rest.len()
        },
        None => false,
    }
}

/// Reads `count` sections of a download into `container`, first making sure
/// that no section claims more bytes than are left; gives nothing when one
/// does.
fn read_sections_checked(container: &mut LvzContainer, data: &[u8], count: u32) -> (r: Option<Result<(), LvzError>>)
    ensures
        r is None <==> sections_overrun(data@, count as nat),
        match r {
            Some(x) => match sections_read(data@, count as nat, old(container).view()) {
                Ok(c) => x is Ok && final(container).view() == c,
                Err(e) => x == Err::<(), LvzError>(e),
            },
            None => true,
        },
{
    let ghost c0 = container.view();
    let mut rest = data;
    let mut k: u32 = 0;
    while k < count
        invariant
            k <= count,
            c0 == old(container).view(),
            sections_overrun(data@, count as nat) == sections_overrun(rest@, (count - k) as nat),
            sections_read(data@, count as nat, c0) == sections_read(rest@, (count - k) as nat, container.view()),
        decreases count - k,
    {
        if section_overruns(rest) {
            return None;
        }
        match read_section(container, rest) {
            Ok(after) => {
                rest = after;
            },
            Err(e) => {
                assert(sections_read(rest@, (count - k) as nat, container.view()) == Err::<ContainerView, LvzError>(e));
                return Some(Err(e));
            },
        }
        k = k + 1;
    }
    Some(Ok(()))
}

/// Where the download stands.
#[derive(Copy, Clone, Debug, PartialEq, Eq, Structural)]
pub enum LvzState {
    Downloading,
    Initialization(bool),
    Ready,
}

/// A level object ready to be drawn.
#[derive(Copy, Clone, Debug)]
pub struct LvzObject {
    pub kind: DefinitionKind,
    pub id: u16,
    pub x: i16,
    pub y: i16,
    pub layer: Layer,
    pub display_ticks: u32,
    pub display_mode: DisplayMode,
    pub sheet: SheetIndex,
    pub columns: u16,
    pub rows: u16,
    pub duration: u16,
    pub image_width: u32,
    pub image_height: u32,
    pub remaining_ticks: u32,
}

/// The level objects, the ones shown now (on the map and on screen), and
/// the ones each display mode shows.
pub struct LvzController {
    pub containers: Vec<LvzContainer>,
    pub sheets: Vec<(String, SheetIndex)>,
    pub objects: Vec<LvzObject>,
    pub active_map_objects: Vec<usize>,
    pub active_screen_objects: Vec<usize>,
    pub enter_zone_objects: Vec<usize>,
    pub enter_arena_objects: Vec<usize>,
    pub kill_objects: Vec<usize>,
    pub death_objects: Vec<usize>,
    pub server_objects: Vec<usize>,
    pub state: LvzState,
}

/// The controller's objects and index lists as plain values.
pub struct LvzView {
    pub objects: Seq<LvzObject>,
    pub map: Seq<usize>,
    pub screen: Seq<usize>,
    pub zone: Seq<usize>,
    pub arena: Seq<usize>,
    pub kill: Seq<usize>,
    pub death: Seq<usize>,
    pub server: Seq<usize>,
}

/// Every index in `set` names an object.
pub open spec fn indices_valid(set: Seq<usize>, n: int) -> bool {
    forall|k: int| 0 <= k < set.len() ==> #[trigger] set[k] < n
}

/// One tick of the shown objects in `set`, from position `i` on: their
/// timers run down and those whose timer runs out are no longer shown.
pub open spec fn ticked_set(objects: Seq<LvzObject>, set: Seq<usize>, i: int) -> (Seq<LvzObject>, Seq<usize>)
    decreases set.len() - i,
{
    if i < 0 || i >= set.len() {
        (objects, set)
    } else {
        let idx = set[i] as int;
        let o = objects[idx];
        if o.remaining_ticks > 0 {
            let objs = objects.update(idx, LvzObject { remaining_ticks: (o.remaining_ticks - 1) as u32, ..o });
            if o.remaining_ticks == 1 {
                ticked_set(objs, set.update(i, set.last()).drop_last(), i)
            } else {
                ticked_set(objs, set, i + 1)
            }
        } else {
            ticked_set(objects, set, i + 1)
        }
    }
}

/// `set` without `index`, removed the way the controller removes it.
pub open spec fn index_removed(set: Seq<usize>, index: usize, i: int) -> Seq<usize>
    decreases set.len() - i,
{
    if i < 0 || i >= set.len() {
        set
    } else if set[i] == index {
        index_removed(set.update(i, set.last()).drop_last(), index, i)
    } else {
        index_removed(set, index, i + 1)
    }
}

/// The view after object `index` stops being shown.
pub open spec fn deactivated(v: LvzView, index: usize) -> LvzView {
    if index >= v.objects.len() {
        v
    } else {
        match v.objects[index as int].kind {
            DefinitionKind::MapObject => LvzView { map: index_removed(v.map, index, 0), ..v },
            DefinitionKind::Screen(_) => LvzView { screen: index_removed(v.screen, index, 0), ..v },
        }
    }
}

/// The view after object `index` starts being shown, its timer full.
pub open spec fn activated(v: LvzView, index: usize) -> LvzView {
    if index >= v.objects.len() {
        v
    } else {
        let o = v.objects[index as int];
        let objects = v.objects.update(index as int, LvzObject { remaining_ticks: o.display_ticks, ..o });
        match o.kind {
            DefinitionKind::MapObject => LvzView { objects, map: v.map.push(index), ..v },
            DefinitionKind::Screen(_) => LvzView { objects, screen: v.screen.push(index), ..v },
        }
    }
}

/// The view after the first `n` objects of `list` are shown afresh.
pub open spec fn list_activated(v: LvzView, list: Seq<usize>, n: int) -> LvzView
    decreases n,
{
    if n <= 0 || n > list.len() {
        v
    } else {
        activated(deactivated(list_activated(v, list, n - 1), list[n - 1]), list[n - 1])
    }
}

/// The objects a display mode shows; none for those always shown.
pub open spec fn mode_list(v: LvzView, mode: DisplayMode) -> Seq<usize> {
    match mode {
        DisplayMode::EnterZone => v.zone,
        DisplayMode::EnterArena => v.arena,
        DisplayMode::Kill => v.kill,
        DisplayMode::Death => v.death,
        DisplayMode::ServerControlled => v.server,
        DisplayMode::ShowAlways => Seq::empty(),
    }
}

/// The first object with `id`, or the number of objects.
pub open spec fn id_pos(objects: Seq<LvzObject>, id: u16, from: int) -> int
    decreases objects.len() - from,
{
    if from < 0 || from >= objects.len() {
        objects.len() as int
    } else if objects[from].id == id {
        from
    } else {
        id_pos(objects, id, from + 1)
    }
}

/// The position of the sheet named `name`, or the number of sheets.
pub open spec fn sheet_pos(sheets: Seq<(String, SheetIndex)>, name: Seq<char>, from: int) -> int
    decreases sheets.len() - from,
{
    if from < 0 || from >= sheets.len() {
        sheets.len() as int
    } else if sheets[from].0@ == name {
        from
    } else {
        sheet_pos(sheets, name, from + 1)
    }
}

/// The position of the size entry of `sheet`, or the number of entries.
pub open spec fn size_pos(sizes: Seq<(SheetIndex, u32, u32)>, sheet: SheetIndex, from: int) -> int
    decreases sizes.len() - from,
{
    if from < 0 || from >= sizes.len() {
        sizes.len() as int
    } else if sizes[from].0 == sheet {
        from
    } else {
        size_pos(sizes, sheet, from + 1)
    }
}

/// The view after the object definition `d` of container `c` is turned
/// into an object, when its image and sheet are known.
pub open spec fn object_added(
    v: LvzView,
    d: ObjectDefinition,
    c: ContainerView,
    sheets: Seq<(String, SheetIndex)>,
    sizes: Seq<(SheetIndex, u32, u32)>,
) -> LvzView {
    if d.image_index >= c.images.len() {
        v
    } else {
        let img = c.images[d.image_index as int];
        let sp = sheet_pos(sheets, img.filename, 0);
        if sp >= sheets.len() {
            v
        } else {
            let sheet = sheets[sp].1;
            let zp = size_pos(sizes, sheet, 0);
            if zp >= sizes.len() {
                v
            } else {
                let o = LvzObject {
                    kind: d.kind,
                    id: d.id,
                    x: d.x,
                    y: d.y,
                    layer: d.layer,
                    display_ticks: (d.display_ticks * 10) as u32,
                    display_mode: d.display_mode,
                    sheet,
                    columns: img.columns,
                    rows: img.rows,
                    duration: img.duration,
                    image_width: sizes[zp].1,
                    image_height: sizes[zp].2,
                    remaining_ticks: 0,
                };
                let k = v.objects.len() as usize;
                let w = LvzView { objects: v.objects.push(o), ..v };
                match d.display_mode {
                    DisplayMode::ShowAlways => match d.kind {
                        DefinitionKind::MapObject => LvzView { map: w.map.push(k), ..w },
                        DefinitionKind::Screen(_) => LvzView { screen: w.screen.push(k), ..w },
                    },
                    DisplayMode::EnterZone => LvzView { zone: w.zone.push(k), ..w },
                    DisplayMode::EnterArena => LvzView { arena: w.arena.push(k), ..w },
                    DisplayMode::Kill => LvzView { kill: w.kill.push(k), ..w },
                    DisplayMode::Death => LvzView { death: w.death.push(k), ..w },
                    DisplayMode::ServerControlled => LvzView { server: w.server.push(k), ..w },
                }
            }
        }
    }
}

/// The view after the first `n` object definitions of `c` are turned into objects.
pub open spec fn container_added(
    v: LvzView,
    c: ContainerView,
    sheets: Seq<(String, SheetIndex)>,
    sizes: Seq<(SheetIndex, u32, u32)>,
    n: int,
) -> LvzView
    decreases n,
{
    if n <= 0 || n > c.objects.len() {
        v
    } else {
        object_added(container_added(v, c, sheets, sizes, n - 1), c.objects[n - 1], c, sheets, sizes)
    }
}

/// The view after the objects of the first `n` containers are made.
pub open spec fn containers_added(
    v: LvzView,
    cs: Seq<LvzContainer>,
    sheets: Seq<(String, SheetIndex)>,
    sizes: Seq<(SheetIndex, u32, u32)>,
    n: int,
) -> LvzView
    decreases n,
{
    if n <= 0 || n > cs.len() {
        v
    } else {
        let c = cs[n - 1].view();
        container_added(containers_added(v, cs, sheets, sizes, n - 1), c, sheets, sizes, c.objects.len() as int)
    }
}

/// Removes every occurrence of `index` from `set`.
fn remove_index(set: &mut Vec<usize>, index: usize)
    ensures
        final(set)@ == index_removed(old(set)@, index, 0),
        forall|k: int| 0 <= k < final(set)@.len() ==> old(set)@.contains(#[trigger] final(set)@[k]),
{
    let ghost s0 = set@;
    let mut i: usize = 0;
    while i < set.len()
        invariant
            i <= set@.len(),
            index_removed(s0, index, 0) == index_removed(set@, index, i as int),
            forall|k: int| 0 <= k < set@.len() ==> s0.contains(#[trigger] set@[k]),
        decreases set@.len() - i,
    {
        if set[i] == index {
            let ghost before = set@;
            set.swap_remove(i);
            proof {
                assert forall|k: int| 0 <= k < set@.len() implies s0.contains(#[trigger] set@[k]) by {
                    if k == i {
                        assert(set@[k] == before[before.len() - 1]);
                    } else {
                        assert(set@[k] == before[k]);
                    }
                }
            }
            continue;
        }
        i = i + 1;
    }
}

impl LvzController {
    pub open spec fn view(&self) -> LvzView {
        LvzView {
            objects: self.objects@,
            map: self.active_map_objects@,
            screen: self.active_screen_objects@,
            zone: self.enter_zone_objects@,
            arena: self.enter_arena_objects@,
            kill: self.kill_objects@,
            death: self.death_objects@,
            server: self.server_objects@,
        }
    }

    /// The shown objects are objects.
    pub open spec fn wf(&self) -> bool {
        &&& indices_valid(self.active_map_objects@, self.objects@.len() as int)
        &&& indices_valid(self.active_screen_objects@, self.objects@.len() as int)
    }

    pub fn new() -> (r: LvzController)
        ensures
            r.wf(),
            r.containers@.len() == 0,
            r.sheets@.len() == 0,
            r.objects@.len() == 0,
            r.active_map_objects@.len() == 0 && r.active_screen_objects@.len() == 0,
            r.enter_zone_objects@.len() == 0 && r.enter_arena_objects@.len() == 0,
            r.kill_objects@.len() == 0 && r.death_objects@.len() == 0 && r.server_objects@.len() == 0,
            r.state == LvzState::Downloading,
    {
        LvzController {
            containers: Vec::new(),
            sheets: Vec::new(),
            objects: Vec::new(),
            active_map_objects: Vec::new(),
            active_screen_objects: Vec::new(),
            enter_zone_objects: Vec::new(),
            enter_arena_objects: Vec::new(),
            kill_objects: Vec::new(),
            death_objects: Vec::new(),
            server_objects: Vec::new(),
            state: LvzState::Downloading,
        }
    }

    /// All files are here: the objects are to be made, and the zone's
    /// entry objects shown too when `zone_activation` is set.
    pub fn on_download_complete(&mut self, zone_activation: bool)
        ensures
            final(self).state == LvzState::Initialization(zone_activation),
            final(self).view() == old(self).view(),
            final(self).containers@ == old(self).containers@,
            final(self).sheets@ == old(self).sheets@,
    {
        self.state = LvzState::Initialization(zone_activation);
    }

    fn tick_set(objects: &mut Vec<LvzObject>, set: &mut Vec<usize>)
        requires
            indices_valid(old(set)@, old(objects)@.len() as int),
        ensures
            (final(objects)@, final(set)@) == ticked_set(old(objects)@, old(set)@, 0),
            final(objects)@.len() == old(objects)@.len(),
            indices_valid(final(set)@, final(objects)@.len() as int),
    {
        let ghost o0 = objects@;
        let ghost s0 = set@;
        let mut set_index: usize = 0;
        while set_index < set.len()
            invariant
                set_index <= set@.len(),
                objects@.len() == o0.len(),
                indices_valid(set@, objects@.len() as int),
                ticked_set(o0, s0, 0) == ticked_set(objects@, set@, set_index as int),
            decreases set@.len() - set_index,
        {
            let object_index = set[set_index];
            if objects[object_index].remaining_ticks > 0 {
                let ticks = objects[object_index].remaining_ticks - 1;
                let ghost before_objects = objects@;
                let ghost before_set = set@;
                objects[object_index].remaining_ticks = ticks;
                if ticks == 0 {
                    set.swap_remove(set_index);
                    proof {
                        assert(objects@ =~= before_objects.update(object_index as int,
                            LvzObject { remaining_ticks: ticks, ..before_objects[object_index as int] }));
                        assert(set@ =~= before_set.update(set_index as int, before_set.last()).drop_last());
                        assert forall|k: int| 0 <= k < set@.len() implies #[trigger] set@[k] < objects@.len() by {
                            if k == set_index as int {
                                assert(set@[k] == before_set[before_set.len() - 1]);
                            } else {
                                assert(set@[k] == before_set[k]);
                            }
                        }
                    }
                    continue;
                }
                proof {
                    assert(objects@ =~= before_objects.update(object_index as int,
                        LvzObject { remaining_ticks: ticks, ..before_objects[object_index as int] }));
                }
            }
            set_index = set_index + 1;
        }
    }

    /// One tick: shown objects' timers run down, and those that run out
    /// are no longer shown.
    pub fn tick(&mut self)
        requires
            old(self).wf(),
        ensures
            final(self).wf(),
            ({
                let (objects1, map1) = ticked_set(old(self).objects@, old(self).active_map_objects@, 0);
                let (objects2, screen2) = ticked_set(objects1, old(self).active_screen_objects@, 0);
                &&& final(self).objects@ == objects2
                &&& final(self).active_map_objects@ == map1
                &&& final(self).active_screen_objects@ == screen2
            }),
            final(self).enter_zone_objects@ == old(self).enter_zone_objects@,
            final(self).enter_arena_objects@ == old(self).enter_arena_objects@,
            final(self).kill_objects@ == old(self).kill_objects@,
            final(self).death_objects@ == old(self).death_objects@,
            final(self).server_objects@ == old(self).server_objects@,
            final(self).state == old(self).state,
            final(self).containers@ == old(self).containers@,
            final(self).sheets@ == old(self).sheets@,
    {
        Self::tick_set(&mut self.objects, &mut self.active_map_objects);
        Self::tick_set(&mut self.objects, &mut self.active_screen_objects);
    }

    /// Shows object `index` afresh, its timer full.
    fn activate_index(&mut self, index: usize)
        requires
            old(self).wf(),
        ensures
            final(self).wf(),
            final(self).view() == activated(old(self).view(), index),
            final(self).state == old(self).state,
            final(self).containers@ == old(self).containers@,
            final(self).sheets@ == old(self).sheets@,
    {
        if index >= self.objects.len() {
            return;
        }
        let ticks = self.objects[index].display_ticks;
        self.objects[index].remaining_ticks = ticks;
        match self.objects[index].kind {
            DefinitionKind::MapObject => self.active_map_objects.push(index),
            DefinitionKind::Screen(_) => self.active_screen_objects.push(index),
        }
        proof {
            let v = old(self).view();
            let o = v.objects[index as int];
            assert(self.objects@ =~= v.objects.update(index as int, LvzObject { remaining_ticks: o.display_ticks, ..o }));
        }
    }

    /// Stops showing object `index`.
    fn deactivate_index(&mut self, index: usize)
        requires
            old(self).wf(),
        ensures
            final(self).wf(),
            final(self).view() == deactivated(old(self).view(), index),
            final(self).state == old(self).state,
            final(self).containers@ == old(self).containers@,
            final(self).sheets@ == old(self).sheets@,
    {
        if index >= self.objects.len() {
            return;
        }
        match self.objects[index].kind {
            DefinitionKind::MapObject => remove_index(&mut self.active_map_objects, index),
            DefinitionKind::Screen(_) => remove_index(&mut self.active_screen_objects, index),
        }
    }

    /// Shows afresh every object of a display mode.
    pub fn activate_mode(&mut self, mode: DisplayMode)
        requires
            old(self).wf(),
        ensures
            final(self).wf(),
            final(self).view() == list_activated(old(self).view(), mode_list(old(self).view(), mode),
                mode_list(old(self).view(), mode).len() as int),
            final(self).state == old(self).state,
            final(self).containers@ == old(self).containers@,
            final(self).sheets@ == old(self).sheets@,
    {
        let ghost v0 = self.view();
        let ghost list = mode_list(v0, mode);
        let n = match mode {
            DisplayMode::EnterZone => self.enter_zone_objects.len(),
            DisplayMode::EnterArena => self.enter_arena_objects.len(),
            DisplayMode::Kill => self.kill_objects.len(),
            DisplayMode::Death => self.death_objects.len(),
            DisplayMode::ServerControlled => self.server_objects.len(),
            DisplayMode::ShowAlways => {
                return;
            },
        };
        let mut k: usize = 0;
        while k < n
            invariant
                k <= n,
                n == list.len(),
                list == mode_list(v0, mode),
                mode != DisplayMode::ShowAlways,
                mode_list(self.view(), mode) == list,
                self.wf(),
                self.view() == list_activated(v0, list, k as int),
                self.state == old(self).state,
                self.containers@ == old(self).containers@,
                self.sheets@ == old(self).sheets@,
            decreases n - k,
        {
            let index = match mode {
                DisplayMode::EnterZone => self.enter_zone_objects[k],
                DisplayMode::EnterArena => self.enter_arena_objects[k],
                DisplayMode::Kill => self.kill_objects[k],
                DisplayMode::Death => self.death_objects[k],
                _ => self.server_objects[k],
            };
            self.deactivate_index(index);
            self.activate_index(index);
            k = k + 1;
        }
    }

    pub fn get_object_index_from_id(&self, id: u16) -> (r: Option<usize>)
        ensures
            id_pos(self.objects@, id, 0) < self.objects@.len() ==> r == Some(id_pos(self.objects@, id, 0) as usize),
            id_pos(self.objects@, id, 0) >= self.objects@.len() ==> r is None,
    {
        let mut i: usize = 0;
        while i < self.objects.len()
            invariant
                i <= self.objects@.len(),
                id_pos(self.objects@, id, 0) == id_pos(self.objects@, id, i as int),
            decreases self.objects@.len() - i,
        {
            if self.objects[i].id == id {
                return Some(i);
            }
            i = i + 1;
        }
        None
    }

    /// Shows the object with `id` afresh.
    pub fn activate(&mut self, id: u16)
        requires
            old(self).wf(),
        ensures
            final(self).wf(),
            ({
                let v = old(self).view();
                let k = id_pos(v.objects, id, 0);
                final(self).view() == if k < v.objects.len() {
                    activated(deactivated(v, k as usize), k as usize)
                } else {
                    v
                }
            }),
            final(self).state == old(self).state,
            final(self).containers@ == old(self).containers@,
            final(self).sheets@ == old(self).sheets@,
    {
        self.deactivate(id);
        if let Some(index) = self.get_object_index_from_id(id) {
            self.activate_index(index);
        }
    }

    /// Stops showing the object with `id`.
    pub fn deactivate(&mut self, id: u16)
        requires
            old(self).wf(),
        ensures
            final(self).wf(),
            ({
                let v = old(self).view();
                let k = id_pos(v.objects, id, 0);
                final(self).view() == if k < v.objects.len() { deactivated(v, k as usize) } else { v }
            }),
            final(self).state == old(self).state,
            final(self).containers@ == old(self).containers@,
            final(self).sheets@ == old(self).sheets@,
    {
        if let Some(index) = self.get_object_index_from_id(id) {
            self.deactivate_index(index);
        }
    }

    /// Forgets everything and waits for a new download. Returns the sheets
    /// that were made for it, to be released.
    pub fn clear(&mut self) -> (r: Vec<SheetIndex>)
        ensures
            r@ == Seq::new(old(self).sheets@.len(), |i: int| old(self).sheets@[i].1),
            final(self).wf(),
            final(self).sheets@.len() == 0 && final(self).objects@.len() == 0 && final(self).containers@.len() == 0,
            final(self).active_map_objects@.len() == 0 && final(self).active_screen_objects@.len() == 0,
            final(self).enter_zone_objects@.len() == 0 && final(self).enter_arena_objects@.len() == 0,
            final(self).kill_objects@.len() == 0 && final(self).death_objects@.len() == 0,
            final(self).server_objects@.len() == 0,
            final(self).state == LvzState::Downloading,
    {
        let mut released: Vec<SheetIndex> = Vec::new();
        let mut i: usize = 0;
        while i < self.sheets.len()
            invariant
                i <= self.sheets@.len(),
                released@ == Seq::new(i as nat, |j: int| self.sheets@[j].1),
            decreases self.sheets@.len() - i,
        {
            released.push(self.sheets[i].1);
            i = i + 1;
            assert(released@ =~= Seq::new(i as nat, |j: int| self.sheets@[j].1));
        }
        self.sheets.clear();
        self.objects.clear();
        self.containers.clear();
        self.active_map_objects.clear();
        self.active_screen_objects.clear();
        self.enter_zone_objects.clear();
        self.enter_arena_objects.clear();
        self.kill_objects.clear();
        self.death_objects.clear();
        self.server_objects.clear();
        self.state = LvzState::Downloading;
        released
    }

    /// Reads a downloaded level-object file and keeps its container.
    pub fn handle_download(&mut self, data: &[u8]) -> (r: Result<(), LvzError>)
        requires
            !download_overruns(data@),
        ensures
            match download_read(data@) {
                Ok(c) => {
                    &&& r is Ok
                    &&& final(self).containers@.len() == old(self).containers@.len() + 1
                    &&& final(self).containers@.drop_last() == old(self).containers@
                    &&& final(self).containers@.last().view() == c
                },
                Err(e) => r == Err::<(), LvzError>(e) && final(self).containers@ == old(self).containers@,
            },
            final(self).view() == old(self).view(),
            final(self).sheets@ == old(self).sheets@,
            final(self).state == old(self).state,
    {
        let Some((header, rest)) = LvzHeader::parse(data) else {
            return Err(LvzError::Eof);
        };
        if header.magic != CONT_MAGIC {
            return Err(LvzError::InvalidHeader);
        }
        let mut container = LvzContainer::new();
        proof {
            assert(container.view().objects =~= empty_container().objects);
            assert(container.view().images =~= empty_container().images);
            assert(container.view().files =~= empty_container().files);
        }
        match read_sections(&mut container, rest, header.section_count) {
            Ok(()) => {
                self.containers.push(container);
                proof {
                    assert(self.containers@.drop_last() =~= old(self).containers@);
                }
                Ok(())
            },
            Err(e) => Err(e),
        }
    }
}

impl LvzController {
    /// Reads a downloaded level-object file, as `handle_download` does,
    /// when no section in it claims more bytes than are left; gives nothing
    /// and keeps nothing otherwise.
    pub fn try_handle_download(&mut self, data: &[u8]) -> (r: Option<Result<(), LvzError>>)
        ensures
            r is None <==> download_overruns(data@),
            match r {
                None => final(self).containers@ == old(self).containers@,
                Some(x) => match download_read(data@) {
                    Ok(c) => {
                        &&& x is Ok
                        &&& final(self).containers@.len() == old(self).containers@.len() + 1
                        &&& final(self).containers@.drop_last() == old(self).containers@
                        &&& final(self).containers@.last().view() == c
                    },
                    Err(e) => x == Err::<(), LvzError>(e) && final(self).containers@ == old(self).containers@,
                },
            },
            final(self).view() == old(self).view(),
            final(self).sheets@ == old(self).sheets@,
            final(self).state == old(self).state,
    {
        let Some((header, rest)) = LvzHeader::parse(data) else {
            return Some(Err(LvzError::Eof));
        };
        if header.magic != CONT_MAGIC {
            return Some(Err(LvzError::InvalidHeader));
        }
        let mut container = LvzContainer::new();
        proof {
            assert(container.view().objects =~= empty_container().objects);
            assert(container.view().images =~= empty_container().images);
            assert(container.view().files =~= empty_container().files);
        }
        match read_sections_checked(&mut container, rest, header.section_count) {
            None => None,
            Some(Ok(())) => {
                self.containers.push(container);
                proof {
                    assert(self.containers@.drop_last() =~= old(self).containers@);
                }
                Some(Ok(()))
            },
            Some(Err(e)) => Some(Err(e)),
        }
    }
}

impl LvzController {
    /// Keeps the sheet made from the file `filename`; a sheet already kept
    /// under that name is replaced.
    pub fn register_sheet(&mut self, filename: String, sheet: SheetIndex)
        ensures
            ({
                let k = sheet_pos(old(self).sheets@, filename@, 0);
                final(self).sheets@ == if k < old(self).sheets@.len() {
                    old(self).sheets@.update(k, (old(self).sheets@[k].0, sheet))
                } else {
                    old(self).sheets@.push((filename, sheet))
                }
            }),
            final(self).view() == old(self).view(),
            final(self).containers@ == old(self).containers@,
            final(self).state == old(self).state,
    {
        let k = find_sheet(&self.sheets, filename.as_str());
        if k < self.sheets.len() {
            self.sheets[k].1 = sheet;
        } else {
            self.sheets.push((filename, sheet));
        }
    }

    /// Makes the objects of all downloaded containers, given the size of
    /// each sheet, then shows the arena's entry objects (and the zone's,
    /// with `zone_activation`).
    pub fn initialize(&mut self, sheet_sizes: &Vec<(SheetIndex, u32, u32)>, zone_activation: bool)
        requires
            old(self).wf(),
        ensures
            final(self).wf(),
            final(self).state == LvzState::Ready,
            ({
                let v1 = containers_added(old(self).view(), old(self).containers@, old(self).sheets@, sheet_sizes@,
                    old(self).containers@.len() as int);
                let v2 = if zone_activation { list_activated(v1, v1.zone, v1.zone.len() as int) } else { v1 };
                final(self).view() == list_activated(v2, v2.arena, v2.arena.len() as int)
            }),
    {
        let ghost v0 = self.view();
        let ghost cs = self.containers@;
        let ghost sheets = self.sheets@;
        let mut ci: usize = 0;
        while ci < self.containers.len()
            invariant
                ci <= cs.len(),
                self.containers@ == cs,
                self.sheets@ == sheets,
                self.wf(),
                self.view() == containers_added(v0, cs, sheets, sheet_sizes@, ci as int),
            decreases cs.len() - ci,
        {
            let n = self.containers[ci].objects.len();
            let ghost c = cs[ci as int].view();
            let ghost start = self.view();
            let mut oi: usize = 0;
            while oi < n
                invariant
                    ci < cs.len(),
                    oi <= n,
                    n == c.objects.len(),
                    c == cs[ci as int].view(),
                    self.containers@ == cs,
                    self.sheets@ == sheets,
                    self.wf(),
                    start == containers_added(v0, cs, sheets, sheet_sizes@, ci as int),
                    self.view() == container_added(start, c, sheets, sheet_sizes@, oi as int),
                decreases n - oi,
            {
                self.add_object(ci, oi, sheet_sizes);
                oi = oi + 1;
            }
            ci = ci + 1;
        }
        self.state = LvzState::Ready;
        if zone_activation {
            self.activate_mode(DisplayMode::EnterZone);
        }
        self.activate_mode(DisplayMode::EnterArena);
    }

    /// Makes the object of definition `oi` of container `ci`.
    fn add_object(&mut self, ci: usize, oi: usize, sheet_sizes: &Vec<(SheetIndex, u32, u32)>)
        requires
            old(self).wf(),
            ci < old(self).containers@.len(),
            oi < old(self).containers@[ci as int].objects@.len(),
        ensures
            final(self).wf(),
            final(self).containers@ == old(self).containers@,
            final(self).sheets@ == old(self).sheets@,
            final(self).state == old(self).state,
            final(self).view() == object_added(old(self).view(), old(self).containers@[ci as int].objects@[oi as int],
                old(self).containers@[ci as int].view(), old(self).sheets@, sheet_sizes@),
    {
        let defn = self.containers[ci].objects[oi];
        let index = defn.image_index as usize;
        if index >= self.containers[ci].images.len() {
            return;
        }
        let image = &self.containers[ci].images[index];
        let sp = find_sheet(&self.sheets, image.filename.as_str());
        if sp >= self.sheets.len() {
            return;
        }
        let sheet = self.sheets[sp].1;
        let zp = find_size(sheet_sizes, sheet);
        if zp >= sheet_sizes.len() {
            return;
        }
        let object = LvzObject {
            kind: defn.kind,
            id: defn.id,
            x: defn.x,
            y: defn.y,
            layer: defn.layer,
            display_ticks: defn.display_ticks as u32 * 10,
            display_mode: defn.display_mode,
            sheet,
            columns: image.columns,
            rows: image.rows,
            duration: image.duration,
            image_width: sheet_sizes[zp].1,
            image_height: sheet_sizes[zp].2,
            remaining_ticks: 0,
        };
        let object_index = self.objects.len();
        self.objects.push(object);
        match defn.display_mode {
            DisplayMode::ShowAlways => match defn.kind {
                DefinitionKind::MapObject => self.active_map_objects.push(object_index),
                DefinitionKind::Screen(_) => self.active_screen_objects.push(object_index),
            },
            DisplayMode::EnterZone => self.enter_zone_objects.push(object_index),
            DisplayMode::EnterArena => self.enter_arena_objects.push(object_index),
            DisplayMode::Kill => self.kill_objects.push(object_index),
            DisplayMode::Death => self.death_objects.push(object_index),
            DisplayMode::ServerControlled => self.server_objects.push(object_index),
        }
    }
}

/// The position of the sheet named `name`.
fn find_sheet(sheets: &Vec<(String, SheetIndex)>, name: &str) -> (r: usize)
    ensures
        r == sheet_pos(sheets@, name@, 0),
{
    let key = name.to_owned();
    let mut i: usize = 0;
    while i < sheets.len()
        invariant
            i <= sheets@.len(),
            key@ == name@,
            sheet_pos(sheets@, name@, 0) == sheet_pos(sheets@, name@, i as int),
        decreases sheets@.len() - i,
    {
        if sheets[i].0 == key {
            return i;
        }
        i = i + 1;
    }
    i
}

/// The position of the size entry of `sheet`.
fn find_size(sizes: &Vec<(SheetIndex, u32, u32)>, sheet: SheetIndex) -> (r: usize)
    ensures
        r == size_pos(sizes@, sheet, 0),
{
    let mut i: usize = 0;
    while i < sizes.len()
        invariant
            i <= sizes@.len(),
            size_pos(sizes@, sheet, 0) == size_pos(sizes@, sheet, i as int),
        decreases sizes@.len() - i,
    {
        if sizes[i].0 == sheet {
            return i;
        }
        i = i + 1;
    }
    i
}

/// Removing an index that does not occur from position `i` on changes nothing.
proof fn lemma_index_removed_absent(set: Seq<usize>, index: usize, i: int)
    requires
        0 <= i <= set.len(),
        forall|j: int| i <= j < set.len() ==> set[j] != index,
    ensures
        index_removed(set, index, i) == set,
    decreases set.len() - i,
{
    if i < set.len() {
        lemma_index_removed_absent(set, index, i + 1);
    }
}

/// After removal from position `i` on, an index that did not occur before `i`
/// occurs nowhere.
proof fn lemma_index_removed_gone(set: Seq<usize>, index: usize, i: int)
    requires
        0 <= i,
        forall|j: int| 0 <= j < i && j < set.len() ==> set[j] != index,
    ensures
        forall|j: int| 0 <= j < index_removed(set, index, i).len() ==> index_removed(set, index, i)[j] != index,
    decreases set.len() - i,
{
    if i < set.len() {
        if set[i] == index {
            let t = set.update(i, set.last()).drop_last();
            assert forall|j: int| 0 <= j < i && j < t.len() implies t[j] != index by {
                assert(t[j] == set[j]);
            }
            lemma_index_removed_gone(t, index, i);
            assert(index_removed(set, index, i) == index_removed(t, index, i));
        } else {
            lemma_index_removed_gone(set, index, i + 1);
            assert(index_removed(set, index, i) == index_removed(set, index, i + 1));
        }
    } else {
        assert(index_removed(set, index, i) == set);
    }
}

/// Removing an index from a set that held it only at its end gives the set
/// without that end.
proof fn lemma_index_removed_pushed(s: Seq<usize>, index: usize, i: int)
    requires
        0 <= i <= s.len(),
        forall|j: int| 0 <= j < s.len() ==> s[j] != index,
    ensures
        index_removed(s.push(index), index, i) == s,
    decreases s.len() - i,
{
    let t = s.push(index);
    if i < s.len() {
        lemma_index_removed_pushed(s, index, i + 1);
    } else {
        assert(t.update(i, t.last()).drop_last() =~= s);
        lemma_index_removed_absent(s, index, i);
    }
}

/// Showing an object that is already shown changes nothing: activating it
/// twice is the same as activating it once.
pub proof fn lemma_activate_idempotent(v: LvzView, k: usize)
    requires
        k < v.objects.len(),
    ensures
        activated(deactivated(activated(deactivated(v, k), k), k), k) == activated(deactivated(v, k), k),
{
    let d = deactivated(v, k);
    let a = activated(d, k);
    match v.objects[k as int].kind {
        DefinitionKind::MapObject => {
            lemma_index_removed_gone(v.map, k, 0);
            lemma_index_removed_pushed(d.map, k, 0);
        },
        DefinitionKind::Screen(_) => {
            lemma_index_removed_gone(v.screen, k, 0);
            lemma_index_removed_pushed(d.screen, k, 0);
        },
    }
    let d2 = deactivated(a, k);
    assert(d2.objects == a.objects);
    let a2 = activated(d2, k);
    assert(a2.objects =~= a.objects);
}


proof fn lemma_index_removed_keeps(set: Seq<usize>, index: usize, i: int, x: usize)
    requires
        0 <= i,
        x != index,
    ensures
        index_removed(set, index, i).contains(x) == set.contains(x),
    decreases set.len() - i,
{
    if i < set.len() {
        if set[i] == index {
            let t = set.update(i, set.last()).drop_last();
            lemma_index_removed_keeps(t, index, i, x);
            if set.contains(x) {
                let j = choose|j: int| 0 <= j < set.len() && set[j] == x;
                if j == set.len() - 1 {
                    assert(t[i] == x);
                } else {
                    assert(t[j] == x);
                }
            }
            if t.contains(x) {
                let j = choose|j: int| 0 <= j < t.len() && t[j] == x;
                if j == i {
                    assert(set[set.len() - 1] == x);
                } else {
                    assert(set[j] == x);
                }
            }
        } else {
            lemma_index_removed_keeps(set, index, i + 1, x);
        }
    }
}

/// After an object is shown afresh it stands exactly once, last, in the
/// list of its kind; every other object is in that list as before, and
/// the other list is untouched.
pub proof fn lemma_activate_once(v: LvzView, k: usize)
    requires
        k < v.objects.len(),
    ensures
        ({
            let a = activated(deactivated(v, k), k);
            let (before, after, other_before, other_after) = match v.objects[k as int].kind {
                DefinitionKind::MapObject => (v.map, a.map, v.screen, a.screen),
                DefinitionKind::Screen(_) => (v.screen, a.screen, v.map, a.map),
            };
            &&& after.len() > 0 && after.last() == k
            &&& forall|j: int| 0 <= j < after.len() - 1 ==> after[j] != k
            &&& forall|x: usize| x != k ==> (after.contains(x) == before.contains(x))
            &&& other_after == other_before
        }),
{
    let list = match v.objects[k as int].kind {
        DefinitionKind::MapObject => v.map,
        DefinitionKind::Screen(_) => v.screen,
    };
    lemma_index_removed_gone(list, k, 0);
    let r = index_removed(list, k, 0);
    assert forall|x: usize| x != k implies (r.push(k).contains(x) == list.contains(x)) by {
        lemma_index_removed_keeps(list, k, 0, x);
        if r.push(k).contains(x) {
            let j = choose|j: int| 0 <= j < r.push(k).len() && r.push(k)[j] == x;
            assert(r[j] == x);
        }
        if r.contains(x) {
            let j = choose|j: int| 0 <= j < r.len() && r[j] == x;
            assert(r.push(k)[j] == x);
        }
    }
    assert forall|j: int| 0 <= j < r.push(k).len() - 1 implies r.push(k)[j] != k by {
        assert(r.push(k)[j] == r[j]);
    }
}


/// Where an object definition puts its object: a map object at the world
/// coordinates in bytes 2..4 (x) and 4..6 (y), read as signed
/// little-endian numbers; a screen object at those numbers divided by 16
/// and rounded down, the low four bits naming the reference point. The
/// object's id is the first field halved.
pub proof fn lemma_object_coordinates(d: Seq<u8>)
    requires
        d.len() >= 10,
    ensures
        ({
            let xr = d[2] + 256 * d[3];
            let yr = d[4] + 256 * d[5];
            let xs = if xr >= 32768 { xr - 65536 } else { xr };
            let ys = if yr >= 32768 { yr - 65536 } else { yr };
            let object = d[0] + 256 * d[1];
            &&& object % 2 == 1 ==> object_def_at(d).x == xs && object_def_at(d).y == ys
            &&& object % 2 == 0 ==> object_def_at(d).x == xs / 16 && object_def_at(d).y == ys / 16
            &&& object_def_at(d).id == object / 2
        }),
{
    let object = read_le_u16(d, 0);
    assert((object & 1 != 0) == (object % 2 == 1) && (object >> 1u16) == object / 2) by (bit_vector);
}

} // verus!
