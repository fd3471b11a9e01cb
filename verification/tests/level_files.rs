use miniz_oxide::deflate::compress_to_vec_zlib;
use miniz_oxide::inflate::decompress_to_vec_zlib;
use nullspace::lvz::{
    DefinitionKind, DisplayMode, ImageDefinition, LvzController, LvzError, LvzHeader, LvzSectionHeader,
    LvzState, ObjectDefinition, ObjectSectionHeader, CLV1_MAGIC, CONT_MAGIC,
};
use nullspace::proxy::{map_data_message, map_payload, parse_map_request, ReceiveBuffer};
use nullspace::render::layer::Layer;
use nullspace::render::sprite_renderer::SheetIndex;

/// An object section with one map object (id 5 at 10, -2, image 0, shown
/// always for 3 seconds) and one image "a.bm2" of 2 by 1 frames.
fn object_section(display_mode: u16) -> Vec<u8> {
    let mut s = Vec::new();
    s.extend_from_slice(&CLV1_MAGIC.to_le_bytes());
    s.extend_from_slice(&1u32.to_le_bytes());
    s.extend_from_slice(&1u32.to_le_bytes());
    s.extend_from_slice(&((5u16 << 1) | 1).to_le_bytes());
    s.extend_from_slice(&10i16.to_le_bytes());
    s.extend_from_slice(&(-2i16).to_le_bytes());
    s.push(0);
    s.push(3);
    s.extend_from_slice(&((display_mode << 12) | 300).to_le_bytes());
    s.extend_from_slice(&2u16.to_le_bytes());
    s.extend_from_slice(&1u16.to_le_bytes());
    s.extend_from_slice(&100u16.to_le_bytes());
    s.extend_from_slice(b"a.bm2\0");
    s
}

fn section(body: &[u8], compressed: bool) -> Vec<u8> {
    let stored = if compressed { compress_to_vec_zlib(body, 6) } else { body.to_vec() };
    let mut s = Vec::new();
    s.extend_from_slice(&CONT_MAGIC.to_le_bytes());
    s.extend_from_slice(&(body.len() as u32).to_le_bytes());
    s.extend_from_slice(&0u32.to_le_bytes());
    s.extend_from_slice(&(stored.len() as u32).to_le_bytes());
    s.push(0);
    s.extend_from_slice(&stored);
    s
}

fn download(sections: &[Vec<u8>]) -> Vec<u8> {
    let mut d = Vec::new();
    d.extend_from_slice(&CONT_MAGIC.to_le_bytes());
    d.extend_from_slice(&(sections.len() as u32).to_le_bytes());
    for s in sections {
        d.extend_from_slice(s);
    }
    d
}

#[test]
fn headers_parse() {
    let data = download(&[]);
    let (header, rest) = LvzHeader::parse(&data).unwrap();
    assert_eq!(header.magic, CONT_MAGIC);
    assert_eq!(header.section_count, 0);
    assert!(rest.is_empty());
    assert!(LvzHeader::parse(&data[..7]).is_none());

    let s = section(b"xyz", false);
    let (h, rest) = LvzSectionHeader::parse(&s).unwrap();
    assert_eq!((h.decompressed_size, h.compressed_size, h.timestamp), (3, 3, 0));
    assert_eq!(h.filename, "");
    assert_eq!(rest, b"xyz");
}

#[test]
fn object_definitions_parse() {
    let body = object_section(0);
    let (h, rest) = ObjectSectionHeader::parse(&body).unwrap();
    assert_eq!((h.magic, h.object_count, h.image_count), (CLV1_MAGIC, 1, 1));
    let (o, rest) = ObjectDefinition::parse(rest).unwrap();
    assert!(matches!(o.kind, DefinitionKind::MapObject));
    assert_eq!((o.id, o.x, o.y, o.image_index), (5, 10, -2, 0));
    assert_eq!(o.layer, Layer::AfterWeapons);
    assert_eq!(o.display_ticks, 300);
    assert_eq!(o.display_mode, DisplayMode::ShowAlways);
    let (img, rest) = ImageDefinition::parse(rest).unwrap();
    assert_eq!((img.columns, img.rows, img.duration), (2, 1, 100));
    assert_eq!(img.filename, "a.bm2");
    assert!(rest.is_empty());
}

#[test]
fn display_modes_by_number() {
    assert_eq!(DisplayMode::from_value(0), DisplayMode::ShowAlways);
    assert_eq!(DisplayMode::from_value(2), DisplayMode::EnterArena);
    assert_eq!(DisplayMode::from_value(4), DisplayMode::Death);
    assert_eq!(DisplayMode::from_value(9), DisplayMode::ServerControlled);
}

#[test]
fn download_stored_and_compressed_sections() {
    let mut lvz = LvzController::new();
    let data = download(&[section(&object_section(0), false), section(&object_section(0), true)]);
    assert_eq!(lvz.handle_download(&data), Ok(()));
    assert_eq!(lvz.containers.len(), 1);
    assert_eq!(lvz.containers[0].objects.len(), 2);
    assert_eq!(lvz.containers[0].images.len(), 2);
    assert_eq!(lvz.containers[0].images[1].filename, "a.bm2");
}

#[test]
fn download_errors() {
    let mut lvz = LvzController::new();
    assert_eq!(lvz.handle_download(&[1, 2, 3]), Err(LvzError::Eof));
    let mut bad = download(&[]);
    bad[0] = 0;
    assert_eq!(lvz.handle_download(&bad), Err(LvzError::InvalidHeader));
    let mut bad_section = section(b"abc", false);
    bad_section[0] = 0;
    assert_eq!(lvz.handle_download(&download(&[bad_section])), Err(LvzError::InvalidSectionHeader));
    let mut garbage = section(b"abcdef", false);
    garbage[4] = 99;
    assert_eq!(lvz.handle_download(&download(&[garbage])), Err(LvzError::InvalidCompression));
    let mut short = download(&[section(b"abcdef", false)]);
    short.truncate(short.len() - 2);
    assert_eq!(lvz.handle_download(&short), Err(LvzError::Eof));
    assert!(lvz.containers.is_empty());
}

#[test]
fn overrunning_download_is_not_read() {
    let mut lvz = LvzController::new();
    let mut s = section(b"abcdef", true);
    s[12] = 200;
    assert!(lvz.try_handle_download(&download(&[s])).is_none());
    assert!(lvz.containers.is_empty());
    let good = download(&[section(&object_section(0), true)]);
    assert_eq!(lvz.try_handle_download(&good), Some(Ok(())));
    assert_eq!(lvz.containers.len(), 1);
}

#[test]
fn initialized_objects_show_by_mode() {
    let mut lvz = LvzController::new();
    lvz.handle_download(&download(&[section(&object_section(0), false)])).unwrap();
    lvz.handle_download(&download(&[section(&object_section(2), false)])).unwrap();
    lvz.register_sheet("a.bm2".to_string(), SheetIndex(4));
    lvz.on_download_complete(false);
    assert_eq!(lvz.state, LvzState::Initialization(false));
    lvz.initialize(&vec![(SheetIndex(4), 64, 32)], false);
    assert_eq!(lvz.state, LvzState::Ready);
    assert_eq!(lvz.objects.len(), 2);
    assert_eq!(lvz.objects[0].display_ticks, 3000);
    assert_eq!((lvz.objects[0].image_width, lvz.objects[0].image_height), (64, 32));
    assert_eq!(lvz.active_map_objects.len(), 2);
    assert_eq!(lvz.enter_arena_objects, vec![1]);
    assert_eq!(lvz.objects[1].remaining_ticks, 3000);
}

#[test]
fn objects_without_sheet_are_skipped() {
    let mut lvz = LvzController::new();
    lvz.handle_download(&download(&[section(&object_section(0), false)])).unwrap();
    lvz.initialize(&vec![], false);
    assert!(lvz.objects.is_empty());
}

#[test]
fn activation_by_id_restarts_and_deactivation_hides() {
    let mut lvz = LvzController::new();
    lvz.handle_download(&download(&[section(&object_section(5), false)])).unwrap();
    lvz.register_sheet("a.bm2".to_string(), SheetIndex(4));
    lvz.initialize(&vec![(SheetIndex(4), 64, 32)], false);
    assert!(lvz.active_map_objects.is_empty());
    assert_eq!(lvz.get_object_index_from_id(5), Some(0));
    assert_eq!(lvz.get_object_index_from_id(6), None);
    lvz.activate(5);
    lvz.activate(5);
    assert_eq!(lvz.active_map_objects, vec![0]);
    lvz.tick();
    assert_eq!(lvz.objects[0].remaining_ticks, 2999);
    lvz.deactivate(5);
    assert!(lvz.active_map_objects.is_empty());
}

#[test]
fn map_payload_compresses_the_map_only() {
    let raw = vec![7u8; 1000];
    let packed = map_payload(&raw, 0);
    assert_ne!(packed, raw);
    assert_eq!(decompress_to_vec_zlib(&packed).unwrap(), raw);
    assert_eq!(map_payload(&raw, 1), raw);
}

#[test]
fn map_data_message_frames_payload() {
    let m = map_data_message(&[1, 2, 3], "map.lvl");
    assert_eq!(&m[0..4], &20u32.to_le_bytes());
    assert_eq!(&m[4..6], &[0, 0x2A]);
    assert_eq!(&m[6..13], b"map.lvl");
    assert_eq!(&m[13..22], &[0u8; 9]);
    assert_eq!(&m[22..], &[1, 2, 3]);
}

#[test]
fn map_request_names_file() {
    let mut packet = Vec::new();
    packet.extend_from_slice(b"zone.lvl\0\0\0\0\0\0\0\0");
    packet.extend_from_slice(&0xDEADBEEFu32.to_le_bytes());
    packet.extend_from_slice(&2u16.to_le_bytes());
    packet.extend_from_slice(&[9, 9]);
    let r = parse_map_request(&packet);
    assert_eq!(r.filename.as_deref(), Some("zone.lvl"));
    assert_eq!(r.checksum, 0xDEADBEEF);
    assert_eq!(r.index, 2);
}

#[test]
fn receive_buffer_waits_for_whole_message() {
    let mut b = ReceiveBuffer::new();
    b.buffer[0..4].copy_from_slice(&3u32.to_le_bytes());
    assert!(b.process(4).is_none());
    assert_eq!(b.offset, 4);
    assert!(b.process(3).is_none());
    let whole = b.process(1).unwrap();
    assert_eq!(whole.len(), 8);
    assert_eq!(&whole[0..4], &3u32.to_le_bytes());
    assert_eq!(b.offset, 0);
}
