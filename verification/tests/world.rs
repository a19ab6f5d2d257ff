use rscube::client::Client;
use rscube::protocol::server_packets::{level_load, server_set_block_packet_broadcast};
use rscube::server::{Server, WorldLoadError};
use rscube::text::decode_name;
use std::io::Read;

fn sample_server() -> Server {
    let mut s = Server::new("name", "motd");
    s.world_x = 4;
    s.world_z = 3;
    s.world_y = 2;
    s.spawn_x = 1;
    s.spawn_y = 1;
    s.spawn_z = 2;
    s.world_data = (0..24u8).collect();
    s
}

fn gunzip(bytes: &[u8]) -> Vec<u8> {
    let mut out = Vec::new();
    flate2::read::GzDecoder::new(bytes).read_to_end(&mut out).unwrap();
    out
}

#[test]
fn new_server_is_empty() {
    let s = Server::new("A", "B");
    assert_eq!(s.server_name, "A");
    assert_eq!(s.server_motd, "B");
    assert_eq!(s.software_name, "RSCube 0.0.1");
    assert!(s.clients.is_empty());
    assert!(s.world_data.is_empty());
    assert_eq!((s.world_x, s.world_y, s.world_z), (0, 0, 0));
    assert_eq!((s.spawn_x, s.spawn_y, s.spawn_z), (0, 0, 0));
}

#[test]
fn new_client_has_no_name() {
    let c = Client::new(9);
    assert_eq!(c.player_id, 9);
    assert_eq!(c.player_name, "");
    assert_eq!(c.extension_count_state, 0);
    assert!(!c.fastmap);
    assert_eq!((c.customblocksupportlevel, c.expecting_customblock), (0, 0));
}

#[test]
fn world_file_header_is_little_endian() {
    let s = sample_server();
    let raw = s.world_file();
    assert_eq!(
        &raw[0..18],
        &[0x52, 0x07, 4, 0, 3, 0, 2, 0, 1, 0, 2, 0, 1, 0, 0, 0, 0, 0]
    );
    assert_eq!(&raw[18..], &s.world_data[..]);
}

#[test]
fn world_save_is_gzip_of_the_world_file() {
    let s = sample_server();
    let gz = s.world_save();
    assert_eq!(&gz[0..2], &[0x1f, 0x8b]);
    assert_eq!(gunzip(&gz), s.world_file());
}

#[test]
fn world_load_after_save_restores_the_world() {
    let a = sample_server();
    let gz = a.world_save();
    let mut b = Server::new("other", "other");
    assert!(b.world_load(&gz).is_ok());
    assert_eq!((b.world_x, b.world_y, b.world_z), (4, 2, 3));
    assert_eq!((b.spawn_x, b.spawn_y, b.spawn_z), (1, 1, 2));
    assert_eq!(b.world_data, a.world_data);
    assert_eq!(b.server_name, "other");
}

#[test]
fn world_load_appends_to_existing_blocks() {
    let a = sample_server();
    let mut b = Server::new("b", "b");
    b.world_data = vec![9, 9];
    b.world_load(&a.world_save()).unwrap();
    assert_eq!(b.world_data.len(), 26);
    assert_eq!(&b.world_data[0..2], &[9, 9]);
    assert_eq!(&b.world_data[2..], &a.world_data[..]);
}

#[test]
fn world_load_rejects_what_is_not_gzip() {
    let mut b = Server::new("b", "b");
    b.world_x = 7;
    assert!(matches!(b.world_load(&[1, 2, 3]), Err(WorldLoadError::NotGzip)));
    assert_eq!(b.world_x, 7);
}

#[test]
fn world_load_rejects_a_short_header() {
    let mut b = Server::new("b", "b");
    assert!(matches!(
        b.world_load_decompressed(&[0; 17]),
        Err(WorldLoadError::ShortHeader)
    ));
    let mut enc = flate2::write::GzEncoder::new(Vec::new(), flate2::Compression::default());
    std::io::Write::write_all(&mut enc, &[1, 2, 3]).unwrap();
    let gz = enc.finish().unwrap();
    assert!(matches!(b.world_load(&gz), Err(WorldLoadError::ShortHeader)));
}

#[test]
fn world_load_decompressed_reads_the_header() {
    let mut b = Server::new("b", "b");
    let mut raw = vec![0x52, 0x07, 10, 0, 20, 0, 30, 0, 1, 0, 2, 0, 3, 0, 9, 9, 9, 9];
    raw.extend_from_slice(&[5, 6]);
    b.world_load_decompressed(&raw).unwrap();
    assert_eq!((b.world_x, b.world_z, b.world_y), (10, 20, 30));
    assert_eq!((b.spawn_x, b.spawn_z, b.spawn_y), (1, 2, 3));
    assert_eq!(b.world_data, vec![5, 6]);
}

#[test]
fn set_block_changes_one_block() {
    let mut s = sample_server();
    // index = x + world_x * (z + world_z * y) = 1 + 4 * (2 + 3 * 1) = 21
    let p = server_set_block_packet_broadcast(&mut s, 1, 1, 2, 200);
    assert_eq!(p, vec![0x06, 0, 1, 0, 1, 0, 2, 200]);
    assert_eq!(s.world_data[21], 200);
    let expected: Vec<u8> = (0..24u8).map(|i| if i == 21 { 200 } else { i }).collect();
    assert_eq!(s.world_data, expected);
}

#[test]
fn level_load_sends_volume_and_blocks_gzipped() {
    let mut s = sample_server();
    s.clients.insert(1, Client::new(1));
    let (packets, coords) = level_load(&s, 1);
    assert_eq!(coords, (4, 2, 3, 1, 1, 2));
    let mut joined = Vec::new();
    for p in &packets {
        assert_eq!(p.len(), 1028);
        assert_eq!(p[0], 0x03);
        let n = u16::from_be_bytes([p[1], p[2]]) as usize;
        joined.extend_from_slice(&p[3..3 + n]);
    }
    let payload = gunzip(&joined);
    assert_eq!(&payload[0..4], &[0, 0, 0, 24]);
    assert_eq!(&payload[4..], &s.world_data[..]);
}

#[test]
fn names_are_decoded_leniently_and_trimmed() {
    let mut field = [0x20u8; 64];
    field[..5].copy_from_slice(b"Steve");
    assert_eq!(decode_name(&field), "Steve");
    let bad = [b' ', 0xff, b'x', b' '];
    assert_eq!(decode_name(&bad), "\u{fffd}x");
}

#[test]
fn level_load_for_fastmap_is_raw_deflate_of_the_blocks() {
    let mut s = sample_server();
    let mut c = Client::new(1);
    c.fastmap = true;
    s.clients.insert(1, c);
    let (packets, _) = level_load(&s, 1);
    let mut joined = Vec::new();
    for p in &packets {
        let n = u16::from_be_bytes([p[1], p[2]]) as usize;
        joined.extend_from_slice(&p[3..3 + n]);
    }
    let mut out = Vec::new();
    flate2::read::DeflateDecoder::new(&joined[..]).read_to_end(&mut out).unwrap();
    assert_eq!(out, s.world_data);
}

#[test]
fn trim_drops_unicode_whitespace() {
    let bytes = "\u{3000}\tName\u{a0} ".as_bytes();
    assert_eq!(decode_name(bytes), "Name");
}
