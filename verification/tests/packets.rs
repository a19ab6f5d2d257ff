use rscube::protocol::server_cpe_packets::{
    cpe_server_customblocklevelsupport, cpe_server_extentry, cpe_server_extinfo,
    cpe_server_twowayping,
};
use rscube::protocol::server_packets::{
    despawn_player_broadcast, level_init_fastmap, level_chunk_packets, level_finalize, level_init,
    server_chat_packet, server_chat_packet_broadcast, server_identification_packet,
    server_position_packet_broadcast, spawn_player,
};
use rscube::protocol::client_packets::{client_position_packet, client_set_block_packet};
use rscube::outgoing::Outgoing;
use rscube::server::Server;

#[test]
fn level_init_is_one_byte() {
    assert_eq!(level_init(), vec![0x02]);
}

#[test]
fn level_finalize_is_big_endian_sizes() {
    assert_eq!(
        level_finalize(256, 64, 0x1234),
        vec![0x04, 0x01, 0x00, 0x00, 0x40, 0x12, 0x34]
    );
}

#[test]
fn server_identification_pads_with_spaces() {
    let server = Server::new("ab", "cd");
    let p = server_identification_packet(&server);
    let mut expected = vec![0x00, 0x07, b'a', b'b'];
    expected.extend([0x20; 62]);
    expected.extend([b'c', b'd']);
    expected.extend([0x20; 62]);
    expected.push(0x00);
    assert_eq!(p, expected);
}

#[test]
fn server_identification_cuts_long_names_at_64_bytes() {
    let long = "n".repeat(100);
    let server = Server::new(&long, "");
    let p = server_identification_packet(&server);
    assert_eq!(p.len(), 131);
    assert!(p[2..66].iter().all(|&b| b == b'n'));
    assert!(p[66..130].iter().all(|&b| b == 0x20));
    assert_eq!(p[130], 0);
}

#[test]
fn spawn_player_pads_name_with_spaces() {
    let p = spawn_player(-1, "Bob", 32, 64, 0x0102);
    assert_eq!(p.len(), 74);
    assert_eq!(&p[0..2], &[0x07, 0xff]);
    assert_eq!(&p[2..5], b"Bob");
    assert!(p[5..66].iter().all(|&b| b == 0x20));
    assert_eq!(&p[66..74], &[0x00, 0x20, 0x00, 0x40, 0x01, 0x02, 0x00, 0x00]);
}

#[test]
fn spawn_player_sends_a_long_name_whole() {
    let name = "x".repeat(70);
    let p = spawn_player(5, &name, 1, 2, 3);
    assert_eq!(p.len(), 80);
    assert!(p[2..72].iter().all(|&b| b == b'x'));
    assert_eq!(&p[72..], &[0, 1, 0, 2, 0, 3, 0, 0]);
}

#[test]
fn despawn_carries_the_player_id() {
    assert_eq!(despawn_player_broadcast(3), vec![0x0c, 0x03]);
    assert_eq!(despawn_player_broadcast(-2), vec![0x0c, 0xfe]);
}

#[test]
fn chat_of_an_empty_message_is_no_packet() {
    assert!(server_chat_packet(1, "").is_empty());
}

#[test]
fn chat_message_is_cut_into_64_byte_pieces_padded_with_spaces() {
    let message = "a".repeat(65);
    let packets = server_chat_packet(7, &message);
    assert_eq!(packets.len(), 2);
    assert_eq!(packets[0].len(), 66);
    assert_eq!(&packets[0][0..2], &[0x0d, 7]);
    assert!(packets[0][2..].iter().all(|&b| b == b'a'));
    assert_eq!(&packets[1][0..3], &[0x0d, 7, b'a']);
    assert!(packets[1][3..].iter().all(|&b| b == 0x20));
}

#[test]
fn chat_message_of_exactly_64_bytes_is_one_packet() {
    let message = "b".repeat(64);
    let packets = server_chat_packet_broadcast(-1, &message);
    assert_eq!(packets.len(), 1);
    assert_eq!(&packets[0][0..2], &[0x0d, 0xff]);
}

#[test]
fn chat_packets_rejoin_to_the_padded_message() {
    let message = "hello world, this message is long enough to need more than one packet!";
    let packets = server_chat_packet(0, message);
    let text: Vec<u8> = packets.iter().flat_map(|p| p[2..66].to_vec()).collect();
    assert_eq!(text.len(), 128);
    assert_eq!(&text[..message.len()], message.as_bytes());
    assert!(text[message.len()..].iter().all(|&b| b == 0x20));
}

#[test]
fn level_chunks_of_nothing_is_no_packet() {
    assert!(level_chunk_packets(&[]).is_empty());
}

#[test]
fn level_chunks_cut_at_1024_bytes() {
    let data: Vec<u8> = (0..1025u32).map(|i| (i % 251) as u8).collect();
    let packets = level_chunk_packets(&data);
    assert_eq!(packets.len(), 2);
    assert!(packets.iter().all(|p| p.len() == 1028));
    assert_eq!(&packets[0][0..3], &[0x03, 0x04, 0x00]);
    assert_eq!(&packets[0][3..1027], &data[0..1024]);
    assert_eq!(packets[0][1027], 0);
    assert_eq!(&packets[1][0..4], &[0x03, 0x00, 0x01, data[1024]]);
    assert!(packets[1][4..].iter().all(|&b| b == 0));
}

#[test]
fn level_chunks_rejoin_to_the_stream() {
    let data: Vec<u8> = (0..3000u32).map(|i| (i * 7 % 256) as u8).collect();
    let packets = level_chunk_packets(&data);
    assert_eq!(packets.len(), 3);
    let mut joined = Vec::new();
    for p in &packets {
        let n = u16::from_be_bytes([p[1], p[2]]) as usize;
        joined.extend_from_slice(&p[3..3 + n]);
    }
    assert_eq!(joined, data);
}

#[test]
fn position_broadcast_layout() {
    match server_position_packet_broadcast(2, 0x0100, 2, 0xffff, 9, 10) {
        Outgoing::BroadcastExcept(except, p) => {
            assert_eq!(except, 2);
            assert_eq!(p, vec![0x08, 0x02, 0x01, 0x00, 0x00, 0x02, 0xff, 0xff, 9, 10]);
        }
        other => panic!("expected everyone but the caller, got {:?}", other),
    }
}

#[test]
fn position_packet_body_reads_back() {
    let p = match server_position_packet_broadcast(-3, 100, 200, 300, 4, 5) {
        Outgoing::BroadcastExcept(-3, p) => p,
        _ => panic!("expected the packet for everyone but the caller"),
    };
    let read = client_position_packet(&p[1..]);
    assert_eq!(read.player_id, -3);
    assert_eq!((read.x, read.y, read.z), (100, 200, 300));
    assert_eq!((read.yaw, read.pitch), (4, 5));
}

#[test]
fn set_block_body_is_read() {
    let read = client_set_block_packet(&[0, 1, 0, 2, 1, 0, 1, 49]);
    assert_eq!((read.x, read.y, read.z), (1, 2, 256));
    assert_eq!((read.mode, read.block_id), (1, 49));
}

#[test]
fn extinfo_names_the_software() {
    let server = Server::new("s", "m");
    let p = cpe_server_extinfo(&server, 2);
    assert_eq!(p.len(), 67);
    assert_eq!(p[0], 0x10);
    assert_eq!(&p[1..13], b"RSCube 0.0.1");
    assert!(p[13..65].iter().all(|&b| b == 0x20));
    assert_eq!(&p[65..], &[0x00, 0x02]);
    let q = cpe_server_extinfo(&server, -1);
    assert_eq!(&q[65..], &[0xff, 0xff]);
}

#[test]
fn extentry_names_the_extension_and_version() {
    let p = cpe_server_extentry("FastMap", 0x01020304);
    assert_eq!(p.len(), 69);
    assert_eq!(p[0], 0x11);
    assert_eq!(&p[1..8], b"FastMap");
    assert!(p[8..65].iter().all(|&b| b == 0x20));
    assert_eq!(&p[65..], &[1, 2, 3, 4]);
}

#[test]
fn customblock_and_ping_layout() {
    assert_eq!(cpe_server_customblocklevelsupport(1), vec![0x13, 0x01]);
    assert_eq!(cpe_server_twowayping(0, 0xabcd), vec![0x2b, 0x00, 0xab, 0xcd]);
}

#[test]
fn fastmap_level_init_carries_the_volume() {
    assert_eq!(level_init_fastmap(0x01020304), vec![0x02, 1, 2, 3, 4]);
}
