use rscube::client::Client;
use rscube::dispatch::{client_packet_length, dispatch_packet, DISCONNECT};
use rscube::outgoing::Outgoing;
use rscube::protocol::client_cpe_packets::{
    apply_extension_entry, cpe_client_customblocksupportlevel, cpe_client_extentry, cpe_client_extinfo,
    cpe_client_twowayping,
};
use rscube::protocol::client_packets::{
    chat_reply, client_chat_packet, client_identification_packet, identify_player, login_procedure,
};
use rscube::server::Server;

fn field(text: &str) -> Vec<u8> {
    let mut f = text.as_bytes().to_vec();
    f.resize(64, 0x20);
    f
}

fn server_with(ids: &[i8]) -> Server {
    let mut s = Server::new("srv", "hello");
    s.world_x = 2;
    s.world_y = 2;
    s.world_z = 2;
    s.spawn_x = 1;
    s.spawn_y = 1;
    s.spawn_z = 1;
    s.world_data = vec![1; 8];
    for &id in ids {
        s.clients.insert(id, Client::new(id));
    }
    s
}

fn identification_body(name: &str) -> Vec<u8> {
    let mut body = vec![7];
    body.extend(field(name));
    body.extend(field("key"));
    body.push(0);
    body
}

fn extentry_body(name: &str, version: u32) -> Vec<u8> {
    let mut body = field(name);
    body.extend_from_slice(&version.to_be_bytes());
    body
}

fn extinfo_body(count: i16) -> Vec<u8> {
    let mut body = field("Client");
    body.extend_from_slice(&count.to_be_bytes());
    body
}

fn bytes_to(out: &[Outgoing], id: i8) -> Vec<Vec<u8>> {
    out.iter()
        .filter_map(|o| match o {
            Outgoing::To(t, p) if *t == id => Some(p.clone()),
            _ => None,
        })
        .collect()
}

#[test]
fn packet_lengths_by_id() {
    assert_eq!(client_packet_length(0x00), Some(130));
    assert_eq!(client_packet_length(0x05), Some(8));
    assert_eq!(client_packet_length(0x08), Some(9));
    assert_eq!(client_packet_length(0x0d), Some(65));
    assert_eq!(client_packet_length(0x10), Some(66));
    assert_eq!(client_packet_length(0x11), Some(68));
    assert_eq!(client_packet_length(0x2b), Some(3));
    assert_eq!(client_packet_length(0x13), Some(1));
    assert_eq!(client_packet_length(0x42), None);
    assert_eq!(client_packet_length(DISCONNECT), None);
}

#[test]
fn identification_names_the_player_and_logs_it_in() {
    let mut s = server_with(&[3, 4]);
    let out = dispatch_packet(&mut s, 3, 0x00, &identification_body("Alice"));
    assert_eq!(s.clients[&3].player_name, "Alice");
    assert_eq!(s.clients[&4].player_name, "");
    let to_new = bytes_to(&out, 3);
    assert_eq!(to_new[0].len(), 131);
    assert_eq!(&to_new[0][0..5], &[0x00, 0x07, b's', b'r', b'v']);
    assert_eq!(to_new[1], vec![0x02]);
    let n = to_new.len();
    assert_eq!(to_new[n - 2], vec![0x04, 0, 2, 0, 2, 0, 2]);
    let spawn = &to_new[n - 1];
    assert_eq!(&spawn[0..2], &[0x07, 0xff]);
    assert!(spawn[2..66].iter().all(|&b| b == 0x20));
    assert_eq!(&spawn[66..], &[0, 32, 0, 32, 0, 32, 0, 0]);
    assert!(to_new[2..n - 2].iter().all(|p| p.len() == 1028 && p[0] == 0x03));
    let joined: Vec<&Outgoing> =
        out.iter().filter(|o| matches!(o, Outgoing::Broadcast(_))).collect();
    assert_eq!(joined.len(), 1);
    if let Outgoing::Broadcast(p) = joined[0] {
        let text = b"Alice has joined the world.";
        assert_eq!(&p[0..2], &[0x0d, 0xff]);
        assert_eq!(&p[2..2 + text.len()], text);
        assert!(p[2 + text.len()..].iter().all(|&b| b == 0x20));
    }
}

#[test]
fn login_procedure_ends_with_spawn_at_fixed_point() {
    let mut s = server_with(&[1]);
    s.spawn_x = 0x0801;
    let out = login_procedure(&s, 1);
    let to = bytes_to(&out, 1);
    let spawn = to.last().unwrap();
    // 0x0801 << 5 keeps 16 bits: 0x0020
    assert_eq!(&spawn[66..68], &[0x00, 0x20]);
}

#[test]
fn identification_handler_alone_sends_only_the_login() {
    let mut s = server_with(&[2]);
    let out = client_identification_packet(&mut s, &identification_body("  Bob  "), 2);
    assert_eq!(s.clients[&2].player_name, "Bob");
    assert!(out.iter().all(|o| matches!(o, Outgoing::To(2, _))));
}

#[test]
fn chat_goes_back_to_the_sender_with_its_name() {
    let mut s = server_with(&[5]);
    s.clients.get_mut(&5).unwrap().player_name = String::from("Eve");
    let mut body = vec![0xff];
    body.extend(field("hi"));
    let out = dispatch_packet(&mut s, 5, 0x0d, &body);
    let to = bytes_to(&out, 5);
    assert_eq!(out.len(), to.len());
    // "Eve: " + 64 bytes = 69 bytes: two packets
    assert_eq!(to.len(), 2);
    assert_eq!(&to[0][0..2], &[0x0d, 5]);
    assert_eq!(&to[0][2..9], b"Eve: hi");
    let direct = client_chat_packet(&s, &body, 5);
    assert_eq!(direct.len(), 2);
}

#[test]
fn extinfo_sets_the_expected_entry_count() {
    let mut s = server_with(&[1]);
    let out = dispatch_packet(&mut s, 1, 0x10, &extinfo_body(3));
    assert!(out.is_empty());
    assert_eq!(s.clients[&1].extension_count_state, 3);
    cpe_client_extinfo(&mut s, &extinfo_body(-2), 1);
    assert_eq!(s.clients[&1].extension_count_state, -2);
}

#[test]
fn extentries_count_down_then_log_in() {
    let mut s = server_with(&[1]);
    dispatch_packet(&mut s, 1, 0x10, &extinfo_body(2));
    let first = dispatch_packet(&mut s, 1, 0x11, &extentry_body("FastMap", 1));
    assert!(first.is_empty());
    assert!(s.clients[&1].fastmap);
    assert_eq!(s.clients[&1].extension_count_state, 1);
    let second = dispatch_packet(&mut s, 1, 0x11, &extentry_body("EnvColors", 1));
    assert_eq!(s.clients[&1].extension_count_state, 0);
    let to = bytes_to(&second, 1);
    assert_eq!(to[0][0..2], [0x00, 0x07]);
    // a FastMap client is told the number of blocks with the level
    assert_eq!(to[1], vec![0x02, 0, 0, 0, 8]);
}

#[test]
fn custom_blocks_waits_for_the_support_level() {
    let mut s = server_with(&[1]);
    s.clients.get_mut(&1).unwrap().extension_count_state = 1;
    let out = cpe_client_extentry(&mut s, &extentry_body("CustomBlocks", 1), 1);
    assert_eq!(s.clients[&1].customblocksupportlevel, 1);
    assert_eq!(s.clients[&1].expecting_customblock, 1);
    assert_eq!(bytes_to(&out, 1), vec![vec![0x13, 0x01]]);
    let login = cpe_client_customblocksupportlevel(&mut s, 1);
    assert_eq!(s.clients[&1].expecting_customblock, 0);
    assert_eq!(bytes_to(&login, 1)[1], vec![0x02]);
    let again = cpe_client_customblocksupportlevel(&mut s, 1);
    assert!(again.is_empty());
}

#[test]
fn ping_from_the_client_is_echoed() {
    let mut s = server_with(&[4]);
    let out = dispatch_packet(&mut s, 4, 0x2b, &[0, 0x12, 0x34]);
    assert_eq!(bytes_to(&out, 4), vec![vec![0x2b, 0, 0x12, 0x34]]);
    assert!(cpe_client_twowayping(&[1, 0x12, 0x34], 4).is_empty());
}

#[test]
fn disconnect_tells_everyone_and_removes_the_player() {
    let mut s = server_with(&[1, 2]);
    s.clients.get_mut(&1).unwrap().player_name = String::from("Al");
    let out = dispatch_packet(&mut s, 1, DISCONNECT, &[]);
    assert!(!s.clients.contains_key(&1));
    assert!(s.clients.contains_key(&2));
    assert_eq!(out.len(), 2);
    match &out[0] {
        Outgoing::Broadcast(p) => assert_eq!(&p[2..24], b"Al has left the world."),
        _ => panic!("expected a broadcast"),
    }
    match &out[1] {
        Outgoing::BroadcastExcept(id, p) => {
            assert_eq!(*id, 1);
            assert_eq!(p, &vec![0x0c, 0x01]);
        }
        _ => panic!("expected a broadcast to the others"),
    }
}

#[test]
fn positions_and_unknown_packets_get_no_answer() {
    let mut s = server_with(&[1]);
    let before = s.world_data.clone();
    assert!(dispatch_packet(&mut s, 1, 0x08, &[1, 0, 1, 0, 2, 0, 3, 4, 5]).is_empty());
    assert!(dispatch_packet(&mut s, 1, 0x42, &[]).is_empty());
    assert_eq!(s.world_data, before);
}

#[test]
fn placing_a_block_sets_it_and_tells_everyone() {
    let mut s = server_with(&[1]);
    // x = 1, y = 1, z = 0: index 1 + 2 * (0 + 2 * 1) = 5
    let out = dispatch_packet(&mut s, 1, 0x05, &[0, 1, 0, 1, 0, 0, 1, 7]);
    assert_eq!(s.world_data, vec![1, 1, 1, 1, 1, 7, 1, 1]);
    assert_eq!(out.len(), 1);
    match &out[0] {
        Outgoing::Broadcast(p) => assert_eq!(p, &vec![0x06, 0, 1, 0, 1, 0, 0, 7]),
        _ => panic!("expected a broadcast"),
    }
}

#[test]
fn destroying_a_block_leaves_air() {
    let mut s = server_with(&[1]);
    let out = dispatch_packet(&mut s, 1, 0x05, &[0, 0, 0, 0, 0, 0, 0, 7]);
    assert_eq!(s.world_data[0], 0);
    match &out[0] {
        Outgoing::Broadcast(p) => assert_eq!(p[7], 0),
        _ => panic!("expected a broadcast"),
    }
}

#[test]
fn a_block_outside_the_world_is_ignored() {
    let mut s = server_with(&[1]);
    let out = dispatch_packet(&mut s, 1, 0x05, &[0, 9, 0, 0, 0, 0, 1, 7]);
    assert!(out.is_empty());
    assert_eq!(s.world_data, vec![1; 8]);
}

#[test]
fn a_cpe_client_gets_the_handshake_before_the_level() {
    let mut s = server_with(&[1]);
    let mut body = identification_body("Cpe");
    body[129] = 0x42;
    let out = dispatch_packet(&mut s, 1, 0x00, &body);
    assert_eq!(s.clients[&1].player_name, "Cpe");
    let to = bytes_to(&out, 1);
    assert_eq!(to.len(), 4);
    assert_eq!(to[0].len(), 67);
    assert_eq!(&to[0][0..13], b"\x10RSCube 0.0.1");
    assert_eq!(&to[0][65..], &[0, 3]);
    assert_eq!(&to[1][0..11], b"\x11TwoWayPing");
    assert_eq!(&to[2][0..13], b"\x11CustomBlocks");
    assert_eq!(&to[3][0..8], b"\x11FastMap");
    assert!(to.iter().skip(1).all(|p| p.len() == 69 && p[65..] == [0, 0, 0, 1]));
    assert!(!to.iter().any(|p| p[0] == 0x03));
}

#[test]
fn full_cpe_login_with_custom_blocks_and_fastmap() {
    let mut s = server_with(&[1]);
    let mut body = identification_body("Cpe");
    body[129] = 0x42;
    dispatch_packet(&mut s, 1, 0x00, &body);
    dispatch_packet(&mut s, 1, 0x10, &extinfo_body(2));
    assert!(dispatch_packet(&mut s, 1, 0x11, &extentry_body("FastMap", 1)).is_empty());
    let reply = dispatch_packet(&mut s, 1, 0x11, &extentry_body("CustomBlocks", 1));
    assert_eq!(bytes_to(&reply, 1), vec![vec![0x13, 0x01]]);
    let login = dispatch_packet(&mut s, 1, 0x13, &[1]);
    assert_eq!(s.clients[&1].expecting_customblock, 0);
    let to = bytes_to(&login, 1);
    assert_eq!(to[0].len(), 131);
    assert_eq!(to[1], vec![0x02, 0, 0, 0, 8]);
    assert_eq!(to[2][0], 0x03);
}

#[test]
fn save_command_saves_instead_of_echoing() {
    let mut s = server_with(&[1]);
    let mut body = vec![0xff];
    body.extend(field("  /save"));
    let out = dispatch_packet(&mut s, 1, 0x0d, &body);
    assert_eq!(out.len(), 1);
    match &out[0] {
        Outgoing::SaveWorld(gz) => {
            let mut raw = Vec::new();
            std::io::Read::read_to_end(&mut flate2::read::GzDecoder::new(&gz[..]), &mut raw)
                .unwrap();
            assert_eq!(raw, s.world_file());
        }
        _ => panic!("expected the world to be saved"),
    }
}

#[test]
fn identify_player_takes_the_name_as_given() {
    let mut s = server_with(&[6]);
    let out = identify_player(&mut s, 6, String::from(" spaced "));
    assert_eq!(s.clients[&6].player_name, " spaced ");
    assert_eq!(bytes_to(&out, 6)[1], vec![0x02]);
}

#[test]
fn chat_reply_prefixes_the_name() {
    let mut s = server_with(&[1]);
    s.clients.get_mut(&1).unwrap().player_name = String::from("Zed");
    let out = chat_reply(&s, 1, "yo");
    let to = bytes_to(&out, 1);
    assert_eq!(to.len(), 1);
    assert_eq!(&to[0][2..9], b"Zed: yo");
    assert!(to[0][9..].iter().all(|&b| b == 0x20));
}

#[test]
fn extension_names_must_match_exactly() {
    let mut s = server_with(&[1]);
    s.clients.get_mut(&1).unwrap().extension_count_state = 5;
    let out = apply_extension_entry(&mut s, 1, &String::from("fastmap"));
    assert!(out.is_empty());
    assert!(!s.clients[&1].fastmap);
    assert_eq!(s.clients[&1].extension_count_state, 4);
    apply_extension_entry(&mut s, 1, &String::from("FastMap"));
    assert!(s.clients[&1].fastmap);
    assert_eq!(s.clients[&1].expecting_customblock, 0);
}

#[test]
fn handling_packets_leaves_world_and_other_players_alone() {
    let mut s = server_with(&[1, 2]);
    s.clients.get_mut(&2).unwrap().player_name = String::from("Other");
    dispatch_packet(&mut s, 1, 0x00, &identification_body("New"));
    dispatch_packet(&mut s, 1, 0x10, &extinfo_body(1));
    dispatch_packet(&mut s, 1, 0x11, &extentry_body("CustomBlocks", 1));
    dispatch_packet(&mut s, 1, DISCONNECT, &[]);
    assert_eq!(s.world_data, vec![1; 8]);
    assert_eq!((s.world_x, s.world_y, s.world_z), (2, 2, 2));
    assert_eq!(s.clients.len(), 1);
    assert_eq!(s.clients[&2].player_name, "Other");
    assert_eq!(s.clients[&2].extension_count_state, 0);
}
