//! How the server reads the stream of packets from a client and what it does
//! with each one.
//!
//! Every packet starts with its id, and each id the server knows has a body
//! of fixed size.  Besides the packets of the protocol, the marker
//! [`DISCONNECT`] stands for a player whose connection has closed.

use crate::client::Client;
use crate::compress::gzip_of;
use crate::outgoing::{broadcasts, outgoing_view, push_broadcasts, sends_to, Outgoing, OutgoingView};
use crate::protocol::client_cpe_packets::{
    cpe_client_customblocksupportlevel, cpe_client_extentry, cpe_client_extinfo,
    cpe_client_twowayping, customblock_level_outgoing, customblock_level_state,
    extentry_outgoing, extentry_state, extinfo_state, twowayping_outgoing,
};
use crate::protocol::server_cpe_packets::twowayping_bytes;
use crate::protocol::client_packets::{
    chat_message, chat_outgoing, client_chat_packet, client_identification_packet,
    client_position_packet, client_set_block_packet, cpe_marker, identification_outgoing,
    identified, place_block, place_block_outgoing, place_block_state, set_block_from,
};
use crate::protocol::server_packets::{
    chat_chunks, despawn_player_bytes, despawn_player_broadcast, server_chat_packet_broadcast,
    world_volume,
};
use crate::server::{world_file_bytes, Server, ServerView};
use crate::text::{lossy_utf8_of, trimmed};
use crate::wire::{be16_at, i8_bits};
use vstd::prelude::*;
use vstd::utf8::encode_utf8;

verus! {

broadcast use vstd::std_specs::hash::group_hash_axioms;

/// The marker handed to [`dispatch_packet`] when a player's connection has
/// closed.  No packet of the protocol has this id.
pub const DISCONNECT: u8 = 255;

/// The size of the body that follows each packet id a client may send;
/// `None` for an id the server does not accept, on which it closes the
/// connection.
pub open spec fn client_packet_size(packet_id: u8) -> Option<nat> {
    if packet_id == 0x00 {
        Some(130)
    } else if packet_id == 0x05 {
        Some(8)
    } else if packet_id == 0x08 {
        Some(9)
    } else if packet_id == 0x0d {
        Some(65)
    } else if packet_id == 0x10 {
        Some(66)
    } else if packet_id == 0x11 {
        Some(68)
    } else if packet_id == 0x13 {
        Some(1)
    } else if packet_id == 0x2b {
        Some(3)
    } else {
        None
    }
}

/// The size of the body that follows the packet id `packet_id`: see
/// [`client_packet_size`].
pub fn client_packet_length(packet_id: u8) -> (n: Option<usize>)
    ensures
        match n {
            Some(k) => client_packet_size(packet_id) == Some(k as nat),
            None => client_packet_size(packet_id) is None,
        },
{
    match packet_id {
        0x00 => Some(130),
        0x05 => Some(8),
        0x08 => Some(9),
        0x0d => Some(65),
        0x10 => Some(66),
        0x11 => Some(68),
        0x13 => Some(1),
        0x2b => Some(3),
        _ => None,
    }
}

/// The chat line that announces a player's arrival.
pub open spec fn joined_line(name: Seq<char>) -> Seq<char> {
    name + " has joined the world."@
}

/// The chat line that announces a player's departure.
pub open spec fn left_line(name: Seq<char>) -> Seq<char> {
    name + " has left the world."@
}

/// What [`dispatch_packet`] needs to run: a body as long as the packet id
/// asks for, the player known to the server where the packet concerns its
/// state, and a world whose number of blocks fits in 32 bits where a login
/// may follow.
pub open spec fn dispatch_requires(s: ServerView, player_id: i8, packet_id: u8, data: Seq<u8>) -> bool {
    &&& (client_packet_size(packet_id) matches Some(n) ==> data.len() >= n)
    &&& (packet_id == 0x00 || packet_id == 0x0d || packet_id == 0x10 || packet_id == 0x11
        || packet_id == 0x13 || packet_id == DISCONNECT) ==> s.clients.contains_key(player_id)
    &&& packet_id == 0x00 && data[129] != cpe_marker() ==> world_volume(s) <= u32::MAX
    &&& packet_id == 0x13 && s.clients[player_id].expecting_customblock == 1 ==> world_volume(s)
        <= u32::MAX
    &&& packet_id == 0x11 ==> {
        &&& s.clients[player_id].extension_count_state > i16::MIN
        &&& s.clients[player_id].extension_count_state == 1 ==> world_volume(s) <= u32::MAX
    }
}

/// The server's state after it has handled `packet_id` with body `data` from
/// `player_id`.
pub open spec fn dispatch_state(s: ServerView, player_id: i8, packet_id: u8, data: Seq<u8>) -> ServerView {
    if packet_id == 0x00 {
        identified(s, data, player_id)
    } else if packet_id == 0x05 {
        place_block_state(s, set_block_from(data))
    } else if packet_id == 0x10 {
        extinfo_state(s, data, player_id)
    } else if packet_id == 0x11 {
        extentry_state(s, data, player_id)
    } else if packet_id == 0x13 {
        customblock_level_state(s, player_id)
    } else if packet_id == DISCONNECT {
        ServerView { clients: s.clients.remove(player_id), ..s }
    } else {
        s
    }
}

/// What the server sends when it handles `packet_id` with body `data` from
/// `player_id`: a new player is logged in (or, for a client of the extension
/// protocol, the handshake begins) and everyone told of its arrival; a block
/// change goes to everyone; a chat message goes back to its sender, or saves
/// the world; the extension handshake and pings are answered; everyone is
/// told of a departure, and the others are told to despawn the player who
/// left.  Positions are read and get no answer, nor do unknown packet ids.
pub open spec fn dispatch_outgoing(s: ServerView, player_id: i8, packet_id: u8, data: Seq<u8>) -> Seq<
    OutgoingView,
> {
    if packet_id == 0x00 {
        let s1 = identified(s, data, player_id);
        identification_outgoing(s1, data, player_id) + broadcasts(
            chat_chunks(-1i8, encode_utf8(joined_line(s1.clients[player_id].player_name))),
        )
    } else if packet_id == 0x05 {
        place_block_outgoing(s, set_block_from(data))
    } else if packet_id == 0x0d {
        chat_outgoing(s, player_id, chat_message(data))
    } else if packet_id == 0x11 {
        extentry_outgoing(extentry_state(s, data, player_id), player_id)
    } else if packet_id == 0x13 {
        customblock_level_outgoing(s, player_id)
    } else if packet_id == 0x2b {
        twowayping_outgoing(data, player_id)
    } else if packet_id == DISCONNECT {
        broadcasts(chat_chunks(-1i8, encode_utf8(left_line(s.clients[player_id].player_name))))
            + seq![OutgoingView::BroadcastExcept(player_id, despawn_player_bytes(player_id))]
    } else {
        seq![]
    }
}

/// Nothing to send.
fn no_packets() -> (out: Vec<Outgoing>)
    ensures
        outgoing_view(out@) == Seq::<OutgoingView>::empty(),
{
    let out: Vec<Outgoing> = Vec::new();
    assert(outgoing_view(out@) =~= Seq::<OutgoingView>::empty());
    out
}

/// Handles one packet (or [`DISCONNECT`]) from `player_id`: the server moves
/// to [`dispatch_state`] and the packets of [`dispatch_outgoing`] are to be
/// sent, in order.
pub fn dispatch_packet(server: &mut Server, player_id: i8, packet_id: u8, data: &[u8]) -> (out: Vec<
    Outgoing,
>)
    requires
        dispatch_requires(old(server)@, player_id, packet_id, data@),
    ensures
        final(server)@ == dispatch_state(old(server)@, player_id, packet_id, data@),
        outgoing_view(out@) == dispatch_outgoing(old(server)@, player_id, packet_id, data@),
{
    if packet_id == 0x00 {
        let mut out = client_identification_packet(server, data, player_id);
        assert(server@.clients.contains_key(player_id));
        assert(server.clients@.dom().contains(player_id));
        let client = server.clients.get(&player_id).unwrap();
        assert(client@ == server@.clients[player_id]);
        let mut line = client.player_name.clone();
        line.append(" has joined the world.");
        let packets = server_chat_packet_broadcast(-1, line.as_str());
        push_broadcasts(&mut out, &packets);
        out
    } else if packet_id == 0x05 {
        let request = client_set_block_packet(data);
        place_block(server, request)
    } else if packet_id == 0x08 {
        let _ = client_position_packet(data);
        no_packets()
    } else if packet_id == 0x0d {
        client_chat_packet(server, data, player_id)
    } else if packet_id == 0x10 {
        cpe_client_extinfo(server, data, player_id);
        no_packets()
    } else if packet_id == 0x11 {
        cpe_client_extentry(server, data, player_id)
    } else if packet_id == 0x13 {
        cpe_client_customblocksupportlevel(server, player_id)
    } else if packet_id == 0x2b {
        cpe_client_twowayping(data, player_id)
    } else if packet_id == DISCONNECT {
        assert(server.clients@.dom().contains(player_id));
        let client = server.clients.get(&player_id).unwrap();
        assert(client@ == server@.clients[player_id]);
        let mut line = client.player_name.clone();
        line.append(" has left the world.");
        let packets = server_chat_packet_broadcast(-1, line.as_str());
        let mut out: Vec<Outgoing> = Vec::new();
        push_broadcasts(&mut out, &packets);
        let ghost old_clients = server.clients@;
        let _ = server.clients.remove(&player_id);
        assert(server.clients@.map_values(|c: Client| c@) =~= old_clients.map_values(
            |c: Client| c@,
        ).remove(player_id));
        let ghost before = out@;
        out.push(Outgoing::BroadcastExcept(player_id, despawn_player_broadcast(player_id)));
        assert(outgoing_view(out@) =~= outgoing_view(before).push(
            OutgoingView::BroadcastExcept(player_id, despawn_player_bytes(player_id)),
        ));
        out
    } else {
        no_packets()
    }
}

/// Whatever a player sends, the server's name, message of the day, the
/// size of the world and its spawn point stay as they are, and so do the
/// other players; only a block change touches the blocks, and never their
/// number; the player who sent it stays connected unless the packet is
/// [`DISCONNECT`], after which it is gone.
pub proof fn lemma_dispatch_keeps_world_and_others(
    s: ServerView,
    player_id: i8,
    packet_id: u8,
    data: Seq<u8>,
)
    requires
        dispatch_requires(s, player_id, packet_id, data),
    ensures
        ({
            let s1 = dispatch_state(s, player_id, packet_id, data);
            &&& s1.server_name == s.server_name
            &&& s1.server_motd == s.server_motd
            &&& s1.software_name == s.software_name
            &&& s1.world_data.len() == s.world_data.len()
            &&& packet_id != 0x05 ==> s1.world_data == s.world_data
            &&& s1.world_x == s.world_x && s1.world_y == s.world_y && s1.world_z == s.world_z
            &&& s1.spawn_x == s.spawn_x && s1.spawn_y == s.spawn_y && s1.spawn_z == s.spawn_z
            &&& s1.clients.remove(player_id) == s.clients.remove(player_id)
            &&& s1.clients.contains_key(player_id) == (s.clients.contains_key(player_id)
                && packet_id != DISCONNECT)
        }),
{
    let s1 = dispatch_state(s, player_id, packet_id, data);
    assert(s1.clients.remove(player_id) =~= s.clients.remove(player_id));
}

/// Every player identification packet ends in the announcement of the
/// player's arrival, whatever its last byte (the mark of a client of the
/// extension protocol or not): the packets sent end with the chat packets,
/// from the server (id -1), to every player, of the name that the packet
/// carries, decoded and trimmed, followed by " has joined the world.".
pub proof fn lemma_join_announced(s: ServerView, player_id: i8, data: Seq<u8>)
    requires
        s.clients.contains_key(player_id),
        data.len() >= 130,
    ensures
        ({
            let out = dispatch_outgoing(s, player_id, 0x00, data);
            let joined = broadcasts(
                chat_chunks(
                    -1i8,
                    encode_utf8(
                        trimmed(lossy_utf8_of(data.subrange(1, 65))) + " has joined the world."@,
                    ),
                ),
            );
            &&& out.len() >= joined.len()
            &&& out.subrange(out.len() - joined.len(), out.len() as int) == joined
        }),
{
    let s1 = identified(s, data, player_id);
    assert(s1.clients[player_id].player_name == trimmed(lossy_utf8_of(data.subrange(1, 65))));
    let out = dispatch_outgoing(s, player_id, 0x00, data);
    let first = identification_outgoing(s1, data, player_id);
    let joined = broadcasts(
        chat_chunks(
            -1i8,
            encode_utf8(trimmed(lossy_utf8_of(data.subrange(1, 65))) + " has joined the world."@),
        ),
    );
    assert(out =~= first + joined);
    assert(out.subrange(out.len() - joined.len(), out.len() as int) =~= joined);
}

/// A player's departure: everyone is sent the chat packets, from the server
/// (id -1), of the player's name followed by " has left the world.", then
/// every other player the despawn packet (id 0x0c and the player's id); the
/// player is gone from the server.
pub proof fn lemma_leave_announced(s: ServerView, player_id: i8, data: Seq<u8>)
    requires
        s.clients.contains_key(player_id),
    ensures
        dispatch_outgoing(s, player_id, DISCONNECT, data) == broadcasts(
            chat_chunks(-1i8, encode_utf8(s.clients[player_id].player_name + " has left the world."@)),
        ) + seq![OutgoingView::BroadcastExcept(player_id, seq![0x0cu8, i8_bits(player_id)])],
        !dispatch_state(s, player_id, DISCONNECT, data).clients.contains_key(player_id),
{
    assert(despawn_player_bytes(player_id) =~= seq![0x0cu8, i8_bits(player_id)]);
}

/// A chat message packet: the message, its 64-byte field decoded, is the
/// command "/save" once trimmed, and the world file is saved compressed;
/// any other message goes back to its sender only, as chat packets from the
/// sender's id of the sender's name, a colon and a space, and the message.
pub proof fn lemma_chat_answer(s: ServerView, player_id: i8, data: Seq<u8>)
    requires
        s.clients.contains_key(player_id),
        data.len() >= 65,
    ensures
        ({
            let m = lossy_utf8_of(data.subrange(1, 65));
            dispatch_outgoing(s, player_id, 0x0d, data) == if trimmed(m) == "/save"@ {
                seq![OutgoingView::SaveWorld(gzip_of(world_file_bytes(s)))]
            } else {
                sends_to(
                    player_id,
                    chat_chunks(player_id, encode_utf8(s.clients[player_id].player_name + ": "@ + m)),
                )
            }
        }),
        dispatch_state(s, player_id, 0x0d, data) == s,
{
}

/// A TwoWayPing that the client started (direction 0) is echoed to it
/// unchanged: id 0x2b, direction 0 and the same two data bytes; a reply to
/// the server's own ping gets no answer.  Nothing on the server changes.
pub proof fn lemma_ping_echoed(s: ServerView, player_id: i8, data: Seq<u8>)
    requires
        data.len() >= 3,
    ensures
        dispatch_outgoing(s, player_id, 0x2b, data) == if data[0] == 0 {
            seq![OutgoingView::To(player_id, seq![0x2bu8, 0x00u8, data[1], data[2]])]
        } else {
            seq![]
        },
        dispatch_state(s, player_id, 0x2b, data) == s,
{
    let v = be16_at(data, 1);
    assert(v / 256 == data[1] && v % 256 == data[2]);
    assert(twowayping_bytes(0, v) =~= seq![0x2bu8, 0x00u8, data[1], data[2]]);
}

/// A player's position, and a packet id the server does not accept (other
/// than the [`DISCONNECT`] marker), get no answer and change nothing.
pub proof fn lemma_position_ignored(s: ServerView, player_id: i8, packet_id: u8, data: Seq<u8>)
    requires
        packet_id == 0x08 || (client_packet_size(packet_id) is None && packet_id != DISCONNECT),
    ensures
        dispatch_outgoing(s, player_id, packet_id, data) == Seq::<OutgoingView>::empty(),
        dispatch_state(s, player_id, packet_id, data) == s,
{
}

} // verus!
