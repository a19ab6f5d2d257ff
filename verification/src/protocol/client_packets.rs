//! The packets of the classic protocol that clients send, and how the server
//! answers them.

use crate::client::{Client, ClientView};
use crate::compress::gzip_of;
use crate::outgoing::{outgoing_view, push_sends_to, sends_to, Outgoing, OutgoingView};
use crate::protocol::server_packets::{
    chat_chunks, level_chunks, level_finalize, level_finalize_bytes, level_init,
    level_init_bytes, level_init_fastmap, level_init_fastmap_bytes, level_load, level_stream,
    position_bytes, server_chat_packet, world_volume_u32, block_in_world, block_in_world_check,
    server_set_block_packet_broadcast, set_block_bytes, with_block,
    server_identification_bytes, server_identification_packet, spawn_player,
    spawn_player_bytes, world_volume,
};
use crate::protocol::server_cpe_packets::{cpe_server_extentry, cpe_server_extinfo, extentry_bytes, extinfo_bytes};
use crate::server::{world_file_bytes, Server, ServerView};
use crate::text::{decode_name, lossy_utf8, lossy_utf8_of, trim, trimmed};
use crate::wire::{be16, be16_at, be32, fill_to, i8_bits, lemma_be16_roundtrip, read_u16_be};
use vstd::prelude::*;
use vstd::slice::slice_subrange;
use vstd::utf8::encode_utf8;

verus! {

broadcast use vstd::std_specs::hash::group_hash_axioms;

/// A block coordinate as a player coordinate, which counts in 32nds of a
/// block, kept to 16 bits.
pub open spec fn block_to_fixed(n: u16) -> u16 {
    ((n as u32 * 32) % 0x1_0000) as u16
}

/// The signed byte whose bit pattern is `b`.
pub open spec fn byte_as_i8(b: u8) -> i8 {
    (if b >= 128 { b - 256 } else { b as int }) as i8
}

/// `s` with the player `id` replaced by `c`.
pub open spec fn with_client(s: ServerView, id: i8, c: ClientView) -> ServerView {
    ServerView { clients: s.clients.insert(id, c), ..s }
}

/// The level initialize packet for the player `id`: with the number of
/// blocks for a player that announced FastMap.
pub open spec fn level_init_for(s: ServerView, id: i8) -> Seq<u8> {
    if s.clients[id].fastmap {
        level_init_fastmap_bytes(world_volume(s) as u32)
    } else {
        level_init_bytes()
    }
}

/// What the server sends a player who logs in: its identification, the level
/// (initialize, the compressed level data in chunks, finalize), and the
/// packet that spawns the player itself at the world's spawn point.
pub open spec fn login_outgoing(s: ServerView, id: i8) -> Seq<OutgoingView> {
    seq![
        OutgoingView::To(id, server_identification_bytes(s.server_name, s.server_motd)),
        OutgoingView::To(id, level_init_for(s, id)),
    ] + sends_to(id, level_chunks(level_stream(s, id))) + seq![
        OutgoingView::To(id, level_finalize_bytes(s.world_x, s.world_y, s.world_z)),
        OutgoingView::To(
            id,
            spawn_player_bytes(
                -1i8,
                Seq::empty(),
                block_to_fixed(s.spawn_x),
                block_to_fixed(s.spawn_y),
                block_to_fixed(s.spawn_z),
            ),
        ),
    ]
}

/// Logs the player `client_id` in: see [`login_outgoing`].  The player must
/// be connected, and the number of blocks of the world must fit in 32 bits.
pub fn login_procedure(server: &Server, client_id: i8) -> (out: Vec<Outgoing>)
    requires
        server@.clients.contains_key(client_id),
        world_volume(server@) <= u32::MAX,
    ensures
        outgoing_view(out@) == login_outgoing(server@, client_id),
        outgoing_view(out@).len() >= 2,
        outgoing_view(out@)[outgoing_view(out@).len() - 2] == OutgoingView::To(
            client_id,
            seq![0x04u8] + be16(server@.world_x) + be16(server@.world_y) + be16(server@.world_z),
        ),
{
    let mut out: Vec<Outgoing> = Vec::new();
    out.push(Outgoing::To(client_id, server_identification_packet(server)));
    let client = server.clients.get(&client_id).unwrap();
    assert(client@ == server@.clients[client_id]);
    if client.fastmap {
        out.push(Outgoing::To(client_id, level_init_fastmap(world_volume_u32(server))));
    } else {
        out.push(Outgoing::To(client_id, level_init()));
    }
    assert(outgoing_view(out@) =~= seq![
        OutgoingView::To(client_id, server_identification_bytes(server@.server_name, server@.server_motd)),
        OutgoingView::To(client_id, level_init_for(server@, client_id)),
    ]);
    let (chunks, coords) = level_load(server, client_id);
    push_sends_to(&mut out, client_id, &chunks);
    let ghost mid = outgoing_view(out@);
    let (world_x, world_y, world_z, spawn_x, spawn_y, spawn_z) = coords;
    out.push(Outgoing::To(client_id, level_finalize(world_x, world_y, world_z)));
    let fx: u16 = spawn_x << 5;
    let fy: u16 = spawn_y << 5;
    let fz: u16 = spawn_z << 5;
    assert(fx == block_to_fixed(spawn_x)) by (bit_vector)
        requires
            fx == spawn_x << 5,
    ;
    assert(fy == block_to_fixed(spawn_y)) by (bit_vector)
        requires
            fy == spawn_y << 5,
    ;
    assert(fz == block_to_fixed(spawn_z)) by (bit_vector)
        requires
            fz == spawn_z << 5,
    ;
    let no_name = "";
    proof {
        reveal_strlit("");
    }
    out.push(Outgoing::To(client_id, spawn_player(-1, no_name, fx, fy, fz)));
    assert(outgoing_view(out@) =~= mid + seq![
        OutgoingView::To(client_id, level_finalize_bytes(world_x, world_y, world_z)),
        OutgoingView::To(client_id, spawn_player_bytes(-1i8, Seq::empty(), fx, fy, fz)),
    ]);
    assert(outgoing_view(out@) =~= login_outgoing(server@, client_id));
    proof {
        lemma_login_finalize_sizes(server@, client_id);
    }
    out
}

/// A login ends with the level finalize packet and then the player's own
/// spawn: the level finalize packet, second to last, is the packet id 0x04
/// followed by the world's sizes along x, y and z, in that order, each a
/// big-endian 16-bit number; it goes to the player who logs in.
pub proof fn lemma_login_finalize_sizes(s: ServerView, id: i8)
    ensures
        login_outgoing(s, id).len() >= 2,
        login_outgoing(s, id)[login_outgoing(s, id).len() - 2] == OutgoingView::To(
            id,
            seq![0x04u8] + be16(s.world_x) + be16(s.world_y) + be16(s.world_z),
        ),
{
    let out = login_outgoing(s, id);
    let head = seq![
        OutgoingView::To(id, server_identification_bytes(s.server_name, s.server_motd)),
        OutgoingView::To(id, level_init_for(s, id)),
    ] + sends_to(id, level_chunks(level_stream(s, id)));
    let fin = OutgoingView::To(id, level_finalize_bytes(s.world_x, s.world_y, s.world_z));
    let spawn = OutgoingView::To(
        id,
        spawn_player_bytes(
            -1i8,
            Seq::empty(),
            block_to_fixed(s.spawn_x),
            block_to_fixed(s.spawn_y),
            block_to_fixed(s.spawn_z),
        ),
    );
    assert(out =~= head + seq![fin, spawn]);
    assert(out[out.len() - 2] == fin);
    assert(level_finalize_bytes(s.world_x, s.world_y, s.world_z) =~= seq![0x04u8] + be16(
        s.world_x,
    ) + be16(s.world_y) + be16(s.world_z));
}

/// The packets that open and close a login, byte by byte: first the server
/// identification (id 0x00, protocol version 7), then the level initialize
/// packet (id 0x02, followed, for a player that announced FastMap, by the
/// number of blocks `world_x * world_y * world_z` as a big-endian 32-bit
/// number, which must fit in 32 bits), and last the packet that spawns the
/// player itself (id 0x07, player id -1 as 0xff, an empty name padded with
/// 64 spaces) at the world's spawn point, each coordinate times 32 kept to
/// 16 bits and sent big-endian in the order x, y, z, with yaw and pitch 0.
pub proof fn lemma_login_level_init_and_spawn(s: ServerView, id: i8)
    requires
        s.clients[id].fastmap ==> s.world_x * s.world_y * s.world_z <= u32::MAX,
    ensures
        ({
            let out = login_outgoing(s, id);
            &&& out.len() >= 4
            &&& out[0] is To && out[0]->To_0 == id && out[0]->To_1.take(2) == seq![0x00u8, 0x07u8]
            &&& out[1] == OutgoingView::To(
                id,
                if s.clients[id].fastmap {
                    seq![0x02u8] + be32((s.world_x * s.world_y * s.world_z) as u32)
                } else {
                    seq![0x02u8]
                },
            )
            &&& out.last() == OutgoingView::To(
                id,
                seq![0x07u8, 0xffu8] + Seq::new(64, |_i: int| 0x20u8) + be16(
                    ((s.spawn_x * 32) % 0x1_0000) as u16,
                ) + be16(((s.spawn_y * 32) % 0x1_0000) as u16) + be16(
                    ((s.spawn_z * 32) % 0x1_0000) as u16,
                ) + seq![0x00u8, 0x00u8],
            )
        }),
{
    let out = login_outgoing(s, id);
    let chunks = sends_to(id, level_chunks(level_stream(s, id)));
    let ident = server_identification_bytes(s.server_name, s.server_motd);
    let spawn = OutgoingView::To(
        id,
        spawn_player_bytes(
            -1i8,
            Seq::empty(),
            block_to_fixed(s.spawn_x),
            block_to_fixed(s.spawn_y),
            block_to_fixed(s.spawn_z),
        ),
    );
    let fin = OutgoingView::To(id, level_finalize_bytes(s.world_x, s.world_y, s.world_z));
    assert(out =~= seq![OutgoingView::To(id, ident), OutgoingView::To(id, level_init_for(s, id))]
        + chunks + seq![fin, spawn]);
    assert(out[0] == OutgoingView::To(id, ident));
    assert(ident.take(2) =~= seq![0x00u8, 0x07u8]);
    assert(out[1] == OutgoingView::To(id, level_init_for(s, id)));
    assert(out.last() == spawn);
    assert(encode_utf8(Seq::<char>::empty()) =~= Seq::<u8>::empty());
    assert(fill_to(encode_utf8(Seq::<char>::empty()), 64, 0x20) =~= Seq::new(64, |_i: int| 0x20u8));
    assert(i8_bits(-1i8) == 0xffu8);
    assert(spawn_player_bytes(
        -1i8,
        Seq::empty(),
        block_to_fixed(s.spawn_x),
        block_to_fixed(s.spawn_y),
        block_to_fixed(s.spawn_z),
    ) =~= seq![0x07u8, 0xffu8] + Seq::new(64, |_i: int| 0x20u8) + be16(
        ((s.spawn_x * 32) % 0x1_0000) as u16,
    ) + be16(((s.spawn_y * 32) % 0x1_0000) as u16) + be16(((s.spawn_z * 32) % 0x1_0000) as u16)
        + seq![0x00u8, 0x00u8]);
}

/// The player name in a player identification packet's body: the 64-byte
/// field after the protocol version, decoded and trimmed.
pub open spec fn identification_name(data: Seq<u8>) -> Seq<char> {
    trimmed(lossy_utf8_of(data.subrange(1, 65)))
}

/// The server once the player `id` has identified with the body `data`.
pub open spec fn identified(s: ServerView, data: Seq<u8>, id: i8) -> ServerView {
    with_client(s, id, ClientView { player_name: identification_name(data), ..s.clients[id] })
}

/// The value of the unused last byte of a player identification packet by
/// which a client says it speaks the classic protocol extension.
pub open spec fn cpe_marker() -> u8 {
    0x42
}

/// What the server says to a client that speaks the extension protocol: its
/// ExtInfo, announcing three extensions, then an ExtEntry for each:
/// TwoWayPing, CustomBlocks and FastMap, each in version 1.  The login waits
/// until the client has announced its own extensions.
pub open spec fn cpe_hello(s: ServerView, id: i8) -> Seq<OutgoingView> {
    seq![
        OutgoingView::To(id, extinfo_bytes(s.software_name, 3)),
        OutgoingView::To(id, extentry_bytes("TwoWayPing"@, 1)),
        OutgoingView::To(id, extentry_bytes("CustomBlocks"@, 1)),
        OutgoingView::To(id, extentry_bytes("FastMap"@, 1)),
    ]
}

/// What the server sends once the player `id` has identified with the body
/// `data`, `s` being the server after it: the extension handshake for a
/// client that set the marker, the login otherwise.
pub open spec fn identification_outgoing(s: ServerView, data: Seq<u8>, id: i8) -> Seq<OutgoingView> {
    if data[129] == cpe_marker() {
        cpe_hello(s, id)
    } else {
        login_outgoing(s, id)
    }
}

/// Opens the extension handshake with the player `client_id`: see
/// [`cpe_hello`].
pub fn cpe_handshake(server: &Server, client_id: i8) -> (out: Vec<Outgoing>)
    ensures
        outgoing_view(out@) == cpe_hello(server@, client_id),
{
    let mut out: Vec<Outgoing> = Vec::new();
    out.push(Outgoing::To(client_id, cpe_server_extinfo(server, 3)));
    out.push(Outgoing::To(client_id, cpe_server_extentry("TwoWayPing", 1)));
    out.push(Outgoing::To(client_id, cpe_server_extentry("CustomBlocks", 1)));
    out.push(Outgoing::To(client_id, cpe_server_extentry("FastMap", 1)));
    assert(outgoing_view(out@) =~= cpe_hello(server@, client_id));
    out
}

/// Handles a player identification packet, whose body `data` is the
/// protocol version, the player's name, the verification key and a last
/// byte that marks a client of the extension protocol: the player takes the
/// name, and is logged in, or, for such a client, the extension handshake
/// begins (see [`identification_outgoing`]).
pub fn client_identification_packet(server: &mut Server, data: &[u8], client_id: i8) -> (out: Vec<
    Outgoing,
>)
    requires
        data@.len() >= 130,
        old(server)@.clients.contains_key(client_id),
        data@[129] != cpe_marker() ==> world_volume(old(server)@) <= u32::MAX,
    ensures
        final(server)@ == identified(old(server)@, data@, client_id),
        outgoing_view(out@) == identification_outgoing(final(server)@, data@, client_id),
{
    let name = decode_name(slice_subrange(data, 1, 65));
    if data[129] == 0x42 {
        set_player_name(server, client_id, name);
        cpe_handshake(server, client_id)
    } else {
        identify_player(server, client_id, name)
    }
}

/// The player `client_id` takes the name `name` and is logged in.
pub fn identify_player(server: &mut Server, client_id: i8, name: String) -> (out: Vec<Outgoing>)
    requires
        old(server)@.clients.contains_key(client_id),
        world_volume(old(server)@) <= u32::MAX,
    ensures
        final(server)@ == with_client(
            old(server)@,
            client_id,
            ClientView { player_name: name@, ..old(server)@.clients[client_id] },
        ),
        outgoing_view(out@) == login_outgoing(final(server)@, client_id),
{
    set_player_name(server, client_id, name);
    login_procedure(server, client_id)
}

/// Gives the player `client_id` the name `name`.
fn set_player_name(server: &mut Server, client_id: i8, name: String)
    requires
        old(server)@.clients.contains_key(client_id),
    ensures
        final(server)@ == with_client(
            old(server)@,
            client_id,
            ClientView { player_name: name@, ..old(server)@.clients[client_id] },
        ),
{
    let ghost old_clients = server.clients@;
    let mut c = server.clients.remove(&client_id).unwrap();
    assert(c@ == old(server)@.clients[client_id]);
    c.player_name = name;
    server.clients.insert(client_id, c);
    assert(server.clients@ == old_clients.insert(client_id, c));
    assert(server.clients@.map_values(|c: Client| c@) =~= old_clients.map_values(
        |c: Client| c@,
    ).insert(client_id, c@));
}

/// A position and orientation packet from a player.
#[derive(Debug, Clone, Copy, PartialEq, Eq, Structural)]
pub struct ClientPosition {
    pub player_id: i8,
    pub x: u16,
    pub y: u16,
    pub z: u16,
    pub yaw: u8,
    pub pitch: u8,
}

/// The position and orientation packet whose body is `data`.
pub open spec fn position_from(data: Seq<u8>) -> ClientPosition {
    ClientPosition {
        player_id: byte_as_i8(data[0]),
        x: be16_at(data, 1),
        y: be16_at(data, 3),
        z: be16_at(data, 5),
        yaw: data[7],
        pitch: data[8],
    }
}

/// The signed byte at `i`.
fn read_i8(data: &[u8], i: usize) -> (n: i8)
    requires
        i < data@.len(),
    ensures
        n == byte_as_i8(data@[i as int]),
{
    let b = data[i];
    if b >= 128 {
        (b as i16 - 256) as i8
    } else {
        b as i8
    }
}

/// Reads a position and orientation packet's body: the player id, x, y, z,
/// yaw and pitch.  The server takes no action on it.
pub fn client_position_packet(data: &[u8]) -> (p: ClientPosition)
    requires
        data@.len() >= 9,
    ensures
        p == position_from(data@),
{
    ClientPosition {
        player_id: read_i8(data, 0),
        x: read_u16_be(data, 1),
        y: read_u16_be(data, 3),
        z: read_u16_be(data, 5),
        yaw: data[7],
        pitch: data[8],
    }
}

/// A set block packet from a player.
#[derive(Debug, Clone, Copy, PartialEq, Eq, Structural)]
pub struct ClientSetBlock {
    pub x: u16,
    pub y: u16,
    pub z: u16,
    /// 1 when the block is placed, 0 when it is destroyed.
    pub mode: u8,
    pub block_id: u8,
}

/// The set block packet whose body is `data`.
pub open spec fn set_block_from(data: Seq<u8>) -> ClientSetBlock {
    ClientSetBlock {
        x: be16_at(data, 0),
        y: be16_at(data, 2),
        z: be16_at(data, 4),
        mode: data[6],
        block_id: data[7],
    }
}

/// Reads a set block packet's body: x, y, z, the mode and the block id.  The
/// server takes no action on it.
pub fn client_set_block_packet(data: &[u8]) -> (p: ClientSetBlock)
    requires
        data@.len() >= 8,
    ensures
        p == set_block_from(data@),
{
    ClientSetBlock {
        x: read_u16_be(data, 0),
        y: read_u16_be(data, 2),
        z: read_u16_be(data, 4),
        mode: data[6],
        block_id: data[7],
    }
}

/// The chat line of a message from the player called `name`: the name, a
/// colon and a space, and the message.
pub open spec fn chat_line_of(name: Seq<char>, message: Seq<char>) -> Seq<char> {
    name + ": "@ + message
}

/// The chat command that saves the world.
pub open spec fn save_command() -> Seq<char> {
    "/save"@
}

/// What the server does with the chat message `message` (its 64-byte field
/// decoded, padding kept) from the player `id`: the command `/save`, once
/// trimmed, has the world file written; any other message goes back to its
/// sender as the chat line [`chat_line_of`].
pub open spec fn chat_outgoing(s: ServerView, id: i8, message: Seq<char>) -> Seq<OutgoingView> {
    if trimmed(message) == save_command() {
        seq![OutgoingView::SaveWorld(gzip_of(world_file_bytes(s)))]
    } else {
        sends_to(
            id,
            chat_chunks(id, encode_utf8(chat_line_of(s.clients[id].player_name, message))),
        )
    }
}

/// The message of a chat message packet's body: the 64-byte field after the
/// unused byte, decoded.
pub open spec fn chat_message(data: Seq<u8>) -> Seq<char> {
    lossy_utf8_of(data.subrange(1, 65))
}

/// Handles a chat message packet, whose body `data` is an unused byte and
/// the 64-byte message: see [`chat_outgoing`].
pub fn client_chat_packet(server: &Server, data: &[u8], client_id: i8) -> (out: Vec<Outgoing>)
    requires
        data@.len() >= 65,
        server@.clients.contains_key(client_id),
    ensures
        outgoing_view(out@) == chat_outgoing(server@, client_id, chat_message(data@)),
{
    let message = lossy_utf8(slice_subrange(data, 1, 65));
    chat_reply(server, client_id, message.as_str())
}

/// Answers the chat message `message` of the player `client_id`: see
/// [`chat_outgoing`].
pub fn chat_reply(server: &Server, client_id: i8, message: &str) -> (out: Vec<Outgoing>)
    requires
        server@.clients.contains_key(client_id),
    ensures
        outgoing_view(out@) == chat_outgoing(server@, client_id, message@),
{
    let command = String::from_str(trim(message));
    let save = String::from_str("/save");
    if command == save {
        let mut out: Vec<Outgoing> = Vec::new();
        out.push(Outgoing::SaveWorld(server.world_save()));
        assert(outgoing_view(out@) =~= chat_outgoing(server@, client_id, message@));
        return out;
    }
    let client = server.clients.get(&client_id).unwrap();
    assert(client@ == server@.clients[client_id]);
    let mut line = client.player_name.clone();
    line.append(": ");
    line.append(message);
    let packets = server_chat_packet(client_id, line.as_str());
    let mut out: Vec<Outgoing> = Vec::new();
    push_sends_to(&mut out, client_id, &packets);
    assert(outgoing_view(out@) =~= chat_outgoing(server@, client_id, message@));
    out
}

/// The block a set block packet asks for: the one named when it places a
/// block (mode 1), air (0) when it destroys one.
pub open spec fn placed_block(r: ClientSetBlock) -> u8 {
    if r.mode == 1 {
        r.block_id
    } else {
        0
    }
}

/// The server after a player asked for the change `r`: the block is set
/// where it lies in the world; elsewhere nothing changes.
pub open spec fn place_block_state(s: ServerView, r: ClientSetBlock) -> ServerView {
    if block_in_world(s, r.x, r.y, r.z) {
        with_block(s, r.x, r.y, r.z, placed_block(r))
    } else {
        s
    }
}

/// What the server sends after a player asked for the change `r`: the set
/// block packet to every player, where the block lies in the world.
pub open spec fn place_block_outgoing(s: ServerView, r: ClientSetBlock) -> Seq<OutgoingView> {
    if block_in_world(s, r.x, r.y, r.z) {
        seq![OutgoingView::Broadcast(set_block_bytes(r.x, r.y, r.z, placed_block(r)))]
    } else {
        seq![]
    }
}

/// Carries out the change `request` a player asked for: see
/// [`place_block_state`] and [`place_block_outgoing`].
pub fn place_block(server: &mut Server, request: ClientSetBlock) -> (out: Vec<Outgoing>)
    ensures
        final(server)@ == place_block_state(old(server)@, request),
        outgoing_view(out@) == place_block_outgoing(old(server)@, request),
{
    let mut out: Vec<Outgoing> = Vec::new();
    if block_in_world_check(server, request.x, request.y, request.z) {
        let block: u8 = if request.mode == 1 {
            request.block_id
        } else {
            0
        };
        let p = server_set_block_packet_broadcast(server, request.x, request.y, request.z, block);
        out.push(Outgoing::Broadcast(p));
    }
    assert(outgoing_view(out@) =~= place_block_outgoing(old(server)@, request));
    out
}

/// Every block inside the world can be changed: when `x`, `y` and `z` lie
/// within the world's sizes, the number of blocks fits in 32 bits and the
/// index `x + world_x * (z + world_z * y)` is below the number of blocks
/// held, the change sets that block (to the block asked for when placing,
/// to air when destroying), leaves everything else as it was, and the set
/// block packet (id 0x06, the coordinates as big-endian 16-bit numbers, the
/// block) goes to every player.
pub proof fn lemma_place_block_in_world(s: ServerView, r: ClientSetBlock)
    requires
        r.x < s.world_x,
        r.y < s.world_y,
        r.z < s.world_z,
        s.world_x * s.world_y * s.world_z <= u32::MAX,
        r.x + s.world_x * (r.z + s.world_z * r.y) < s.world_data.len(),
    ensures
        place_block_state(s, r) == (ServerView {
            world_data: s.world_data.update(
                r.x + s.world_x * (r.z + s.world_z * r.y),
                if r.mode == 1 {
                    r.block_id
                } else {
                    0
                },
            ),
            ..s
        }),
        place_block_outgoing(s, r) == seq![
            OutgoingView::Broadcast(
                seq![0x06u8] + be16(r.x) + be16(r.y) + be16(r.z) + seq![
                    if r.mode == 1 {
                        r.block_id
                    } else {
                        0u8
                    },
                ],
            ),
        ],
{
    let wx = s.world_x as int;
    let wy = s.world_y as int;
    let wz = s.world_z as int;
    let x = r.x as int;
    let y = r.y as int;
    let z = r.z as int;
    assert(z + wz * y < wz * wy <= wx * wz * wy && x + wx * (z + wz * y) < wx * wz * wy)
        by (nonlinear_arith)
        requires
            0 <= x < wx,
            0 <= y < wy,
            0 <= z < wz,
    ;
    assert(wx * wz * wy == wx * wy * wz) by (nonlinear_arith);
    assert(block_in_world(s, r.x, r.y, r.z));
    let b: u8 = if r.mode == 1 {
        r.block_id
    } else {
        0u8
    };
    assert(set_block_bytes(r.x, r.y, r.z, b) =~= seq![0x06u8] + be16(r.x) + be16(r.y) + be16(
        r.z,
    ) + seq![b]);
}

/// A change whose block index `x + world_x * (z + world_z * y)` lies beyond
/// the world's blocks is ignored: nothing changes and nothing is sent.
pub proof fn lemma_place_block_outside_ignored(s: ServerView, r: ClientSetBlock)
    requires
        r.x + s.world_x * (r.z + s.world_z * r.y) >= s.world_data.len(),
    ensures
        place_block_state(s, r) == s,
        place_block_outgoing(s, r) == Seq::<OutgoingView>::empty(),
{
    assert(!block_in_world(s, r.x, r.y, r.z));
}

/// What the server sends of a position the client reads back: the body of
/// the server's position and orientation packet, read as a client's
/// position packet, gives back the player id, coordinates and orientation
/// it was built from.
pub proof fn lemma_position_roundtrip(player_id: i8, x: u16, y: u16, z: u16, yaw: u8, pitch: u8)
    ensures
        position_from(position_bytes(player_id, x, y, z, yaw, pitch).skip(1)) == (ClientPosition {
            player_id,
            x,
            y,
            z,
            yaw,
            pitch,
        }),
{
    let body = position_bytes(player_id, x, y, z, yaw, pitch).skip(1);
    assert(body.subrange(1, 3) =~= be16(x));
    assert(body.subrange(3, 5) =~= be16(y));
    assert(body.subrange(5, 7) =~= be16(z));
    lemma_be16_roundtrip(x, body, 1);
    lemma_be16_roundtrip(y, body, 3);
    lemma_be16_roundtrip(z, body, 5);
    assert(body[0] == i8_bits(player_id));
}

} // verus!
