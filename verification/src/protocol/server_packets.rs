//! The packets of the classic protocol that the server sends.

use crate::compress::{deflate, deflate_of, gunzip_of, gzip, gzip_of};
use crate::outgoing::{Outgoing, OutgoingView};
use crate::server::{Server, ServerView};
use crate::wire::{
    be16, be16_at, lemma_be16_roundtrip, be32, field64, fill_to, i8_bits, packets_view, push_field64, push_filled, push_i8,
    push_u16_be, push_u32_be,
};
use vstd::prelude::*;
use vstd::slice::slice_subrange;
use vstd::utf8::encode_utf8;

verus! {

broadcast use vstd::std_specs::hash::group_hash_axioms;

/// The server identification packet: protocol version 7, the server's name
/// and message of the day in 64-byte fields padded with spaces, and the
/// user type 0.
pub open spec fn server_identification_bytes(name: Seq<char>, motd: Seq<char>) -> Seq<u8> {
    seq![0x00u8, 0x07u8] + field64(encode_utf8(name), 0x20) + field64(encode_utf8(motd), 0x20) + seq![
        0x00u8,
    ]
}

/// Builds the server identification packet of `server`.
pub fn server_identification_packet(server: &Server) -> (p: Vec<u8>)
    ensures
        p@ == server_identification_bytes(server.server_name@, server.server_motd@),
{
    let mut p: Vec<u8> = Vec::new();
    p.push(0x00);
    p.push(0x07);
    push_field64(&mut p, server.server_name.as_str().as_bytes(), 0x20);
    push_field64(&mut p, server.server_motd.as_str().as_bytes(), 0x20);
    p.push(0x00);
    p
}

/// The level initialize packet.
pub open spec fn level_init_bytes() -> Seq<u8> {
    seq![0x02u8]
}

/// Builds the level initialize packet, which announces the level data.
pub fn level_init() -> (p: Vec<u8>)
    ensures
        p@ == level_init_bytes(),
{
    let mut p: Vec<u8> = Vec::new();
    p.push(0x02);
    p
}

/// The level initialize packet for a client that announced the FastMap
/// extension: it carries the number of blocks of the world.
pub open spec fn level_init_fastmap_bytes(volume: u32) -> Seq<u8> {
    seq![0x02u8] + be32(volume)
}

/// Builds the level initialize packet for a FastMap client.
pub fn level_init_fastmap(volume: u32) -> (p: Vec<u8>)
    ensures
        p@ == level_init_fastmap_bytes(volume),
{
    let mut p: Vec<u8> = Vec::new();
    p.push(0x02);
    push_u32_be(&mut p, volume);
    p
}

/// The number of blocks of the world, as the level data announces it.
pub open spec fn world_volume(s: ServerView) -> int {
    s.world_x * s.world_y * s.world_z
}

/// What the level data packets carry, once decompressed: the number of
/// blocks as a big-endian 32-bit number, then the blocks.
pub open spec fn level_payload(s: ServerView) -> Seq<u8> {
    be32(world_volume(s) as u32) + s.world_data
}

/// The level payload reads back as what it announces: its first four bytes,
/// read as a big-endian number, are the number of blocks
/// `world_x * world_y * world_z` (which must fit in 32 bits), and the blocks
/// of the world follow, unchanged.
pub proof fn lemma_level_payload_layout(s: ServerView)
    requires
        s.world_x * s.world_y * s.world_z <= u32::MAX,
    ensures
        level_payload(s) == be32((s.world_x * s.world_y * s.world_z) as u32) + s.world_data,
        level_payload(s).len() == 4 + s.world_data.len(),
        level_payload(s)[0] * 0x100_0000 + level_payload(s)[1] * 0x1_0000 + level_payload(s)[2]
            * 0x100 + level_payload(s)[3] == s.world_x * s.world_y * s.world_z,
        level_payload(s).skip(4) == s.world_data,
{
    let v = s.world_x * s.world_y * s.world_z;
    let n: u32 = v as u32;
    assert(n == v);
    let p = level_payload(s);
    assert(p[0] == n / 0x100_0000 && p[1] == (n / 0x1_0000) % 256 && p[2] == (n / 256) % 256
        && p[3] == n % 256);
    assert((n / 0x100_0000) * 0x100_0000 + ((n / 0x1_0000) % 256) * 0x1_0000 + ((n / 256) % 256)
        * 0x100 + n % 256 == n) by (bit_vector);
    assert(p.skip(4) =~= s.world_data);
}

/// The number of 1024-byte pieces a level stream of `len` bytes is cut into.
pub open spec fn level_chunk_count(len: nat) -> nat {
    (len + 1023) / 1024
}

/// The number of stream bytes in the `k`-th piece.
pub open spec fn level_chunk_len(gz: Seq<u8>, k: int) -> int {
    if gz.len() - 1024 * k < 1024 {
        gz.len() - 1024 * k
    } else {
        1024
    }
}

/// The `k`-th level data chunk packet: the length of the piece, the piece
/// padded with zero bytes to 1024, and a percentage that stays 0.
pub open spec fn level_chunk(gz: Seq<u8>, k: int) -> Seq<u8> {
    let n = level_chunk_len(gz, k);
    seq![0x03u8] + be16(n as u16) + fill_to(gz.subrange(1024 * k, 1024 * k + n), 1024, 0) + seq![
        0x00u8,
    ]
}

/// The level data chunk packets that carry the gzip stream `gz`.
pub open spec fn level_chunks(gz: Seq<u8>) -> Seq<Seq<u8>> {
    Seq::new(level_chunk_count(gz.len()), |k: int| level_chunk(gz, k))
}

/// Cuts the gzip stream `gz` into level data chunk packets.
pub fn level_chunk_packets(gz: &[u8]) -> (packets: Vec<Vec<u8>>)
    ensures
        packets_view(packets@) == level_chunks(gz@),
{
    let n = gz.len();
    let mut packets: Vec<Vec<u8>> = Vec::new();
    let mut i: usize = 0;
    while i < n
        invariant
            i <= n == gz@.len(),
            i == 1024 * packets@.len() || i == n,
            packets@.len() == level_chunk_count(i as nat),
            forall|k: int| 0 <= k < packets@.len() ==> #[trigger] packets@[k]@ == level_chunk(gz@, k),
        decreases n - i,
    {
        let chunk_len: usize = if n - i < 1024 {
            n - i
        } else {
            1024
        };
        let ghost k = packets@.len() as int;
        let mut p: Vec<u8> = Vec::new();
        p.push(0x03);
        push_u16_be(&mut p, chunk_len as u16);
        let piece = slice_subrange(gz, i, i + chunk_len);
        push_filled(&mut p, piece, 1024, 0);
        p.push(0x00);
        assert(p@ == level_chunk(gz@, k));
        packets.push(p);
        i = i + chunk_len;
    }
    assert(packets_view(packets@) =~= level_chunks(gz@));
    packets
}

/// The stream that the level data chunks carry to the player `id`: for a
/// player that announced FastMap, the raw DEFLATE stream of the blocks alone;
/// otherwise the gzip stream of the level payload.
pub open spec fn level_stream(s: ServerView, id: i8) -> Seq<u8> {
    if s.clients[id].fastmap {
        deflate_of(s.world_data)
    } else {
        gzip_of(level_payload(s))
    }
}

/// The number of blocks of the world, computed in 32 bits.
pub fn world_volume_u32(server: &Server) -> (v: u32)
    requires
        world_volume(server@) <= u32::MAX,
    ensures
        v == world_volume(server@),
{
    let wx = server.world_x as u32;
    let wy = server.world_y as u32;
    let wz = server.world_z as u32;
    assert(wx * wy <= 0xffff * 0xffff) by (nonlinear_arith)
        requires
            wx <= 0xffff,
            wy <= 0xffff,
    ;
    let xy: u32 = wx * wy;
    xy * wz
}

/// Builds the level data that the player `client_id` is sent: the stream
/// [`level_stream`] cut into level data chunk packets.  Also returns the
/// sizes of the world and its spawn point, in the order x, y, z.  The player
/// must be connected and the number of blocks must fit in 32 bits.
pub fn level_load(server: &Server, client_id: i8) -> (r: (Vec<Vec<u8>>, (u16, u16, u16, u16, u16, u16)))
    requires
        server@.clients.contains_key(client_id),
        world_volume(server@) <= u32::MAX,
    ensures
        packets_view(r.0@) == level_chunks(level_stream(server@, client_id)),
        level_data_of(packets_view(r.0@)) == level_stream(server@, client_id),
        !server@.clients[client_id].fastmap ==> gunzip_of(level_data_of(packets_view(r.0@)))
            == Some(level_payload(server@)),
        !server@.clients[client_id].fastmap ==> gunzip_of(level_data_of(packets_view(r.0@)))
            == Some(
            be32((server@.world_x * server@.world_y * server@.world_z) as u32) + server@.world_data,
        ),
        r.1 == (
            server.world_x,
            server.world_y,
            server.world_z,
            server.spawn_x,
            server.spawn_y,
            server.spawn_z,
        ),
{
    let client = server.clients.get(&client_id).unwrap();
    assert(client@ == server@.clients[client_id]);
    let stream = if client.fastmap {
        deflate(server.world_data.as_slice())
    } else {
        let size = world_volume_u32(server);
        let mut data: Vec<u8> = Vec::new();
        push_u32_be(&mut data, size);
        data.extend_from_slice(server.world_data.as_slice());
        assert(data@ == level_payload(server@));
        gzip(data.as_slice())
    };
    let packets = level_chunk_packets(stream.as_slice());
    proof {
        lemma_level_chunks_reassemble(stream@);
        lemma_level_payload_layout(server@);
    }
    (
        packets,
        (
            server.world_x,
            server.world_y,
            server.world_z,
            server.spawn_x,
            server.spawn_y,
            server.spawn_z,
        ),
    )
}

/// The level finalize packet: the sizes of the world along x, y and z.
pub open spec fn level_finalize_bytes(world_x: u16, world_y: u16, world_z: u16) -> Seq<u8> {
    seq![0x04u8] + be16(world_x) + be16(world_y) + be16(world_z)
}

/// Builds the level finalize packet.
pub fn level_finalize(world_x: u16, world_y: u16, world_z: u16) -> (p: Vec<u8>)
    ensures
        p@ == level_finalize_bytes(world_x, world_y, world_z),
{
    let mut p: Vec<u8> = Vec::new();
    p.push(0x04);
    push_u16_be(&mut p, world_x);
    push_u16_be(&mut p, world_y);
    push_u16_be(&mut p, world_z);
    p
}

/// The spawn player packet: the player id, the name padded with spaces to 64
/// bytes (a longer name is sent whole), the position, and yaw and pitch 0.
pub open spec fn spawn_player_bytes(
    player_id: i8,
    player_name: Seq<char>,
    spawn_x: u16,
    spawn_y: u16,
    spawn_z: u16,
) -> Seq<u8> {
    seq![0x07u8, i8_bits(player_id)] + fill_to(encode_utf8(player_name), 64, 0x20) + be16(spawn_x)
        + be16(spawn_y) + be16(spawn_z) + seq![0x00u8, 0x00u8]
}

/// Builds the spawn player packet.
pub fn spawn_player(player_id: i8, player_name: &str, spawn_x: u16, spawn_y: u16, spawn_z: u16) -> (p:
    Vec<u8>)
    ensures
        p@ == spawn_player_bytes(player_id, player_name@, spawn_x, spawn_y, spawn_z),
{
    let mut p: Vec<u8> = Vec::new();
    p.push(0x07);
    push_i8(&mut p, player_id);
    push_filled(&mut p, player_name.as_bytes(), 64, 0x20);
    push_u16_be(&mut p, spawn_x);
    push_u16_be(&mut p, spawn_y);
    push_u16_be(&mut p, spawn_z);
    p.push(0x00);
    p.push(0x00);
    p
}

/// The despawn player packet.
pub open spec fn despawn_player_bytes(player_id: i8) -> Seq<u8> {
    seq![0x0cu8, i8_bits(player_id)]
}

/// Builds the despawn player packet, which every remaining player is sent
/// when `player_id` leaves.
pub fn despawn_player_broadcast(player_id: i8) -> (p: Vec<u8>)
    ensures
        p@ == despawn_player_bytes(player_id),
{
    let mut p: Vec<u8> = Vec::new();
    p.push(0x0c);
    push_i8(&mut p, player_id);
    p
}

/// The number of 64-byte pieces a chat message of `len` bytes is cut into.
pub open spec fn chat_chunk_count(len: nat) -> nat {
    (len + 63) / 64
}

/// The `k`-th chat message packet for `message`: the sender's id and the
/// `k`-th 64 bytes of the message, padded with spaces.
pub open spec fn chat_chunk(sender: i8, message: Seq<u8>, k: int) -> Seq<u8> {
    let end = if message.len() - 64 * k < 64 {
        message.len() as int
    } else {
        64 * k + 64
    };
    seq![0x0du8, i8_bits(sender)] + fill_to(message.subrange(64 * k, end), 64, 0x20)
}

/// The chat message packets that carry `message`; none for an empty message.
pub open spec fn chat_chunks(sender: i8, message: Seq<u8>) -> Seq<Seq<u8>> {
    Seq::new(chat_chunk_count(message.len()), |k: int| chat_chunk(sender, message, k))
}

/// Builds the chat message packets that carry `message` from `client_id`,
/// which the server sends to that client.
pub fn server_chat_packet(client_id: i8, message: &str) -> (packets: Vec<Vec<u8>>)
    ensures
        packets_view(packets@) == chat_chunks(client_id, encode_utf8(message@)),
{
    let bytes = message.as_bytes();
    let n = bytes.len();
    let mut packets: Vec<Vec<u8>> = Vec::new();
    let mut i: usize = 0;
    while i < n
        invariant
            i <= n == bytes@.len(),
            bytes@ == encode_utf8(message@),
            i == 64 * packets@.len() || i == n,
            packets@.len() == chat_chunk_count(i as nat),
            forall|k: int|
                0 <= k < packets@.len() ==> #[trigger] packets@[k]@ == chat_chunk(
                    client_id,
                    bytes@,
                    k,
                ),
        decreases n - i,
    {
        let piece_len: usize = if n - i < 64 {
            n - i
        } else {
            64
        };
        let ghost k = packets@.len() as int;
        let mut p: Vec<u8> = Vec::new();
        p.push(0x0d);
        push_i8(&mut p, client_id);
        let piece = slice_subrange(bytes, i, i + piece_len);
        push_filled(&mut p, piece, 64, 0x20);
        assert(p@ == chat_chunk(client_id, bytes@, k));
        packets.push(p);
        i = i + piece_len;
    }
    assert(packets_view(packets@) =~= chat_chunks(client_id, bytes@));
    packets
}

/// Builds the chat message packets that carry `message` from `client_id`,
/// which the server sends to every player.
pub fn server_chat_packet_broadcast(client_id: i8, message: &str) -> (packets: Vec<Vec<u8>>)
    ensures
        packets_view(packets@) == chat_chunks(client_id, encode_utf8(message@)),
{
    server_chat_packet(client_id, message)
}

/// The index in the world's blocks of the block at `x`, `y`, `z`.
pub open spec fn block_index(s: ServerView, x: u16, y: u16, z: u16) -> int {
    x + s.world_x * (z + s.world_z * y)
}

/// The block at `x`, `y`, `z` lies in the world's blocks, and its index, as
/// the server computes it in 32 bits, does not overflow.
pub open spec fn block_in_world(s: ServerView, x: u16, y: u16, z: u16) -> bool {
    &&& z + s.world_z * y <= u32::MAX
    &&& block_index(s, x, y, z) <= u32::MAX
    &&& block_index(s, x, y, z) < s.world_data.len()
}

/// Tells whether the block at `x`, `y`, `z` lies in the world: see
/// [`block_in_world`].
pub fn block_in_world_check(server: &Server, x: u16, y: u16, z: u16) -> (b: bool)
    ensures
        b == block_in_world(server@, x, y, z),
{
    let wx = server.world_x as u64;
    let wz = server.world_z as u64;
    let y64 = y as u64;
    assert(wz * y64 <= 0xffff * 0xffff) by (nonlinear_arith)
        requires
            wz <= 0xffff,
            y64 <= 0xffff,
    ;
    let layer: u64 = z as u64 + wz * y64;
    assert(wx * layer <= 0xffff * 0x1_0000_0000) by (nonlinear_arith)
        requires
            wx <= 0xffff,
            layer <= 0x1_0000_0000,
    ;
    let index: u64 = x as u64 + wx * layer;
    let len = server.world_data.len() as u64;
    layer <= 0xffff_ffff && index <= 0xffff_ffff && index < len
}

/// `s` with the block at `x`, `y`, `z` set to `block_id`.
pub open spec fn with_block(s: ServerView, x: u16, y: u16, z: u16, block_id: u8) -> ServerView {
    ServerView { world_data: s.world_data.update(block_index(s, x, y, z), block_id), ..s }
}

/// The set block packet.
pub open spec fn set_block_bytes(x: u16, y: u16, z: u16, block_id: u8) -> Seq<u8> {
    seq![0x06u8] + be16(x) + be16(y) + be16(z) + seq![block_id]
}

/// Sets the block at `x`, `y`, `z` to `block_id` and builds the set block
/// packet that tells every player of it.
pub fn server_set_block_packet_broadcast(
    server: &mut Server,
    x: u16,
    y: u16,
    z: u16,
    block_id: u8,
) -> (p: Vec<u8>)
    requires
        block_in_world(old(server)@, x, y, z),
    ensures
        p@ == set_block_bytes(x, y, z, block_id),
        final(server)@ == with_block(old(server)@, x, y, z, block_id),
{
    let mut p: Vec<u8> = Vec::new();
    p.push(0x06);
    push_u16_be(&mut p, x);
    push_u16_be(&mut p, y);
    push_u16_be(&mut p, z);
    p.push(block_id);
    let wz = server.world_z as u32;
    let wx = server.world_x as u32;
    let layer: u32 = z as u32 + wz * (y as u32);
    let index: u32 = x as u32 + wx * layer;
    let i = index as usize;
    server.world_data.set(i, block_id);
    assert(server.world_data@ =~= old(server).world_data@.update(
        block_index(old(server)@, x, y, z),
        block_id,
    ));
    p
}

/// The position and orientation packet.
pub open spec fn position_bytes(player_id: i8, x: u16, y: u16, z: u16, yaw: u8, pitch: u8) -> Seq<
    u8,
> {
    seq![0x08u8, i8_bits(player_id)] + be16(x) + be16(y) + be16(z) + seq![yaw, pitch]
}

/// Tells every player but `calling_player_id` where that player now is: the
/// position and orientation packet, addressed to all the others.
pub fn server_position_packet_broadcast(
    calling_player_id: i8,
    x: u16,
    y: u16,
    z: u16,
    yaw: u8,
    pitch: u8,
) -> (out: Outgoing)
    ensures
        out@ == OutgoingView::BroadcastExcept(
            calling_player_id,
            position_bytes(calling_player_id, x, y, z, yaw, pitch),
        ),
{
    let mut p: Vec<u8> = Vec::new();
    p.push(0x08);
    push_i8(&mut p, calling_player_id);
    push_u16_be(&mut p, x);
    push_u16_be(&mut p, y);
    push_u16_be(&mut p, z);
    p.push(yaw);
    p.push(pitch);
    assert(p@ =~= position_bytes(calling_player_id, x, y, z, yaw, pitch));
    Outgoing::BroadcastExcept(calling_player_id, p)
}

/// The stream bytes a level data chunk packet carries: as many as its
/// length field says, after the length.
pub open spec fn chunk_data(p: Seq<u8>) -> Seq<u8> {
    p.subrange(3, 3 + be16_at(p, 1))
}

/// The stream a client rebuilds from level data chunk packets: their data,
/// joined in order.
pub open spec fn level_data_of(ps: Seq<Seq<u8>>) -> Seq<u8>
    decreases ps.len(),
{
    if ps.len() == 0 {
        Seq::empty()
    } else {
        level_data_of(ps.drop_last()) + chunk_data(ps.last())
    }
}

/// The shape of one level data chunk packet: 1028 bytes, whose length field
/// gives the size of the piece of the stream that follows it.
proof fn lemma_level_chunk_shape(gz: Seq<u8>, k: int)
    requires
        0 <= k < level_chunk_count(gz.len()),
    ensures
        1024 * k < gz.len(),
        0 < level_chunk_len(gz, k) <= 1024,
        level_chunk(gz, k).len() == 1028,
        chunk_data(level_chunk(gz, k)) == gz.subrange(1024 * k, 1024 * k + level_chunk_len(gz, k)),
{
    let n = level_chunk_len(gz, k);
    let p = level_chunk(gz, k);
    let piece = gz.subrange(1024 * k, 1024 * k + n);
    let body = fill_to(piece, 1024, 0);
    assert(p == seq![0x03u8] + be16(n as u16) + body + seq![0x00u8]);
    assert(body.len() == 1024);
    assert(p.subrange(1, 3) =~= be16(n as u16));
    lemma_be16_roundtrip(n as u16, p, 1);
    assert(chunk_data(p) =~= piece);
}

/// Level data chunk packets deliver the stream they were cut from: joined
/// in order, their data is the whole stream, and every one of them is 1028
/// bytes long.
pub proof fn lemma_level_chunks_reassemble(gz: Seq<u8>)
    ensures
        level_data_of(level_chunks(gz)) == gz,
        forall|k: int| 0 <= k < level_chunks(gz).len() ==> #[trigger] level_chunks(gz)[k].len() == 1028,
{
    let count = level_chunk_count(gz.len());
    lemma_level_chunks_prefix(gz, count as int);
    assert(level_chunks(gz).take(count as int) =~= level_chunks(gz));
    assert(gz.take(gz.len() as int) =~= gz);
    assert forall|k: int| 0 <= k < level_chunks(gz).len() implies #[trigger] level_chunks(gz)[k].len()
        == 1028 by {
        lemma_level_chunk_shape(gz, k);
    }
}

/// The first `m` chunks deliver the first `min(1024 m, len)` bytes.
proof fn lemma_level_chunks_prefix(gz: Seq<u8>, m: int)
    requires
        0 <= m <= level_chunk_count(gz.len()),
    ensures
        level_data_of(level_chunks(gz).take(m)) == gz.take(
            if 1024 * m < gz.len() { 1024 * m } else { gz.len() as int },
        ),
    decreases m,
{
    let chunks = level_chunks(gz);
    if m == 0 {
        assert(chunks.take(0) =~= Seq::<Seq<u8>>::empty());
        assert(gz.take(0) =~= Seq::<u8>::empty());
    } else {
        lemma_level_chunks_prefix(gz, m - 1);
        lemma_level_chunk_shape(gz, m - 1);
        assert(chunks.take(m).drop_last() =~= chunks.take(m - 1));
        assert(chunks.take(m).last() == level_chunk(gz, m - 1));
        let n = level_chunk_len(gz, m - 1);
        assert(gz.take(1024 * (m - 1)) + gz.subrange(1024 * (m - 1), 1024 * (m - 1) + n) =~= gz.take(
            1024 * (m - 1) + n,
        ));
    }
}

/// The chat text of a chat message packet: its 64-byte message field.
pub open spec fn chat_body(p: Seq<u8>) -> Seq<u8> {
    p.subrange(2, 66)
}

/// The text a client reads from chat message packets: their message
/// fields, joined in order.
pub open spec fn chat_text_of(ps: Seq<Seq<u8>>) -> Seq<u8>
    decreases ps.len(),
{
    if ps.len() == 0 {
        Seq::empty()
    } else {
        chat_text_of(ps.drop_last()) + chat_body(ps.last())
    }
}

/// The shape of one chat message packet: 66 bytes carrying the sender's id
/// and the next 64 bytes of the message, the last piece padded with spaces.
proof fn lemma_chat_chunk_shape(sender: i8, message: Seq<u8>, k: int)
    requires
        0 <= k < chat_chunk_count(message.len()),
    ensures
        64 * k < message.len(),
        chat_chunk(sender, message, k).len() == 66,
        chat_chunk(sender, message, k)[1] == i8_bits(sender),
        chat_body(chat_chunk(sender, message, k)) == fill_to(
            message.subrange(
                64 * k,
                if message.len() - 64 * k < 64 { message.len() as int } else { 64 * k + 64 },
            ),
            64,
            0x20,
        ),
{
    let p = chat_chunk(sender, message, k);
    let end = if message.len() - 64 * k < 64 {
        message.len() as int
    } else {
        64 * k + 64
    };
    let body = fill_to(message.subrange(64 * k, end), 64, 0x20);
    assert(body.len() == 64);
    assert(chat_body(p) =~= body);
}

/// Chat message packets deliver their message: every packet is 66 bytes and
/// carries the sender's id, and their message fields, joined in order, are
/// the message padded with spaces to a multiple of 64 bytes.
pub proof fn lemma_chat_chunks_reassemble(sender: i8, message: Seq<u8>)
    ensures
        chat_text_of(chat_chunks(sender, message)) == fill_to(
            message,
            64 * chat_chunk_count(message.len()),
            0x20,
        ),
        forall|k: int|
            0 <= k < chat_chunks(sender, message).len() ==> {
                &&& #[trigger] chat_chunks(sender, message)[k].len() == 66
                &&& chat_chunks(sender, message)[k][1] == i8_bits(sender)
            },
{
    let count = chat_chunk_count(message.len());
    lemma_chat_chunks_prefix(sender, message, count as int);
    assert(chat_chunks(sender, message).take(count as int) =~= chat_chunks(sender, message));
    assert forall|k: int| 0 <= k < chat_chunks(sender, message).len() implies {
        &&& #[trigger] chat_chunks(sender, message)[k].len() == 66
        &&& chat_chunks(sender, message)[k][1] == i8_bits(sender)
    } by {
        lemma_chat_chunk_shape(sender, message, k);
    }
}

/// The first `m` chat packets deliver the first `64 m` bytes of the message,
/// padded with spaces past its end.
proof fn lemma_chat_chunks_prefix(sender: i8, message: Seq<u8>, m: int)
    requires
        0 <= m <= chat_chunk_count(message.len()),
    ensures
        chat_text_of(chat_chunks(sender, message).take(m)) == fill_to(
            message.take(if 64 * m < message.len() { 64 * m } else { message.len() as int }),
            (64 * m) as nat,
            0x20,
        ),
    decreases m,
{
    let chunks = chat_chunks(sender, message);
    if m == 0 {
        assert(chunks.take(0) =~= Seq::<Seq<u8>>::empty());
        assert(message.take(0) =~= Seq::<u8>::empty());
        assert(fill_to(message.take(0), 0, 0x20) =~= Seq::<u8>::empty());
    } else {
        lemma_chat_chunks_prefix(sender, message, m - 1);
        lemma_chat_chunk_shape(sender, message, m - 1);
        assert(chunks.take(m).drop_last() =~= chunks.take(m - 1));
        assert(chunks.take(m).last() == chat_chunk(sender, message, m - 1));
        let start = 64 * (m - 1);
        let end = if message.len() - start < 64 {
            message.len() as int
        } else {
            start + 64
        };
        assert(start < message.len());
        assert(fill_to(message.take(start), start as nat, 0x20) =~= message.take(start));
        if end == start + 64 {
            assert(message.take(start) + message.subrange(start, end) =~= message.take(end));
            assert(fill_to(message.subrange(start, end), 64, 0x20) =~= message.subrange(start, end));
            assert(fill_to(message.take(end), (64 * m) as nat, 0x20) =~= message.take(end));
        } else {
            assert(message.take(end) =~= message.take(start) + message.subrange(start, end));
            assert(message.take(start) + fill_to(message.subrange(start, end), 64, 0x20) =~= fill_to(
                message.take(end),
                (64 * m) as nat,
                0x20,
            ));
        }
    }
}

/// Setting a block changes that block and no other: afterwards the block at
/// `x`, `y`, `z` is `block_id`, every other block is what it was, and the
/// world keeps its size.
pub proof fn lemma_set_block_then_read(s: ServerView, x: u16, y: u16, z: u16, block_id: u8, i: int)
    requires
        block_in_world(s, x, y, z),
    ensures
        with_block(s, x, y, z, block_id).world_data.len() == s.world_data.len(),
        with_block(s, x, y, z, block_id).world_data[block_index(s, x, y, z)] == block_id,
        0 <= i < s.world_data.len() && i != block_index(s, x, y, z) ==> with_block(
            s,
            x,
            y,
            z,
            block_id,
        ).world_data[i] == s.world_data[i],
{
}

/// The sizes the protocol gives the packets the server sends: 131 bytes for
/// the server identification, 1 for level initialize, 7 for level finalize,
/// 74 for spawn player (with a name of at most 64 bytes), 2 for despawn,
/// 8 for set block and 10 for position and orientation.
pub proof fn lemma_server_packet_sizes(
    name: Seq<char>,
    motd: Seq<char>,
    player_id: i8,
    player_name: Seq<char>,
    x: u16,
    y: u16,
    z: u16,
    yaw: u8,
    pitch: u8,
    block_id: u8,
)
    requires
        encode_utf8(player_name).len() <= 64,
    ensures
        server_identification_bytes(name, motd).len() == 131,
        level_init_bytes().len() == 1,
        level_finalize_bytes(x, y, z).len() == 7,
        spawn_player_bytes(player_id, player_name, x, y, z).len() == 74,
        despawn_player_bytes(player_id).len() == 2,
        set_block_bytes(x, y, z, block_id).len() == 8,
        position_bytes(player_id, x, y, z, yaw, pitch).len() == 10,
{
}

} // verus!
