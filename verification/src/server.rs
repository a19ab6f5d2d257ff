//! The server's state: its identity, the connected players and the world,
//! and the world file in which the world is kept between runs.
//!
//! The world file is a gzip stream.  Its uncompressed form is an 18-byte
//! header of little-endian numbers (magic number, the sizes along x, z and y,
//! the spawn point along x, z and y, then four unused bytes), followed by one
//! byte per block.

use crate::client::{Client, ClientView};
use crate::compress::{gunzip, gunzip_of, gzip, gzip_of};
use crate::wire::{lemma_le16_roundtrip, le16, le16_at, le32, push_u16_le, push_u32_le, read_u16_le};
use std::collections::HashMap;
use vstd::prelude::*;

verus! {

broadcast use vstd::std_specs::hash::group_hash_axioms;

/// The server's state.
pub struct Server {
    pub server_name: String,
    pub server_motd: String,
    pub software_name: String,
    /// The connected players, by player id.
    pub clients: HashMap<i8, Client>,
    /// One block id per block, x varying fastest, then z, then y.
    pub world_data: Vec<u8>,
    pub world_x: u16,
    pub world_z: u16,
    pub world_y: u16,
    pub spawn_x: u16,
    pub spawn_y: u16,
    pub spawn_z: u16,
}

/// The value of a [`Server`].
pub struct ServerView {
    pub server_name: Seq<char>,
    pub server_motd: Seq<char>,
    pub software_name: Seq<char>,
    pub clients: Map<i8, ClientView>,
    pub world_data: Seq<u8>,
    pub world_x: u16,
    pub world_z: u16,
    pub world_y: u16,
    pub spawn_x: u16,
    pub spawn_y: u16,
    pub spawn_z: u16,
}

impl View for Server {
    type V = ServerView;

    open spec fn view(&self) -> ServerView {
        ServerView {
            server_name: self.server_name@,
            server_motd: self.server_motd@,
            software_name: self.software_name@,
            clients: self.clients@.map_values(|c: Client| c@),
            world_data: self.world_data@,
            world_x: self.world_x,
            world_z: self.world_z,
            world_y: self.world_y,
            spawn_x: self.spawn_x,
            spawn_y: self.spawn_y,
            spawn_z: self.spawn_z,
        }
    }
}

/// The magic number that opens a world file.
pub open spec fn world_file_magic() -> u16 {
    1874
}

/// The uncompressed world file of a server: the header, then the blocks.
pub open spec fn world_file_bytes(s: ServerView) -> Seq<u8> {
    le16(world_file_magic()) + le16(s.world_x) + le16(s.world_z) + le16(s.world_y) + le16(
        s.spawn_x,
    ) + le16(s.spawn_z) + le16(s.spawn_y) + le32(0) + s.world_data
}

/// Why a world file could not be loaded.
#[derive(Debug, PartialEq, Eq, Structural)]
pub enum WorldLoadError {
    /// The file is not a complete gzip stream.
    NotGzip,
    /// The uncompressed file is shorter than its 18-byte header.
    ShortHeader,
}

/// Loading the uncompressed world file `raw` into `s`: the sizes and the
/// spawn point come from the header, the blocks after it are appended to the
/// blocks `s` already holds.  The magic number and the four unused bytes are
/// not checked.
pub open spec fn load_world_file(s: ServerView, raw: Seq<u8>) -> Result<ServerView, WorldLoadError> {
    if raw.len() < 18 {
        Err(WorldLoadError::ShortHeader)
    } else {
        Ok(
            ServerView {
                world_x: le16_at(raw, 2),
                world_z: le16_at(raw, 4),
                world_y: le16_at(raw, 6),
                spawn_x: le16_at(raw, 8),
                spawn_z: le16_at(raw, 10),
                spawn_y: le16_at(raw, 12),
                world_data: s.world_data + raw.skip(18),
                ..s
            },
        )
    }
}

/// Loading the gzipped world file `gz` into `s`.
pub open spec fn load_world_gz(s: ServerView, gz: Seq<u8>) -> Result<ServerView, WorldLoadError> {
    match gunzip_of(gz) {
        None => Err(WorldLoadError::NotGzip),
        Some(raw) => load_world_file(s, raw),
    }
}

/// `s` with the world (sizes, spawn point, blocks appended) of `w`.
pub open spec fn with_world_of(s: ServerView, w: ServerView) -> ServerView {
    ServerView {
        world_x: w.world_x,
        world_z: w.world_z,
        world_y: w.world_y,
        spawn_x: w.spawn_x,
        spawn_z: w.spawn_z,
        spawn_y: w.spawn_y,
        world_data: s.world_data + w.world_data,
        ..s
    }
}

/// The software name the server announces to clients.
pub open spec fn software_name_text() -> Seq<char> {
    "RSCube 0.0.1"@
}

impl Server {
    /// A server with the given name and message of the day, no players and an
    /// empty world.
    pub fn new(server_name: &str, server_motd: &str) -> (s: Server)
        ensures
            s@ == (ServerView {
                server_name: server_name@,
                server_motd: server_motd@,
                software_name: software_name_text(),
                clients: Map::empty(),
                world_data: Seq::empty(),
                world_x: 0,
                world_z: 0,
                world_y: 0,
                spawn_x: 0,
                spawn_y: 0,
                spawn_z: 0,
            }),
    {
        let s = Server {
            server_name: String::from_str(server_name),
            server_motd: String::from_str(server_motd),
            software_name: String::from_str("RSCube 0.0.1"),
            clients: HashMap::new(),
            world_data: Vec::new(),
            world_x: 0,
            world_y: 0,
            world_z: 0,
            spawn_x: 0,
            spawn_y: 0,
            spawn_z: 0,
        };
        assert(s.clients@.map_values(|c: Client| c@) =~= Map::empty());
        s
    }

    /// Loads the uncompressed world file `raw`: see [`load_world_file`].  On
    /// an error the server is left as it was.
    pub fn world_load_decompressed(&mut self, raw: &[u8]) -> (r: Result<(), WorldLoadError>)
        ensures
            match load_world_file(old(self)@, raw@) {
                Ok(v) => r is Ok && final(self)@ == v,
                Err(e) => r == Err::<(), WorldLoadError>(e) && final(self)@ == old(self)@,
            },
    {
        if raw.len() < 18 {
            return Err(WorldLoadError::ShortHeader);
        }
        self.world_x = read_u16_le(raw, 2);
        self.world_z = read_u16_le(raw, 4);
        self.world_y = read_u16_le(raw, 6);
        self.spawn_x = read_u16_le(raw, 8);
        self.spawn_z = read_u16_le(raw, 10);
        self.spawn_y = read_u16_le(raw, 12);
        let blocks = vstd::slice::slice_subrange(raw, 18, raw.len());
        self.world_data.extend_from_slice(blocks);
        assert(blocks@ =~= raw@.skip(18));
        assert(self.world_data@ =~= old(self).world_data@ + raw@.skip(18));
        Ok(())
    }

    /// Loads the gzipped world file `gz`: see [`load_world_gz`].  On an error
    /// the server is left as it was.
    pub fn world_load(&mut self, gz: &[u8]) -> (r: Result<(), WorldLoadError>)
        ensures
            match load_world_gz(old(self)@, gz@) {
                Ok(v) => r is Ok && final(self)@ == v,
                Err(e) => r == Err::<(), WorldLoadError>(e) && final(self)@ == old(self)@,
            },
    {
        match gunzip(gz) {
            None => Err(WorldLoadError::NotGzip),
            Some(raw) => self.world_load_decompressed(raw.as_slice()),
        }
    }

    /// The uncompressed world file of this server.
    pub fn world_file(&self) -> (raw: Vec<u8>)
        ensures
            raw@ == world_file_bytes(self@),
    {
        let mut raw: Vec<u8> = Vec::new();
        push_u16_le(&mut raw, 1874);
        push_u16_le(&mut raw, self.world_x);
        push_u16_le(&mut raw, self.world_z);
        push_u16_le(&mut raw, self.world_y);
        push_u16_le(&mut raw, self.spawn_x);
        push_u16_le(&mut raw, self.spawn_z);
        push_u16_le(&mut raw, self.spawn_y);
        push_u32_le(&mut raw, 0);
        raw.extend_from_slice(self.world_data.as_slice());
        raw
    }

    /// The gzipped world file of this server, as it is written to disk.
    pub fn world_save(&self) -> (gz: Vec<u8>)
        ensures
            gz@ == gzip_of(world_file_bytes(self@)),
            gunzip_of(gz@) == Some(world_file_bytes(self@)),
    {
        let raw = self.world_file();
        gzip(raw.as_slice())
    }
}

/// Loading the world file of one server into another gives the second the
/// sizes and spawn point of the first, and appends the first's blocks to its
/// own; nothing else changes.
pub proof fn lemma_world_file_roundtrip(a: ServerView, b: ServerView)
    ensures
        load_world_file(b, world_file_bytes(a)) == Ok::<ServerView, WorldLoadError>(
            with_world_of(b, a),
        ),
{
    let raw = world_file_bytes(a);
    let header = le16(world_file_magic()) + le16(a.world_x) + le16(a.world_z) + le16(a.world_y)
        + le16(a.spawn_x) + le16(a.spawn_z) + le16(a.spawn_y) + le32(0);
    assert(header.len() == 18);
    assert(raw == header + a.world_data);
    assert(raw.skip(18) =~= a.world_data);
    assert(raw.subrange(2, 4) =~= le16(a.world_x));
    lemma_le16_roundtrip(a.world_x, raw, 2);
    assert(raw.subrange(4, 6) =~= le16(a.world_z));
    lemma_le16_roundtrip(a.world_z, raw, 4);
    assert(raw.subrange(6, 8) =~= le16(a.world_y));
    lemma_le16_roundtrip(a.world_y, raw, 6);
    assert(raw.subrange(8, 10) =~= le16(a.spawn_x));
    lemma_le16_roundtrip(a.spawn_x, raw, 8);
    assert(raw.subrange(10, 12) =~= le16(a.spawn_z));
    lemma_le16_roundtrip(a.spawn_z, raw, 10);
    assert(raw.subrange(12, 14) =~= le16(a.spawn_y));
    lemma_le16_roundtrip(a.spawn_y, raw, 12);
}

/// What one server saves, another loads: given the bytes `world_save`
/// returned for `a` (of which `flate2` decompresses the world file of `a`),
/// `world_load` on `b` succeeds and gives `b` the world of `a`.
pub proof fn lemma_world_save_load(a: ServerView, b: ServerView, saved: Seq<u8>)
    requires
        gunzip_of(saved) == Some(world_file_bytes(a)),
    ensures
        load_world_gz(b, saved) == Ok::<ServerView, WorldLoadError>(with_world_of(b, a)),
{
    lemma_world_file_roundtrip(a, b);
}

} // verus!
