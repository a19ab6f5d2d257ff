//! The packets of the classic protocol extension (CPE) that the server sends.

use crate::server::Server;
use crate::wire::{be16, be32, field64, i16_bits, push_field64, push_i16_be, push_u16_be, push_u32_be};
use vstd::prelude::*;
use vstd::utf8::encode_utf8;

verus! {

/// The ExtInfo packet: the server software's name in a 64-byte field padded
/// with spaces, and the number of extension entries that follow.
pub open spec fn extinfo_bytes(software_name: Seq<char>, ext_count: i16) -> Seq<u8> {
    seq![0x10u8] + field64(encode_utf8(software_name), 0x20) + be16(i16_bits(ext_count))
}

/// Builds the ExtInfo packet that opens the server's side of the extension
/// handshake.
pub fn cpe_server_extinfo(server: &Server, ext_count: i16) -> (p: Vec<u8>)
    ensures
        p@ == extinfo_bytes(server.software_name@, ext_count),
{
    let mut p: Vec<u8> = Vec::new();
    p.push(0x10);
    push_field64(&mut p, server.software_name.as_str().as_bytes(), 0x20);
    push_i16_be(&mut p, ext_count);
    p
}

/// The ExtEntry packet: an extension's name in a 64-byte field padded with
/// spaces, and its version.
pub open spec fn extentry_bytes(app_name: Seq<char>, version: u32) -> Seq<u8> {
    seq![0x11u8] + field64(encode_utf8(app_name), 0x20) + be32(version)
}

/// Builds the ExtEntry packet announcing one extension the server supports.
pub fn cpe_server_extentry(app_name: &str, version: u32) -> (p: Vec<u8>)
    ensures
        p@ == extentry_bytes(app_name@, version),
{
    let mut p: Vec<u8> = Vec::new();
    p.push(0x11);
    push_field64(&mut p, app_name.as_bytes(), 0x20);
    push_u32_be(&mut p, version);
    p
}

/// The CustomBlockSupportLevel packet.
pub open spec fn customblock_level_bytes(support_level: u8) -> Seq<u8> {
    seq![0x13u8, support_level]
}

/// Builds the CustomBlockSupportLevel packet, by which the server states the
/// level of custom blocks it supports.
pub fn cpe_server_customblocklevelsupport(support_level: u8) -> (p: Vec<u8>)
    ensures
        p@ == customblock_level_bytes(support_level),
{
    let mut p: Vec<u8> = Vec::new();
    p.push(0x13);
    p.push(support_level);
    p
}

/// The TwoWayPing packet.
pub open spec fn twowayping_bytes(direction: u8, unique_data: u16) -> Seq<u8> {
    seq![0x2bu8, direction] + be16(unique_data)
}

/// Builds the TwoWayPing packet with which the server answers a client's
/// ping.
pub fn cpe_server_twowayping(direction: u8, unique_data: u16) -> (p: Vec<u8>)
    ensures
        p@ == twowayping_bytes(direction, unique_data),
{
    let mut p: Vec<u8> = Vec::new();
    p.push(0x2b);
    p.push(direction);
    push_u16_be(&mut p, unique_data);
    p
}

} // verus!
