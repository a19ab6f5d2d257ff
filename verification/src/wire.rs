//! Fixed-width integers and fixed-width text fields as they travel on the
//! wire.  Numbers in packets are big-endian; the world file is little-endian.
//! The integer encodings are those of the `byteorder` crate.

use byteorder::{BigEndian, ByteOrder, LittleEndian, WriteBytesExt};
use vstd::prelude::*;

verus! {

/// Two bytes, most significant first.
pub open spec fn be16(n: u16) -> Seq<u8> {
    seq![(n / 256) as u8, (n % 256) as u8]
}

/// Two bytes, least significant first.
pub open spec fn le16(n: u16) -> Seq<u8> {
    seq![(n % 256) as u8, (n / 256) as u8]
}

/// Four bytes, most significant first.
pub open spec fn be32(n: u32) -> Seq<u8> {
    seq![
        (n / 0x100_0000) as u8,
        ((n / 0x1_0000) % 256) as u8,
        ((n / 256) % 256) as u8,
        (n % 256) as u8,
    ]
}

/// Four bytes, least significant first.
pub open spec fn le32(n: u32) -> Seq<u8> {
    seq![
        (n % 256) as u8,
        ((n / 256) % 256) as u8,
        ((n / 0x1_0000) % 256) as u8,
        (n / 0x100_0000) as u8,
    ]
}

/// The two's complement bit pattern of a signed 16-bit number.
pub open spec fn i16_bits(n: i16) -> u16 {
    (if n < 0 { n + 0x1_0000 } else { n as int }) as u16
}

/// The two's complement bit pattern of a signed byte.
pub open spec fn i8_bits(n: i8) -> u8 {
    (if n < 0 { n + 256 } else { n as int }) as u8
}

/// The unsigned number held big-endian in `s[i]`, `s[i + 1]`.
pub open spec fn be16_at(s: Seq<u8>, i: int) -> u16 {
    (s[i] * 256 + s[i + 1]) as u16
}

/// The unsigned number held little-endian in `s[i]`, `s[i + 1]`.
pub open spec fn le16_at(s: Seq<u8>, i: int) -> u16 {
    (s[i] + s[i + 1] * 256) as u16
}

/// The signed number held big-endian in `s[i]`, `s[i + 1]`.
pub open spec fn be_i16_at(s: Seq<u8>, i: int) -> i16 {
    let v = s[i] * 256 + s[i + 1];
    (if v >= 0x8000 { v - 0x1_0000 } else { v }) as i16
}

/// `s`, followed by copies of `fill` up to `width` bytes; `s` itself when it
/// is already that long.
pub open spec fn fill_to(s: Seq<u8>, width: nat, fill: u8) -> Seq<u8> {
    if s.len() >= width {
        s
    } else {
        s + Seq::new((width - s.len()) as nat, |_i: int| fill)
    }
}

/// The text fields of the protocol: the first 64 bytes of `s`, padded with
/// `fill` to exactly 64 bytes.
pub open spec fn field64(s: Seq<u8>, fill: u8) -> Seq<u8> {
    fill_to(s.take(if s.len() < 64 { s.len() as int } else { 64 }), 64, fill)
}

/// The views of a list of packets.
pub open spec fn packets_view(v: Seq<Vec<u8>>) -> Seq<Seq<u8>> {
    v.map_values(|p: Vec<u8>| p@)
}

/// Big-endian bytes read back as the number they were written from.
pub proof fn lemma_be16_roundtrip(n: u16, s: Seq<u8>, i: int)
    requires
        0 <= i,
        i + 2 <= s.len(),
        s.subrange(i, i + 2) == be16(n),
    ensures
        be16_at(s, i) == n,
{
    assert(s[i] == s.subrange(i, i + 2)[0]);
    assert(s[i + 1] == s.subrange(i, i + 2)[1]);
}

/// A little-endian pair of bytes reads back as the number it was written from.
pub proof fn lemma_le16_roundtrip(n: u16, s: Seq<u8>, i: int)
    requires
        0 <= i,
        i + 2 <= s.len(),
        s.subrange(i, i + 2) == le16(n),
    ensures
        le16_at(s, i) == n,
{
    assert(s[i] == s.subrange(i, i + 2)[0]);
    assert(s[i + 1] == s.subrange(i, i + 2)[1]);
}

/// `byteorder::BigEndian::read_u16` on the two bytes at `pos`: the big-endian
/// number they hold.  It panics on fewer than two bytes, which `requires`
/// leaves out.
#[verifier::external_body]
pub(crate) fn read_u16_be(buf: &[u8], pos: usize) -> (n: u16)
    requires
        pos + 2 <= buf@.len(),
    ensures
        n == be16_at(buf@, pos as int),
{
    BigEndian::read_u16(&buf[pos..])
}

/// `byteorder::BigEndian::read_i16` on the two bytes at `pos`: the signed
/// big-endian number they hold.
#[verifier::external_body]
pub(crate) fn read_i16_be(buf: &[u8], pos: usize) -> (n: i16)
    requires
        pos + 2 <= buf@.len(),
    ensures
        n == be_i16_at(buf@, pos as int),
{
    BigEndian::read_i16(&buf[pos..])
}

/// `byteorder::LittleEndian::read_u16` on the two bytes at `pos`: the
/// little-endian number they hold.
#[verifier::external_body]
pub(crate) fn read_u16_le(buf: &[u8], pos: usize) -> (n: u16)
    requires
        pos + 2 <= buf@.len(),
    ensures
        n == le16_at(buf@, pos as int),
{
    LittleEndian::read_u16(&buf[pos..])
}

/// `byteorder::WriteBytesExt::write_u16::<BigEndian>` on a `Vec<u8>`: appends
/// the two bytes of `n`, most significant first.  Writing to a `Vec` cannot
/// fail, so the `io::Result` carries nothing.
#[verifier::external_body]
pub(crate) fn push_u16_be(buf: &mut Vec<u8>, n: u16)
    ensures
        final(buf)@ == old(buf)@ + be16(n),
{
    let _ = buf.write_u16::<BigEndian>(n);
}

/// `byteorder::WriteBytesExt::write_i16::<BigEndian>` on a `Vec<u8>`: appends
/// the two's complement bytes of `n`, most significant first.
#[verifier::external_body]
pub(crate) fn push_i16_be(buf: &mut Vec<u8>, n: i16)
    ensures
        final(buf)@ == old(buf)@ + be16(i16_bits(n)),
{
    let _ = buf.write_i16::<BigEndian>(n);
}

/// `byteorder::WriteBytesExt::write_u32::<BigEndian>` on a `Vec<u8>`: appends
/// the four bytes of `n`, most significant first.
#[verifier::external_body]
pub(crate) fn push_u32_be(buf: &mut Vec<u8>, n: u32)
    ensures
        final(buf)@ == old(buf)@ + be32(n),
{
    let _ = buf.write_u32::<BigEndian>(n);
}

/// `byteorder::WriteBytesExt::write_u16::<LittleEndian>` on a `Vec<u8>`:
/// appends the two bytes of `n`, least significant first.
#[verifier::external_body]
pub(crate) fn push_u16_le(buf: &mut Vec<u8>, n: u16)
    ensures
        final(buf)@ == old(buf)@ + le16(n),
{
    let _ = buf.write_u16::<LittleEndian>(n);
}

/// `byteorder::WriteBytesExt::write_u32::<LittleEndian>` on a `Vec<u8>`:
/// appends the four bytes of `n`, least significant first.
#[verifier::external_body]
pub(crate) fn push_u32_le(buf: &mut Vec<u8>, n: u32)
    ensures
        final(buf)@ == old(buf)@ + le32(n),
{
    let _ = buf.write_u32::<LittleEndian>(n);
}

/// Appends the signed byte `n` as its two's complement bit pattern.
pub fn push_i8(buf: &mut Vec<u8>, n: i8)
    ensures
        final(buf)@ == old(buf)@.push(i8_bits(n)),
{
    let b: u8 = if n < 0 {
        (n as i16 + 256) as u8
    } else {
        n as u8
    };
    buf.push(b);
}

/// Appends `s`, then copies of `fill` until `width` bytes have been appended;
/// all of `s` when it is longer than `width`.
pub fn push_filled(buf: &mut Vec<u8>, s: &[u8], width: usize, fill: u8)
    ensures
        final(buf)@ == old(buf)@ + fill_to(s@, width as nat, fill),
{
    let ghost start = buf@;
    let mut i: usize = 0;
    while i < s.len()
        invariant
            i <= s@.len(),
            buf@ == start + s@.take(i as int),
        decreases s@.len() - i,
    {
        buf.push(s[i]);
        assert(s@.take(i + 1) == s@.take(i as int).push(s@[i as int]));
        i = i + 1;
    }
    assert(s@.take(s@.len() as int) == s@);
    let mut j: usize = s.len();
    while j < width
        invariant
            s@.len() <= j <= width || (j == s@.len() && j >= width),
            buf@ == start + s@ + Seq::new((j - s@.len()) as nat, |_i: int| fill),
        decreases width - j,
    {
        buf.push(fill);
        assert(Seq::new((j + 1 - s@.len()) as nat, |_i: int| fill) == Seq::new(
            (j - s@.len()) as nat,
            |_i: int| fill,
        ).push(fill));
        j = j + 1;
    }
    if s.len() >= width {
        assert(Seq::new((j - s@.len()) as nat, |_i: int| fill) == Seq::<u8>::empty());
        assert(buf@ == start + s@);
    }
}

/// Appends the 64-byte text field made of the first 64 bytes of `s`, padded
/// with `fill`.
pub fn push_field64(buf: &mut Vec<u8>, s: &[u8], fill: u8)
    ensures
        final(buf)@ == old(buf)@ + field64(s@, fill),
{
    let n: usize = if s.len() < 64 {
        s.len()
    } else {
        64
    };
    let head = vstd::slice::slice_subrange(s, 0, n);
    assert(head@ == s@.take(n as int));
    push_filled(buf, head, 64, fill);
}

} // verus!
