//! What the server sends, and to whom, or writes to disk: the result of
//! handling a packet.

use crate::wire::packets_view;
use vstd::prelude::*;

verus! {

/// A packet to send, with its recipients.
#[derive(Debug)]
pub enum Outgoing {
    /// To the player with this id.
    To(i8, Vec<u8>),
    /// To every connected player.
    Broadcast(Vec<u8>),
    /// To every connected player but the one with this id.
    BroadcastExcept(i8, Vec<u8>),
    /// Not a packet: the gzipped world file, to be written to disk.
    SaveWorld(Vec<u8>),
}

/// The value of an [`Outgoing`].
pub enum OutgoingView {
    To(i8, Seq<u8>),
    Broadcast(Seq<u8>),
    BroadcastExcept(i8, Seq<u8>),
    SaveWorld(Seq<u8>),
}

impl View for Outgoing {
    type V = OutgoingView;

    open spec fn view(&self) -> OutgoingView {
        match self {
            Outgoing::To(id, p) => OutgoingView::To(*id, p@),
            Outgoing::Broadcast(p) => OutgoingView::Broadcast(p@),
            Outgoing::BroadcastExcept(id, p) => OutgoingView::BroadcastExcept(*id, p@),
            Outgoing::SaveWorld(p) => OutgoingView::SaveWorld(p@),
        }
    }
}

/// The views of a list of outgoing packets.
pub open spec fn outgoing_view(v: Seq<Outgoing>) -> Seq<OutgoingView> {
    v.map_values(|o: Outgoing| o@)
}

/// Each of `packets`, in order, to the player `id`.
pub open spec fn sends_to(id: i8, packets: Seq<Seq<u8>>) -> Seq<OutgoingView> {
    packets.map_values(|p: Seq<u8>| OutgoingView::To(id, p))
}

/// Each of `packets`, in order, to every connected player.
pub open spec fn broadcasts(packets: Seq<Seq<u8>>) -> Seq<OutgoingView> {
    packets.map_values(|p: Seq<u8>| OutgoingView::Broadcast(p))
}

/// Appends each of `packets`, in order, addressed to the player `id`.
pub fn push_sends_to(out: &mut Vec<Outgoing>, id: i8, packets: &Vec<Vec<u8>>)
    ensures
        outgoing_view(final(out)@) == outgoing_view(old(out)@) + sends_to(
            id,
            packets_view(packets@),
        ),
{
    let ghost start = outgoing_view(out@);
    let mut i: usize = 0;
    while i < packets.len()
        invariant
            i <= packets@.len(),
            outgoing_view(out@) == start + sends_to(id, packets_view(packets@.take(i as int))),
        decreases packets@.len() - i,
    {
        let p = packets[i].clone();
        assert(p@ =~= packets@[i as int]@);
        let ghost before = out@;
        out.push(Outgoing::To(id, p));
        assert(packets_view(packets@.take(i + 1)) =~= packets_view(packets@.take(i as int)).push(
            packets@[i as int]@,
        ));
        assert(outgoing_view(out@) =~= outgoing_view(before).push(OutgoingView::To(id, p@)));
        assert(sends_to(id, packets_view(packets@.take(i + 1))) =~= sends_to(
            id,
            packets_view(packets@.take(i as int)),
        ).push(OutgoingView::To(id, p@)));
        i = i + 1;
    }
    assert(packets@.take(packets@.len() as int) =~= packets@);
}

/// Appends each of `packets`, in order, addressed to every connected player.
pub fn push_broadcasts(out: &mut Vec<Outgoing>, packets: &Vec<Vec<u8>>)
    ensures
        outgoing_view(final(out)@) == outgoing_view(old(out)@) + broadcasts(
            packets_view(packets@),
        ),
{
    let ghost start = outgoing_view(out@);
    let mut i: usize = 0;
    while i < packets.len()
        invariant
            i <= packets@.len(),
            outgoing_view(out@) == start + broadcasts(packets_view(packets@.take(i as int))),
        decreases packets@.len() - i,
    {
        let p = packets[i].clone();
        assert(p@ =~= packets@[i as int]@);
        let ghost before = out@;
        out.push(Outgoing::Broadcast(p));
        assert(packets_view(packets@.take(i + 1)) =~= packets_view(packets@.take(i as int)).push(
            packets@[i as int]@,
        ));
        assert(outgoing_view(out@) =~= outgoing_view(before).push(OutgoingView::Broadcast(p@)));
        assert(broadcasts(packets_view(packets@.take(i + 1))) =~= broadcasts(
            packets_view(packets@.take(i as int)),
        ).push(OutgoingView::Broadcast(p@)));
        i = i + 1;
    }
    assert(packets@.take(packets@.len() as int) =~= packets@);
}

} // verus!
