//! The packets of the classic protocol extension (CPE) that clients send,
//! and how the server answers them.  A client announces how many extensions
//! it supports (ExtInfo), then each of them (ExtEntry); once the last is in,
//! the server logs the player in, or first settles the CustomBlocks support
//! level when the client asked for it.

use crate::client::{Client, ClientView};
use crate::outgoing::{outgoing_view, Outgoing, OutgoingView};
use crate::protocol::client_packets::{login_outgoing, login_procedure, with_client};
use crate::protocol::server_cpe_packets::{
    cpe_server_customblocklevelsupport, cpe_server_twowayping, customblock_level_bytes,
    twowayping_bytes,
};
use crate::protocol::server_packets::world_volume;
use crate::server::{Server, ServerView};
use crate::text::{decode_name, lossy_utf8_of, trimmed};
use crate::wire::{be16_at, be_i16_at, read_i16_be, read_u16_be};
use vstd::prelude::*;
use vstd::slice::slice_subrange;

verus! {

broadcast use vstd::std_specs::hash::group_hash_axioms;

/// `s` with the player `id`'s client state replaced by `c`, done by taking
/// the player out of the map and putting it back.
fn replace_client(server: &mut Server, client_id: i8, c: Client)
    requires
        old(server)@.clients.contains_key(client_id),
    ensures
        final(server)@ == with_client(old(server)@, client_id, c@),
{
    let ghost old_clients = server.clients@;
    server.clients.insert(client_id, c);
    assert(server.clients@.map_values(|c: Client| c@) =~= old_clients.map_values(
        |c: Client| c@,
    ).insert(client_id, c@));
}

/// A copy of the client state of player `client_id`.
fn take_client(server: &Server, client_id: i8) -> (c: Client)
    requires
        server@.clients.contains_key(client_id),
    ensures
        c@ == server@.clients[client_id],
{
    let c = server.clients.get(&client_id).unwrap();
    Client {
        player_id: c.player_id,
        player_name: c.player_name.clone(),
        extension_count_state: c.extension_count_state,
        fastmap: c.fastmap,
        customblocksupportlevel: c.customblocksupportlevel,
        expecting_customblock: c.expecting_customblock,
    }
}

/// The server once the player `id` has sent an ExtInfo packet with the body
/// `data`: the software name, then the number of extension entries to come,
/// which the player's state takes.
pub open spec fn extinfo_state(s: ServerView, data: Seq<u8>, id: i8) -> ServerView {
    with_client(
        s,
        id,
        ClientView { extension_count_state: be_i16_at(data, 64), ..s.clients[id] },
    )
}

/// Handles an ExtInfo packet: see [`extinfo_state`].  Nothing is sent.
pub fn cpe_client_extinfo(server: &mut Server, data: &[u8], client_id: i8)
    requires
        data@.len() >= 66,
        old(server)@.clients.contains_key(client_id),
    ensures
        final(server)@ == extinfo_state(old(server)@, data@, client_id),
{
    let ext_count = read_i16_be(data, 64);
    let mut c = take_client(server, client_id);
    c.extension_count_state = ext_count;
    replace_client(server, client_id, c);
}

/// The extension name in an ExtEntry packet's body, decoded and trimmed.
pub open spec fn extension_name(data: Seq<u8>) -> Seq<char> {
    trimmed(lossy_utf8_of(data.subrange(0, 64)))
}

/// A player's state once it has announced the extension `name`: one entry
/// fewer to come; FastMap is noted, and CustomBlocks sets the support level
/// to 1 and makes the server wait for the player's own level.
pub open spec fn after_extentry(c: ClientView, name: Seq<char>) -> ClientView {
    let c1 = ClientView { extension_count_state: (c.extension_count_state - 1) as i16, ..c };
    if name == "FastMap"@ {
        ClientView { fastmap: true, ..c1 }
    } else if name == "CustomBlocks"@ {
        ClientView { customblocksupportlevel: 1, expecting_customblock: 1, ..c1 }
    } else {
        c1
    }
}

/// What announcing the extension `name` does to a player's state, field by
/// field: one entry fewer to come; FastMap turns FastMap on; CustomBlocks
/// sets the support level to 1 and makes the server wait for the player's
/// own level; any other name, FastMap included, leaves the support level
/// and the wait as they were; the player's id and name stay.
pub proof fn lemma_extentry_fields(c: ClientView, name: Seq<char>)
    requires
        c.extension_count_state > i16::MIN,
    ensures
        after_extentry(c, name).extension_count_state == c.extension_count_state - 1,
        after_extentry(c, name).fastmap == (c.fastmap || name == "FastMap"@),
        after_extentry(c, name).customblocksupportlevel == if name == "CustomBlocks"@ {
            1
        } else {
            c.customblocksupportlevel
        },
        after_extentry(c, name).expecting_customblock == if name == "CustomBlocks"@ {
            1
        } else {
            c.expecting_customblock
        },
        after_extentry(c, name).player_id == c.player_id,
        after_extentry(c, name).player_name == c.player_name,
{
    lemma_fastmap_not_customblocks();
}

/// The two extension names that change a player's state are different.
proof fn lemma_fastmap_not_customblocks()
    ensures
        "FastMap"@ != "CustomBlocks"@,
{
    reveal_strlit("FastMap");
    reveal_strlit("CustomBlocks");
    assert("FastMap"@.len() != "CustomBlocks"@.len());
}

/// The server once the player `id` has sent an ExtEntry packet with the body
/// `data`.
pub open spec fn extentry_state(s: ServerView, data: Seq<u8>, id: i8) -> ServerView {
    with_client(s, id, after_extentry(s.clients[id], extension_name(data)))
}

/// What the server sends after an ExtEntry, given its state `s` once the
/// entry is counted: nothing while entries are still to come; after the last
/// one, the login, or the server's CustomBlocks support level when it waits
/// for the player's.
pub open spec fn extentry_outgoing(s: ServerView, id: i8) -> Seq<OutgoingView> {
    let c = s.clients[id];
    if c.extension_count_state == 0 {
        if c.expecting_customblock == 0 {
            login_outgoing(s, id)
        } else {
            seq![OutgoingView::To(id, customblock_level_bytes(1))]
        }
    } else {
        seq![]
    }
}

/// Handles an ExtEntry packet, whose body `data` is the extension's name and
/// its version: see [`extentry_state`] and [`extentry_outgoing`].  When the
/// count of entries reaches 0 the login may follow, for which the number of
/// blocks of the world must fit in 32 bits.
pub fn cpe_client_extentry(server: &mut Server, data: &[u8], client_id: i8) -> (out: Vec<Outgoing>)
    requires
        data@.len() >= 68,
        old(server)@.clients.contains_key(client_id),
        old(server)@.clients[client_id].extension_count_state > i16::MIN,
        old(server)@.clients[client_id].extension_count_state == 1 ==> world_volume(old(server)@)
            <= u32::MAX,
    ensures
        final(server)@ == extentry_state(old(server)@, data@, client_id),
        outgoing_view(out@) == extentry_outgoing(final(server)@, client_id),
{
    let name = decode_name(slice_subrange(data, 0, 64));
    apply_extension_entry(server, client_id, &name)
}

/// The player `client_id` announces the extension `name`: its state becomes
/// [`after_extentry`], and the server answers as [`extentry_outgoing`] says.
pub fn apply_extension_entry(server: &mut Server, client_id: i8, name: &String) -> (out: Vec<
    Outgoing,
>)
    requires
        old(server)@.clients.contains_key(client_id),
        old(server)@.clients[client_id].extension_count_state > i16::MIN,
        old(server)@.clients[client_id].extension_count_state == 1 ==> world_volume(old(server)@)
            <= u32::MAX,
    ensures
        final(server)@ == with_client(
            old(server)@,
            client_id,
            after_extentry(old(server)@.clients[client_id], name@),
        ),
        outgoing_view(out@) == extentry_outgoing(final(server)@, client_id),
        final(server)@.clients[client_id].expecting_customblock == if name@ == "CustomBlocks"@ {
            1
        } else {
            old(server)@.clients[client_id].expecting_customblock
        },
        final(server)@.clients[client_id].customblocksupportlevel == if name@ == "CustomBlocks"@ {
            1
        } else {
            old(server)@.clients[client_id].customblocksupportlevel
        },
        final(server)@.clients[client_id].fastmap == (old(server)@.clients[client_id].fastmap
            || name@ == "FastMap"@),
{
    let ghost c0 = server@.clients[client_id];
    proof {
        lemma_extentry_fields(c0, name@);
    }
    let mut c = take_client(server, client_id);
    c.extension_count_state = c.extension_count_state - 1;
    let fast_map = String::from_str("FastMap");
    let custom_blocks = String::from_str("CustomBlocks");
    if *name == fast_map {
        c.fastmap = true;
    } else if *name == custom_blocks {
        c.customblocksupportlevel = 1;
        c.expecting_customblock = 1;
    }
    let count = c.extension_count_state;
    let expecting = c.expecting_customblock;
    replace_client(server, client_id, c);
    if count == 0 {
        if expecting == 0 {
            login_procedure(server, client_id)
        } else {
            let mut out: Vec<Outgoing> = Vec::new();
            out.push(Outgoing::To(client_id, cpe_server_customblocklevelsupport(1)));
            assert(outgoing_view(out@) =~= seq![
                OutgoingView::To(client_id, customblock_level_bytes(1)),
            ]);
            out
        }
    } else {
        let out: Vec<Outgoing> = Vec::new();
        assert(outgoing_view(out@) =~= Seq::<OutgoingView>::empty());
        out
    }
}

/// The server after the player `id` has sent its CustomBlockSupportLevel:
/// when the server waits for it, it stops waiting; otherwise nothing
/// changes.  The level the player states is not used.
pub open spec fn customblock_level_state(s: ServerView, id: i8) -> ServerView {
    if s.clients[id].expecting_customblock == 1 {
        with_client(s, id, ClientView { expecting_customblock: 0, ..s.clients[id] })
    } else {
        s
    }
}

/// What the server sends after the player `id` has sent its
/// CustomBlockSupportLevel: the login, when the server waited for it.
pub open spec fn customblock_level_outgoing(s: ServerView, id: i8) -> Seq<OutgoingView> {
    if s.clients[id].expecting_customblock == 1 {
        login_outgoing(customblock_level_state(s, id), id)
    } else {
        seq![]
    }
}

/// Handles a CustomBlockSupportLevel packet: see [`customblock_level_state`]
/// and [`customblock_level_outgoing`].  The login needs a world whose number
/// of blocks fits in 32 bits.
pub fn cpe_client_customblocksupportlevel(server: &mut Server, client_id: i8) -> (out: Vec<
    Outgoing,
>)
    requires
        old(server)@.clients.contains_key(client_id),
        old(server)@.clients[client_id].expecting_customblock == 1 ==> world_volume(old(server)@)
            <= u32::MAX,
    ensures
        final(server)@ == customblock_level_state(old(server)@, client_id),
        outgoing_view(out@) == customblock_level_outgoing(old(server)@, client_id),
{
    let mut c = take_client(server, client_id);
    if c.expecting_customblock == 1 {
        c.expecting_customblock = 0;
        replace_client(server, client_id, c);
        login_procedure(server, client_id)
    } else {
        let out: Vec<Outgoing> = Vec::new();
        assert(outgoing_view(out@) =~= Seq::<OutgoingView>::empty());
        out
    }
}

/// What the server answers to a TwoWayPing body `data` from player `id`: a
/// ping the client started (direction 0) is echoed back to it; a reply to the
/// server's own ping is not answered.
pub open spec fn twowayping_outgoing(data: Seq<u8>, id: i8) -> Seq<OutgoingView> {
    if data[0] == 0 {
        seq![OutgoingView::To(id, twowayping_bytes(0, be16_at(data, 1)))]
    } else {
        seq![]
    }
}

/// Handles a TwoWayPing packet, whose body `data` is the direction and the
/// data to echo: see [`twowayping_outgoing`].
pub fn cpe_client_twowayping(data: &[u8], client_id: i8) -> (out: Vec<Outgoing>)
    requires
        data@.len() >= 3,
    ensures
        outgoing_view(out@) == twowayping_outgoing(data@, client_id),
{
    let direction = data[0];
    let unique_data = read_u16_be(data, 1);
    let mut out: Vec<Outgoing> = Vec::new();
    if direction == 0 {
        out.push(Outgoing::To(client_id, cpe_server_twowayping(direction, unique_data)));
        assert(outgoing_view(out@) =~= twowayping_outgoing(data@, client_id));
    } else {
        assert(outgoing_view(out@) =~= twowayping_outgoing(data@, client_id));
    }
    out
}

/// The server after the player `id` has sent the ExtEntry packets whose
/// bodies are `entries`, in order.
pub open spec fn after_extentries(s: ServerView, id: i8, entries: Seq<Seq<u8>>) -> ServerView
    decreases entries.len(),
{
    if entries.len() == 0 {
        s
    } else {
        extentry_state(after_extentries(s, id, entries.drop_last()), entries.last(), id)
    }
}

/// What holds once the player `id`, whose ExtInfo `info` opened the
/// handshake, has sent the ExtEntry bodies `entries`: the player is still
/// there with `n - k` entries to come, and the world and the other players
/// are untouched.
pub open spec fn countdown_holds(s: ServerView, id: i8, info: Seq<u8>, entries: Seq<Seq<u8>>) -> bool {
    let s1 = after_extentries(extinfo_state(s, info, id), id, entries);
    &&& s1.clients.contains_key(id)
    &&& s1.clients[id].extension_count_state == be_i16_at(info, 64) - entries.len()
    &&& s1.clients.remove(id) == s.clients.remove(id)
    &&& s1.world_data == s.world_data
}

/// [`countdown_holds`] after any number of entries up to the count.
proof fn lemma_countdown_state(s: ServerView, id: i8, info: Seq<u8>, entries: Seq<Seq<u8>>)
    requires
        s.clients.contains_key(id),
        entries.len() <= be_i16_at(info, 64),
    ensures
        countdown_holds(s, id, info, entries),
    decreases entries.len(),
{
    let s0 = extinfo_state(s, info, id);
    assert(s0.clients.remove(id) =~= s.clients.remove(id));
    if entries.len() > 0 {
        lemma_countdown_state(s, id, info, entries.drop_last());
        let prev = after_extentries(s0, id, entries.drop_last());
        let s1 = after_extentries(s0, id, entries);
        assert(s1 == extentry_state(prev, entries.last(), id));
        assert(s1.clients.remove(id) =~= prev.clients.remove(id));
    }
}

/// The extension handshake counts down: once the player's ExtInfo has
/// announced `n` entries and `k <= n` ExtEntry packets have followed,
/// `n - k` entries remain (see [`countdown_holds`]), and the server has
/// answered none of those that left entries to come.
pub proof fn lemma_extension_countdown(s: ServerView, id: i8, info: Seq<u8>, entries: Seq<Seq<u8>>)
    requires
        s.clients.contains_key(id),
        entries.len() <= be_i16_at(info, 64),
    ensures
        countdown_holds(s, id, info, entries),
        forall|j: int|
            0 <= j < entries.len() && j + 1 < be_i16_at(info, 64) ==> extentry_outgoing(
                #[trigger] after_extentries(extinfo_state(s, info, id), id, entries.take(j + 1)),
                id,
            ) == Seq::<OutgoingView>::empty(),
{
    let s0 = extinfo_state(s, info, id);
    lemma_countdown_state(s, id, info, entries);
    assert forall|j: int|
        0 <= j < entries.len() && j + 1 < be_i16_at(info, 64) implies extentry_outgoing(
        #[trigger] after_extentries(s0, id, entries.take(j + 1)),
        id,
    ) == Seq::<OutgoingView>::empty() by {
        lemma_countdown_state(s, id, info, entries.take(j + 1));
    }
}

/// Whether one of the ExtEntry bodies `entries` announces the extension
/// `name`.
pub open spec fn announces(entries: Seq<Seq<u8>>, name: Seq<char>) -> bool {
    exists|j: int| 0 <= j < entries.len() && extension_name(#[trigger] entries[j]) == name
}

/// After a run of ExtEntry packets, whatever their order, the server waits
/// for the player's CustomBlocks level, with the support level 1, exactly
/// when one of them announced CustomBlocks; otherwise the wait and the
/// support level are what they were before the run.  The player stays.
pub proof fn lemma_extentries_customblocks(s: ServerView, id: i8, entries: Seq<Seq<u8>>)
    requires
        s.clients.contains_key(id),
    ensures
        after_extentries(s, id, entries).clients.contains_key(id),
        after_extentries(s, id, entries).clients[id].expecting_customblock == if announces(
            entries,
            "CustomBlocks"@,
        ) {
            1
        } else {
            s.clients[id].expecting_customblock
        },
        after_extentries(s, id, entries).clients[id].customblocksupportlevel == if announces(
            entries,
            "CustomBlocks"@,
        ) {
            1
        } else {
            s.clients[id].customblocksupportlevel
        },
    decreases entries.len(),
{
    if entries.len() > 0 {
        let cb = "CustomBlocks"@;
        let pre = entries.drop_last();
        lemma_extentries_customblocks(s, id, pre);
        lemma_fastmap_not_customblocks();
        if announces(pre, cb) {
            let j = choose|j: int| 0 <= j < pre.len() && extension_name(#[trigger] pre[j]) == cb;
            assert(entries[j] == pre[j]);
        }
        if announces(entries, cb) && extension_name(entries.last()) != cb {
            let j = choose|j: int|
                0 <= j < entries.len() && extension_name(#[trigger] entries[j]) == cb;
            assert(j < pre.len());
            assert(pre[j] == entries[j]);
        }
        if extension_name(entries.last()) == cb {
            assert(extension_name(entries[entries.len() - 1]) == cb);
        }
    }
}

/// Once a client of the extension protocol has announced CustomBlocks, in
/// any of the `n` ExtEntry packets that its ExtInfo `info` promised, the
/// last of them is answered with the server's CustomBlockSupportLevel packet
/// (id 0x13, level 1), whatever the order of the entries, and the login
/// waits for the player's own level.
pub proof fn lemma_customblocks_answered(
    s: ServerView,
    id: i8,
    info: Seq<u8>,
    entries: Seq<Seq<u8>>,
    j: int,
)
    requires
        s.clients.contains_key(id),
        be_i16_at(info, 64) == entries.len(),
        0 <= j < entries.len(),
        extension_name(entries[j]) == "CustomBlocks"@,
    ensures
        ({
            let s1 = after_extentries(extinfo_state(s, info, id), id, entries);
            &&& s1.clients[id].expecting_customblock == 1
            &&& extentry_outgoing(s1, id) == seq![OutgoingView::To(id, seq![0x13u8, 0x01u8])]
        }),
{
    let s0 = extinfo_state(s, info, id);
    lemma_countdown_state(s, id, info, entries);
    lemma_extentries_customblocks(s0, id, entries);
    assert(announces(entries, "CustomBlocks"@));
    assert(customblock_level_bytes(1) =~= seq![0x13u8, 0x01u8]);
}

} // verus!
