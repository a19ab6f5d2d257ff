//! A connected player, as the server keeps it between packets.

use vstd::prelude::*;

verus! {

/// The state the server keeps of one connected player.  The connection
/// itself stays with the program that owns the socket.
#[derive(Debug)]
pub struct Client {
    pub player_id: i8,
    pub player_name: String,
    /// Extension entries the player still has to announce during the
    /// classic protocol extension handshake.
    pub extension_count_state: i16,
    /// The player announced the FastMap extension.
    pub fastmap: bool,
    /// The CustomBlocks support level agreed with the player.
    pub customblocksupportlevel: u8,
    /// 1 while the server waits for the player's CustomBlocks support level.
    pub expecting_customblock: u8,
}

/// The value of a [`Client`], its name as characters.
pub struct ClientView {
    pub player_id: i8,
    pub player_name: Seq<char>,
    pub extension_count_state: i16,
    pub fastmap: bool,
    pub customblocksupportlevel: u8,
    pub expecting_customblock: u8,
}

impl View for Client {
    type V = ClientView;

    open spec fn view(&self) -> ClientView {
        ClientView {
            player_id: self.player_id,
            player_name: self.player_name@,
            extension_count_state: self.extension_count_state,
            fastmap: self.fastmap,
            customblocksupportlevel: self.customblocksupportlevel,
            expecting_customblock: self.expecting_customblock,
        }
    }
}

/// A player who has just connected: no name yet, no extensions.
pub open spec fn fresh_client(player_id: i8) -> ClientView {
    ClientView {
        player_id,
        player_name: Seq::empty(),
        extension_count_state: 0,
        fastmap: false,
        customblocksupportlevel: 0,
        expecting_customblock: 0,
    }
}

impl Client {
    /// The state of a player who has just connected.
    pub fn new(player_id: i8) -> (c: Client)
        ensures
            c@ == fresh_client(player_id),
    {
        Client {
            player_id,
            player_name: String::new(),
            extension_count_state: 0,
            fastmap: false,
            customblocksupportlevel: 0,
            expecting_customblock: 0,
        }
    }
}

} // verus!
