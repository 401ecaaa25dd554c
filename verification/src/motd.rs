//! A builder for the server data a LAN server advertises.

use crate::error::{describes, NethernetError};
use crate::server_data::{
    default_server_data, server_data_marshal_spec, ServerData, ServerDataView,
};
use vstd::prelude::*;

verus! {

/// Builds the server data shown in the list of LAN games.
#[derive(Debug, Clone)]
pub struct NethernetMotd {
    server_data: ServerData,
}

impl View for NethernetMotd {
    type V = ServerDataView;

    closed spec fn view(&self) -> ServerDataView {
        self.server_data@
    }
}

impl NethernetMotd {
    /// Starts from the given names and the default fields of `ServerData::new`.
    pub fn new(server_name: String, level_name: String) -> (r: Self)
        ensures
            r@ == default_server_data(server_name@, level_name@),
    {
        NethernetMotd { server_data: ServerData::new(server_name, level_name) }
    }

    /// Sets the server name.
    pub fn server_name(self, server_name: String) -> (r: Self)
        ensures
            r@ == (ServerDataView { server_name: server_name@, ..self@ }),
    {
        let mut s = self;
        s.server_data.server_name = server_name;
        s
    }

    /// Sets the level name.
    pub fn level_name(self, level_name: String) -> (r: Self)
        ensures
            r@ == (ServerDataView { level_name: level_name@, ..self@ }),
    {
        let mut s = self;
        s.server_data.level_name = level_name;
        s
    }

    /// Sets the game type.
    pub fn game_type(self, game_type: u8) -> (r: Self)
        ensures
            r@ == (ServerDataView { game_type, ..self@ }),
    {
        let mut s = self;
        s.server_data.game_type = game_type;
        s
    }

    /// Sets the number of players.
    pub fn player_count(self, player_count: i32) -> (r: Self)
        ensures
            r@ == (ServerDataView { player_count, ..self@ }),
    {
        let mut s = self;
        s.server_data.player_count = player_count;
        s
    }

    /// Sets the largest number of players.
    pub fn max_player_count(self, max_player_count: i32) -> (r: Self)
        ensures
            r@ == (ServerDataView { max_player_count, ..self@ }),
    {
        let mut s = self;
        s.server_data.max_player_count = max_player_count;
        s
    }

    /// Sets whether the world is an editor world.
    pub fn editor_world(self, editor_world: bool) -> (r: Self)
        ensures
            r@ == (ServerDataView { editor_world, ..self@ }),
    {
        let mut s = self;
        s.server_data.editor_world = editor_world;
        s
    }

    /// Sets whether the world is hardcore.
    pub fn hardcore(self, hardcore: bool) -> (r: Self)
        ensures
            r@ == (ServerDataView { hardcore, ..self@ }),
    {
        let mut s = self;
        s.server_data.hardcore = hardcore;
        s
    }

    /// Sets the transport layer.
    pub fn transport_layer(self, transport_layer: u8) -> (r: Self)
        ensures
            r@ == (ServerDataView { transport_layer, ..self@ }),
    {
        let mut s = self;
        s.server_data.transport_layer = transport_layer;
        s
    }

    /// Sets the connection type.
    pub fn connection_type(self, connection_type: u8) -> (r: Self)
        ensures
            r@ == (ServerDataView { connection_type, ..self@ }),
    {
        let mut s = self;
        s.server_data.connection_type = connection_type;
        s
    }

    /// The server data built.
    pub fn build(self) -> (r: ServerData)
        ensures
            r@ == self@,
    {
        self.server_data
    }

    /// The wire bytes of the server data built, as `ServerData::marshal`
    /// gives them.
    pub fn marshal(self) -> (r: Result<Vec<u8>, NethernetError>)
        ensures
            match server_data_marshal_spec(self@) {
                Ok(b) => r matches Ok(v) && v@ == b,
                Err(e) => r matches Err(x) && describes(x, e),
            },
    {
        self.server_data.marshal()
    }
}

} // verus!
