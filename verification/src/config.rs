//! The settings that a client and the server start with.

use vstd::prelude::*;

verus! {

/// The port that the server listens on.
pub const SERVER_PORT: u16 = 5000;

/// The port of the first client on a machine.
pub const CLIENT_PORT: u16 = 4000;

/// Milliseconds between two rounds of replication.
pub const SERVER_REPLICATION_INTERVAL: u64 = 100;

/// How a client connects.
#[derive(Clone, Copy, Debug, PartialEq, Eq, Structural)]
pub struct ClientSettings {
    pub server_port: u16,
    pub client_port: u16,
    pub client_id: u64,
    pub protocol_id: u64,
}

/// How the server listens and replicates.
#[derive(Clone, Copy, Debug, PartialEq, Eq, Structural)]
pub struct ServerSettings {
    pub server_port: u16,
    pub send_interval: u64,
}

/// The grid that the rectangles are spawned on.
#[derive(Clone, Copy, Debug, PartialEq, Eq, Structural)]
pub struct GridSettings {
    pub width: u32,
    pub height: u32,
    pub seed: u32,
    /// Share of the grid that is to be empty, in percent.
    pub required_empty_percent: u32,
    pub border_size: u32,
    pub pool_size: usize,
}

/// Calls `rand::random::<u64>()`. The value comes from the thread's random
/// generator, so nothing is claimed of it.
#[verifier::external_body]
fn random_client_id() -> (id: u64) {
    rand::random::<u64>()
}

/// Calls `rand::Rng::gen_range` on `rand::thread_rng()` with the range
/// `0..u32::MAX`. The range is not empty, so the call returns, and the value
/// lies in the range: below `u32::MAX`.
#[verifier::external_body]
fn random_seed() -> (seed: u32)
    ensures
        seed < u32::MAX,
{
    rand::Rng::gen_range(&mut rand::thread_rng(), 0..u32::MAX)
}

/// The settings of the client with this identifier, `port_offset` ports above the first.
pub fn client_settings(client_id: u64, port_offset: u16) -> (s: ClientSettings)
    requires
        CLIENT_PORT + port_offset <= u16::MAX,
    ensures
        s == (ClientSettings {
            server_port: SERVER_PORT,
            client_port: (CLIENT_PORT + port_offset) as u16,
            client_id,
            protocol_id: 0,
        }),
{
    ClientSettings {
        server_port: SERVER_PORT,
        client_port: CLIENT_PORT + port_offset,
        client_id,
        protocol_id: 0,
    }
}

/// The settings of a client under a random identifier.
pub fn client_config(port_offset: u16) -> (s: ClientSettings)
    requires
        CLIENT_PORT + port_offset <= u16::MAX,
    ensures
        s.server_port == SERVER_PORT,
        s.client_port == CLIENT_PORT + port_offset,
        s.protocol_id == 0,
{
    client_settings(random_client_id(), port_offset)
}

/// The settings of the server.
pub fn server_config() -> (s: ServerSettings)
    ensures
        s == (ServerSettings { server_port: SERVER_PORT, send_interval: SERVER_REPLICATION_INTERVAL }),
{
    ServerSettings { server_port: SERVER_PORT, send_interval: SERVER_REPLICATION_INTERVAL }
}

/// The grid for a given seed: 200 by 100 cells inside a border of one cell,
/// two fifths of it to be empty, and a pool of 20000 rectangles.
pub fn grid_settings(seed: u32) -> (g: GridSettings)
    ensures
        g == (GridSettings {
            width: 200,
            height: 100,
            seed,
            required_empty_percent: 40,
            border_size: 1,
            pool_size: 20000,
        }),
{
    GridSettings {
        width: 200,
        height: 100,
        seed,
        required_empty_percent: 40,
        border_size: 1,
        pool_size: 20000,
    }
}

/// The grid under a random seed.
pub fn random_grid_settings() -> (g: GridSettings)
    ensures
        g.width == 200,
        g.height == 100,
        g.seed < u32::MAX,
        g.required_empty_percent == 40,
        g.border_size == 1,
        g.pool_size == 20000,
{
    grid_settings(random_seed())
}

} // verus!
