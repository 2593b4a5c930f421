//! How connections are accepted.
//!
//! The engine opens no socket itself. It says how the listening socket and
//! each accepted connection are to be set up, and whoever owns the sockets
//! follows that.

use vstd::prelude::*;

verus! {

/// The size of the send and of the receive buffer of the listening socket:
/// 256 KiB.
pub const SOCKET_BUFFER_SIZE: u32 = 262144;

/// The backlog of the listening socket.
pub const LISTEN_BACKLOG: u32 = 65535;

/// The seconds that a connection is idle before the first keep-alive probe.
pub const KEEPALIVE_IDLE_SECS: u64 = 60;

/// The seconds between keep-alive probes.
pub const KEEPALIVE_INTERVAL_SECS: u64 = 10;

/// The most bytes that are buffered of one connection's requests: 128 KiB.
pub const MAX_REQUEST_BUFFER: usize = 131072;

/// How the listening socket is set up.
#[derive(Clone, Copy, Debug, PartialEq, Eq, Structural)]
pub struct ListenerSettings {
    /// The port, on every IPv4 address of the machine.
    pub port: u16,
    /// Whether the address may be bound again at once after a restart.
    pub reuse_address: bool,
    pub send_buffer_size: u32,
    pub recv_buffer_size: u32,
    pub backlog: u32,
}

/// How an accepted connection is set up and served.
#[derive(Clone, Copy, Debug, PartialEq, Eq, Structural)]
pub struct ConnectionSettings {
    /// Whether segments are sent at once, without waiting to fill them.
    pub no_delay: bool,
    pub keepalive_idle_secs: u64,
    pub keepalive_interval_secs: u64,
    /// Whether the connection stays open for further requests.
    pub keep_alive: bool,
    /// Whether responses to pipelined requests are flushed together.
    pub pipeline_flush: bool,
    pub max_buffer_size: usize,
}

/// The settings of the listening socket for a port: the address may be
/// reused, both buffers are 256 KiB, and the backlog is 65535.
pub fn listener_settings(port: u16) -> (settings: ListenerSettings)
    ensures
        settings == (ListenerSettings {
            port,
            reuse_address: true,
            send_buffer_size: SOCKET_BUFFER_SIZE,
            recv_buffer_size: SOCKET_BUFFER_SIZE,
            backlog: LISTEN_BACKLOG,
        }),
{
    ListenerSettings {
        port,
        reuse_address: true,
        send_buffer_size: SOCKET_BUFFER_SIZE,
        recv_buffer_size: SOCKET_BUFFER_SIZE,
        backlog: LISTEN_BACKLOG,
    }
}

/// The settings of every accepted connection: no delay, a keep-alive probe
/// after 60 seconds of idleness and then every 10 seconds, HTTP keep-alive
/// with pipelined flush, and a request buffer of at most 128 KiB.
pub fn connection_settings() -> (settings: ConnectionSettings)
    ensures
        settings == (ConnectionSettings {
            no_delay: true,
            keepalive_idle_secs: KEEPALIVE_IDLE_SECS,
            keepalive_interval_secs: KEEPALIVE_INTERVAL_SECS,
            keep_alive: true,
            pipeline_flush: true,
            max_buffer_size: MAX_REQUEST_BUFFER,
        }),
{
    ConnectionSettings {
        no_delay: true,
        keepalive_idle_secs: KEEPALIVE_IDLE_SECS,
        keepalive_interval_secs: KEEPALIVE_INTERVAL_SECS,
        keep_alive: true,
        pipeline_flush: true,
        max_buffer_size: MAX_REQUEST_BUFFER,
    }
}

} // verus!
