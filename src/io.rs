//! The poll-based I/O interface every networking component runs over.
//!
//! Hosts implement `IoProvider` with their own sockets and clock (an OS
//! socket stack, or a restricted host shim). All calls are synchronous and
//! non-blocking: a receive with nothing ready returns `None`.
use vstd::prelude::*;

verus! {

/// Opaque handle of a UDP socket owned by the provider.
#[derive(Debug, Clone, Copy, PartialEq, Eq, Structural)]
pub struct UdpSocketHandle(pub i32);

/// Opaque handle of a TCP socket owned by the provider.
#[derive(Debug, Clone, Copy, PartialEq, Eq, Structural)]
pub struct TcpSocketHandle(pub i32);

/// Transport failure reported by a provider.
#[derive(Debug, Clone)]
pub struct IoError {
    pub code: i32,
    pub message: String,
}

/// Sockets, clock and debug sink supplied by the host.
pub trait IoProvider {
    /// Creates a UDP socket.
    fn udp_create(&mut self) -> Result<UdpSocketHandle, IoError>;

    /// Binds a UDP socket to a local port (0: any).
    fn udp_bind(&mut self, socket: &UdpSocketHandle, port: u16) -> Result<(), IoError>;

    /// Enables or disables sending to broadcast addresses.
    fn udp_set_broadcast(&mut self, socket: &UdpSocketHandle, enabled: bool) -> Result<(), IoError>;

    /// Joins a multicast group on an interface address ("" for any).
    fn udp_join_multicast(&mut self, socket: &UdpSocketHandle, group: &str, interface: &str) -> Result<(), IoError>;

    /// Sends one datagram without blocking; returns the bytes written.
    fn udp_send_to(&mut self, socket: &UdpSocketHandle, data: &[u8], addr: &str, port: u16) -> Result<usize, IoError>;

    /// Receives one datagram into `buf` if one is ready: its length, source
    /// address and source port.
    fn udp_recv_from(&mut self, socket: &UdpSocketHandle, buf: &mut [u8]) -> (r: Option<(usize, String, u16)>)
        ensures
            final(buf)@.len() == old(buf)@.len(),
            r is Some ==> r->Some_0.0 <= old(buf)@.len(),
    ;

    /// Closes a UDP socket.
    fn udp_close(&mut self, socket: UdpSocketHandle);

    /// Creates a TCP socket.
    fn tcp_create(&mut self) -> Result<TcpSocketHandle, IoError>;

    /// Connects (bounded wait of at most 5 s).
    fn tcp_connect(&mut self, socket: &TcpSocketHandle, addr: &str, port: u16) -> Result<(), IoError>;

    /// Whether the socket is connected.
    fn tcp_is_connected(&self, socket: &TcpSocketHandle) -> bool;

    /// Sends bytes without blocking; returns the bytes written.
    fn tcp_send(&mut self, socket: &TcpSocketHandle, data: &[u8]) -> Result<usize, IoError>;

    /// Next complete CR/LF-terminated line, without its terminator, if one is buffered.
    fn tcp_recv_line(&mut self, socket: &TcpSocketHandle, buf: &mut [u8]) -> (r: Option<usize>)
        ensures
            final(buf)@.len() == old(buf)@.len(),
            r is Some ==> r->Some_0 <= old(buf)@.len(),
    ;

    /// Raw bytes, if any are ready.
    fn tcp_recv_raw(&mut self, socket: &TcpSocketHandle, buf: &mut [u8]) -> (r: Option<usize>)
        ensures
            final(buf)@.len() == old(buf)@.len(),
            r is Some ==> r->Some_0 <= old(buf)@.len(),
    ;

    /// Closes a TCP socket.
    fn tcp_close(&mut self, socket: TcpSocketHandle);

    /// Monotonic time in milliseconds.
    fn current_time_ms(&self) -> u64;

    /// Debug log sink.
    fn debug(&self, msg: &str);
}

} // verus!
