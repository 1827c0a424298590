//! TCP and UDP sockets over smoltcp: what a receive, a send or a pending
//! connection does with the state the socket reports.
//!
//! Each operation either finishes with a result, or registers the caller's
//! waker with the socket and reports that it must wait (`None`).

use core::task::Waker;
use smoltcp::iface::Context;
use smoltcp::socket::{tcp, udp};
use smoltcp::wire::{IpAddress, IpEndpoint};
use vstd::prelude::*;

use crate::errno::{KResult, EADDRNOTAVAIL, EAGAIN, ECONNREFUSED, EINVAL, EISCONN, ENOTCONN};
use crate::file::{PollEvent, POLL_READABLE, POLL_WRITABLE};

verus! {

#[verifier::external_type_specification]
#[verifier::external_body]
pub struct ExTcpSocket<'a>(tcp::Socket<'a>);

#[verifier::external_type_specification]
#[verifier::external_body]
pub struct ExUdpSocket<'a>(udp::Socket<'a>);

#[verifier::external_type_specification]
#[verifier::external_body]
pub struct ExUdpMetadata(udp::UdpMetadata);

#[verifier::external_type_specification]
#[verifier::external_body]
pub struct ExWaker(Waker);

#[verifier::external_type_specification]
#[verifier::external_body]
pub struct ExIfaceContext(Context);

/// The states of the TCP state machine.
#[derive(Debug, Clone, Copy, PartialEq, Eq, Structural)]
pub enum TcpState {
    Closed,
    Listen,
    SynSent,
    SynReceived,
    Established,
    FinWait1,
    FinWait2,
    CloseWait,
    Closing,
    LastAck,
    TimeWait,
}

/// Why a TCP receive was refused.
#[derive(Debug, Clone, Copy, PartialEq, Eq, Structural)]
pub enum TcpRecvError {
    InvalidState,
    Finished,
}

/// Why a TCP socket could not start listening.
#[derive(Debug, Clone, Copy, PartialEq, Eq, Structural)]
pub enum TcpListenError {
    /// The socket is open on another endpoint.
    InvalidState,
    /// The port is zero.
    Unaddressable,
}

/// Why a TCP connection could not be started.
#[derive(Debug, Clone, Copy, PartialEq, Eq, Structural)]
pub enum TcpConnectError {
    /// The socket is open already.
    InvalidState,
    /// A port is zero, an address is unspecified or no source address
    /// fits the destination.
    Unaddressable,
}

/// Why a UDP receive failed.
#[derive(Debug, Clone, Copy, PartialEq, Eq, Structural)]
pub enum UdpRecvError {
    /// No datagram is queued.
    Exhausted,
    /// The datagram did not fit in the buffer and was dropped.
    Truncated,
}

/// Why a UDP send failed.
#[derive(Debug, Clone, Copy, PartialEq, Eq, Structural)]
pub enum UdpSendError {
    /// The socket is unbound, or the destination has no address or port.
    Unaddressable,
    /// The transmit buffer has no room for the datagram.
    BufferFull,
}

/// `smoltcp::socket::tcp::Socket::state`, one variant for each.  Which
/// state comes back is not stated: the socket's state stays opaque here.
#[verifier::external_body]
fn tcp_state(socket: &tcp::Socket<'static>) -> (r: TcpState) {
    match socket.state() {
        tcp::State::Closed => TcpState::Closed,
        tcp::State::Listen => TcpState::Listen,
        tcp::State::SynSent => TcpState::SynSent,
        tcp::State::SynReceived => TcpState::SynReceived,
        tcp::State::Established => TcpState::Established,
        tcp::State::FinWait1 => TcpState::FinWait1,
        tcp::State::FinWait2 => TcpState::FinWait2,
        tcp::State::CloseWait => TcpState::CloseWait,
        tcp::State::Closing => TcpState::Closing,
        tcp::State::LastAck => TcpState::LastAck,
        tcp::State::TimeWait => TcpState::TimeWait,
    }
}

/// `smoltcp::socket::tcp::Socket::may_recv`: whether data can still come.
/// The result is not stated: it depends on the state and on the receive
/// buffer, which stay opaque here.
#[verifier::external_body]
fn tcp_may_recv(socket: &tcp::Socket<'static>) -> (r: bool) {
    socket.may_recv()
}

/// `smoltcp::socket::tcp::Socket::can_recv`: whether data is there to be
/// received now.  The result is not stated: the receive buffer stays
/// opaque here.
#[verifier::external_body]
fn tcp_can_recv(socket: &tcp::Socket<'static>) -> (r: bool) {
    socket.can_recv()
}

/// `smoltcp::socket::tcp::Socket::may_send`: whether the sending half is
/// open.  The result is not stated: the state stays opaque here.
#[verifier::external_body]
fn tcp_may_send(socket: &tcp::Socket<'static>) -> (r: bool) {
    socket.may_send()
}

/// `smoltcp::socket::tcp::Socket::can_send`: whether the transmit buffer
/// has room now.  The result is not stated: the state and the buffer stay
/// opaque here.
#[verifier::external_body]
fn tcp_can_send(socket: &tcp::Socket<'static>) -> (r: bool) {
    socket.can_send()
}

/// `smoltcp::socket::tcp::Socket::recv_slice`: dequeues received bytes
/// into `data`, at most as many as it holds; the bytes themselves are not
/// stated.
#[verifier::external_body]
fn tcp_recv_slice(socket: &mut tcp::Socket<'static>, data: &mut [u8]) -> (r: Result<
    usize,
    TcpRecvError,
>)
    ensures
        final(data)@.len() == old(data)@.len(),
        r matches Ok(n) ==> n <= old(data)@.len(),
{
    match socket.recv_slice(data) {
        Ok(n) => Ok(n),
        Err(tcp::RecvError::InvalidState) => Err(TcpRecvError::InvalidState),
        Err(tcp::RecvError::Finished) => Err(TcpRecvError::Finished),
    }
}

/// `smoltcp::socket::tcp::Socket::send_slice`: enqueues a prefix of
/// `data`, as much as the transmit buffer takes; refused when the sending
/// half is closed.  How much is taken, and when it is refused, is not
/// stated beyond the bound: the buffer and the state stay opaque here.
#[verifier::external_body]
fn tcp_send_slice(socket: &mut tcp::Socket<'static>, data: &[u8]) -> (r: Result<usize, ()>)
    ensures
        r matches Ok(n) ==> n <= data@.len(),
{
    match socket.send_slice(data) {
        Ok(n) => Ok(n),
        Err(tcp::SendError::InvalidState) => Err(()),
    }
}

/// `smoltcp::socket::tcp::Socket::listen` on the IPv4 endpoint `addr`
/// (its four bytes in order) and `port`: a zero port is refused as
/// unaddressable.  Whether a non-zero port is accepted depends on the
/// socket's state (opaque here) and is not stated, nor is the new state.
#[verifier::external_body]
fn tcp_listen(socket: &mut tcp::Socket<'static>, addr: [u8; 4], port: u16) -> (r: Result<
    (),
    TcpListenError,
>)
    ensures
        port == 0 ==> r matches Err(TcpListenError::Unaddressable),
{
    let endpoint = IpEndpoint::new(IpAddress::v4(addr[0], addr[1], addr[2], addr[3]), port);
    match socket.listen(endpoint) {
        Ok(()) => Ok(()),
        Err(tcp::ListenError::InvalidState) => Err(TcpListenError::InvalidState),
        Err(tcp::ListenError::Unaddressable) => Err(TcpListenError::Unaddressable),
    }
}

/// The IPv4 address `0.0.0.0`.
pub open spec fn is_unspecified(addr: [u8; 4]) -> bool {
    addr[0] == 0 && addr[1] == 0 && addr[2] == 0 && addr[3] == 0
}

/// `smoltcp::socket::tcp::Socket::connect` from the IPv4 endpoint
/// `local_addr`:`local_port` to `remote_addr`:`remote_port` (addresses as
/// their four bytes in order): a zero port or the address `0.0.0.0` on
/// either side is refused.  Whether other endpoints are accepted depends
/// on the socket's state and on the interface (opaque here) and is not
/// stated, nor is the new state.
#[verifier::external_body]
fn tcp_connect(
    socket: &mut tcp::Socket<'static>,
    cx: &mut Context,
    remote_addr: [u8; 4],
    remote_port: u16,
    local_addr: [u8; 4],
    local_port: u16,
) -> (r: Result<(), TcpConnectError>)
    ensures
        remote_port == 0 || local_port == 0 || is_unspecified(remote_addr) || is_unspecified(
            local_addr,
        ) ==> r is Err,
{
    let ra = IpAddress::v4(remote_addr[0], remote_addr[1], remote_addr[2], remote_addr[3]);
    let la = IpAddress::v4(local_addr[0], local_addr[1], local_addr[2], local_addr[3]);
    let remote = IpEndpoint::new(ra, remote_port);
    let local = IpEndpoint::new(la, local_port);
    match socket.connect(cx, remote, local) {
        Ok(()) => Ok(()),
        Err(tcp::ConnectError::InvalidState) => Err(TcpConnectError::InvalidState),
        Err(tcp::ConnectError::Unaddressable) => Err(TcpConnectError::Unaddressable),
    }
}

/// `smoltcp::socket::tcp::Socket::register_recv_waker`: the waker is
/// kept inside the socket, which stays opaque here; nothing is stated.
#[verifier::external_body]
fn tcp_register_recv_waker(socket: &mut tcp::Socket<'static>, waker: &Waker) {
    socket.register_recv_waker(waker)
}

/// `smoltcp::socket::tcp::Socket::register_send_waker`: the waker is
/// kept inside the socket, which stays opaque here; nothing is stated.
#[verifier::external_body]
fn tcp_register_send_waker(socket: &mut tcp::Socket<'static>, waker: &Waker) {
    socket.register_send_waker(waker)
}

/// `smoltcp::socket::udp::Socket::can_recv`: a datagram is queued.  The
/// result is not stated: the receive buffer stays opaque here.
#[verifier::external_body]
fn udp_can_recv(socket: &udp::Socket<'static>) -> (r: bool) {
    socket.can_recv()
}

/// `smoltcp::socket::udp::Socket::can_send`: the transmit buffer is not
/// full.  The result is not stated: the buffer stays opaque here.
#[verifier::external_body]
fn udp_can_send(socket: &udp::Socket<'static>) -> (r: bool) {
    socket.can_send()
}

/// `smoltcp::socket::udp::Socket::recv_slice`: copies the next datagram
/// into `data` and gives its length, which fits in `data`; a datagram too
/// long for `data` is dropped (`Truncated`).  Which outcome comes, and the
/// bytes and sender of the datagram, are not stated: the receive buffer
/// stays opaque here.
#[verifier::external_body]
fn udp_recv_slice(socket: &mut udp::Socket<'static>, data: &mut [u8]) -> (r: Result<
    (usize, udp::UdpMetadata),
    UdpRecvError,
>)
    ensures
        final(data)@.len() == old(data)@.len(),
        r matches Ok((n, _)) ==> n <= old(data)@.len(),
{
    match socket.recv_slice(data) {
        Ok((n, meta)) => Ok((n, meta)),
        Err(udp::RecvError::Exhausted) => Err(UdpRecvError::Exhausted),
        Err(udp::RecvError::Truncated) => Err(UdpRecvError::Truncated),
    }
}

/// `smoltcp::socket::udp::Socket::send_slice`: queues `data` as one
/// datagram for the endpoint of `meta`.  Which outcome comes is not
/// stated: the binding, the buffer and `meta` stay opaque here.
#[verifier::external_body]
fn udp_send_slice(socket: &mut udp::Socket<'static>, data: &[u8], meta: udp::UdpMetadata) -> (r:
    Result<(), UdpSendError>) {
    match socket.send_slice(data, meta) {
        Ok(()) => Ok(()),
        Err(udp::SendError::Unaddressable) => Err(UdpSendError::Unaddressable),
        Err(udp::SendError::BufferFull) => Err(UdpSendError::BufferFull),
    }
}

/// `smoltcp::socket::udp::Socket::register_recv_waker`: the waker is
/// kept inside the socket, which stays opaque here; nothing is stated.
#[verifier::external_body]
fn udp_register_recv_waker(socket: &mut udp::Socket<'static>, waker: &Waker) {
    socket.register_recv_waker(waker)
}

/// `smoltcp::socket::udp::Socket::register_send_waker`: the waker is
/// kept inside the socket, which stays opaque here; nothing is stated.
#[verifier::external_body]
fn udp_register_send_waker(socket: &mut udp::Socket<'static>, waker: &Waker) {
    socket.register_send_waker(waker)
}

/// What an operation on a socket does next.
#[derive(Debug, Clone, Copy, PartialEq, Eq, Structural)]
pub enum SocketStep {
    /// Fail with this error.
    Fail(u32),
    /// Go on with the transfer.
    Proceed,
    /// Register the waker and wait.
    Wait,
}

/// A receive on a TCP socket: `ENOTCONN` when no data can come any more,
/// go on when data is there, wait otherwise.
pub fn recv_step(may_recv: bool, can_recv: bool) -> (r: SocketStep)
    ensures
        r == (if !may_recv {
            SocketStep::Fail(ENOTCONN)
        } else if can_recv {
            SocketStep::Proceed
        } else {
            SocketStep::Wait
        }),
{
    if !may_recv {
        SocketStep::Fail(ENOTCONN)
    } else if can_recv {
        SocketStep::Proceed
    } else {
        SocketStep::Wait
    }
}

/// A send on a TCP socket: `ENOTCONN` when the sending half is closed, go
/// on when there is room, wait otherwise.
pub fn send_step(may_send: bool, can_send: bool) -> (r: SocketStep)
    ensures
        r == (if !may_send {
            SocketStep::Fail(ENOTCONN)
        } else if can_send {
            SocketStep::Proceed
        } else {
            SocketStep::Wait
        }),
{
    if !may_send {
        SocketStep::Fail(ENOTCONN)
    } else if can_send {
        SocketStep::Proceed
    } else {
        SocketStep::Wait
    }
}

/// A connection exchanges packets in every state but `CLOSED`,
/// `TIME-WAIT` and `LISTEN`.
pub open spec fn is_active_spec(s: TcpState) -> bool {
    !(s == TcpState::Closed || s == TcpState::TimeWait || s == TcpState::Listen)
}

pub fn is_active(s: TcpState) -> (r: bool)
    ensures
        r == is_active_spec(s),
{
    match s {
        TcpState::Closed | TcpState::TimeWait | TcpState::Listen => false,
        _ => true,
    }
}

/// A pending connection is made once established and refused once the
/// socket stopped being active; otherwise it is still under way (`None`).
pub fn connect_step(s: TcpState) -> (r: Option<KResult<()>>)
    ensures
        r == (if s == TcpState::Established {
            Some(Ok::<(), u32>(()))
        } else if !is_active_spec(s) {
            Some(Err::<(), u32>(ECONNREFUSED))
        } else {
            None::<KResult<()>>
        }),
{
    if s == TcpState::Established {
        Some(Ok(()))
    } else if !is_active(s) {
        Some(Err(ECONNREFUSED))
    } else {
        None
    }
}

/// A socket operation polled as a future: a result is ready; nothing yet
/// is `EAGAIN` for a non-blocking socket and pending otherwise (`None`).
pub fn poll_result<T>(r: Option<KResult<T>>, nonblock: bool) -> (out: Option<KResult<T>>)
    ensures
        out == (match r {
            Some(x) => Some(x),
            None => if nonblock {
                Some(Err::<T, u32>(EAGAIN))
            } else {
                None
            },
        }),
{
    match r {
        Some(x) => Some(x),
        None => {
            if nonblock {
                Some(Err(EAGAIN))
            } else {
                None
            }
        },
    }
}

/// Binding a socket: refused (`EINVAL`) when it is bound already, and
/// `EADDRNOTAVAIL` when no interface has the address (`iface` is the
/// interface that has it).
pub fn bind_check(bound: bool, iface: Option<usize>) -> (r: KResult<usize>)
    ensures
        r == (if bound {
            Err::<usize, u32>(EINVAL)
        } else {
            match iface {
                Some(i) => Ok::<usize, u32>(i),
                None => Err::<usize, u32>(EADDRNOTAVAIL),
            }
        }),
{
    if bound {
        return Err(EINVAL);
    }
    match iface {
        Some(i) => Ok(i),
        None => Err(EADDRNOTAVAIL),
    }
}

/// The events a UDP socket reports: readable when asked and a datagram is
/// queued, writable when asked and there is room.
pub fn udp_poll_events(events: PollEvent, can_recv: bool, can_send: bool) -> (r: PollEvent)
    ensures
        r.0 == ((if events.0 & POLL_READABLE == POLL_READABLE && can_recv {
            POLL_READABLE
        } else {
            0u16
        }) | (if events.0 & POLL_WRITABLE == POLL_WRITABLE && can_send {
            POLL_WRITABLE
        } else {
            0u16
        })),
{
    let rd: u16 = if events.contains(PollEvent(POLL_READABLE)) && can_recv {
        POLL_READABLE
    } else {
        0
    };
    let wr: u16 = if events.contains(PollEvent(POLL_WRITABLE)) && can_send {
        POLL_WRITABLE
    } else {
        0
    };
    PollEvent(rd | wr)
}

/// What a UDP receive gives for the outcome of taking a datagram: its
/// length and sender; nothing queued means wait (`None`); a datagram too
/// long for the buffer is `EINVAL`.
pub fn udp_recv_outcome<M>(res: Result<(usize, M), UdpRecvError>) -> (r: KResult<Option<(usize, M)>>)
    ensures
        r == (match res {
            Ok(x) => Ok::<Option<(usize, M)>, u32>(Some(x)),
            Err(UdpRecvError::Exhausted) => Ok::<Option<(usize, M)>, u32>(None),
            Err(UdpRecvError::Truncated) => Err::<Option<(usize, M)>, u32>(EINVAL),
        }),
{
    match res {
        Ok(x) => Ok(Some(x)),
        Err(UdpRecvError::Exhausted) => Ok(None),
        Err(UdpRecvError::Truncated) => Err(EINVAL),
    }
}

/// What a UDP send gives for the outcome of queueing `len` bytes: sent;
/// no room means wait (`None`); no destination is `EINVAL`.
pub fn udp_send_outcome(res: Result<(), UdpSendError>, len: usize) -> (r: KResult<Option<usize>>)
    ensures
        r == (match res {
            Ok(()) => Ok::<Option<usize>, u32>(Some(len)),
            Err(UdpSendError::BufferFull) => Ok::<Option<usize>, u32>(None),
            Err(UdpSendError::Unaddressable) => Err::<Option<usize>, u32>(EINVAL),
        }),
{
    match res {
        Ok(()) => Ok(Some(len)),
        Err(UdpSendError::BufferFull) => Ok(None),
        Err(UdpSendError::Unaddressable) => Err(EINVAL),
    }
}

/// Receive from a TCP socket into `buf`, as `recv_step` decides from what
/// the socket reports: `ENOTCONN`, the number of bytes received, or wait
/// with `waker` registered.
pub fn tcp_try_recv(socket: &mut tcp::Socket<'static>, buf: &mut [u8], waker: &Waker) -> (r:
    Option<KResult<usize>>)
    ensures
        final(buf)@.len() == old(buf)@.len(),
        match r {
            Some(Ok(n)) => n <= old(buf)@.len(),
            Some(Err(e)) => e == ENOTCONN,
            None => true,
        },
{
    let may = tcp_may_recv(socket);
    let can = tcp_can_recv(socket);
    match recv_step(may, can) {
        SocketStep::Fail(e) => Some(Err(e)),
        SocketStep::Proceed => match tcp_recv_slice(socket, buf) {
            Ok(n) => Some(Ok(n)),
            Err(_) => Some(Err(ENOTCONN)),
        },
        SocketStep::Wait => {
            tcp_register_recv_waker(socket, waker);
            None
        },
    }
}

/// Send `data` on a TCP socket, as `send_step` decides from what the
/// socket reports: `ENOTCONN`, the number of bytes queued, or wait with
/// `waker` registered.
pub fn tcp_try_send(socket: &mut tcp::Socket<'static>, data: &[u8], waker: &Waker) -> (r: Option<
    KResult<usize>,
>)
    ensures
        match r {
            Some(Ok(n)) => n <= data@.len(),
            Some(Err(e)) => e == ENOTCONN,
            None => true,
        },
{
    let may = tcp_may_send(socket);
    let can = tcp_can_send(socket);
    match send_step(may, can) {
        SocketStep::Fail(e) => Some(Err(e)),
        SocketStep::Proceed => match tcp_send_slice(socket, data) {
            Ok(n) => Some(Ok(n)),
            Err(_) => Some(Err(ENOTCONN)),
        },
        SocketStep::Wait => {
            tcp_register_send_waker(socket, waker);
            None
        },
    }
}

/// Check a pending TCP connection, as `connect_step` decides from the
/// socket's state; while it is under way the waker is registered.
pub fn tcp_check_connect(socket: &mut tcp::Socket<'static>, waker: &Waker) -> (r: Option<
    KResult<()>,
>)
    ensures
        match r {
            Some(Err(e)) => e == ECONNREFUSED,
            _ => true,
        },
{
    let state = tcp_state(socket);
    let r = connect_step(state);
    if r.is_none() {
        tcp_register_recv_waker(socket, waker);
    }
    r
}

/// Start listening on a bound TCP socket at `addr`:`port`; any refusal
/// is `EINVAL`.
pub fn tcp_listen_on(socket: &mut tcp::Socket<'static>, addr: [u8; 4], port: u16) -> (r: KResult<()>)
    ensures
        r is Ok || r == Err::<(), u32>(EINVAL),
        port == 0 ==> r == Err::<(), u32>(EINVAL),
{
    match tcp_listen(socket, addr, port) {
        Ok(()) => Ok(()),
        Err(_) => Err(EINVAL),
    }
}

/// The error of a refused connection start: an unusable address is
/// `EADDRNOTAVAIL`, a socket that is open already `EISCONN`.
pub fn connect_error(e: TcpConnectError) -> (r: u32)
    ensures
        r == (match e {
            TcpConnectError::Unaddressable => EADDRNOTAVAIL,
            TcpConnectError::InvalidState => EISCONN,
        }),
{
    match e {
        TcpConnectError::Unaddressable => EADDRNOTAVAIL,
        TcpConnectError::InvalidState => EISCONN,
    }
}

/// Start connecting a bound TCP socket at `local_addr`:`local_port` to
/// `remote_addr`:`remote_port`; a refusal is mapped by `connect_error`.
/// The connection then completes as `tcp_check_connect` finds.
pub fn tcp_start_connect(
    socket: &mut tcp::Socket<'static>,
    cx: &mut Context,
    remote_addr: [u8; 4],
    remote_port: u16,
    local_addr: [u8; 4],
    local_port: u16,
) -> (r: KResult<()>)
    ensures
        r is Ok || r == Err::<(), u32>(EADDRNOTAVAIL) || r == Err::<(), u32>(EISCONN),
        remote_port == 0 || local_port == 0 || is_unspecified(remote_addr) || is_unspecified(
            local_addr,
        ) ==> r is Err,
{
    match tcp_connect(socket, cx, remote_addr, remote_port, local_addr, local_port) {
        Ok(()) => Ok(()),
        Err(e) => Err(connect_error(e)),
    }
}

/// Accepting on a TCP socket: refused (`EINVAL`) unless the socket can
/// accept connections, else go on to take one.
pub fn accept_step(may_accept: bool) -> (r: SocketStep)
    ensures
        r == (if may_accept {
            SocketStep::Proceed
        } else {
            SocketStep::Fail(EINVAL)
        }),
{
    if may_accept {
        SocketStep::Proceed
    } else {
        SocketStep::Fail(EINVAL)
    }
}

/// What taking a connection gives: the new connection `C`; none waiting
/// means wait (`None`, with the waker registered); a failure is `EINVAL`.
pub fn accept_result<C>(res: Result<Option<C>, ()>) -> (r: Option<KResult<C>>)
    ensures
        r == (match res {
            Ok(Some(c)) => Some(Ok::<C, u32>(c)),
            Ok(None) => None::<KResult<C>>,
            Err(()) => Some(Err::<C, u32>(EINVAL)),
        }),
{
    match res {
        Ok(Some(c)) => Some(Ok(c)),
        Ok(None) => None,
        Err(()) => Some(Err(EINVAL)),
    }
}

/// How a UDP socket is bound to a local address.
#[derive(Debug, Clone, Copy, PartialEq, Eq)]
pub enum UdpBindPlan<B> {
    /// Share the binding `B` that another socket holds on that address.
    Reuse(B),
    /// Bind the port on every interface (the address is unspecified).
    BindAll,
    /// Bind on interface `i`, which has the address.
    BindSingle(usize),
}

/// The plan for binding a UDP socket: `EINVAL` when it is bound already;
/// the binding of the socket that holds the address already (`existing`);
/// every interface for the unspecified address; otherwise the interface
/// that has the address (`iface`), `EADDRNOTAVAIL` when none has it.
pub fn udp_bind_plan<B>(bound: bool, existing: Option<B>, unspecified: bool, iface: Option<usize>) -> (r:
    KResult<UdpBindPlan<B>>)
    ensures
        r == (if bound {
            Err::<UdpBindPlan<B>, u32>(EINVAL)
        } else {
            match existing {
                Some(b) => Ok::<UdpBindPlan<B>, u32>(UdpBindPlan::Reuse(b)),
                None => if unspecified {
                    Ok::<UdpBindPlan<B>, u32>(UdpBindPlan::BindAll)
                } else {
                    match iface {
                        Some(i) => Ok::<UdpBindPlan<B>, u32>(UdpBindPlan::BindSingle(i)),
                        None => Err::<UdpBindPlan<B>, u32>(EADDRNOTAVAIL),
                    }
                },
            }
        }),
{
    if bound {
        return Err(EINVAL);
    }
    match existing {
        Some(b) => Ok(UdpBindPlan::Reuse(b)),
        None => {
            if unspecified {
                Ok(UdpBindPlan::BindAll)
            } else {
                match iface {
                    Some(i) => Ok(UdpBindPlan::BindSingle(i)),
                    None => Err(EADDRNOTAVAIL),
                }
            }
        },
    }
}

/// Whether a UDP socket that goes away releases its binding (its entry in
/// the port map, its sockets and their port): only when it was bound and
/// did not share the binding of another socket.
pub fn udp_releases_binding(bound: bool, reused: bool) -> (r: bool)
    ensures
        r == (bound && !reused),
{
    bound && !reused
}

/// Where a datagram goes: the destination given with it, else the address
/// the socket is connected to.
pub fn udp_destination<A>(given: Option<A>, connected: Option<A>) -> (r: A)
    requires
        given is Some || connected is Some,
    ensures
        r == (match given {
            Some(a) => a,
            None => connected->Some_0,
        }),
{
    match given {
        Some(a) => a,
        None => connected.unwrap(),
    }
}

/// The events of a socket bound on several interfaces: those of any of
/// them.
pub open spec fn events_of_all(s: Seq<PollEvent>) -> u16
    decreases s.len(),
{
    if s.len() == 0 {
        0u16
    } else {
        events_of_all(s.drop_last()) | s.last().0
    }
}

/// The union of the events that the interfaces of a socket report.
pub fn union_events(events: &Vec<PollEvent>) -> (r: PollEvent)
    ensures
        r.0 == events_of_all(events@),
{
    let mut acc: u16 = 0;
    let mut i: usize = 0;
    while i < events.len()
        invariant
            i <= events@.len(),
            acc == events_of_all(events@.take(i as int)),
        decreases events@.len() - i,
    {
        assert(events@.take(i + 1).drop_last() =~= events@.take(i as int));
        acc = acc | events[i].0;
        i = i + 1;
    }
    assert(events@.take(events@.len() as int) =~= events@);
    PollEvent(acc)
}

/// Receive a datagram into `buf`: its length and sender, wait with
/// `waker` registered when none is queued, `EINVAL` when it was too long.
pub fn udp_try_recv(socket: &mut udp::Socket<'static>, buf: &mut [u8], waker: &Waker) -> (r:
    KResult<Option<(usize, udp::UdpMetadata)>>)
    ensures
        final(buf)@.len() == old(buf)@.len(),
        match r {
            Ok(Some((n, _))) => n <= old(buf)@.len(),
            Ok(None) => true,
            Err(e) => e == EINVAL,
        },
{
    let res = udp_recv_slice(socket, buf);
    let out = udp_recv_outcome(res);
    if let Ok(None) = out {
        udp_register_recv_waker(socket, waker);
    }
    out
}

/// Send `data` as one datagram to the endpoint of `meta`: sent whole,
/// wait with `waker` registered when there is no room, `EINVAL` when there
/// is no destination.
pub fn udp_try_send(
    socket: &mut udp::Socket<'static>,
    data: &[u8],
    meta: udp::UdpMetadata,
    waker: &Waker,
) -> (r: KResult<Option<usize>>)
    ensures
        match r {
            Ok(Some(n)) => n == data@.len(),
            Ok(None) => true,
            Err(e) => e == EINVAL,
        },
{
    let res = udp_send_slice(socket, data, meta);
    let out = udp_send_outcome(res, data.len());
    if let Ok(None) = out {
        udp_register_send_waker(socket, waker);
    }
    out
}

/// The events of `events` that a UDP socket is ready for.
pub fn udp_poll(socket: &udp::Socket<'static>, events: PollEvent) -> (r: PollEvent)
    ensures
        r.0 & !(events.0 & (POLL_READABLE | POLL_WRITABLE)) == 0,
{
    let can_recv = udp_can_recv(socket);
    let can_send = udp_can_send(socket);
    let r = udp_poll_events(events, can_recv, can_send);
    proof {
        let e = events.0;
        assert(((if e & 1u16 == 1u16 && can_recv { 1u16 } else { 0u16 }) | (if e & 2u16 == 2u16
            && can_send { 2u16 } else { 0u16 })) & !(e & (1u16 | 2u16)) == 0) by (bit_vector);
    }
    r
}

} // verus!
