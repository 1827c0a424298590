use std::task::Waker;

use eonix::errno::{EADDRNOTAVAIL, EAGAIN, ECONNREFUSED, EINVAL, EISCONN, ENOTCONN};
use eonix::file::{PollEvent, POLL_READABLE, POLL_WRITABLE};
use eonix::socket::{
    udp_bind_plan, udp_destination, udp_releases_binding, union_events, UdpBindPlan,
    accept_result, accept_step, connect_error, tcp_listen_on, tcp_start_connect, TcpConnectError,
    bind_check, connect_step, is_active, poll_result, recv_step, send_step, tcp_check_connect,
    tcp_try_recv, tcp_try_send, udp_poll, udp_poll_events, udp_recv_outcome, udp_send_outcome,
    udp_try_recv, udp_try_send, SocketStep, TcpState, UdpRecvError, UdpSendError,
};
use smoltcp::iface::{Config, Interface};
use smoltcp::phy::{Loopback, Medium};
use smoltcp::socket::{tcp, udp};
use smoltcp::wire::{IpAddress, IpEndpoint};

fn tcp_socket() -> tcp::Socket<'static> {
    tcp::Socket::new(
        tcp::SocketBuffer::new(vec![0u8; 64]),
        tcp::SocketBuffer::new(vec![0u8; 64]),
    )
}

fn udp_socket() -> udp::Socket<'static> {
    udp::Socket::new(
        udp::PacketBuffer::new(vec![udp::PacketMetadata::EMPTY; 4], vec![0u8; 64]),
        udp::PacketBuffer::new(vec![udp::PacketMetadata::EMPTY; 4], vec![0u8; 64]),
    )
}

#[test]
fn socket_step_decisions() {
    assert_eq!(recv_step(false, true), SocketStep::Fail(ENOTCONN));
    assert_eq!(recv_step(true, true), SocketStep::Proceed);
    assert_eq!(recv_step(true, false), SocketStep::Wait);
    assert_eq!(send_step(false, false), SocketStep::Fail(ENOTCONN));
    assert_eq!(send_step(true, false), SocketStep::Wait);
    assert_eq!(send_step(true, true), SocketStep::Proceed);
}

#[test]
fn connection_states() {
    assert_eq!(connect_step(TcpState::Established), Some(Ok(())));
    assert_eq!(connect_step(TcpState::Closed), Some(Err(ECONNREFUSED)));
    assert_eq!(connect_step(TcpState::TimeWait), Some(Err(ECONNREFUSED)));
    assert_eq!(connect_step(TcpState::SynSent), None);
    assert!(!is_active(TcpState::Listen));
    assert!(is_active(TcpState::CloseWait));
}

#[test]
fn futures_of_socket_operations() {
    assert_eq!(poll_result::<usize>(None, true), Some(Err(EAGAIN)));
    assert_eq!(poll_result::<usize>(None, false), None);
    assert_eq!(poll_result(Some(Ok(3usize)), true), Some(Ok(3)));
}

#[test]
fn binding_rules() {
    assert_eq!(bind_check(true, Some(0)), Err(EINVAL));
    assert_eq!(bind_check(false, None), Err(EADDRNOTAVAIL));
    assert_eq!(bind_check(false, Some(2)), Ok(2));
}

#[test]
fn udp_outcomes() {
    assert_eq!(udp_recv_outcome::<u8>(Ok((3, 7))), Ok(Some((3, 7))));
    assert_eq!(udp_recv_outcome::<u8>(Err(UdpRecvError::Exhausted)), Ok(None));
    assert_eq!(udp_recv_outcome::<u8>(Err(UdpRecvError::Truncated)), Err(EINVAL));
    assert_eq!(udp_send_outcome(Ok(()), 5), Ok(Some(5)));
    assert_eq!(udp_send_outcome(Err(UdpSendError::BufferFull), 5), Ok(None));
    assert_eq!(udp_send_outcome(Err(UdpSendError::Unaddressable), 5), Err(EINVAL));
    let both = PollEvent(POLL_READABLE | POLL_WRITABLE);
    assert_eq!(udp_poll_events(both, true, false), PollEvent(POLL_READABLE));
    assert_eq!(udp_poll_events(PollEvent(POLL_READABLE), false, true), PollEvent(0));
    assert_eq!(udp_poll_events(both, true, true), both);
}

#[test]
fn closed_tcp_socket_is_not_connected() {
    let mut s = tcp_socket();
    let waker = Waker::noop();
    let mut buf = [0u8; 8];
    assert_eq!(tcp_try_recv(&mut s, &mut buf, waker), Some(Err(ENOTCONN)));
    assert_eq!(tcp_try_send(&mut s, b"hi", waker), Some(Err(ENOTCONN)));
    assert_eq!(tcp_check_connect(&mut s, waker), Some(Err(ECONNREFUSED)));
}

#[test]
fn listening_tcp_socket_refuses_data() {
    let mut s = tcp_socket();
    s.listen(80).unwrap();
    let waker = Waker::noop();
    assert_eq!(tcp_check_connect(&mut s, waker), Some(Err(ECONNREFUSED)));
    assert_eq!(tcp_try_send(&mut s, b"hi", waker), Some(Err(ENOTCONN)));
}

#[test]
fn udp_socket_waits_for_datagrams_and_sends() {
    let mut s = udp_socket();
    s.bind(5000).unwrap();
    let waker = Waker::noop();
    let mut buf = [0u8; 16];
    assert_eq!(udp_try_recv(&mut s, &mut buf, waker).map(|r| r.map(|x| x.0)), Ok(None));
    let to = udp::UdpMetadata::from(IpEndpoint::new(IpAddress::v4(10, 0, 0, 2), 9));
    assert_eq!(udp_try_send(&mut s, b"hello", to, waker), Ok(Some(5)));
    let nowhere = udp::UdpMetadata::from(IpEndpoint::new(IpAddress::v4(10, 0, 0, 2), 0));
    assert_eq!(udp_try_send(&mut s, b"x", nowhere, waker), Err(EINVAL));
    let events = udp_poll(&s, PollEvent(POLL_READABLE | POLL_WRITABLE));
    assert_eq!(events, PollEvent(POLL_WRITABLE));
}

#[test]
fn unbound_udp_socket_cannot_send() {
    let mut s = udp_socket();
    let to = udp::UdpMetadata::from(IpEndpoint::new(IpAddress::v4(10, 0, 0, 2), 9));
    assert_eq!(udp_try_send(&mut s, b"hello", to, Waker::noop()), Err(EINVAL));
}

#[test]
fn accepting_connections() {
    assert_eq!(accept_step(false), SocketStep::Fail(EINVAL));
    assert_eq!(accept_step(true), SocketStep::Proceed);
    assert_eq!(accept_result::<u32>(Ok(Some(7))), Some(Ok(7)));
    assert_eq!(accept_result::<u32>(Ok(None)), None);
    assert_eq!(accept_result::<u32>(Err(())), Some(Err(EINVAL)));
}

#[test]
fn listening_needs_a_port() {
    let mut socket = tcp_socket();
    assert_eq!(tcp_listen_on(&mut socket, [10, 0, 2, 15], 0), Err(EINVAL));
    assert_eq!(socket.state(), tcp::State::Closed);
    assert_eq!(tcp_listen_on(&mut socket, [10, 0, 2, 15], 8080), Ok(()));
    assert_eq!(socket.state(), tcp::State::Listen);
    // Listening again on the same endpoint is accepted, elsewhere refused.
    assert_eq!(tcp_listen_on(&mut socket, [10, 0, 2, 15], 8080), Ok(()));
    assert_eq!(tcp_listen_on(&mut socket, [10, 0, 2, 15], 8081), Err(EINVAL));
}

#[test]
fn starting_connections() {
    assert_eq!(connect_error(TcpConnectError::Unaddressable), EADDRNOTAVAIL);
    assert_eq!(connect_error(TcpConnectError::InvalidState), EISCONN);

    let mut device = Loopback::new(Medium::Ip);
    let config = Config::new(smoltcp::wire::HardwareAddress::Ip);
    let mut iface = Interface::new(config, &mut device, smoltcp::time::Instant::ZERO);
    let mut socket = tcp_socket();
    let local = [127, 0, 0, 1];
    let remote = [127, 0, 0, 2];
    assert_eq!(tcp_start_connect(&mut socket, iface.context(), remote, 0, local, 40000), Err(EADDRNOTAVAIL));
    assert_eq!(tcp_start_connect(&mut socket, iface.context(), [0, 0, 0, 0], 80, local, 40000), Err(EADDRNOTAVAIL));
    assert_eq!(tcp_start_connect(&mut socket, iface.context(), remote, 80, local, 40000), Ok(()));
    assert_eq!(socket.state(), tcp::State::SynSent);
    assert_eq!(tcp_start_connect(&mut socket, iface.context(), remote, 80, local, 40000), Err(EISCONN));
    assert_eq!(tcp_check_connect(&mut socket, Waker::noop()), None);
}

#[test]
fn binding_udp_sockets() {
    assert_eq!(udp_bind_plan::<u32>(true, Some(3), false, Some(0)), Err(EINVAL));
    assert_eq!(udp_bind_plan::<u32>(false, Some(3), true, None), Ok(UdpBindPlan::Reuse(3)));
    assert_eq!(udp_bind_plan::<u32>(false, None, true, None), Ok(UdpBindPlan::BindAll));
    assert_eq!(udp_bind_plan::<u32>(false, None, false, Some(2)), Ok(UdpBindPlan::BindSingle(2)));
    assert_eq!(udp_bind_plan::<u32>(false, None, false, None), Err(EADDRNOTAVAIL));
    assert!(udp_releases_binding(true, false));
    assert!(!udp_releases_binding(true, true));
    assert!(!udp_releases_binding(false, false));
}

#[test]
fn udp_destinations_and_events() {
    assert_eq!(udp_destination(Some(1u32), Some(2)), 1);
    assert_eq!(udp_destination(None, Some(2u32)), 2);
    let evs = vec![PollEvent(POLL_READABLE), PollEvent(0), PollEvent(POLL_WRITABLE)];
    assert_eq!(union_events(&evs), PollEvent(POLL_READABLE | POLL_WRITABLE));
    assert_eq!(union_events(&vec![]), PollEvent(0));
}
