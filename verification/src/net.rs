//! Network links and the local port table of an interface.
//!
//! Ports that a socket asks for explicitly are refused while the table
//! holds them; port 0 asks for the lowest free ephemeral port, which the
//! table then holds until it is released.

use std::collections::BTreeSet;
use vstd::prelude::*;

use crate::errno::{KResult, EADDRINUSE};

verus! {

broadcast use {vstd::std_specs::btree::group_btree_axioms, vstd::laws_cmp::group_laws_cmp};

/// Identifier of a network link, handed out in increasing order.
#[derive(Debug, Clone, Copy, PartialEq, Eq, Structural, PartialOrd, Ord)]
pub struct LinkId(pub usize);

impl LinkId {
    /// The next identifier from the counter `next`, which moves on by one
    /// (wrapping as an atomic counter does).
    pub fn new(next: &mut usize) -> (r: LinkId)
        ensures
            r.0 == *old(next),
            *final(next) == (if *old(next) == usize::MAX {
                0
            } else {
                (*old(next) + 1) as usize
            }),
    {
        let id = *next;
        *next = next.wrapping_add(1);
        LinkId(id)
    }
}

#[derive(Debug, Clone, Copy, PartialEq, Eq, Structural)]
pub enum LinkStatus {
    Up,
    Down,
}

#[derive(Debug, Clone, Copy, PartialEq, Eq, Structural)]
pub enum LinkSpeed {
    SpeedUnknown,
    SpeedMegs(usize),
}

/// A hardware (MAC) address.
#[derive(Debug, Clone, Copy, PartialEq, Eq)]
pub struct Mac(pub [u8; 6]);

impl Mac {
    pub fn zeros() -> (r: Mac)
        ensures
            forall|i: int| 0 <= i < 6 ==> r.0@[i] == 0,
    {
        Mac([0u8; 6])
    }

    pub fn new(mac: [u8; 6]) -> (r: Mac)
        ensures
            r.0@ == mac@,
    {
        Mac(mac)
    }

    pub fn as_bytes(&self) -> (r: &[u8; 6])
        ensures
            r@ == self.0@,
    {
        &self.0
    }
}

/// Status, speed and address of a link.
pub struct LinkState {
    pub status: LinkStatus,
    pub speed: LinkSpeed,
    pub mac: Mac,
}

impl LinkState {
    /// A link that is down, of unknown speed, with an all-zero address.
    pub fn new() -> (r: LinkState)
        ensures
            r.status == LinkStatus::Down,
            r.speed == LinkSpeed::SpeedUnknown,
            forall|i: int| 0 <= i < 6 ==> r.mac.0@[i] == 0,
    {
        LinkState { status: LinkStatus::Down, speed: LinkSpeed::SpeedUnknown, mac: Mac::zeros() }
    }
}

/// Errors of the network layer.
#[derive(Debug, Clone, Copy, PartialEq, Eq)]
pub enum NetError {
    SystemError(u32, &'static str),
    IoFailure,
    DeviceBusy,
    Unsupported,
    AlreadyRegistered,
}

/// Errors of a network device.
#[derive(Debug, Clone, Copy, PartialEq, Eq, Structural)]
pub enum NetDevError {
    Unknown,
}

#[derive(Debug, Clone, Copy, PartialEq, Eq, Structural, PartialOrd, Ord)]
pub enum SocketType {
    Tcp,
    Udp,
}

/// Register a device by its link identifier; a second registration of the
/// same link is refused and leaves the list as it was.
pub fn register_netdev(netdevs: &mut Vec<LinkId>, id: LinkId) -> (r: Result<(), NetError>)
    ensures
        old(netdevs)@.contains(id) ==> r == Err::<(), NetError>(NetError::AlreadyRegistered)
            && final(netdevs)@ == old(netdevs)@,
        !old(netdevs)@.contains(id) ==> r is Ok && final(netdevs)@ == old(netdevs)@.push(id),
{
    let mut i: usize = 0;
    while i < netdevs.len()
        invariant
            0 <= i <= netdevs.len(),
            forall|j: int| 0 <= j < i ==> netdevs@[j] != id,
        decreases netdevs.len() - i,
    {
        if netdevs[i].0 == id.0 {
            assert(netdevs@[i as int] == id);
            return Err(NetError::AlreadyRegistered);
        }
        i += 1;
    }
    netdevs.push(id);
    Ok(())
}

/// First of the ephemeral ports that the table hands out.
pub const IP_LOCAL_PORT_START: u16 = 32768;
/// Last of the ephemeral ports that the table hands out.
pub const IP_LOCAL_PORT_END: u16 = 60999;

/// The port is ephemeral and every ephemeral port below it is in `used`.
pub open spec fn lowest_free_port(used: Set<u16>, port: u16) -> bool {
    &&& IP_LOCAL_PORT_START <= port <= IP_LOCAL_PORT_END
    &&& !used.contains(port)
    &&& forall|p: u16| IP_LOCAL_PORT_START <= p < port ==> used.contains(p)
}

/// Every ephemeral port is in `used`.
pub open spec fn ports_exhausted(used: Set<u16>) -> bool {
    forall|p: u16| IP_LOCAL_PORT_START <= p <= IP_LOCAL_PORT_END ==> used.contains(p)
}

/// The local ports in use on an interface.
pub struct PortTable {
    used_ports: BTreeSet<u16>,
}

impl PortTable {
    pub closed spec fn used(&self) -> Set<u16> {
        self.used_ports@
    }

    pub fn new() -> (r: PortTable)
        ensures
            r.used() == Set::<u16>::empty(),
    {
        PortTable { used_ports: BTreeSet::new() }
    }

    pub fn is_used(&self, port: u16) -> (r: bool)
        ensures
            r == self.used().contains(port),
    {
        self.used_ports.contains(&port)
    }

    /// Hold the lowest free ephemeral port; none when all are held.
    pub fn alloc_port(&mut self) -> (r: Option<u16>)
        ensures
            match r {
                Some(p) => lowest_free_port(old(self).used(), p) && final(self).used() == old(self).used().insert(p),
                None => ports_exhausted(old(self).used()) && final(self).used() == old(self).used(),
            },
    {
        let mut port: u16 = IP_LOCAL_PORT_START;
        loop
            invariant
                IP_LOCAL_PORT_START <= port <= IP_LOCAL_PORT_END,
                self.used() == old(self).used(),
                forall|p: u16| IP_LOCAL_PORT_START <= p < port ==> old(self).used().contains(p),
            decreases IP_LOCAL_PORT_END - port,
        {
            if !self.used_ports.contains(&port) {
                self.used_ports.insert(port);
                return Some(port);
            }
            if port == IP_LOCAL_PORT_END {
                return None;
            }
            port = port + 1;
        }
    }

    /// The port a socket is bound to: a port in use is refused; port 0
    /// takes the lowest free ephemeral port (refused when there is none);
    /// any other port is granted as asked, without being held.
    pub fn bind_port(&mut self, bind_port: u16) -> (r: KResult<u16>)
        ensures
            old(self).used().contains(bind_port) ==> r == Err::<u16, u32>(EADDRINUSE) && final(self).used() == old(self).used(),
            !old(self).used().contains(bind_port) && bind_port != 0 ==> r == Ok::<u16, u32>(
                bind_port,
            ) && final(self).used() == old(self).used(),
            !old(self).used().contains(bind_port) && bind_port == 0 ==> match r {
                Ok(p) => lowest_free_port(old(self).used(), p) && final(self).used() == old(self).used().insert(p),
                Err(e) => e == EADDRINUSE && ports_exhausted(old(self).used()) && final(self).used() == old(self).used(),
            },
    {
        if self.used_ports.contains(&bind_port) {
            return Err(EADDRINUSE);
        }
        if bind_port == 0 {
            match self.alloc_port() {
                Some(p) => Ok(p),
                None => Err(EADDRINUSE),
            }
        } else {
            Ok(bind_port)
        }
    }

    /// Give a port back when its socket goes away.
    pub fn release_port(&mut self, port: u16)
        ensures
            final(self).used() == old(self).used().remove(port),
    {
        self.used_ports.remove(&port);
    }
}

/// Binding on every interface succeeds when at least one interface
/// accepted the port.
pub fn bind_all_result(bound: usize) -> (r: KResult<()>)
    ensures
        r == (if bound == 0 {
            Err::<(), u32>(EADDRINUSE)
        } else {
            Ok(())
        }),
{
    if bound == 0 {
        Err(EADDRINUSE)
    } else {
        Ok(())
    }
}

/// The interface whose addresses include `ip`: the first one in the list
/// (`addrs[i]` being the addresses of interface `i`), none when no
/// interface has it.
pub fn relate_iface(addrs: &Vec<Vec<u32>>, ip: u32) -> (r: Option<usize>)
    ensures
        match r {
            Some(i) => i < addrs@.len() && addrs@[i as int]@.contains(ip) && forall|j: int|
                0 <= j < i ==> !(#[trigger] addrs@[j])@.contains(ip),
            None => forall|j: int| 0 <= j < addrs@.len() ==> !(#[trigger] addrs@[j])@.contains(ip),
        },
{
    let mut i: usize = 0;
    while i < addrs.len()
        invariant
            i <= addrs@.len(),
            forall|j: int| 0 <= j < i ==> !(#[trigger] addrs@[j])@.contains(ip),
        decreases addrs@.len() - i,
    {
        let list = &addrs[i];
        let mut k: usize = 0;
        while k < list.len()
            invariant
                k <= list@.len(),
                i < addrs@.len(),
                list@ == addrs@[i as int]@,
                forall|m: int| 0 <= m < k ==> list@[m] != ip,
                forall|j: int| 0 <= j < i ==> !(#[trigger] addrs@[j])@.contains(ip),
            decreases list@.len() - k,
        {
            if list[k] == ip {
                assert(addrs@[i as int]@[k as int] == ip);
                return Some(i);
            }
            k = k + 1;
        }
        assert(!addrs@[i as int]@.contains(ip));
        i = i + 1;
    }
    None
}

/// What a DHCP event does to the default route of an interface.
#[derive(Debug, Clone, Copy, PartialEq, Eq, Structural)]
pub enum RouteUpdate {
    /// Route everything not local through this router.
    SetDefault(u32),
    /// Drop the default route.
    RemoveDefault,
}

/// A DHCP lease configures an interface: its addresses become the one
/// address leased (with its prefix length), and the default route goes
/// through the router when the lease names one, else it is removed.
pub fn dhcp_configure(address: u32, prefix_len: u8, router: Option<u32>) -> (r: (Vec<(u32, u8)>, RouteUpdate))
    ensures
        r.0@ == seq![(address, prefix_len)],
        r.1 == (match router {
            Some(g) => RouteUpdate::SetDefault(g),
            None => RouteUpdate::RemoveDefault,
        }),
{
    let mut addrs: Vec<(u32, u8)> = Vec::new();
    addrs.push((address, prefix_len));
    let route = match router {
        Some(g) => RouteUpdate::SetDefault(g),
        None => RouteUpdate::RemoveDefault,
    };
    (addrs, route)
}

/// At most this many incoming packets are handled in one round of the
/// network worker.
pub const POLL_IN_MAX: usize = 4096;

/// What one poll of an interface for an incoming packet found.
#[derive(Debug, Clone, Copy, PartialEq, Eq, Structural)]
pub enum IngressResult {
    /// No packet was waiting.
    Nothing,
    /// A packet was handled.
    PacketProcessed,
    /// A packet was handled and changed the state of a socket.
    SocketStateChanged,
}

/// What the network worker does after a round of polling.
#[derive(Debug, Clone, Copy, PartialEq, Eq, Structural)]
pub enum WorkerAction {
    /// Poll again at once.
    PollAgain,
    /// Sleep this long (in microseconds), then poll again.
    Sleep(u64),
    /// A socket changed state: attend to the sockets.
    ServiceSockets,
}

/// One round of the network worker: incoming packets are handled one by
/// one until none is waiting or `POLL_IN_MAX` were polled, then outgoing
/// packets are sent.
pub struct PollRound {
    polls: usize,
    changed: bool,
    ingress_done: bool,
}

impl PollRound {
    /// Ingress polls made in this round.
    pub closed spec fn polls(&self) -> nat {
        self.polls as nat
    }

    /// Some poll of this round changed the state of a socket.
    pub closed spec fn changed(&self) -> bool {
        self.changed
    }

    /// No more ingress polls belong to this round.
    pub closed spec fn ingress_done(&self) -> bool {
        self.ingress_done
    }

    pub closed spec fn wf(&self) -> bool {
        &&& self.polls <= POLL_IN_MAX
        &&& !self.ingress_done ==> self.polls < POLL_IN_MAX
    }

    pub fn new() -> (r: PollRound)
        ensures
            r.wf(),
            r.polls() == 0,
            !r.changed(),
            !r.ingress_done(),
    {
        PollRound { polls: 0, changed: false, ingress_done: false }
    }

    /// Record what one ingress poll found; whether to poll again.
    pub fn record_ingress(&mut self, res: IngressResult) -> (again: bool)
        requires
            old(self).wf(),
            !old(self).ingress_done(),
        ensures
            final(self).wf(),
            final(self).polls() == old(self).polls() + 1,
            final(self).changed() == (old(self).changed() || res == IngressResult::SocketStateChanged),
            again == (res != IngressResult::Nothing && final(self).polls() < POLL_IN_MAX),
            final(self).ingress_done() == !again,
    {
        self.polls = self.polls + 1;
        match res {
            IngressResult::Nothing => {
                self.ingress_done = true;
                return false;
            },
            IngressResult::PacketProcessed => {},
            IngressResult::SocketStateChanged => {
                self.changed = true;
            },
        }
        let again = self.polls < POLL_IN_MAX;
        self.ingress_done = !again;
        again
    }

    /// Record whether sending the outgoing packets changed a socket.
    pub fn record_egress(&mut self, changed: bool)
        ensures
            final(self).wf() == old(self).wf(),
            final(self).polls() == old(self).polls(),
            final(self).ingress_done() == old(self).ingress_done(),
            final(self).changed() == (old(self).changed() || changed),
    {
        if changed {
            self.changed = true;
        }
    }

    /// The next step of the worker, `delay` being how long the interface
    /// may wait before it must be polled again (none: no deadline).
    pub fn next_action(&self, delay: Option<u64>) -> (r: WorkerAction)
        ensures
            r == (if self.changed() {
                WorkerAction::ServiceSockets
            } else {
                match delay {
                    Some(d) => WorkerAction::Sleep(d),
                    None => WorkerAction::PollAgain,
                }
            }),
    {
        if self.changed {
            WorkerAction::ServiceSockets
        } else {
            match delay {
                Some(d) => WorkerAction::Sleep(d),
                None => WorkerAction::PollAgain,
            }
        }
    }
}

/// A port handed out by the table and then released is the one handed out
/// again: it is once more the lowest free ephemeral port.
pub proof fn law_released_port_comes_back(used: Set<u16>, p: u16)
    requires
        lowest_free_port(used, p),
    ensures
        used.insert(p).remove(p) == used,
        lowest_free_port(used.insert(p).remove(p), p),
{
    assert(used.insert(p).remove(p) =~= used);
}

/// No two ports that the table hands out in a row are the same.
pub proof fn law_allocated_ports_differ(used: Set<u16>, p: u16, q: u16)
    requires
        lowest_free_port(used, p),
        lowest_free_port(used.insert(p), q),
    ensures
        p < q,
{
    if q <= p {
        if q < p {
            assert(used.contains(q));
        }
        assert(used.insert(p).contains(q));
    }
}

} // verus!
