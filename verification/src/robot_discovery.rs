use vstd::prelude::*;

use crate::team_number::{decimal_u16, TeamNumber};

verus! {

/// An IP address, held as the integer of its octets in network order
/// (as `Ipv4Addr::to_bits` and `Ipv6Addr::to_bits` give them).
#[derive(Debug, Copy, Clone, PartialEq, Eq, Structural)]
pub enum IpAddress {
    V4(u32),
    V6(u128),
}

/// How a robot is to be found.
#[derive(Debug)]
pub enum RobotDiscovery {
    TeamNumber(TeamNumber),
    HostName(String),
    Ip(IpAddress),
}

impl From<u16> for RobotDiscovery {
    fn from(value: u16) -> (r: Self)
        ensures
            r == RobotDiscovery::TeamNumber(TeamNumber(value)),
    {
        RobotDiscovery::TeamNumber(TeamNumber(value))
    }
}

impl vstd::std_specs::convert::FromSpecImpl<u16> for RobotDiscovery {
    open spec fn obeys_from_spec() -> bool {
        true
    }

    open spec fn from_spec(v: u16) -> Self {
        RobotDiscovery::TeamNumber(TeamNumber(v))
    }
}

impl From<IpAddress> for RobotDiscovery {
    fn from(value: IpAddress) -> (r: Self)
        ensures
            r == RobotDiscovery::Ip(value),
    {
        RobotDiscovery::Ip(value)
    }
}

impl vstd::std_specs::convert::FromSpecImpl<IpAddress> for RobotDiscovery {
    open spec fn obeys_from_spec() -> bool {
        true
    }

    open spec fn from_spec(v: IpAddress) -> Self {
        RobotDiscovery::Ip(v)
    }
}

/// The address a team's roboRIO takes on the team's own network, 10.TE.AM.22,
/// as the integer of its octets.
pub open spec fn static_ip_bits(team: u16) -> u32 {
    (10 * 0x100_0000 + (team / 100) * 0x1_0000 + (team % 100) * 0x100 + 22) as u32
}

/// A team's roboRIO address has the octets 10, the team number's hundreds,
/// its last two digits, and 22, most significant first.
pub proof fn law_static_ip_octets(team: u16)
    requires
        team <= 9999,
    ensures
        static_ip_bits(team) / 0x100_0000 == 10,
        (static_ip_bits(team) / 0x1_0000) % 0x100 == team / 100,
        (static_ip_bits(team) / 0x100) % 0x100 == team % 100,
        static_ip_bits(team) % 0x100 == 22,
{
    let a = (team / 100) as int;
    let b = (team % 100) as int;
    let x = 10 * 0x100_0000 + a * 0x1_0000 + b * 0x100 + 22;
    assert(0 <= a < 100 && 0 <= b < 100);
    assert(x == static_ip_bits(team));
    assert(x / 0x100_0000 == 10 && (x / 0x1_0000) % 0x100 == a && (x / 0x100) % 0x100 == b && x
        % 0x100 == 22) by (nonlinear_arith)
        requires
            x == 10 * 0x100_0000 + a * 0x1_0000 + b * 0x100 + 22,
            0 <= a < 100,
            0 <= b < 100,
    ;
}

/// The fixed address of a team's roboRIO, for team numbers of at most four digits.
pub fn static_robot_ip(team: TeamNumber) -> (r: Option<IpAddress>)
    ensures
        team.0 <= 9999 ==> r == Some(IpAddress::V4(static_ip_bits(team.0))),
        team.0 > 9999 ==> r is None,
{
    if team.0 <= 9999 {
        let upper: u32 = (team.0 / 100) as u32;
        let lower: u32 = (team.0 % 100) as u32;
        Some(IpAddress::V4(10 * 0x100_0000 + upper * 0x1_0000 + lower * 0x100 + 22))
    } else {
        None
    }
}

/// How text names a robot: a decimal team number first, else the address the
/// text spells (`ip`), else a host name.
pub open spec fn text_discovery(text: Seq<char>, ip: Option<IpAddress>) -> RobotDiscoveryView {
    match decimal_u16(text) {
        Some(n) => RobotDiscoveryView::TeamNumber(n),
        None => match ip {
            Some(a) => RobotDiscoveryView::Ip(a),
            None => RobotDiscoveryView::HostName(text),
        },
    }
}

/// A `RobotDiscovery` with its host name as characters.
pub enum RobotDiscoveryView {
    TeamNumber(u16),
    HostName(Seq<char>),
    Ip(IpAddress),
}

impl RobotDiscovery {
    pub open spec fn view(&self) -> RobotDiscoveryView {
        match self {
            RobotDiscovery::TeamNumber(t) => RobotDiscoveryView::TeamNumber(t.0),
            RobotDiscovery::HostName(h) => RobotDiscoveryView::HostName(h@),
            RobotDiscovery::Ip(a) => RobotDiscoveryView::Ip(*a),
        }
    }

    /// Reads how text names a robot. `ip` is the address the whole text spells
    /// when it is one (`IpAddr`'s parse of it), `None` otherwise.
    pub fn from_text(text: &str, ip: Option<IpAddress>) -> (r: Self)
        ensures
            r@ == text_discovery(text@, ip),
    {
        match TeamNumber::parse(text) {
            Ok(t) => RobotDiscovery::TeamNumber(t),
            Err(_) => match ip {
                Some(a) => RobotDiscovery::Ip(a),
                None => RobotDiscovery::HostName(text.to_string()),
            },
        }
    }
}

/// Where the search for the robot stands.
#[derive(Debug)]
pub enum RobotConnState {
    /// A new target is known and has not been looked up yet.
    YetToConnect(RobotDiscovery),
    Disconnected,
    Connected(IpAddress),
}

/// The state that every handle on one connection shares: the connection and
/// two counters that grow, wrapping, on each reconnect and each reset.
#[derive(Debug)]
pub struct RobotConnShared {
    pub state: RobotConnState,
    pub reconnect: usize,
    pub reset_conn: usize,
}

/// What a new target makes of the state.
pub open spec fn target_state(conn: Option<RobotDiscovery>) -> RobotConnState {
    match conn {
        Some(d) => RobotConnState::YetToConnect(d),
        None => RobotConnState::Disconnected,
    }
}

/// A counter moved on by one, wrapping at the top.
pub open spec fn bumped(c: usize) -> usize {
    if c == usize::MAX {
        0
    } else {
        (c + 1) as usize
    }
}

/// Whether a reconnect or reset is pending for a handle that last saw `seen`.
pub open spec fn restart_due(seen: usize, shared: usize) -> bool {
    seen != shared
}

impl RobotConnShared {
    pub fn new(conn: Option<RobotDiscovery>) -> (r: Self)
        ensures
            r.state == target_state(conn),
            r.reconnect == 0,
            r.reset_conn == 0,
    {
        let state = match conn {
            Some(d) => RobotConnState::YetToConnect(d),
            None => RobotConnState::Disconnected,
        };
        RobotConnShared { state, reconnect: 0, reset_conn: 0 }
    }

    /// Points the connection at a new target (or at none) and counts a reconnect.
    pub fn reconnect(&mut self, conn: Option<RobotDiscovery>)
        ensures
            final(self).state == target_state(conn),
            final(self).reconnect == bumped(old(self).reconnect),
            final(self).reset_conn == old(self).reset_conn,
    {
        self.state = match conn {
            Some(d) => RobotConnState::YetToConnect(d),
            None => RobotConnState::Disconnected,
        };
        self.reconnect = self.reconnect.wrapping_add(1);
    }

    /// Asks every handle to restart its connection.
    pub fn reset_conn(&mut self)
        ensures
            final(self).reset_conn == bumped(old(self).reset_conn),
            final(self).reconnect == old(self).reconnect,
            final(self).state == old(self).state,
    {
        self.reset_conn = self.reset_conn.wrapping_add(1);
    }

    /// The address to talk to, and the reconnect count it belongs to. A target
    /// not yet looked up is handed to `connect` once: the state becomes
    /// `Connected` with what it found, or `Disconnected` when it found nothing.
    pub fn get_connection<F: FnOnce(RobotDiscovery) -> Option<IpAddress>>(
        &mut self,
        connect: F,
    ) -> (r: (Option<IpAddress>, usize))
        requires
            old(self).state matches RobotConnState::YetToConnect(d) ==> call_requires(
                connect,
                (d,),
            ),
        ensures
            r.1 == old(self).reconnect,
            final(self).reconnect == old(self).reconnect,
            final(self).reset_conn == old(self).reset_conn,
            match old(self).state {
                RobotConnState::YetToConnect(d) => {
                    &&& call_ensures(connect, (d,), r.0)
                    &&& final(self).state == match r.0 {
                        Some(a) => RobotConnState::Connected(a),
                        None => RobotConnState::Disconnected,
                    }
                },
                RobotConnState::Disconnected => {
                    &&& r.0 is None
                    &&& final(self).state == RobotConnState::Disconnected
                },
                RobotConnState::Connected(a) => {
                    &&& r.0 == Some(a)
                    &&& final(self).state == RobotConnState::Connected(a)
                },
            },
    {
        let reconnect = self.reconnect;
        let mut prev = RobotConnState::Disconnected;
        core::mem::swap(&mut prev, &mut self.state);
        match prev {
            RobotConnState::YetToConnect(d) => {
                let found = connect(d);
                match found {
                    Some(a) => {
                        self.state = RobotConnState::Connected(a);
                        (Some(a), reconnect)
                    },
                    None => (None, reconnect),
                }
            },
            RobotConnState::Disconnected => (None, reconnect),
            RobotConnState::Connected(a) => {
                self.state = RobotConnState::Connected(a);
                (Some(a), reconnect)
            },
        }
    }
}

/// A reset is noticed once: a handle that had seen every reset finds the next
/// one pending, and after taking note of it finds nothing pending.
pub proof fn law_reset_noticed_once(seen: usize)
    ensures
        restart_due(seen, bumped(seen)),
        !restart_due(bumped(seen), bumped(seen)),
{
}

/// The answer to "should this handle reconnect".
#[derive(Debug, Copy, Clone, PartialEq, Eq, Structural)]
pub enum Reconnect {
    Yes(Option<IpAddress>),
    No,
}

/// One handle on a shared connection: the counters it saw last.
#[derive(Debug, Copy, Clone, PartialEq, Eq, Structural)]
pub struct RobotConn {
    pub reconnect: usize,
    pub reset_conn: usize,
}

impl RobotConn {
    /// A connection aimed at `conn`, and the first handle on it.
    pub fn new(conn: Option<RobotDiscovery>) -> (r: (RobotConn, RobotConnShared))
        ensures
            r.0 == (RobotConn { reconnect: 0, reset_conn: 0 }),
            r.1.state == target_state(conn),
            r.1.reconnect == 0,
            r.1.reset_conn == 0,
    {
        (RobotConn { reconnect: 0, reset_conn: 0 }, RobotConnShared::new(conn))
    }

    /// Points the shared connection at a new target and counts a reconnect.
    pub fn reconnect(&mut self, shared: &mut RobotConnShared, conn: Option<RobotDiscovery>)
        ensures
            *final(self) == *old(self),
            final(shared).state == target_state(conn),
            final(shared).reconnect == bumped(old(shared).reconnect),
            final(shared).reset_conn == old(shared).reset_conn,
    {
        shared.reconnect(conn);
    }

    /// Asks every handle to restart.
    pub fn reset_conn(&self, shared: &mut RobotConnShared)
        ensures
            final(shared).reset_conn == bumped(old(shared).reset_conn),
            final(shared).reconnect == old(shared).reconnect,
            final(shared).state == old(shared).state,
    {
        shared.reset_conn();
    }

    /// Whether a reset came since this handle last looked; it then takes note of it.
    pub fn should_restart_conn(&mut self, shared: &RobotConnShared) -> (r: bool)
        ensures
            r == restart_due(old(self).reset_conn, shared.reset_conn),
            final(self).reset_conn == shared.reset_conn,
            final(self).reconnect == old(self).reconnect,
    {
        if self.reset_conn != shared.reset_conn {
            self.reset_conn = shared.reset_conn;
            true
        } else {
            false
        }
    }

    /// The address to talk to, looking up a new target through `connect`; the
    /// handle takes note of the reconnect count it now follows.
    pub fn connect<F: FnOnce(RobotDiscovery) -> Option<IpAddress>>(
        &mut self,
        shared: &mut RobotConnShared,
        connect: F,
    ) -> (r: Option<IpAddress>)
        requires
            old(shared).state matches RobotConnState::YetToConnect(d) ==> call_requires(
                connect,
                (d,),
            ),
        ensures
            final(self).reconnect == old(shared).reconnect,
            final(self).reset_conn == old(self).reset_conn,
            final(shared).reconnect == old(shared).reconnect,
            final(shared).reset_conn == old(shared).reset_conn,
            match old(shared).state {
                RobotConnState::YetToConnect(d) => {
                    &&& call_ensures(connect, (d,), r)
                    &&& final(shared).state == match r {
                        Some(a) => RobotConnState::Connected(a),
                        None => RobotConnState::Disconnected,
                    }
                },
                RobotConnState::Disconnected => {
                    &&& r is None
                    &&& final(shared).state == RobotConnState::Disconnected
                },
                RobotConnState::Connected(a) => {
                    &&& r == Some(a)
                    &&& final(shared).state == RobotConnState::Connected(a)
                },
            },
    {
        let (addr, reconnect) = shared.get_connection(connect);
        self.reconnect = reconnect;
        addr
    }

    /// When a reset came since this handle last took note of one, connects
    /// anew. The note itself is left as it was.
    pub fn check_reconnect<F: FnOnce(RobotDiscovery) -> Option<IpAddress>>(
        &mut self,
        shared: &mut RobotConnShared,
        connect: F,
    ) -> (r: Reconnect)
        requires
            old(shared).state matches RobotConnState::YetToConnect(d) ==> call_requires(
                connect,
                (d,),
            ),
        ensures
            final(self).reset_conn == old(self).reset_conn,
            final(shared).reset_conn == old(shared).reset_conn,
            final(shared).reconnect == old(shared).reconnect,
            !restart_due(old(self).reset_conn, old(shared).reset_conn) ==> {
                &&& r == Reconnect::No
                &&& *final(self) == *old(self)
                &&& final(shared).state == old(shared).state
            },
            restart_due(old(self).reset_conn, old(shared).reset_conn) ==> {
                &&& r is Yes
                &&& final(self).reconnect == old(shared).reconnect
                &&& match old(shared).state {
                    RobotConnState::YetToConnect(d) => {
                        &&& call_ensures(connect, (d,), r->Yes_0)
                        &&& final(shared).state == match r->Yes_0 {
                            Some(a) => RobotConnState::Connected(a),
                            None => RobotConnState::Disconnected,
                        }
                    },
                    RobotConnState::Disconnected => {
                        &&& r->Yes_0 is None
                        &&& final(shared).state == RobotConnState::Disconnected
                    },
                    RobotConnState::Connected(a) => {
                        &&& r->Yes_0 == Some(a)
                        &&& final(shared).state == RobotConnState::Connected(a)
                    },
                }
            },
    {
        if self.reset_conn != shared.reset_conn {
            Reconnect::Yes(self.connect(shared, connect))
        } else {
            Reconnect::No
        }
    }
}

} // verus!
