//! Direct connections between peers: the token that tells a peer where to
//! connect, the address that a STUN server reports, and the bookkeeping of
//! connection attempts.

use vstd::prelude::*;
use vstd::utf8::{decode_utf8, encode_utf8, valid_utf8};
use crate::base64::{ascii_text, base64_decode, base64_decoded, base64_encode, base64_encoded};
use crate::count::{bump, raised};
use crate::net::{
    addr_text, ipv4_of, ipv4_text, lemma_ipv4_round_trip, parse_ipv4, push_addr, PeerAddr,
    RemoteAddr,
};
use crate::text::{
    chars_of, decimal_digits, find_char, has_prefix, is_digit, lemma_decimal_digits,
    lemma_next_char_is, lemma_parse_decimal_digits, next_char, parse_decimal, parse_unsigned,
    push_text, starts_with, string_from_utf8, string_of,
};

verus! {

/// Why a token names no peer.
#[derive(Debug, Clone, Copy, PartialEq, Eq, Structural)]
pub enum TokenError {
    /// The decoded bytes are not valid UTF-8.
    NotUtf8,
    /// The text does not begin with `beam-p2p:`, or what follows has not
    /// exactly one colon.
    BadFormat,
    /// What stands before the colon is no IPv4 address.
    BadAddress,
    /// What stands after the colon is no port number.
    BadPort,
}

/// The text that a token encodes for a peer.
pub open spec fn token_info(addr: PeerAddr) -> Seq<char> {
    "beam-p2p:"@ + addr_text(addr)
}

/// The token for a peer: its text in Base64.
pub open spec fn token_text(addr: PeerAddr) -> Seq<char> {
    ascii_text(base64_encoded(encode_utf8(token_info(addr))))
}

/// The peer that a decoded token text names.
pub open spec fn info_meaning(info: Seq<char>) -> Result<PeerAddr, TokenError> {
    if !has_prefix(info, "beam-p2p:"@) {
        Err(TokenError::BadFormat)
    } else {
        let rest = info.skip("beam-p2p:"@.len() as int);
        let colon = next_char(rest, ':', 0);
        if colon >= rest.len() || next_char(rest, ':', colon + 1) < rest.len() {
            Err(TokenError::BadFormat)
        } else {
            match ipv4_of(rest.take(colon)) {
                None => Err(TokenError::BadAddress),
                Some(ip) => match parse_unsigned(rest.skip(colon + 1), 65535) {
                    None => Err(TokenError::BadPort),
                    Some(port) => Ok(PeerAddr { ip, port: port as u16 }),
                },
            }
        }
    }
}

/// The peer that a token with the given characters names.
pub open spec fn token_meaning(token: Seq<char>) -> Result<PeerAddr, TokenError> {
    let decoded = base64_decoded(encode_utf8(token));
    if !valid_utf8(decoded) {
        Err(TokenError::NotUtf8)
    } else {
        info_meaning(decode_utf8(decoded))
    }
}

/// The peer that a decoded token text names.
pub fn parse_token_info(info: &str) -> (r: Result<PeerAddr, TokenError>)
    ensures
        r == info_meaning(info@),
{
    let text = chars_of(info);
    let t = text.as_slice();
    let prefix = chars_of("beam-p2p:");
    if !starts_with(t, prefix.as_slice()) {
        return Err(TokenError::BadFormat);
    }
    let start = prefix.len();
    let mut tail: Vec<char> = Vec::new();
    crate::text::push_range(&mut tail, t, start, t.len());
    let r = tail.as_slice();
    let colon = find_char(r, ':', 0);
    if colon >= r.len() {
        return Err(TokenError::BadFormat);
    }
    if find_char(r, ':', colon + 1) < r.len() {
        return Err(TokenError::BadFormat);
    }
    match parse_ipv4(r, 0, colon) {
        None => Err(TokenError::BadAddress),
        Some(ip) => match parse_decimal(r, colon + 1, r.len(), 65535) {
            None => Err(TokenError::BadPort),
            Some(port) => Ok(PeerAddr { ip, port: port as u16 }),
        },
    }
}

/// How far a connection has come.
#[derive(Debug, Clone, PartialEq, Eq)]
pub enum ConnectionState {
    /// Not connected yet.
    Connecting,
    /// Connected and ready.
    Connected,
    /// Being opened through NAT.
    HolePunching,
    /// Carried by a relay.
    Relayed,
    /// Closed.
    Closed,
    /// Given up, with the reason.
    Failed(String),
}

/// A connection to a peer.
#[derive(Debug, Clone)]
pub struct P2PConnection {
    pub remote_addr: RemoteAddr,
    pub conn_id: String,
    pub state: ConnectionState,
    /// The round trip in milliseconds.
    pub rtt_ms: u64,
    pub bytes_sent: u64,
    pub bytes_received: u64,
}

/// What a stored connection holds. A stored connection is connected and
/// has carried nothing yet.
pub struct ConnectionModel {
    pub remote_addr: RemoteAddr,
    pub conn_id: Seq<char>,
    pub rtt_ms: u64,
}

/// The counters of the connection attempts.
#[derive(Debug, Clone, Copy, PartialEq, Eq, Structural)]
pub struct P2PStats {
    /// Connections made without a relay.
    pub direct_connections: u64,
    /// Connections carried by a relay.
    pub relayed_connections: u64,
    /// Connections opened through NAT.
    pub nat_traversal_success: u64,
    /// Attempts to do so that failed.
    pub nat_traversal_failed: u64,
}

impl Default for P2PStats {
    fn default() -> (r: P2PStats)
        ensures
            r == P2PStats::zero(),
    {
        P2PStats {
            direct_connections: 0,
            relayed_connections: 0,
            nat_traversal_success: 0,
            nat_traversal_failed: 0,
        }
    }
}

impl P2PStats {
    /// The counters before the first attempt.
    pub open spec fn zero() -> P2PStats {
        P2PStats {
            direct_connections: 0,
            relayed_connections: 0,
            nat_traversal_success: 0,
            nat_traversal_failed: 0,
        }
    }
}

/// Which attempt to reach a peer was made.
#[derive(Debug, Clone, Copy, PartialEq, Eq, Structural)]
pub enum ConnectStage {
    /// A plain connection.
    Direct,
    /// A connection through NAT.
    HolePunch,
}

/// How an attempt to reach a peer went.
#[derive(Debug, Clone, Copy, PartialEq, Eq, Structural)]
pub enum Attempt {
    /// The peer answered, after so many milliseconds.
    Reached(u64),
    /// The peer did not answer.
    Unreachable,
}

/// What to do after an attempt to reach a peer.
pub enum NextStep {
    /// The connection stands.
    Established(P2PConnection),
    /// Try through NAT.
    TryHolePunch,
    /// The peer cannot be reached.
    GiveUp,
}

/// What to do after an attempt, as a model.
pub enum StepModel {
    Established(ConnectionModel),
    TryHolePunch,
    GiveUp,
}

/// What a connection manager holds.
pub struct ManagerModel {
    pub local_addr: PeerAddr,
    pub public_addr: Option<PeerAddr>,
    pub behind_nat: bool,
    pub stats: P2PStats,
    /// The connections, oldest first, each under its own id.
    pub connections: Seq<ConnectionModel>,
}

/// The least index at or after `from` whose connection has the id, or
/// `connections.len()` where none has it.
pub open spec fn find_connection(connections: Seq<ConnectionModel>, id: Seq<char>, from: int) -> int
    decreases connections.len() - from,
{
    if from < 0 || from >= connections.len() {
        connections.len() as int
    } else if connections[from].conn_id == id {
        from
    } else {
        find_connection(connections, id, from + 1)
    }
}

/// `connections` with `c` in the place of the one with the same id, or at
/// the end where there was none.
pub open spec fn with_connection(connections: Seq<ConnectionModel>, c: ConnectionModel) -> Seq<
    ConnectionModel,
> {
    let i = find_connection(connections, c.conn_id, 0);
    if i < connections.len() {
        connections.update(i, c)
    } else {
        connections.push(c)
    }
}

/// `connections` without the first one that has the id.
pub open spec fn without_connection(connections: Seq<ConnectionModel>, id: Seq<char>) -> Seq<
    ConnectionModel,
> {
    let i = find_connection(connections, id, 0);
    if i < connections.len() {
        connections.remove(i)
    } else {
        connections
    }
}

/// No two connections have the same id.
pub open spec fn distinct_ids(connections: Seq<ConnectionModel>) -> bool {
    forall|i: int, j: int|
        0 <= i < connections.len() && 0 <= j < connections.len() && i != j ==> (
        #[trigger] connections[i]).conn_id != (#[trigger] connections[j]).conn_id
}

/// `find_connection` gives the first connection with the id at or after
/// `from`, and `connections.len()` exactly where there is none.
pub proof fn lemma_find_connection(connections: Seq<ConnectionModel>, id: Seq<char>, from: int)
    requires
        0 <= from <= connections.len(),
    ensures
        from <= find_connection(connections, id, from) <= connections.len(),
        find_connection(connections, id, from) < connections.len() ==> connections[find_connection(
            connections,
            id,
            from,
        )].conn_id == id,
        forall|j: int|
            from <= j < find_connection(connections, id, from) ==> (
            #[trigger] connections[j]).conn_id != id,
    decreases connections.len() - from,
{
    if from < connections.len() && connections[from].conn_id != id {
        lemma_find_connection(connections, id, from + 1);
    }
}

/// Storing a connection under its id leaves no id twice.
pub proof fn lemma_storing_keeps_ids_distinct(connections: Seq<ConnectionModel>, c: ConnectionModel)
    requires
        distinct_ids(connections),
    ensures
        distinct_ids(with_connection(connections, c)),
{
    lemma_find_connection(connections, c.conn_id, 0);
    let stored = with_connection(connections, c);
    let i = find_connection(connections, c.conn_id, 0);
    assert forall|a: int, b: int|
        0 <= a < stored.len() && 0 <= b < stored.len() && a != b implies (
    #[trigger] stored[a]).conn_id != (#[trigger] stored[b]).conn_id by {
        if a < connections.len() && a != i {
            assert(stored[a] == connections[a]);
        }
        if b < connections.len() && b != i {
            assert(stored[b] == connections[b]);
        }
    }
}

/// Closing a connection leaves no id twice.
pub proof fn lemma_closing_keeps_ids_distinct(connections: Seq<ConnectionModel>, id: Seq<char>)
    requires
        distinct_ids(connections),
    ensures
        distinct_ids(without_connection(connections, id)),
{
    lemma_find_connection(connections, id, 0);
    let k = find_connection(connections, id, 0);
    if k < connections.len() {
        let closed = connections.remove(k);
        assert forall|a: int, b: int|
            0 <= a < closed.len() && 0 <= b < closed.len() && a != b implies (
        #[trigger] closed[a]).conn_id != (#[trigger] closed[b]).conn_id by {
            assert(closed[a] == connections[if a < k { a } else { a + 1 }]);
            assert(closed[b] == connections[if b < k { b } else { b + 1 }]);
        }
    }
}

impl ManagerModel {
    /// The address that peers are told: the public one where it is known,
    /// the local one otherwise.
    pub open spec fn shared_addr(self) -> PeerAddr {
        match self.public_addr {
            Some(a) => a,
            None => self.local_addr,
        }
    }

    /// The manager once it has learnt its public address: it is behind an
    /// address translator where that differs from the local address.
    pub open spec fn with_public_addr(self, addr: PeerAddr) -> ManagerModel {
        ManagerModel {
            public_addr: Some(addr),
            behind_nat: addr.ip != self.local_addr.ip,
            ..self
        }
    }

    /// The manager after an attempt to reach `peer`, and what to do next.
    ///
    /// A peer that was reached is stored as a connection under `conn_id`
    /// and counted as a direct connection, and also as a traversal where it
    /// was reached through NAT. After a plain attempt
    /// that failed, a manager behind NAT tries through
    /// it, and any other gives up. A failed attempt through the address
    /// translators is counted, and the manager gives up.
    pub open spec fn after_attempt(
        self,
        conn_id: Seq<char>,
        peer: RemoteAddr,
        stage: ConnectStage,
        result: Attempt,
    ) -> (ManagerModel, StepModel) {
        match (stage, result) {
            (ConnectStage::Direct, Attempt::Reached(rtt)) => {
                let c = ConnectionModel { remote_addr: peer, conn_id, rtt_ms: rtt };
                (
                    ManagerModel {
                        connections: with_connection(self.connections, c),
                        stats: P2PStats {
                            direct_connections: bump(self.stats.direct_connections, 1),
                            ..self.stats
                        },
                        ..self
                    },
                    StepModel::Established(c),
                )
            },
            (ConnectStage::Direct, Attempt::Unreachable) => (
                self,
                if self.behind_nat {
                    StepModel::TryHolePunch
                } else {
                    StepModel::GiveUp
                },
            ),
            (ConnectStage::HolePunch, Attempt::Reached(rtt)) => {
                let c = ConnectionModel { remote_addr: peer, conn_id, rtt_ms: rtt };
                (
                    ManagerModel {
                        connections: with_connection(self.connections, c),
                        stats: P2PStats {
                            direct_connections: bump(self.stats.direct_connections, 1),
                            nat_traversal_success: bump(self.stats.nat_traversal_success, 1),
                            ..self.stats
                        },
                        ..self
                    },
                    StepModel::Established(c),
                )
            },
            (ConnectStage::HolePunch, Attempt::Unreachable) => (
                ManagerModel {
                    stats: P2PStats {
                        nat_traversal_failed: bump(self.stats.nat_traversal_failed, 1),
                        ..self.stats
                    },
                    ..self
                },
                StepModel::GiveUp,
            ),
        }
    }
}

/// Whether a connection is one that the manager stores: connected, with
/// nothing carried yet.
pub open spec fn is_fresh(c: P2PConnection) -> bool {
    c.state == ConnectionState::Connected && c.bytes_sent == 0 && c.bytes_received == 0
}

impl View for P2PConnection {
    type V = ConnectionModel;

    open spec fn view(&self) -> ConnectionModel {
        ConnectionModel {
            remote_addr: self.remote_addr,
            conn_id: self.conn_id@,
            rtt_ms: self.rtt_ms,
        }
    }
}

impl View for NextStep {
    type V = StepModel;

    open spec fn view(&self) -> StepModel {
        match *self {
            NextStep::Established(c) => StepModel::Established(c@),
            NextStep::TryHolePunch => StepModel::TryHolePunch,
            NextStep::GiveUp => StepModel::GiveUp,
        }
    }
}

/// Calls `uuid::Uuid::new_v4`, which takes random bytes from the operating
/// system, and writes the identifier out as text. The identifier is random:
/// nothing is claimed of it.
#[verifier::external_body]
fn fresh_uuid() -> String {
    uuid::Uuid::new_v4().to_string()
}

/// The text of the packet number `i` that is sent to a peer to open a way
/// through NAT.
pub open spec fn punch_text(i: u32) -> Seq<char> {
    "beam-punch-"@ + decimal_digits(i as nat)
}

/// How many packets are sent to a peer to open a way to it.
pub const PUNCH_PACKETS: u32 = 5;

/// The milliseconds between two such packets.
pub const PUNCH_INTERVAL_MILLIS: u64 = 100;

/// The seconds to wait for the peer's answer to the packets.
pub const PUNCH_TIMEOUT_SECS: u64 = 3;

/// The seconds to wait for a plain connection to a peer.
pub const CONNECT_TIMEOUT_SECS: u64 = 5;

/// The packet number `i` of those sent to a peer to open a way to it.
pub fn punch_packet(i: u32) -> (r: String)
    ensures
        r@ == punch_text(i),
{
    let mut out: Vec<char> = Vec::new();
    push_text(&mut out, "beam-punch-");
    crate::text::push_decimal(&mut out, i as u64);
    string_of(out.as_slice())
}

/// The id of a connection: `p2p-`, the peer's address, a hyphen, and an
/// identifier.
pub open spec fn connection_text(peer: Seq<char>, unique: Seq<char>) -> Seq<char> {
    "p2p-"@ + peer + "-"@ + unique
}

/// The servers that a new manager asks for its public address.
pub open spec fn default_stun_servers() -> Seq<Seq<char>> {
    seq![
        "stun.l.google.com:19302"@,
        "stun1.l.google.com:19302"@,
        "stun2.l.google.com:19302"@,
        "stun.cloudflare.com:3478"@,
    ]
}

/// Keeps the connections to peers, and the addresses to tell them.
pub struct P2PManager {
    local_addr: PeerAddr,
    connections: Vec<P2PConnection>,
    stun_servers: Vec<String>,
    public_addr: Option<PeerAddr>,
    behind_nat: bool,
    stats: P2PStats,
}

impl View for P2PManager {
    type V = ManagerModel;

    closed spec fn view(&self) -> ManagerModel {
        ManagerModel {
            local_addr: self.local_addr,
            public_addr: self.public_addr,
            behind_nat: self.behind_nat,
            stats: self.stats,
            connections: self.connections@.map_values(|c: P2PConnection| c@),
        }
    }
}

impl P2PManager {
    #[verifier::type_invariant]
    spec fn ids_differ(&self) -> bool {
        distinct_ids(self@.connections)
    }

    /// A manager that listens on every local address at `listen_port`,
    /// knows no public address, and has no connection.
    pub fn new(listen_port: u16) -> (r: Self)
        ensures
            r@ == (ManagerModel {
                local_addr: PeerAddr { ip: [0u8, 0u8, 0u8, 0u8], port: listen_port },
                public_addr: None,
                behind_nat: false,
                stats: P2PStats::zero(),
                connections: Seq::empty(),
            }),
            r.servers() == default_stun_servers(),
    {
        let mut servers: Vec<String> = Vec::new();
        servers.push("stun.l.google.com:19302".to_owned());
        servers.push("stun1.l.google.com:19302".to_owned());
        servers.push("stun2.l.google.com:19302".to_owned());
        servers.push("stun.cloudflare.com:3478".to_owned());
        let r = P2PManager {
            local_addr: PeerAddr { ip: [0, 0, 0, 0], port: listen_port },
            connections: Vec::new(),
            stun_servers: servers,
            public_addr: None,
            behind_nat: false,
            stats: P2PStats::default(),
        };
        assert(r@.connections =~= Seq::empty());
        r
    }

    /// The servers to ask for the public address, in the order to ask them.
    pub closed spec fn servers(&self) -> Seq<Seq<char>> {
        self.stun_servers.deep_view()
    }

    /// The servers to ask for the public address, in the order to ask them.
    pub fn stun_servers(&self) -> (r: &Vec<String>)
        ensures
            r.deep_view() == self.servers(),
    {
        &self.stun_servers
    }

    /// Takes note of the public address that a STUN server reported.
    pub fn record_public_address(&mut self, addr: PeerAddr)
        ensures
            final(self)@ == old(self)@.with_public_addr(addr),
    {
        proof {
            use_type_invariant(&*self);
        }
        self.public_addr = Some(addr);
        let l = self.local_addr.ip;
        let a = addr.ip;
        self.behind_nat = !(a[0] == l[0] && a[1] == l[1] && a[2] == l[2] && a[3] == l[3]);
        assert(self.behind_nat == (addr.ip != old(self)@.local_addr.ip)) by {
            if !self.behind_nat {
                assert(a =~= l);
            }
        }
    }

    /// The token to give to a peer: the address to connect to, in Base64.
    pub fn generate_connection_token(&self) -> (r: String)
        ensures
            r@ == token_text(self@.shared_addr()),
    {
        let addr = match self.public_addr {
            Some(a) => a,
            None => self.local_addr,
        };
        let mut out: Vec<char> = Vec::new();
        push_text(&mut out, "beam-p2p:");
        push_addr(&mut out, addr);
        let info = string_of(out.as_slice());
        base64_encode(info.as_str())
    }

    /// The peer that a token names, or why it names none.
    pub fn parse_connection_token(token: &str) -> (r: Result<PeerAddr, TokenError>)
        ensures
            r == token_meaning(token@),
    {
        let decoded = base64_decode(token);
        match string_from_utf8(decoded) {
            None => Err(TokenError::NotUtf8),
            Some(info) => parse_token_info(info.as_str()),
        }
    }

    /// The id of a connection to the peer with the given address text: `p2p-`,
    /// the address, a hyphen, and the identifier.
    pub fn connection_id_with(peer: &str, unique: &str) -> (r: String)
        ensures
            r@ == connection_text(peer@, unique@),
    {
        let mut out: Vec<char> = Vec::new();
        push_text(&mut out, "p2p-");
        push_text(&mut out, peer);
        push_text(&mut out, "-");
        push_text(&mut out, unique);
        string_of(out.as_slice())
    }

    /// An id for a new connection to the peer with the given address text,
    /// with a random identifier.
    pub fn connection_id_for(peer: &str) -> (r: String)
        ensures
            exists|unique: Seq<char>| r@ == #[trigger] connection_text(peer@, unique),
    {
        let unique = fresh_uuid();
        P2PManager::connection_id_with(peer, unique.as_str())
    }

    /// An id for a new connection to `peer`, with a random identifier.
    pub fn connection_id(peer: PeerAddr) -> (r: String)
        ensures
            exists|unique: Seq<char>| r@ == #[trigger] connection_text(addr_text(peer), unique),
    {
        let mut text: Vec<char> = Vec::new();
        push_addr(&mut text, peer);
        let text = string_of(text.as_slice());
        P2PManager::connection_id_for(text.as_str())
    }

    fn position(&self, id: &str) -> (i: usize)
        ensures
            i == find_connection(self@.connections, id@, 0),
            i <= self.connections.len(),
    {
        let wanted = id.to_owned();
        let mut i: usize = 0;
        while i < self.connections.len()
            invariant
                i <= self.connections.len(),
                wanted@ == id@,
                find_connection(self@.connections, id@, 0) == find_connection(
                    self@.connections,
                    id@,
                    i as int,
                ),
            decreases self.connections.len() - i,
        {
            if self.connections[i].conn_id == wanted {
                return i;
            }
            i += 1;
        }
        i
    }

    fn store(&mut self, conn_id: &str, peer: RemoteAddr, rtt: u64) -> (r: P2PConnection)
        ensures
            r@ == (ConnectionModel { remote_addr: peer, conn_id: conn_id@, rtt_ms: rtt }),
            is_fresh(r),
            final(self)@ == (ManagerModel {
                connections: with_connection(old(self)@.connections, r@),
                ..old(self)@
            }),
            distinct_ids(final(self)@.connections),
    {
        let ghost before = self@.connections;
        let i = self.position(conn_id);
        let stored = P2PConnection {
            remote_addr: peer,
            conn_id: conn_id.to_owned(),
            state: ConnectionState::Connected,
            rtt_ms: rtt,
            bytes_sent: 0,
            bytes_received: 0,
        };
        let handed = P2PConnection {
            remote_addr: peer,
            conn_id: conn_id.to_owned(),
            state: ConnectionState::Connected,
            rtt_ms: rtt,
            bytes_sent: 0,
            bytes_received: 0,
        };
        proof {
            use_type_invariant(&*self);
            lemma_storing_keeps_ids_distinct(before, handed@);
        }
        // The list is taken out while it is worked on, so that no id
        // stands twice in the manager whatever happens in between.
        let mut list: Vec<P2PConnection> = Vec::new();
        std::mem::swap(&mut self.connections, &mut list);
        if i < list.len() {
            list[i] = stored;
        } else {
            list.push(stored);
        }
        assert(list@.map_values(|c: P2PConnection| c@) =~= with_connection(before, handed@));
        std::mem::swap(&mut self.connections, &mut list);
        handed
    }

    /// Takes in how an attempt to reach `peer` went, and says what to do
    /// next; see [`ManagerModel::after_attempt`].
    pub fn after_attempt(
        &mut self,
        conn_id: &str,
        peer: RemoteAddr,
        stage: ConnectStage,
        result: Attempt,
    ) -> (r: NextStep)
        ensures
            (final(self)@, r@) == old(self)@.after_attempt(conn_id@, peer, stage, result),
            r matches NextStep::Established(c) ==> is_fresh(c),
            distinct_ids(final(self)@.connections),
    {
        proof {
            use_type_invariant(&*self);
        }
        match (stage, result) {
            (ConnectStage::Direct, Attempt::Reached(rtt)) => {
                self.stats.direct_connections = raised(self.stats.direct_connections, 1);
                NextStep::Established(self.store(conn_id, peer, rtt))
            },
            (ConnectStage::Direct, Attempt::Unreachable) => {
                if self.behind_nat {
                    NextStep::TryHolePunch
                } else {
                    NextStep::GiveUp
                }
            },
            (ConnectStage::HolePunch, Attempt::Reached(rtt)) => {
                self.stats.nat_traversal_success = raised(self.stats.nat_traversal_success, 1);
                self.stats.direct_connections = raised(self.stats.direct_connections, 1);
                NextStep::Established(self.store(conn_id, peer, rtt))
            },
            (ConnectStage::HolePunch, Attempt::Unreachable) => {
                self.stats.nat_traversal_failed = raised(self.stats.nat_traversal_failed, 1);
                NextStep::GiveUp
            },
        }
    }

    /// The counters.
    pub fn get_stats(&self) -> (r: P2PStats)
        ensures
            r == self@.stats,
    {
        self.stats
    }

    /// How many connections there are, each under an id of its own.
    pub fn active_connections(&self) -> (r: usize)
        ensures
            r == self@.connections.len(),
            distinct_ids(self@.connections),
    {
        proof {
            use_type_invariant(self);
        }
        self.connections.len()
    }

    /// Closes the connection with the id, if there is one.
    pub fn close_connection(&mut self, conn_id: &str)
        ensures
            final(self)@ == (ManagerModel {
                connections: without_connection(old(self)@.connections, conn_id@),
                ..old(self)@
            }),
            distinct_ids(final(self)@.connections),
    {
        let ghost before = self@.connections;
        let i = self.position(conn_id);
        proof {
            use_type_invariant(&*self);
            lemma_closing_keeps_ids_distinct(before, conn_id@);
        }
        let mut list: Vec<P2PConnection> = Vec::new();
        std::mem::swap(&mut self.connections, &mut list);
        if i < list.len() {
            let mut closed = list.remove(i);
            closed.state = ConnectionState::Closed;
        }
        assert(list@.map_values(|c: P2PConnection| c@) =~= without_connection(before, conn_id@));
        std::mem::swap(&mut self.connections, &mut list);
    }

    /// Closes every connection.
    pub fn shutdown(&mut self)
        ensures
            final(self)@ == (ManagerModel { connections: Seq::empty(), ..old(self)@ }),
    {
        let mut list: Vec<P2PConnection> = Vec::new();
        std::mem::swap(&mut self.connections, &mut list);
        assert(self@.connections =~= Seq::empty());
    }
}

/// In a text made of a part without a colon, a colon, and another part
/// without one, the colon is found where the first part ends, no colon
/// follows it, and the two parts stand on either side of it.
proof fn lemma_split_at_colon(first: Seq<char>, second: Seq<char>)
    requires
        forall|j: int| 0 <= j < first.len() ==> first[j] != ':',
        forall|j: int| 0 <= j < second.len() ==> second[j] != ':',
    ensures
        ({
            let whole = first + seq![':'] + second;
            let colon = first.len() as int;
            &&& next_char(whole, ':', 0) == colon
            &&& next_char(whole, ':', colon + 1) == whole.len()
            &&& whole.take(colon) == first
            &&& whole.skip(colon + 1) == second
        }),
{
    let whole = first + seq![':'] + second;
    let colon = first.len() as int;
    assert(whole[colon] == ':');
    assert forall|j: int| 0 <= j < colon implies whole[j] != ':' by {
        assert(whole[j] == first[j]);
    }
    assert forall|j: int| colon + 1 <= j < whole.len() implies whole[j] != ':' by {
        assert(whole[j] == second[j - colon - 1]);
    }
    lemma_next_char_is(whole, ':', 0, colon);
    lemma_next_char_is(whole, ':', colon + 1, whole.len() as int);
    assert(whole.take(colon) =~= first);
    assert(whole.skip(colon + 1) =~= second);
}

/// The decimal writing of a number holds no colon.
proof fn lemma_no_colon_in_number(n: nat)
    ensures
        forall|j: int| 0 <= j < decimal_digits(n).len() ==> decimal_digits(n)[j] != ':',
{
    lemma_decimal_digits(n);
    assert forall|j: int| 0 <= j < decimal_digits(n).len() implies decimal_digits(n)[j]
        != ':' by {
        assert(is_digit(decimal_digits(n)[j]));
    }
}

/// The text that a token encodes names the peer it was made for.
pub proof fn lemma_info_round_trip(addr: PeerAddr)
    ensures
        info_meaning(token_info(addr)) == Ok::<PeerAddr, TokenError>(addr),
{
    let ip = ipv4_text(addr.ip);
    let port = decimal_digits(addr.port as nat);
    let info = token_info(addr);
    let rest = info.skip("beam-p2p:"@.len() as int);
    assert(has_prefix(info, "beam-p2p:"@) && rest == ip + seq![':'] + port) by {
        reveal_strlit("beam-p2p:");
        reveal_strlit(":");
        assert(":"@ =~= seq![':']);
        assert(info.subrange(0, 9) =~= "beam-p2p:"@);
        assert(info.skip(9) =~= ip + seq![':'] + port);
    }
    assert(ipv4_of(ip) == Some(addr.ip) && (forall|j: int|
        0 <= j < ip.len() ==> ip[j] != ':')) by {
        lemma_ipv4_round_trip(addr.ip);
    }
    assert(parse_unsigned(port, 65535) == Some(addr.port as nat)) by {
        lemma_parse_decimal_digits(addr.port as nat, 65535);
    }
    lemma_no_colon_in_number(addr.port as nat);
    lemma_split_at_colon(ip, port);
}

/// The token made for a peer names that peer: what
/// [`P2PManager::parse_connection_token`] returns for what
/// [`P2PManager::generate_connection_token`] returns is the address that
/// the manager shares.
pub proof fn lemma_token_round_trip(addr: PeerAddr)
    ensures
        token_meaning(token_text(addr)) == Ok::<PeerAddr, TokenError>(addr),
{
    let info = token_info(addr);
    crate::base64::lemma_base64_text_round_trip(info);
    vstd::utf8::encode_utf8_valid_utf8(info);
    vstd::utf8::encode_utf8_decode_utf8(info);
    lemma_info_round_trip(addr);
}

} // verus!
