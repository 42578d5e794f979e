//! Radar discovery: listens on each brand's beacon address, hands every
//! datagram to a decoder, and keeps the list of radars seen, one entry per
//! brand and name.
use vstd::prelude::*;
use crate::furuno::BEACON_PORT;
use crate::io::{IoProvider, UdpSocketHandle};
use crate::text::{find_char, push_str, chars_of, find_char_in};

verus! {

/// Radar manufacturer.
#[derive(Debug, Clone, Copy, PartialEq, Eq, Structural)]
pub enum Brand {
    Furuno,
    Navico,
    Raymarine,
    Garmin,
}

pub open spec fn brand_name(b: Brand) -> Seq<char> {
    match b {
        Brand::Furuno => "Furuno"@,
        Brand::Navico => "Navico"@,
        Brand::Raymarine => "Raymarine"@,
        Brand::Garmin => "Garmin"@,
    }
}

impl Brand {
    /// The brand's name.
    pub fn as_str(&self) -> (s: &'static str)
        ensures
            s@ == brand_name(*self),
    {
        match self {
            Brand::Furuno => "Furuno",
            Brand::Navico => "Navico",
            Brand::Raymarine => "Raymarine",
            Brand::Garmin => "Garmin",
        }
    }
}

/// A radar as announced by a beacon.
#[derive(Debug, Clone)]
pub struct RadarDiscovery {
    pub brand: Brand,
    pub model: Option<String>,
    pub name: String,
    pub serial_number: Option<String>,
    /// `ip:port` of the radar.
    pub address: String,
    pub spokes_per_revolution: u16,
    pub max_spoke_len: u16,
    /// Port commands go to.
    pub command_port: u16,
    /// Port spoke data comes from.
    pub data_port: u16,
}

/// A known radar with the time its last beacon was seen.
#[derive(Debug, Clone)]
pub struct DiscoveredRadar {
    /// `brand-name`.
    pub id: String,
    pub discovery: RadarDiscovery,
    pub last_seen_ms: u64,
}

/// The beacon socket a datagram arrived on.
#[derive(Debug, Clone, Copy, PartialEq, Eq, Structural)]
pub enum LocatorSocket {
    Furuno,
    NavicoBr24,
    NavicoGen3,
    Raymarine,
    Garmin,
}

/// What a decoder made of a datagram.
#[derive(Debug, Clone)]
pub enum Decoded {
    /// A beacon announcing a radar.
    Beacon(RadarDiscovery),
    /// A model report (Furuno) naming the model and serial of the radar at
    /// the source address.
    ModelReport { model: Option<String>, serial: Option<String> },
    /// Not a discovery datagram.
    Nothing,
}

/// Broadcast address of Furuno beacon requests and announces.
pub const FURUNO_BEACON_BROADCAST: &'static str = "172.31.255.255";
/// Polls between two Furuno announces (about 2 s at 10 polls per second).
pub const ANNOUNCE_INTERVAL: u64 = 20;
/// Most datagrams taken from one socket in one poll.
pub const MAX_DATAGRAMS_PER_SOCKET: usize = 256;
/// Size of the receive buffer.
pub const RECEIVE_BUFFER_LEN: usize = 2048;

pub open spec fn radar_id(d: RadarDiscovery) -> Seq<char> {
    brand_name(d.brand) + "-"@ + d.name@
}

/// The part of an `ip:port` address before the first colon.
pub open spec fn ip_part(address: Seq<char>) -> Seq<char> {
    address.subrange(0, find_char(address, ':'))
}

pub open spec fn unique_ids(radars: Seq<DiscoveredRadar>) -> bool {
    forall|i: int, j: int| 0 <= i < j < radars.len() ==> radars[i].id@ != radars[j].id@
}

pub open spec fn index_of_id(radars: Seq<DiscoveredRadar>, id: Seq<char>) -> Option<int> {
    if exists|i: int| 0 <= i < radars.len() && #[trigger] radars[i].id@ == id {
        Some(choose|i: int| 0 <= i < radars.len() && #[trigger] radars[i].id@ == id)
    } else {
        None
    }
}

pub open spec fn opt_text(o: Option<String>) -> Option<Seq<char>> {
    match o {
        Some(t) => Some(t@),
        None => None,
    }
}

/// Same radar identity and endpoint (model and serial aside).
pub open spec fn same_core(a: RadarDiscovery, b: RadarDiscovery) -> bool {
    &&& a.brand == b.brand
    &&& a.name@ == b.name@
    &&& a.address@ == b.address@
    &&& a.spokes_per_revolution == b.spokes_per_revolution
    &&& a.max_spoke_len == b.max_spoke_len
    &&& a.command_port == b.command_port
    &&& a.data_port == b.data_port
}

pub open spec fn same_discovery(a: RadarDiscovery, b: RadarDiscovery) -> bool {
    &&& same_core(a, b)
    &&& opt_text(a.model) == opt_text(b.model)
    &&& opt_text(a.serial_number) == opt_text(b.serial_number)
}

/// Position of the first radar, from position `k` on, whose address has IP `ip`.
pub open spec fn first_with_ip(radars: Seq<DiscoveredRadar>, ip: Seq<char>, k: int) -> Option<int>
    decreases radars.len() - k,
{
    if k < 0 || k >= radars.len() {
        None
    } else if ip_part(radars[k].discovery.address@) == ip {
        Some(k)
    } else {
        first_with_ip(radars, ip, k + 1)
    }
}

/// Discovers radars on the local network.
pub struct RadarLocator {
    furuno_socket: Option<UdpSocketHandle>,
    navico_br24_socket: Option<UdpSocketHandle>,
    navico_gen3_socket: Option<UdpSocketHandle>,
    raymarine_socket: Option<UdpSocketHandle>,
    garmin_socket: Option<UdpSocketHandle>,
    /// Radars seen so far, one per `brand-name` id.
    pub radars: Vec<DiscoveredRadar>,
    /// Current time, set by the caller.
    pub current_time_ms: u64,
    /// Packets sent on each Furuno announce, in order (beacon request, model
    /// request, announce).
    pub furuno_announce_packets: Vec<Vec<u8>>,
    poll_count: u64,
}

/// The `brand-name` id of a discovery.
pub fn make_radar_id(discovery: &RadarDiscovery) -> (r: String)
    ensures
        r@ == radar_id(*discovery),
{
    let mut s = String::from_str(discovery.brand.as_str());
    push_str(&mut s, "-");
    push_str(&mut s, discovery.name.as_str());
    s
}

/// The text of `s` up to its first `:`.
fn ip_of(s: &str) -> (r: Vec<char>)
    ensures
        r@ == ip_part(s@),
{
    let v = chars_of(s);
    let k = find_char_in(&v, 0, v.len(), ':');
    assert(v@.subrange(0, v@.len() as int) =~= v@);
    let mut r: Vec<char> = Vec::new();
    let mut i: usize = 0;
    while i < k
        invariant
            k <= v@.len(),
            i <= k,
            r@ == v@.subrange(0, i as int),
        decreases k - i,
    {
        r.push(v[i]);
        i = i + 1;
        assert(r@ =~= v@.subrange(0, i as int));
    }
    r
}

/// The IP part of an `ip:port` address, as text.
pub fn ip_text(address: &str) -> (r: String)
    ensures
        r@ == ip_part(address@),
{
    let v = ip_of(address);
    let mut out = String::new();
    let mut i: usize = 0;
    while i < v.len()
        invariant
            i <= v@.len(),
            out@ == v@.subrange(0, i as int),
        decreases v@.len() - i,
    {
        crate::text::push_char(&mut out, v[i]);
        i = i + 1;
        assert(out@ =~= v@.subrange(0, i as int));
    }
    assert(v@.subrange(0, v@.len() as int) =~= v@);
    out
}

fn same_chars(a: &Vec<char>, b: &Vec<char>) -> (r: bool)
    ensures
        r == (a@ == b@),
{
    if a.len() != b.len() {
        return false;
    }
    let mut i: usize = 0;
    while i < a.len()
        invariant
            i <= a@.len(),
            a@.len() == b@.len(),
            forall|j: int| 0 <= j < i ==> a@[j] == b@[j],
        decreases a@.len() - i,
    {
        if a[i] != b[i] {
            return false;
        }
        i = i + 1;
    }
    assert(a@ =~= b@);
    true
}

pub fn clone_text(s: &String) -> (r: String)
    ensures
        r@ == s@,
{
    String::from_str(s.as_str())
}

fn clone_discovery(d: &RadarDiscovery) -> (r: RadarDiscovery)
    ensures
        same_discovery(r, *d),
{
    RadarDiscovery {
        brand: d.brand,
        model: match &d.model {
            Some(m) => Some(clone_text(m)),
            None => None,
        },
        name: clone_text(&d.name),
        serial_number: match &d.serial_number {
            Some(s) => Some(clone_text(s)),
            None => None,
        },
        address: clone_text(&d.address),
        spokes_per_revolution: d.spokes_per_revolution,
        max_spoke_len: d.max_spoke_len,
        command_port: d.command_port,
        data_port: d.data_port,
    }
}

impl RadarLocator {
    /// Radars seen so far.
    pub closed spec fn radars_spec(&self) -> Seq<DiscoveredRadar> {
        self.radars@
    }

    pub closed spec fn time_spec(&self) -> u64 {
        self.current_time_ms
    }

    pub closed spec fn announce_packets_spec(&self) -> Seq<Vec<u8>> {
        self.furuno_announce_packets@
    }

    /// Ids are unique and each is its radar's `brand-name`.
    pub closed spec fn wf(&self) -> bool {
        &&& unique_ids(self.radars@)
        &&& forall|i: int| 0 <= i < self.radars@.len() ==> (#[trigger] self.radars@[i]).id@ == radar_id(self.radars@[i].discovery)
    }

    pub closed spec fn poll_count_spec(&self) -> u64 {
        self.poll_count
    }

    /// Whether every beacon socket is closed.
    pub closed spec fn no_sockets(&self) -> bool {
        &&& self.furuno_socket is None
        &&& self.navico_br24_socket is None
        &&& self.navico_gen3_socket is None
        &&& self.raymarine_socket is None
        &&& self.garmin_socket is None
    }

    /// Number of radars known.
    pub fn radar_count(&self) -> (n: usize)
        ensures
            n == self.radars_spec().len(),
    {
        self.radars.len()
    }

    /// The `i`-th known radar.
    pub fn radar(&self, i: usize) -> (r: &DiscoveredRadar)
        requires
            i < self.radars_spec().len(),
        ensures
            *r == self.radars_spec()[i as int],
    {
        &self.radars[i]
    }

    /// Ids of known radars are distinct and each is its radar's `brand-name`.
    pub proof fn lemma_wf_ids(&self)
        requires
            self.wf(),
        ensures
            unique_ids(self.radars_spec()),
            forall|i: int| 0 <= i < self.radars_spec().len() ==> (#[trigger] self.radars_spec()[i]).id@
                == radar_id(self.radars_spec()[i].discovery),
    {
    }

    /// A locator with no sockets and no radars.
    pub fn new() -> (l: RadarLocator)
        ensures
            l.wf(),
            l.radars_spec().len() == 0,
            l.time_spec() == 0,
            l.announce_packets_spec().len() == 0,
            l.poll_count_spec() == 0,
            l.no_sockets(),
    {
        RadarLocator {
            furuno_socket: None,
            navico_br24_socket: None,
            navico_gen3_socket: None,
            raymarine_socket: None,
            garmin_socket: None,
            radars: Vec::new(),
            current_time_ms: 0,
            furuno_announce_packets: Vec::new(),
            poll_count: 0,
        }
    }

    /// Opens every beacon socket and sends a first Furuno announce.
    pub fn start<I: IoProvider>(&mut self, io: &mut I)
        ensures
            final(self).radars_spec() == old(self).radars_spec(),
            final(self).wf() == old(self).wf(),
            final(self).time_spec() == old(self).time_spec(),
            final(self).poll_count_spec() == old(self).poll_count_spec(),
    {
        self.start_furuno(io);
        self.start_navico_br24(io);
        self.start_navico_gen3(io);
        self.start_raymarine(io);
        self.start_garmin(io);
    }

    /// Opens a socket bound to `port` that has joined `group`.
    fn open_multicast<I: IoProvider>(io: &mut I, group: &str, port: u16) -> Option<UdpSocketHandle> {
        match io.udp_create() {
            Ok(socket) => {
                if io.udp_bind(&socket, port).is_ok() {
                    if io.udp_join_multicast(&socket, group, "").is_ok() {
                        return Some(socket);
                    }
                }
                io.udp_close(socket);
                None
            },
            Err(_) => None,
        }
    }

    /// The Furuno socket both receives beacons and sends announces, from the
    /// beacon port: radars only accept sessions from clients that announce
    /// from there.
    fn start_furuno<I: IoProvider>(&mut self, io: &mut I)
        ensures
            final(self).radars == old(self).radars,
            final(self).current_time_ms == old(self).current_time_ms,
            final(self).poll_count == old(self).poll_count,
    {
        match io.udp_create() {
            Ok(socket) => {
                let _ = io.udp_set_broadcast(&socket, true);
                if io.udp_bind(&socket, BEACON_PORT).is_ok() {
                    self.furuno_socket = Some(socket);
                    self.send_furuno_announce(io);
                } else {
                    io.udp_close(socket);
                }
            },
            Err(_) => {},
        }
    }

    fn start_navico_br24<I: IoProvider>(&mut self, io: &mut I)
        ensures
            final(self).radars == old(self).radars,
            final(self).current_time_ms == old(self).current_time_ms,
            final(self).poll_count == old(self).poll_count,
    {
        self.navico_br24_socket = Self::open_multicast(io, "236.6.7.4", 6768);
    }

    fn start_navico_gen3<I: IoProvider>(&mut self, io: &mut I)
        ensures
            final(self).radars == old(self).radars,
            final(self).current_time_ms == old(self).current_time_ms,
            final(self).poll_count == old(self).poll_count,
    {
        self.navico_gen3_socket = Self::open_multicast(io, "236.6.7.5", 6878);
    }

    fn start_raymarine<I: IoProvider>(&mut self, io: &mut I)
        ensures
            final(self).radars == old(self).radars,
            final(self).current_time_ms == old(self).current_time_ms,
            final(self).poll_count == old(self).poll_count,
    {
        self.raymarine_socket = Self::open_multicast(io, "224.0.0.1", 5800);
    }

    fn start_garmin<I: IoProvider>(&mut self, io: &mut I)
        ensures
            final(self).radars == old(self).radars,
            final(self).current_time_ms == old(self).current_time_ms,
            final(self).poll_count == old(self).poll_count,
    {
        self.garmin_socket = Self::open_multicast(io, "239.254.2.0", 50100);
    }

    /// Sends the Furuno announce packets, in order, to the Furuno broadcast
    /// address on the beacon port (nothing without a Furuno socket).
    pub fn send_furuno_announce<I: IoProvider>(&self, io: &mut I) {
        if let Some(socket) = self.furuno_socket {
            let mut i: usize = 0;
            while i < self.furuno_announce_packets.len()
                invariant
                    i <= self.furuno_announce_packets@.len(),
                decreases self.furuno_announce_packets@.len() - i,
            {
                let _ = io.udp_send_to(&socket, self.furuno_announce_packets[i].as_slice(), FURUNO_BEACON_BROADCAST, BEACON_PORT);
                i = i + 1;
            }
        }
    }

    /// Drains a socket, passing each datagram to `decode`; beacons are
    /// collected in `discoveries`, model reports in `reports`.
    fn poll_socket<I: IoProvider, F: Fn(LocatorSocket, &[u8], &str) -> Decoded>(
        socket: Option<UdpSocketHandle>,
        kind: LocatorSocket,
        io: &mut I,
        decode: &F,
        discoveries: &mut Vec<RadarDiscovery>,
        reports: &mut Vec<(String, Option<String>, Option<String>)>,
    )
        requires
            forall|k: LocatorSocket, d: &[u8], a: &str| decode.requires((k, d, a)),
    {
        if let Some(socket) = socket {
            let mut buf: Vec<u8> = Vec::new();
            let mut j: usize = 0;
            while j < RECEIVE_BUFFER_LEN
                invariant
                    j <= RECEIVE_BUFFER_LEN,
                    buf@.len() == j,
                decreases RECEIVE_BUFFER_LEN - j,
            {
                buf.push(0);
                j = j + 1;
            }
            let mut n: usize = 0;
            while n < MAX_DATAGRAMS_PER_SOCKET
                invariant
                    n <= MAX_DATAGRAMS_PER_SOCKET,
                    buf@.len() == RECEIVE_BUFFER_LEN,
                    forall|k: LocatorSocket, d: &[u8], a: &str| decode.requires((k, d, a)),
                decreases MAX_DATAGRAMS_PER_SOCKET - n,
            {
                match io.udp_recv_from(&socket, buf.as_mut_slice()) {
                    Some((len, addr, _port)) => {
                        let data = vstd::slice::slice_subrange(buf.as_slice(), 0, len);
                        match decode(kind, data, addr.as_str()) {
                            Decoded::Beacon(d) => {
                                discoveries.push(d);
                            },
                            Decoded::ModelReport { model, serial } => {
                                if model.is_some() || serial.is_some() {
                                    reports.push((addr, model, serial));
                                }
                            },
                            Decoded::Nothing => {},
                        }
                    },
                    None => {
                        break;
                    },
                }
                n = n + 1;
            }
        }
    }

    /// One discovery step: every `ANNOUNCE_INTERVAL` polls a Furuno announce
    /// is sent; then each beacon socket is drained through `decode`, model
    /// reports are applied to the radars at their source address, and each
    /// beacon is recorded. Returns the radars seen for the first time: their
    /// ids are distinct, none was known before, and they are appended in
    /// order with the current time as last seen. Known radars keep their
    /// identity; a last-seen time only ever moves to the current time.
    pub fn poll<I: IoProvider, F: Fn(LocatorSocket, &[u8], &str) -> Decoded>(&mut self, io: &mut I, decode: &F) -> (r: Vec<RadarDiscovery>)
        requires
            old(self).wf(),
            forall|k: LocatorSocket, d: &[u8], a: &str| decode.requires((k, d, a)),
        ensures
            final(self).wf(),
            final(self).time_spec() == old(self).time_spec(),
            final(self).radars_spec().len() == old(self).radars_spec().len() + r@.len(),
            forall|i: int| 0 <= i < old(self).radars_spec().len() ==> {
                &&& (#[trigger] final(self).radars_spec()[i]).id@ == old(self).radars_spec()[i].id@
                &&& same_core(final(self).radars_spec()[i].discovery, old(self).radars_spec()[i].discovery)
                &&& (final(self).radars_spec()[i].last_seen_ms == old(self).radars_spec()[i].last_seen_ms
                    || final(self).radars_spec()[i].last_seen_ms == old(self).time_spec())
            },
            forall|q: int| 0 <= q < r@.len() ==> {
                &&& (#[trigger] final(self).radars_spec()[old(self).radars_spec().len() + q]).id@ == radar_id(r@[q])
                &&& same_discovery(final(self).radars_spec()[old(self).radars_spec().len() + q].discovery, r@[q])
                &&& final(self).radars_spec()[old(self).radars_spec().len() + q].last_seen_ms == old(self).time_spec()
            },
            forall|q1: int, q2: int| 0 <= q1 < q2 < r@.len() ==> radar_id(#[trigger] r@[q1]) != radar_id(#[trigger] r@[q2]),
            forall|q: int, i: int| 0 <= q < r@.len() && 0 <= i < old(self).radars_spec().len()
                ==> (#[trigger] old(self).radars_spec()[i]).id@ != radar_id(#[trigger] r@[q]),
            final(self).poll_count_spec() == if old(self).poll_count_spec() < u64::MAX {
                old(self).poll_count_spec() + 1
            } else {
                old(self).poll_count_spec() as int
            },
    {
        self.poll_count = self.poll_count.saturating_add(1);
        if self.poll_count % ANNOUNCE_INTERVAL == 0 {
            self.send_furuno_announce(io);
        }
        let mut discoveries: Vec<RadarDiscovery> = Vec::new();
        let mut reports: Vec<(String, Option<String>, Option<String>)> = Vec::new();
        Self::poll_socket(self.furuno_socket, LocatorSocket::Furuno, io, decode, &mut discoveries, &mut reports);
        Self::poll_socket(self.navico_br24_socket, LocatorSocket::NavicoBr24, io, decode, &mut discoveries, &mut reports);
        Self::poll_socket(self.navico_gen3_socket, LocatorSocket::NavicoGen3, io, decode, &mut discoveries, &mut reports);
        Self::poll_socket(self.raymarine_socket, LocatorSocket::Raymarine, io, decode, &mut discoveries, &mut reports);
        Self::poll_socket(self.garmin_socket, LocatorSocket::Garmin, io, decode, &mut discoveries, &mut reports);
        let mut i: usize = 0;
        while i < reports.len()
            invariant
                self.wf(),
                i <= reports@.len(),
                self.current_time_ms == old(self).current_time_ms,
                self.radars@.len() == old(self).radars@.len(),
                forall|k: int| 0 <= k < old(self).radars@.len() ==> {
                    &&& (#[trigger] self.radars@[k]).id@ == old(self).radars@[k].id@
                    &&& same_core(self.radars@[k].discovery, old(self).radars@[k].discovery)
                    &&& self.radars@[k].last_seen_ms == old(self).radars@[k].last_seen_ms
                },
                self.poll_count == if old(self).poll_count < u64::MAX { old(self).poll_count + 1 } else { old(self).poll_count as int },
            decreases reports@.len() - i,
        {
            let (addr, model, serial) = &reports[i];
            self.update_radar_model_info(addr.as_str(), model, serial);
            i = i + 1;
        }
        let mut new_radars: Vec<RadarDiscovery> = Vec::new();
        let mut k: usize = 0;
        while k < discoveries.len()
            invariant
                self.wf(),
                k <= discoveries@.len(),
                self.current_time_ms == old(self).current_time_ms,
                self.radars@.len() == old(self).radars@.len() + new_radars@.len(),
                forall|q: int| 0 <= q < old(self).radars@.len() ==> {
                    &&& (#[trigger] self.radars@[q]).id@ == old(self).radars@[q].id@
                    &&& same_core(self.radars@[q].discovery, old(self).radars@[q].discovery)
                    &&& (self.radars@[q].last_seen_ms == old(self).radars@[q].last_seen_ms
                        || self.radars@[q].last_seen_ms == old(self).current_time_ms)
                },
                forall|q: int| 0 <= q < new_radars@.len() ==> {
                    &&& (#[trigger] self.radars@[old(self).radars@.len() + q]).id@ == radar_id(new_radars@[q])
                    &&& same_discovery(self.radars@[old(self).radars@.len() + q].discovery, new_radars@[q])
                    &&& self.radars@[old(self).radars@.len() + q].last_seen_ms == old(self).current_time_ms
                },
                self.poll_count == if old(self).poll_count < u64::MAX { old(self).poll_count + 1 } else { old(self).poll_count as int },
            decreases discoveries@.len() - k,
        {
            let ghost before = self.radars@;
            if self.add_radar(&discoveries[k]) {
                let d = clone_discovery(&discoveries[k]);
                new_radars.push(d);
                assert forall|q: int| 0 <= q < new_radars@.len() implies {
                    &&& (#[trigger] self.radars@[old(self).radars@.len() + q]).id@ == radar_id(new_radars@[q])
                    &&& same_discovery(self.radars@[old(self).radars@.len() + q].discovery, new_radars@[q])
                    &&& self.radars@[old(self).radars@.len() + q].last_seen_ms == old(self).current_time_ms
                } by {
                    if q < new_radars@.len() - 1 {
                        assert(self.radars@[old(self).radars@.len() + q] == before[old(self).radars@.len() + q]);
                    }
                }
            }
            k = k + 1;
        }
        proof {
            let n = old(self).radars@.len() as int;
            assert(unique_ids(self.radars@));
            assert forall|q1: int, q2: int| 0 <= q1 < q2 < new_radars@.len() implies radar_id(#[trigger] new_radars@[q1])
                != radar_id(#[trigger] new_radars@[q2]) by {
                assert(self.radars@[n + q1].id@ != self.radars@[n + q2].id@);
            }
            assert forall|q: int, i: int| 0 <= q < new_radars@.len() && 0 <= i < n implies (#[trigger] old(self).radars@[i]).id@
                != radar_id(#[trigger] new_radars@[q]) by {
                assert(self.radars@[i].id@ != self.radars@[n + q].id@);
            }
        }
        new_radars
    }

    /// Sets the model and serial number (those given) of the first radar
    /// whose address has the IP of `source_addr`; every other radar is
    /// unchanged. A report for an unknown address changes nothing.
    fn update_radar_model_info(&mut self, source_addr: &str, model: &Option<String>, serial: &Option<String>)
        requires
            old(self).wf(),
        ensures
            final(self).wf(),
            final(self).radars@.len() == old(self).radars@.len(),
            final(self).poll_count == old(self).poll_count,
            final(self).current_time_ms == old(self).current_time_ms,
            match first_with_ip(old(self).radars@, ip_part(source_addr@), 0) {
                Some(k) => {
                    &&& final(self).radars@[k].id@ == old(self).radars@[k].id@
                    &&& final(self).radars@[k].last_seen_ms == old(self).radars@[k].last_seen_ms
                    &&& same_core(final(self).radars@[k].discovery, old(self).radars@[k].discovery)
                    &&& opt_text(final(self).radars@[k].discovery.model) == (if model is Some {
                        opt_text(*model)
                    } else {
                        opt_text(old(self).radars@[k].discovery.model)
                    })
                    &&& opt_text(final(self).radars@[k].discovery.serial_number) == (if serial is Some {
                        opt_text(*serial)
                    } else {
                        opt_text(old(self).radars@[k].discovery.serial_number)
                    })
                    &&& forall|j: int| 0 <= j < old(self).radars@.len() && j != k ==> #[trigger] final(self).radars@[j] == old(self).radars@[j]
                },
                None => final(self).radars@ == old(self).radars@,
            },
    {
        let source_ip = ip_of(source_addr);
        let mut i: usize = 0;
        while i < self.radars.len()
            invariant
                self == old(self),
                self.wf(),
                unique_ids(self.radars@),
                i <= self.radars@.len(),
                source_ip@ == ip_part(source_addr@),
                first_with_ip(self.radars@, source_ip@, 0) == first_with_ip(self.radars@, source_ip@, i as int),
            decreases self.radars@.len() - i,
        {
            let radar_ip = ip_of(self.radars[i].discovery.address.as_str());
            if same_chars(&radar_ip, &source_ip) {
                let mut entry = DiscoveredRadar {
                    id: clone_text(&self.radars[i].id),
                    discovery: clone_discovery(&self.radars[i].discovery),
                    last_seen_ms: self.radars[i].last_seen_ms,
                };
                if let Some(m) = model {
                    entry.discovery.model = Some(clone_text(m));
                }
                if let Some(sn) = serial {
                    entry.discovery.serial_number = Some(clone_text(sn));
                }
                let ghost before = self.radars@;
                assert(unique_ids(before));
                self.radars.set(i, entry);
                assert forall|a: int, b: int| 0 <= a < b < self.radars@.len() implies self.radars@[a].id@ != self.radars@[b].id@ by {
                    assert(before[a].id@ != before[b].id@);
                }
                return;
            }
            i = i + 1;
        }
    }

    /// Records a beacon. A radar already known (same `brand-name` id) gets
    /// its last-seen time set to the current time and keeps its discovery;
    /// a new one is appended with the current time. Returns whether the radar
    /// is new.
    pub fn add_radar(&mut self, discovery: &RadarDiscovery) -> (is_new: bool)
        requires
            old(self).wf(),
        ensures
            final(self).wf(),
            is_new == (index_of_id(old(self).radars_spec(), radar_id(*discovery)) is None),
            final(self).time_spec() == old(self).time_spec(),
            final(self).poll_count_spec() == old(self).poll_count_spec(),
            is_new ==> {
                let n = old(self).radars_spec().len() as int;
                &&& final(self).radars_spec().len() == n + 1
                &&& forall|j: int| 0 <= j < n ==> #[trigger] final(self).radars_spec()[j] == old(self).radars_spec()[j]
                &&& final(self).radars_spec()[n].id@ == radar_id(*discovery)
                &&& same_discovery(final(self).radars_spec()[n].discovery, *discovery)
                &&& final(self).radars_spec()[n].last_seen_ms == old(self).time_spec()
            },
            !is_new ==> {
                let k = index_of_id(old(self).radars_spec(), radar_id(*discovery))->Some_0;
                &&& final(self).radars_spec().len() == old(self).radars_spec().len()
                &&& final(self).radars_spec()[k].id@ == old(self).radars_spec()[k].id@
                &&& same_discovery(final(self).radars_spec()[k].discovery, old(self).radars_spec()[k].discovery)
                &&& final(self).radars_spec()[k].last_seen_ms == old(self).time_spec()
                &&& forall|j: int| 0 <= j < old(self).radars_spec().len() && j != k ==> #[trigger] final(self).radars_spec()[j]
                    == old(self).radars_spec()[j]
            },
    {
        let id = make_radar_id(discovery);
        let id_chars = chars_of(id.as_str());
        let mut i: usize = 0;
        while i < self.radars.len()
            invariant
                self == old(self),
                self.wf(),
                unique_ids(self.radars@),
                i <= self.radars@.len(),
                id_chars@ == radar_id(*discovery),
                forall|j: int| 0 <= j < i ==> (#[trigger] self.radars@[j]).id@ != radar_id(*discovery),
            decreases self.radars@.len() - i,
        {
            let existing = chars_of(self.radars[i].id.as_str());
            if same_chars(&existing, &id_chars) {
                let entry = DiscoveredRadar {
                    id: clone_text(&self.radars[i].id),
                    discovery: clone_discovery(&self.radars[i].discovery),
                    last_seen_ms: self.current_time_ms,
                };
                let ghost before = self.radars@;
                assert(unique_ids(before));
                assert(before[i as int].id@ == radar_id(*discovery));
                proof {
                    let k = index_of_id(before, radar_id(*discovery))->Some_0;
                    assert(before[k].id@ == radar_id(*discovery));
                    if k != i {
                        if k < i {
                            assert(before[k].id@ != before[i as int].id@);
                        } else {
                            assert(before[i as int].id@ != before[k].id@);
                        }
                    }
                }
                self.radars.set(i, entry);
                assert forall|a: int, b: int| 0 <= a < b < self.radars@.len() implies self.radars@[a].id@ != self.radars@[b].id@ by {
                    assert(before[a].id@ != before[b].id@);
                }
                return false;
            }
            i = i + 1;
        }
        assert(index_of_id(old(self).radars@, radar_id(*discovery)) is None);
        let entry = DiscoveredRadar {
            id,
            discovery: clone_discovery(discovery),
            last_seen_ms: self.current_time_ms,
        };
        self.radars.push(entry);
        true
    }

    /// Closes every beacon socket.
    pub fn shutdown<I: IoProvider>(&mut self, io: &mut I)
        ensures
            final(self).no_sockets(),
            final(self).radars_spec() == old(self).radars_spec(),
            final(self).wf() == old(self).wf(),
    {
        if let Some(s) = self.furuno_socket.take() {
            io.udp_close(s);
        }
        if let Some(s) = self.navico_br24_socket.take() {
            io.udp_close(s);
        }
        if let Some(s) = self.navico_gen3_socket.take() {
            io.udp_close(s);
        }
        if let Some(s) = self.raymarine_socket.take() {
            io.udp_close(s);
        }
        if let Some(s) = self.garmin_socket.take() {
            io.udp_close(s);
        }
    }
}

/// A name reduced to ASCII letters, digits, `-` and `_` (safe in ids and paths).
pub open spec fn sanitized(s: Seq<char>) -> Seq<char>
    decreases s.len(),
{
    if s.len() == 0 {
        s
    } else {
        let rest = sanitized(s.drop_last());
        let c = s.last();
        if keeps(c) { rest.push(c) } else { rest }
    }
}

pub open spec fn keeps(c: char) -> bool {
    let u = c as u32;
    (0x30 <= u && u <= 0x39) || (0x41 <= u && u <= 0x5a) || (0x61 <= u && u <= 0x7a) || c == '-' || c == '_'
}

/// Drops every character that is not an ASCII letter or digit, `-` or `_`.
pub fn sanitize_string(s: &str) -> (r: String)
    ensures
        r@ == sanitized(s@),
{
    let v = chars_of(s);
    let mut out = String::new();
    let mut i: usize = 0;
    while i < v.len()
        invariant
            i <= v@.len(),
            v@ == s@,
            out@ == sanitized(v@.subrange(0, i as int)),
        decreases v@.len() - i,
    {
        let c = v[i];
        let u = c as u32;
        let ghost pre = v@.subrange(0, i as int);
        assert(v@.subrange(0, i + 1).drop_last() =~= pre);
        if (0x30 <= u && u <= 0x39) || (0x41 <= u && u <= 0x5a) || (0x61 <= u && u <= 0x7a) || c == '-' || c == '_' {
            crate::text::push_char(&mut out, c);
        }
        i = i + 1;
    }
    assert(v@.subrange(0, v@.len() as int) =~= v@);
    out
}

} // verus!
