//! Per-client sessions and the connectivity state machine.
//!
//! One session exists per distinct client address for the life of the
//! process; sessions are never removed, only reclassified. Two
//! timestamps drive the classification on every tick: the last time any
//! request arrived, and the last time download traffic was seen. All
//! times are taken as milliseconds on a caller-supplied clock; a clock
//! reading older than a stored timestamp counts as zero elapsed time.
//!
//! Counters saturate at their type's maximum instead of wrapping.

use vstd::prelude::*;
use crate::net::IpAddress;

verus! {

/// How recently download traffic must have been seen for a session to
/// count as `Downloading`, in milliseconds.
pub const DOWNLOADING_WINDOW_MS: u64 = 2000;

/// How recently any request must have been seen for a session to count
/// as `Connected`, in milliseconds.
pub const CONNECTED_WINDOW_MS: u64 = 4000;

/// The assumed size of one streamed chunk, in bytes; progress events
/// carry chunk counts and are converted with this estimate.
pub const CHUNK_SIZE_ESTIMATE: usize = 4096;

/// How far in the past a fresh session's last-download time is placed,
/// so that a new session starts out `Connected`, not `Downloading`.
pub const FRESH_DOWNLOAD_BACKDATE_MS: u64 = 10000;

/// A session's derived connectivity state.
#[derive(Clone, Copy, Debug, PartialEq, Eq, Structural)]
pub enum ClientState {
    Connected,
    Downloading,
    Disconnected,
}

/// Everything tracked about one client address.
#[derive(Clone, Copy, Debug, PartialEq, Eq, Structural)]
pub struct ClientInfo {
    /// Insertion ordinal; equals the session's position in the table.
    pub index: usize,
    /// Completed downloads.
    pub download_count: usize,
    /// Lifetime bytes attributed to this client.
    pub download_size: usize,
    /// Last time any request from this client was seen (ms).
    pub last_connection: u64,
    /// Last time download traffic from this client was seen (ms).
    pub last_download: u64,
    /// Transfer size carried over from an interrupted `Downloading` spell.
    pub canceled_download_size: usize,
    /// Transfer progress carried over from an interrupted spell.
    pub canceled_download_progress: usize,
    /// Bytes received since the last tick.
    pub received_data: usize,
    /// Bytes received during the previous whole tick.
    pub speed: usize,
    /// Largest `speed` seen so far.
    pub max_speed: usize,
    /// Total size of the transfers currently underway.
    pub current_downloads_size: usize,
    /// Derived connectivity state.
    pub state: ClientState,
    /// Progress of the transfers currently underway.
    pub current_download_progress: usize,
}

/// `a * CHUNK_SIZE_ESTIMATE`, saturating at `usize::MAX`.
pub open spec fn chunk_bytes_spec(num_packets: usize) -> usize {
    if num_packets * CHUNK_SIZE_ESTIMATE > usize::MAX {
        usize::MAX
    } else {
        (num_packets * CHUNK_SIZE_ESTIMATE) as usize
    }
}

fn chunk_bytes(num_packets: usize) -> (r: usize)
    ensures
        r == chunk_bytes_spec(num_packets),
{
    match num_packets.checked_mul(CHUNK_SIZE_ESTIMATE) {
        Some(v) => v,
        None => usize::MAX,
    }
}

/// The state a session with the given timestamps is classified into at
/// time `now`: `Downloading` while download traffic is fresh, else
/// `Connected` while any request is fresh, else `Disconnected`.
pub open spec fn classify_spec(last_download: u64, last_connection: u64, now: u64) -> ClientState {
    if now.saturating_sub(last_download) < DOWNLOADING_WINDOW_MS {
        ClientState::Downloading
    } else if now.saturating_sub(last_connection) < CONNECTED_WINDOW_MS {
        ClientState::Connected
    } else {
        ClientState::Disconnected
    }
}

/// The session created on first sight of an address: `Connected`, all
/// counters zero, the last-download time backdated.
pub open spec fn fresh_client_spec(idx: usize, now: u64) -> ClientInfo {
    ClientInfo {
        index: idx,
        download_count: 0,
        download_size: 0,
        last_connection: now,
        last_download: now.saturating_sub(FRESH_DOWNLOAD_BACKDATE_MS),
        canceled_download_size: 0,
        canceled_download_progress: 0,
        received_data: 0,
        speed: 0,
        max_speed: 0,
        current_downloads_size: 0,
        state: ClientState::Connected,
        current_download_progress: 0,
    }
}

/// One tick applied to a single session: the per-tick byte counter
/// becomes the speed, the state is reclassified, and on leaving
/// `Downloading` the active transfer is moved into the carried-over
/// fields rather than discarded.
pub open spec fn tick_client_spec(c: ClientInfo, now: u64) -> ClientInfo {
    let speed = c.received_data;
    let max_speed = if speed > c.max_speed {
        speed
    } else {
        c.max_speed
    };
    let st = classify_spec(c.last_download, c.last_connection, now);
    let c1 = ClientInfo { speed, received_data: 0, max_speed, state: st, ..c };
    if st != ClientState::Downloading {
        ClientInfo {
            canceled_download_size: c1.current_downloads_size,
            canceled_download_progress: c1.current_download_progress,
            current_downloads_size: 0,
            current_download_progress: 0,
            ..c1
        }
    } else {
        c1
    }
}

/// A download request for `file_size` bytes attributed to a session:
/// both timestamps are touched and the state is forced to `Downloading`.
pub open spec fn request_client_spec(c: ClientInfo, file_size: usize, now: u64) -> ClientInfo {
    ClientInfo {
        current_downloads_size: c.current_downloads_size.saturating_add(file_size),
        last_connection: now,
        last_download: now,
        state: ClientState::Downloading,
        ..c
    }
}

/// A finished download attributed to a session.
pub open spec fn done_client_spec(c: ClientInfo, now: u64) -> ClientInfo {
    ClientInfo { download_count: c.download_count.saturating_add(1), last_connection: now, ..c }
}

/// Streamed progress of `num_packets` chunks attributed to a session.
/// A session not currently `Downloading` first restores the
/// carried-over transfer, so a resumed transfer continues from its
/// preserved progress instead of zero.
pub open spec fn progress_client_spec(c: ClientInfo, num_packets: usize, now: u64) -> ClientInfo {
    let c0 = if c.state != ClientState::Downloading {
        ClientInfo {
            current_downloads_size: c.canceled_download_size,
            canceled_download_size: 0,
            current_download_progress: c.canceled_download_progress,
            canceled_download_progress: 0,
            ..c
        }
    } else {
        c
    };
    let bytes = chunk_bytes_spec(num_packets);
    let new_download_size = c0.download_size.saturating_add(bytes);
    ClientInfo {
        last_connection: now,
        last_download: now,
        received_data: c0.received_data.saturating_add(bytes),
        download_size: new_download_size,
        current_download_progress: c0.current_download_progress.saturating_add(bytes),
        state: if c0.current_downloads_size == new_download_size {
            ClientState::Connected
        } else {
            ClientState::Downloading
        },
        ..c0
    }
}

/// No two sessions share an address.
pub open spec fn distinct_ips(s: Seq<(IpAddress, ClientInfo)>) -> bool {
    forall|i: int, j: int| 0 <= i < j < s.len() ==> s[i].0 != s[j].0
}

/// Some session in `s` has address `ip`.
pub open spec fn has_ip(s: Seq<(IpAddress, ClientInfo)>, ip: IpAddress) -> bool {
    exists|i: int| 0 <= i < s.len() && s[i].0 == ip
}

/// The position of the session with address `ip` (meaningful when
/// `has_ip(s, ip)` and the addresses are distinct).
pub open spec fn ip_index(s: Seq<(IpAddress, ClientInfo)>, ip: IpAddress) -> int {
    choose|i: int| 0 <= i < s.len() && s[i].0 == ip
}

/// With distinct addresses, any position holding `ip` is the position.
pub proof fn lemma_ip_index_unique(s: Seq<(IpAddress, ClientInfo)>, ip: IpAddress, i: int)
    requires
        distinct_ips(s),
        0 <= i < s.len(),
        s[i].0 == ip,
    ensures
        ip_index(s, ip) == i,
        has_ip(s, ip),
{
    assert(has_ip(s, ip));
    let k = ip_index(s, ip);
    if k < i {
        assert(s[k].0 != s[i].0);
    } else if k > i {
        assert(s[i].0 != s[k].0);
    }
}

/// The session table after a connection from `ip`: an existing session
/// has its last-connection time touched, a new address is appended.
pub open spec fn add_connection_seq(
    s: Seq<(IpAddress, ClientInfo)>,
    ip: IpAddress,
    now: u64,
) -> Seq<(IpAddress, ClientInfo)> {
    if has_ip(s, ip) {
        let i = ip_index(s, ip);
        s.update(i, (ip, ClientInfo { last_connection: now, ..s[i].1 }))
    } else {
        s.push((ip, fresh_client_spec(s.len() as usize, now)))
    }
}

/// The session table after a download request from `ip`; an unknown
/// address is ignored.
pub open spec fn add_download_seq(
    s: Seq<(IpAddress, ClientInfo)>,
    ip: IpAddress,
    file_size: usize,
    now: u64,
) -> Seq<(IpAddress, ClientInfo)> {
    if has_ip(s, ip) {
        let i = ip_index(s, ip);
        s.update(i, (ip, request_client_spec(s[i].1, file_size, now)))
    } else {
        s
    }
}

/// The session table after a finished download from `ip`.
pub open spec fn download_done_seq(
    s: Seq<(IpAddress, ClientInfo)>,
    ip: IpAddress,
    now: u64,
) -> Seq<(IpAddress, ClientInfo)> {
    if has_ip(s, ip) {
        let i = ip_index(s, ip);
        s.update(i, (ip, done_client_spec(s[i].1, now)))
    } else {
        s
    }
}

/// The session table after streamed progress from `ip`.
pub open spec fn download_progress_seq(
    s: Seq<(IpAddress, ClientInfo)>,
    ip: IpAddress,
    num_packets: usize,
    now: u64,
) -> Seq<(IpAddress, ClientInfo)> {
    if has_ip(s, ip) {
        let i = ip_index(s, ip);
        s.update(i, (ip, progress_client_spec(s[i].1, num_packets, now)))
    } else {
        s
    }
}

/// The session table after one tick: every session ticked, addresses
/// and order unchanged.
pub open spec fn tick_seq(s: Seq<(IpAddress, ClientInfo)>, now: u64) -> Seq<
    (IpAddress, ClientInfo),
> {
    Seq::new(s.len(), |i: int| (s[i].0, tick_client_spec(s[i].1, now)))
}

/// How many sessions in `s` are in state `st`.
pub open spec fn count_in_state(s: Seq<(IpAddress, ClientInfo)>, st: ClientState) -> nat
    decreases s.len(),
{
    if s.len() == 0 {
        0
    } else {
        count_in_state(s.drop_last(), st) + if s.last().1.state == st {
            1nat
        } else {
            0nat
        }
    }
}

/// The sum of the sessions' speeds, saturating at `usize::MAX`.
pub open spec fn speed_sum(s: Seq<(IpAddress, ClientInfo)>) -> usize
    decreases s.len(),
{
    if s.len() == 0 {
        0usize
    } else {
        speed_sum(s.drop_last()).saturating_add(s.last().1.speed)
    }
}

proof fn lemma_count_push(s: Seq<(IpAddress, ClientInfo)>, e: (IpAddress, ClientInfo), st: ClientState)
    ensures
        count_in_state(s.push(e), st) == count_in_state(s, st) + if e.1.state == st {
            1nat
        } else {
            0nat
        },
{
    assert(s.push(e).drop_last() =~= s);
    assert(s.push(e).last() == e);
}

proof fn lemma_speed_push(s: Seq<(IpAddress, ClientInfo)>, e: (IpAddress, ClientInfo))
    ensures
        speed_sum(s.push(e)) == speed_sum(s).saturating_add(e.1.speed),
{
    assert(s.push(e).drop_last() =~= s);
    assert(s.push(e).last() == e);
}

/// The classification windows: a session with download traffic fresher
/// than the downloading window is `Downloading`; one whose download
/// traffic is older but whose last request is fresher than the
/// connected window is `Connected`; one quiet beyond both windows is
/// `Disconnected`.
pub proof fn lemma_classification_windows(last_download: u64, last_connection: u64, now: u64)
    ensures
        now.saturating_sub(last_download) < DOWNLOADING_WINDOW_MS ==> classify_spec(
            last_download,
            last_connection,
            now,
        ) == ClientState::Downloading,
        now.saturating_sub(last_download) >= DOWNLOADING_WINDOW_MS && now.saturating_sub(
            last_connection,
        ) < CONNECTED_WINDOW_MS ==> classify_spec(last_download, last_connection, now)
            == ClientState::Connected,
        now.saturating_sub(last_download) >= DOWNLOADING_WINDOW_MS && now.saturating_sub(
            last_connection,
        ) >= CONNECTED_WINDOW_MS ==> classify_spec(last_download, last_connection, now)
            == ClientState::Disconnected,
{
}

/// Leaving `Downloading` preserves the active transfer: the tick that
/// reclassifies a session moves its transfer size and progress into
/// the carried-over fields rather than discarding them, and streamed
/// progress arriving afterwards restores them, continuing from the
/// preserved progress instead of zero.
pub proof fn lemma_carried_over_progress(
    c: ClientInfo,
    now_tick: u64,
    num_packets: usize,
    now_progress: u64,
)
    requires
        classify_spec(c.last_download, c.last_connection, now_tick) != ClientState::Downloading,
    ensures
        tick_client_spec(c, now_tick).canceled_download_progress == c.current_download_progress,
        tick_client_spec(c, now_tick).canceled_download_size == c.current_downloads_size,
        tick_client_spec(c, now_tick).current_download_progress == 0,
        tick_client_spec(c, now_tick).current_downloads_size == 0,
        progress_client_spec(
            tick_client_spec(c, now_tick),
            num_packets,
            now_progress,
        ).current_download_progress == c.current_download_progress.saturating_add(
            chunk_bytes_spec(num_packets),
        ),
        progress_client_spec(
            tick_client_spec(c, now_tick),
            num_packets,
            now_progress,
        ).current_downloads_size == c.current_downloads_size,
{
}

/// The session table and the process-wide aggregates.
pub struct ClientManager {
    /// Sessions in insertion order; a session's `index` is its position.
    pub clients: Vec<(IpAddress, ClientInfo)>,
    /// Sum of the sessions' speeds as of the last tick.
    pub throughput: usize,
    /// Sessions classified `Connected` or `Downloading` at the last tick.
    pub active_connections: usize,
    /// Sessions classified `Downloading` at the last tick.
    pub active_downloads: usize,
    /// Downloads finished over the life of the process.
    pub total_downloads: usize,
    /// Bytes streamed over the life of the process.
    pub transmitted_data: usize,
}

impl ClientManager {
    /// Addresses are distinct and each session records its position.
    pub open spec fn wf(&self) -> bool {
        distinct_ips(self.clients@) && (forall|i: int|
            0 <= i < self.clients@.len() ==> self.clients@[i].1.index == i)
    }

    pub fn new() -> (r: ClientManager)
        ensures
            r.wf(),
            r.clients@.len() == 0,
            r.throughput == 0,
            r.active_connections == 0,
            r.active_downloads == 0,
            r.total_downloads == 0,
            r.transmitted_data == 0,
    {
        ClientManager {
            clients: Vec::new(),
            throughput: 0,
            active_connections: 0,
            active_downloads: 0,
            total_downloads: 0,
            transmitted_data: 0,
        }
    }

    pub fn active_downloads(&self) -> (r: usize)
        ensures
            r == self.active_downloads,
    {
        self.active_downloads
    }

    pub fn active_connections(&self) -> (r: usize)
        ensures
            r == self.active_connections,
    {
        self.active_connections
    }

    pub fn total_downloads(&self) -> (r: usize)
        ensures
            r == self.total_downloads,
    {
        self.total_downloads
    }

    pub fn num_clients(&self) -> (r: usize)
        ensures
            r == self.clients@.len(),
    {
        self.clients.len()
    }

    pub fn throughput(&self) -> (r: usize)
        ensures
            r == self.throughput,
    {
        self.throughput
    }

    pub fn transmitted_data(&self) -> (r: usize)
        ensures
            r == self.transmitted_data,
    {
        self.transmitted_data
    }

    /// The sessions newest first, for stable display.
    pub fn sorted_clients(&self) -> (r: Vec<(IpAddress, ClientInfo)>)
        ensures
            r@ == self.clients@.reverse(),
    {
        let mut r: Vec<(IpAddress, ClientInfo)> = Vec::new();
        let n = self.clients.len();
        let mut i: usize = 0;
        while i < n
            invariant
                n == self.clients@.len(),
                i <= n,
                r@.len() == i,
                forall|j: int| 0 <= j < i ==> r@[j] == self.clients@[n - 1 - j],
            decreases n - i,
        {
            r.push(self.clients[n - 1 - i]);
            i += 1;
        }
        assert(r@ =~= self.clients@.reverse());
        r
    }

    fn find_ip(&self, ip: IpAddress) -> (r: Option<usize>)
        ensures
            match r {
                Some(i) => i < self.clients@.len() && self.clients@[i as int].0 == ip,
                None => !has_ip(self.clients@, ip),
            },
    {
        let mut i: usize = 0;
        while i < self.clients.len()
            invariant
                i <= self.clients@.len(),
                forall|j: int| 0 <= j < i ==> self.clients@[j].0 != ip,
            decreases self.clients@.len() - i,
        {
            if self.clients[i].0 == ip {
                return Some(i);
            }
            i += 1;
        }
        None
    }

    /// Records a request from `ip`: touches the session's last-connection
    /// time, creating the session on first sight. Aggregates unchanged.
    pub fn add_connection(&mut self, ip: IpAddress, now: u64)
        requires
            old(self).wf(),
        ensures
            final(self).wf(),
            final(self).clients@ == add_connection_seq(old(self).clients@, ip, now),
            final(self).throughput == old(self).throughput,
            final(self).active_connections == old(self).active_connections,
            final(self).active_downloads == old(self).active_downloads,
            final(self).total_downloads == old(self).total_downloads,
            final(self).transmitted_data == old(self).transmitted_data,
    {
        match self.find_ip(ip) {
            Some(i) => {
                proof {
                    lemma_ip_index_unique(self.clients@, ip, i as int);
                }
                let c = self.clients[i].1;
                self.clients[i] = (ip, ClientInfo { last_connection: now, ..c });
            },
            None => {
                let idx = self.clients.len();
                self.clients.push((ip, ClientInfo {
                    index: idx,
                    download_count: 0,
                    download_size: 0,
                    last_connection: now,
                    last_download: now.saturating_sub(FRESH_DOWNLOAD_BACKDATE_MS),
                    canceled_download_size: 0,
                    canceled_download_progress: 0,
                    received_data: 0,
                    speed: 0,
                    max_speed: 0,
                    current_downloads_size: 0,
                    state: ClientState::Connected,
                    current_download_progress: 0,
                }));
            },
        }
    }

    /// Records a download request of `file_size` bytes from `ip` and
    /// forces the session into `Downloading`. Shows one active download
    /// at once when none was counted yet, so the display reacts before
    /// the next tick.
    pub fn add_download(&mut self, ip: IpAddress, file_size: usize, now: u64)
        requires
            old(self).wf(),
        ensures
            final(self).wf(),
            final(self).clients@ == add_download_seq(old(self).clients@, ip, file_size, now),
            final(self).active_downloads == if old(self).active_downloads == 0 {
                1usize
            } else {
                old(self).active_downloads
            },
            final(self).throughput == old(self).throughput,
            final(self).active_connections == old(self).active_connections,
            final(self).total_downloads == old(self).total_downloads,
            final(self).transmitted_data == old(self).transmitted_data,
    {
        match self.find_ip(ip) {
            Some(i) => {
                proof {
                    lemma_ip_index_unique(self.clients@, ip, i as int);
                }
                let c = self.clients[i].1;
                self.clients[i] = (ip, ClientInfo {
                    current_downloads_size: c.current_downloads_size.saturating_add(file_size),
                    last_connection: now,
                    last_download: now,
                    state: ClientState::Downloading,
                    ..c
                });
            },
            None => {},
        }
        if self.active_downloads == 0 {
            self.active_downloads = 1;
        }
    }

    /// Records a finished download from `ip` and counts it in the
    /// process-wide total (also when the address is unknown).
    pub fn download_done(&mut self, ip: IpAddress, now: u64)
        requires
            old(self).wf(),
        ensures
            final(self).wf(),
            final(self).clients@ == download_done_seq(old(self).clients@, ip, now),
            final(self).total_downloads == old(self).total_downloads.saturating_add(1),
            final(self).throughput == old(self).throughput,
            final(self).active_connections == old(self).active_connections,
            final(self).active_downloads == old(self).active_downloads,
            final(self).transmitted_data == old(self).transmitted_data,
    {
        match self.find_ip(ip) {
            Some(i) => {
                proof {
                    lemma_ip_index_unique(self.clients@, ip, i as int);
                }
                let c = self.clients[i].1;
                self.clients[i] = (ip, ClientInfo {
                    download_count: c.download_count.saturating_add(1),
                    last_connection: now,
                    ..c
                });
            },
            None => {},
        }
        self.total_downloads = self.total_downloads.saturating_add(1);
    }

    /// Records streamed progress of `num_packets` chunks from `ip` and
    /// counts the estimated bytes in the process-wide total (also when
    /// the address is unknown).
    pub fn download_progress(&mut self, ip: IpAddress, num_packets: usize, now: u64)
        requires
            old(self).wf(),
        ensures
            final(self).wf(),
            final(self).clients@ == download_progress_seq(
                old(self).clients@,
                ip,
                num_packets,
                now,
            ),
            final(self).transmitted_data == old(self).transmitted_data.saturating_add(
                chunk_bytes_spec(num_packets),
            ),
            final(self).throughput == old(self).throughput,
            final(self).active_connections == old(self).active_connections,
            final(self).active_downloads == old(self).active_downloads,
            final(self).total_downloads == old(self).total_downloads,
    {
        let bytes = chunk_bytes(num_packets);
        match self.find_ip(ip) {
            Some(i) => {
                proof {
                    lemma_ip_index_unique(self.clients@, ip, i as int);
                }
                let c = self.clients[i].1;
                let c0 = if c.state != ClientState::Downloading {
                    ClientInfo {
                        current_downloads_size: c.canceled_download_size,
                        canceled_download_size: 0,
                        current_download_progress: c.canceled_download_progress,
                        canceled_download_progress: 0,
                        ..c
                    }
                } else {
                    c
                };
                let new_download_size = c0.download_size.saturating_add(bytes);
                self.clients[i] = (ip, ClientInfo {
                    last_connection: now,
                    last_download: now,
                    received_data: c0.received_data.saturating_add(bytes),
                    download_size: new_download_size,
                    current_download_progress: c0.current_download_progress.saturating_add(bytes),
                    state: if c0.current_downloads_size == new_download_size {
                        ClientState::Connected
                    } else {
                        ClientState::Downloading
                    },
                    ..c0
                });
            },
            None => {},
        }
        self.transmitted_data = self.transmitted_data.saturating_add(bytes);
    }

    /// One tick: every session's speed, state and carried-over transfer
    /// are recomputed, and the aggregates are rebuilt from the new
    /// states.
    pub fn update(&mut self, now: u64)
        requires
            old(self).wf(),
        ensures
            final(self).wf(),
            final(self).clients@ == tick_seq(old(self).clients@, now),
            final(self).throughput == speed_sum(final(self).clients@),
            final(self).active_downloads == count_in_state(
                final(self).clients@,
                ClientState::Downloading,
            ),
            final(self).active_connections == count_in_state(
                final(self).clients@,
                ClientState::Downloading,
            ) + count_in_state(final(self).clients@, ClientState::Connected),
            final(self).total_downloads == old(self).total_downloads,
            final(self).transmitted_data == old(self).transmitted_data,
    {
        let ghost orig = self.clients@;
        let mut updated: Vec<(IpAddress, ClientInfo)> = Vec::new();
        let mut throughput_acc: usize = 0;
        let mut downloading: usize = 0;
        let mut connected: usize = 0;
        let n = self.clients.len();
        let mut i: usize = 0;
        while i < n
            invariant
                n == orig.len(),
                self.clients@ == orig,
                i <= n,
                updated@.len() == i,
                forall|j: int|
                    0 <= j < i ==> updated@[j] == (orig[j].0, tick_client_spec(orig[j].1, now)),
                throughput_acc == speed_sum(updated@),
                downloading == count_in_state(updated@, ClientState::Downloading),
                connected == count_in_state(updated@, ClientState::Connected),
                downloading + connected <= i,
            decreases n - i,
        {
            let (ip, c) = self.clients[i];
            let speed = c.received_data;
            let max_speed = if speed > c.max_speed {
                speed
            } else {
                c.max_speed
            };
            let st = if now.saturating_sub(c.last_download) < DOWNLOADING_WINDOW_MS {
                ClientState::Downloading
            } else if now.saturating_sub(c.last_connection) < CONNECTED_WINDOW_MS {
                ClientState::Connected
            } else {
                ClientState::Disconnected
            };
            let c1 = ClientInfo { speed, received_data: 0, max_speed, state: st, ..c };
            let nc = if st != ClientState::Downloading {
                ClientInfo {
                    canceled_download_size: c1.current_downloads_size,
                    canceled_download_progress: c1.current_download_progress,
                    current_downloads_size: 0,
                    current_download_progress: 0,
                    ..c1
                }
            } else {
                c1
            };
            if st == ClientState::Downloading {
                downloading = downloading + 1;
            } else if st == ClientState::Connected {
                connected = connected + 1;
            }
            proof {
                lemma_count_push(updated@, (ip, nc), ClientState::Downloading);
                lemma_count_push(updated@, (ip, nc), ClientState::Connected);
                lemma_speed_push(updated@, (ip, nc));
                assert(nc == tick_client_spec(orig[i as int].1, now));
            }
            updated.push((ip, nc));
            throughput_acc = throughput_acc.saturating_add(nc.speed);
            i += 1;
        }
        assert(updated@ =~= tick_seq(orig, now));
        self.clients = updated;
        self.throughput = throughput_acc;
        self.active_connections = downloading + connected;
        self.active_downloads = downloading;
    }
}

} // verus!
