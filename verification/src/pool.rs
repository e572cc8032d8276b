//! The connection pool: a capacity-bounded idle-connection cache keyed by
//! remote address, with strictly oldest-first eviction and failure-driven
//! blacklisting.
//!
//! The pool itself is a state machine over plain values: connections are
//! opaque tokens handed in and out by the embedding program, which owns the
//! sockets, funnels every mutation through `handle_command` from one task,
//! performs the `Connect` decisions, and reports failed connects back as
//! `AddToBlacklist`.  Time enters as milliseconds supplied by the caller.
use vstd::prelude::*;

verus! {

/// A remote endpoint: a host address and a port, as plain values.
#[derive(Debug, Clone, Copy, PartialEq, Eq, Hash, Structural)]
pub struct RemoteAddr {
    /// The host address.
    pub ip: u32,

    /// The port.
    pub port: u16,
}

/// The key of one idle pool entry: its address and the sequence number it
/// was released under.
#[derive(Debug, Clone, Copy, PartialEq, Eq, Hash, Structural)]
pub struct ConnectionId {
    /// The remote address the connection belongs to.
    pub addr: RemoteAddr,

    /// The release sequence number; globally monotonic.
    pub seq_no: u64,
}

impl ConnectionId {
    /// Makes a new `ConnectionId` instance.
    pub fn new(addr: RemoteAddr, seq_no: u64) -> (r: ConnectionId)
        ensures
            r.addr == addr,
            r.seq_no == seq_no,
    {
        ConnectionId { addr, seq_no }
    }
}

/// One idle entry: its key and the opaque connection token.
#[derive(Debug, Clone, Copy, PartialEq, Eq, Structural)]
pub struct PoolEntry {
    /// The key of this entry.
    pub id: ConnectionId,

    /// The embedding program's token for the idle connection.
    pub connection: u64,
}

/// A command sent to the pool's owning task.
#[derive(Debug, Clone, Copy, PartialEq, Eq, Structural)]
pub enum Command {
    /// Acquire a connection for an address, at the given time.
    AcquireConnection {
        /// The remote address.
        addr: RemoteAddr,
        /// The current time in milliseconds.
        now_ms: u64,
    },
    /// Return an idle connection to the pool.
    ReleaseConnection {
        /// The remote address.
        addr: RemoteAddr,
        /// The token of the returned connection.
        connection: u64,
    },
    /// Record a failed fresh connect for an address, at the given time.
    AddToBlacklist {
        /// The remote address.
        addr: RemoteAddr,
        /// The current time in milliseconds.
        now_ms: u64,
    },
}

/// What an acquisition decides.
#[derive(Debug, Clone, Copy, PartialEq, Eq, Structural)]
pub enum AcquireDecision {
    /// A cached idle connection: use this token.
    Reuse {
        /// The token of the idle connection handed out.
        connection: u64,
    },
    /// No cached connection: attempt a fresh connect, bounded by this
    /// timeout; report a failure back as `AddToBlacklist`.
    Connect {
        /// The connect timeout in milliseconds.
        timeout_ms: u64,
    },
    /// The address is blacklisted: fail immediately, without connecting,
    /// carrying the suspension deadline.
    Suspended {
        /// The time the suspension lapses, in milliseconds.
        until_ms: u64,
    },
}

/// The mathematical state of a pool.
pub struct PoolModel {
    /// The idle entries, oldest first.
    pub entries: Seq<PoolEntry>,

    /// The next release sequence number.
    pub seq_no: int,

    /// The blacklist: address to suspended-until time.
    pub blacklist: Seq<(RemoteAddr, u64)>,

    /// The capacity bound on idle entries.
    pub pool_size: int,

    /// How long a failed address stays suspended, in milliseconds.
    pub suspended_duration: int,

    /// The fresh-connect timeout, in milliseconds.
    pub connect_timeout: int,
}

/// The first index of an entry for the address, or `-1`.
pub open spec fn entry_idx(entries: Seq<PoolEntry>, addr: RemoteAddr) -> int
    decreases entries.len(),
{
    if entries.len() == 0 {
        -1
    } else if entries[0].id.addr == addr {
        0
    } else {
        let r = entry_idx(entries.skip(1), addr);
        if r == -1 {
            -1
        } else {
            r + 1
        }
    }
}

/// The first index of a blacklist entry for the address, or `-1`.
pub open spec fn bl_idx(bl: Seq<(RemoteAddr, u64)>, addr: RemoteAddr) -> int
    decreases bl.len(),
{
    if bl.len() == 0 {
        -1
    } else if bl[0].0 == addr {
        0
    } else {
        let r = bl_idx(bl.skip(1), addr);
        if r == -1 {
            -1
        } else {
            r + 1
        }
    }
}

/// The suspended-until time of an address, if it is blacklisted.
pub open spec fn bl_lookup(bl: Seq<(RemoteAddr, u64)>, addr: RemoteAddr) -> Option<u64> {
    if bl_idx(bl, addr) >= 0 {
        Some(bl[bl_idx(bl, addr)].1)
    } else {
        None
    }
}

/// Addition capped at the largest representable time.
pub open spec fn sat_add_u64(a: int, b: int) -> int {
    if a + b > u64::MAX {
        u64::MAX as int
    } else {
        a + b
    }
}

impl PoolModel {
    /// Well-formedness: entries stand in strictly increasing release order,
    /// all below the next sequence number, and each address appears at most
    /// once in the blacklist.
    pub open spec fn wf(self) -> bool {
        &&& forall|i: int, j: int|
            0 <= i < j < self.entries.len() ==> #[trigger] self.entries[i].id.seq_no
                < #[trigger] self.entries[j].id.seq_no
        &&& forall|i: int|
            0 <= i < self.entries.len() ==> #[trigger] self.entries[i].id.seq_no < self.seq_no
        &&& forall|i: int, j: int|
            0 <= i < j < self.blacklist.len() ==> #[trigger] self.blacklist[i].0
                != #[trigger] self.blacklist[j].0
        &&& 0 <= self.seq_no <= u64::MAX
        &&& 0 <= self.pool_size
    }
}

/// What acquiring decides once the blacklist has been consulted: hand out
/// the oldest idle entry for the address, or connect afresh.
pub open spec fn spec_acquire_core(m: PoolModel, addr: RemoteAddr) -> (PoolModel, AcquireDecision) {
    let j = entry_idx(m.entries, addr);
    if j >= 0 {
        (
            PoolModel { entries: m.entries.remove(j), ..m },
            AcquireDecision::Reuse { connection: m.entries[j].connection },
        )
    } else {
        (m, AcquireDecision::Connect { timeout_ms: m.connect_timeout as u64 })
    }
}

/// How one command changes the pool, and what an acquisition replies.
pub open spec fn spec_handle(m: PoolModel, cmd: Command) -> (PoolModel, Option<AcquireDecision>) {
    match cmd {
        Command::AcquireConnection { addr, now_ms } => {
            match bl_lookup(m.blacklist, addr) {
                Some(until) => if until > now_ms {
                    (m, Some(AcquireDecision::Suspended { until_ms: until }))
                } else {
                    let m1 = PoolModel { blacklist: m.blacklist.remove(bl_idx(m.blacklist, addr)), ..m };
                    let (m2, d) = spec_acquire_core(m1, addr);
                    (m2, Some(d))
                },
                None => {
                    let (m2, d) = spec_acquire_core(m, addr);
                    (m2, Some(d))
                },
            }
        },
        Command::ReleaseConnection { addr, connection } => {
            let pushed = m.entries.push(
                PoolEntry { id: ConnectionId { addr, seq_no: m.seq_no as u64 }, connection },
            );
            let excess = if pushed.len() > m.pool_size {
                pushed.len() - m.pool_size
            } else {
                0
            };
            (
                PoolModel { entries: pushed.skip(excess), seq_no: m.seq_no + 1, ..m },
                None,
            )
        },
        Command::AddToBlacklist { addr, now_ms } => {
            let without = if bl_idx(m.blacklist, addr) >= 0 {
                m.blacklist.remove(bl_idx(m.blacklist, addr))
            } else {
                m.blacklist
            };
            (
                PoolModel {
                    blacklist: without.push(
                        (addr, sat_add_u64(now_ms as int, m.suspended_duration) as u64),
                    ),
                    ..m
                },
                None,
            )
        },
    }
}

/// The found index is in range, is a match, and is the first match.
pub proof fn lemma_entry_idx(entries: Seq<PoolEntry>, addr: RemoteAddr)
    ensures
        ({
            let j = entry_idx(entries, addr);
            &&& -1 <= j < entries.len()
            &&& j >= 0 ==> entries[j].id.addr == addr
            &&& forall|k: int| 0 <= k < entries.len() && entries[k].id.addr == addr ==> j >= 0 && j
                <= k
        }),
    decreases entries.len(),
{
    if entries.len() > 0 {
        lemma_entry_idx(entries.skip(1), addr);
        assert(forall|k: int| 1 <= k < entries.len() ==> entries.skip(1)[k - 1] == entries[k]);
    }
}

/// The found index is in range, is a match, and is the first match.
pub proof fn lemma_bl_idx(bl: Seq<(RemoteAddr, u64)>, addr: RemoteAddr)
    ensures
        ({
            let j = bl_idx(bl, addr);
            &&& -1 <= j < bl.len()
            &&& j >= 0 ==> bl[j].0 == addr
            &&& forall|k: int| 0 <= k < bl.len() && bl[k].0 == addr ==> j >= 0 && j <= k
        }),
    decreases bl.len(),
{
    if bl.len() > 0 {
        lemma_bl_idx(bl.skip(1), addr);
        assert(forall|k: int| 1 <= k < bl.len() ==> bl.skip(1)[k - 1] == bl[k]);
    }
}

proof fn lemma_bl_idx_none(bl: Seq<(RemoteAddr, u64)>, addr: RemoteAddr)
    requires
        forall|k: int| 0 <= k < bl.len() ==> (#[trigger] bl[k].0) != addr,
    ensures
        bl_idx(bl, addr) == -1,
{
    lemma_bl_idx(bl, addr);
    if bl_idx(bl, addr) >= 0 {
        assert(bl[bl_idx(bl, addr)].0 == addr);
    }
}

proof fn lemma_bl_idx_push_fresh(bl: Seq<(RemoteAddr, u64)>, p: (RemoteAddr, u64))
    requires
        bl_idx(bl, p.0) == -1,
    ensures
        bl_idx(bl.push(p), p.0) == bl.len(),
        bl_lookup(bl.push(p), p.0) == Some(p.1),
    decreases bl.len(),
{
    let bp = bl.push(p);
    lemma_bl_idx(bl, p.0);
    if bl.len() == 0 {
        assert(bp[0] == p);
        assert(bp.skip(1) =~= Seq::<(RemoteAddr, u64)>::empty());
    } else {
        assert(bp[0] == bl[0]);
        assert(bp.skip(1) =~= bl.skip(1).push(p));
        assert(bl_idx(bl, p.0) == (if bl[0].0 == p.0 {
            0int
        } else {
            let r = bl_idx(bl.skip(1), p.0);
            if r == -1 {
                -1int
            } else {
                r + 1
            }
        }));
        if bl[0].0 == p.0 {
            assert(bl_idx(bl, p.0) == 0);
        }
        lemma_bl_idx(bl.skip(1), p.0);
        assert(bl_idx(bl.skip(1), p.0) == -1);
        lemma_bl_idx_push_fresh(bl.skip(1), p);
        assert(bl_idx(bp, p.0) == (if bp[0].0 == p.0 {
            0int
        } else {
            let r = bl_idx(bp.skip(1), p.0);
            if r == -1 {
                -1int
            } else {
                r + 1
            }
        }));
        assert(bp[bl.len() as int] == p);
    }
}

proof fn lemma_bl_idx_push_other(bl: Seq<(RemoteAddr, u64)>, p: (RemoteAddr, u64), addr: RemoteAddr)
    requires
        p.0 != addr,
    ensures
        ({
            let j = bl_idx(bl, addr);
            &&& j >= 0 ==> bl_idx(bl.push(p), addr) == j
            &&& j == -1 ==> bl_idx(bl.push(p), addr) == -1
        }),
    decreases bl.len(),
{
    let bp = bl.push(p);
    lemma_bl_idx(bl, addr);
    lemma_bl_idx(bp, addr);
    if bl.len() == 0 {
        assert(bp[0] == p);
        assert(bp.skip(1) =~= Seq::<(RemoteAddr, u64)>::empty());
        assert(bl_idx(bp.skip(1), addr) == -1);
        assert(bl_idx(bp, addr) == -1);
    } else {
        assert(bp[0] == bl[0]);
        assert(bp.skip(1) =~= bl.skip(1).push(p));
        lemma_bl_idx(bl.skip(1), addr);
        lemma_bl_idx_push_other(bl.skip(1), p, addr);
        assert(bl_idx(bp, addr) == (if bp[0].0 == addr {
            0int
        } else {
            let r = bl_idx(bp.skip(1), addr);
            if r == -1 {
                -1int
            } else {
                r + 1
            }
        }));
        assert(bl_idx(bl, addr) == (if bl[0].0 == addr {
            0int
        } else {
            let r = bl_idx(bl.skip(1), addr);
            if r == -1 {
                -1int
            } else {
                r + 1
            }
        }));
    }
}

/// Invariant law: every command preserves the pool's well-formedness: the
/// idle entries stay in strictly increasing release order below the next
/// sequence number, and the blacklist keeps one entry per address.
pub proof fn lemma_handle_preserves_wf(m: PoolModel, cmd: Command)
    requires
        m.wf(),
        cmd matches Command::ReleaseConnection { .. } ==> m.seq_no < u64::MAX,
    ensures
        spec_handle(m, cmd).0.wf(),
{
    match cmd {
        Command::AcquireConnection { addr, now_ms } => {
            let jb = bl_idx(m.blacklist, addr);
            lemma_bl_idx(m.blacklist, addr);
            match bl_lookup(m.blacklist, addr) {
                Some(until) => {
                    if until > now_ms {
                    } else {
                        let bl1 = m.blacklist.remove(jb);
                        assert(forall|i: int, j: int|
                            0 <= i < j < bl1.len() ==> (#[trigger] bl1[i].0) != (
                            #[trigger] bl1[j].0));
                        let m1 = PoolModel { blacklist: bl1, ..m };
                        lemma_acquire_core_preserves_wf(m1, addr);
                    }
                },
                None => {
                    lemma_acquire_core_preserves_wf(m, addr);
                },
            }
        },
        Command::ReleaseConnection { addr, connection } => {
            let pushed = m.entries.push(
                PoolEntry { id: ConnectionId { addr, seq_no: m.seq_no as u64 }, connection },
            );
            assert(forall|i: int, j: int|
                0 <= i < j < pushed.len() ==> (#[trigger] pushed[i].id.seq_no) < (
                #[trigger] pushed[j].id.seq_no)) by {
                assert(forall|i: int|
                    0 <= i < m.entries.len() ==> pushed[i] == #[trigger] m.entries[i]);
                assert(pushed[pushed.len() - 1].id.seq_no == m.seq_no);
            }
            let excess = if pushed.len() > m.pool_size {
                pushed.len() - m.pool_size
            } else {
                0
            };
            let kept = pushed.skip(excess as int);
            assert(forall|i: int, j: int|
                0 <= i < j < kept.len() ==> (#[trigger] kept[i].id.seq_no) < (
                #[trigger] kept[j].id.seq_no));
            assert(forall|i: int|
                0 <= i < kept.len() ==> (#[trigger] kept[i].id.seq_no) < m.seq_no + 1);
        },
        Command::AddToBlacklist { addr, now_ms } => {
            let jb = bl_idx(m.blacklist, addr);
            lemma_bl_idx(m.blacklist, addr);
            let without = if jb >= 0 {
                m.blacklist.remove(jb)
            } else {
                m.blacklist
            };
            assert(forall|k: int| 0 <= k < without.len() ==> (#[trigger] without[k].0) != addr) by {
                if jb >= 0 {
                    assert(forall|k: int|
                        0 <= k < m.blacklist.len() && k != jb ==> (#[trigger] m.blacklist[k].0)
                            != addr);
                }
            }
            assert(forall|i: int, j: int|
                0 <= i < j < without.len() ==> (#[trigger] without[i].0) != (
                #[trigger] without[j].0));
            let bl2 = without.push((addr, sat_add_u64(now_ms as int, m.suspended_duration) as u64));
            assert(forall|i: int, j: int|
                0 <= i < j < bl2.len() ==> (#[trigger] bl2[i].0) != (#[trigger] bl2[j].0)) by {
                assert(forall|i: int| 0 <= i < without.len() ==> bl2[i] == #[trigger] without[i]);
                assert(bl2[bl2.len() - 1].0 == addr);
            }
        },
    }
}

proof fn lemma_acquire_core_preserves_wf(m: PoolModel, addr: RemoteAddr)
    requires
        m.wf(),
    ensures
        spec_acquire_core(m, addr).0.wf(),
{
    let j = entry_idx(m.entries, addr);
    lemma_entry_idx(m.entries, addr);
    if j >= 0 {
        let kept = m.entries.remove(j);
        assert(forall|i: int, k: int|
            0 <= i < k < kept.len() ==> (#[trigger] kept[i].id.seq_no) < (
            #[trigger] kept[k].id.seq_no));
        assert(forall|i: int| 0 <= i < kept.len() ==> (#[trigger] kept[i].id.seq_no) < m.seq_no);
    }
}

/// Capacity law: releasing a connection into a full pool evicts exactly
/// the globally oldest-released entries, by sequence number and regardless
/// of address, until the pool is back at capacity; the survivors keep their
/// order.
pub proof fn lemma_release_evicts_oldest(m: PoolModel, addr: RemoteAddr, connection: u64)
    requires
        m.wf(),
        m.seq_no < u64::MAX,
    ensures
        ({
            let m1 = spec_handle(m, Command::ReleaseConnection { addr, connection }).0;
            let pushed = m.entries.push(
                PoolEntry { id: ConnectionId { addr, seq_no: m.seq_no as u64 }, connection },
            );
            let excess = if pushed.len() > m.pool_size {
                pushed.len() - m.pool_size
            } else {
                0
            };
            &&& m1.entries == pushed.skip(excess as int)
            &&& m1.entries.len() == if pushed.len() > m.pool_size {
                m.pool_size
            } else {
                pushed.len() as int
            }
            &&& forall|i: int, j: int|
                0 <= i < excess && excess <= j < pushed.len() ==> (#[trigger] pushed[i].id.seq_no)
                    < (#[trigger] pushed[j].id.seq_no)
            &&& forall|k: int|
                0 <= k < m1.entries.len() ==> (#[trigger] m1.entries[k]) == pushed[excess + k]
        }),
{
    let pushed = m.entries.push(
        PoolEntry { id: ConnectionId { addr, seq_no: m.seq_no as u64 }, connection },
    );
    assert(forall|i: int, j: int|
        0 <= i < j < pushed.len() ==> (#[trigger] pushed[i].id.seq_no) < (#[trigger] pushed[j].id.seq_no)) by {
        assert(forall|i: int| 0 <= i < m.entries.len() ==> pushed[i] == #[trigger] m.entries[i]);
        assert(pushed[pushed.len() - 1].id.seq_no == m.seq_no);
    }
}

/// Blacklist law: after a failed connect for an address, an acquisition
/// before the suspension deadline fails immediately with that deadline,
/// changing nothing and attempting no connect; an acquisition at or after
/// the deadline proceeds to reuse an idle connection or attempt a fresh
/// connect.
pub proof fn lemma_blacklist_suspends(m: PoolModel, addr: RemoteAddr, t_fail: u64, t_acq: u64)
    requires
        m.wf(),
    ensures
        ({
            let m1 = spec_handle(m, Command::AddToBlacklist { addr, now_ms: t_fail }).0;
            let until = sat_add_u64(t_fail as int, m.suspended_duration) as u64;
            let (m2, d) = spec_handle(m1, Command::AcquireConnection { addr, now_ms: t_acq });
            &&& bl_lookup(m1.blacklist, addr) == Some(until)
            &&& t_acq < until ==> m2 == m1 && d == Some(
                AcquireDecision::Suspended { until_ms: until },
            )
            &&& t_acq >= until ==> (d matches Some(dd) && (dd is Reuse || dd is Connect))
        }),
{
    let jb = bl_idx(m.blacklist, addr);
    lemma_bl_idx(m.blacklist, addr);
    let until = sat_add_u64(t_fail as int, m.suspended_duration) as u64;
    let without = if jb >= 0 {
        m.blacklist.remove(jb)
    } else {
        m.blacklist
    };
    assert(bl_idx(without, addr) == -1) by {
        if jb >= 0 {
            assert(forall|k: int| 0 <= k < without.len() ==> (#[trigger] without[k].0) != addr) by {
                assert(forall|k: int|
                    0 <= k < m.blacklist.len() && k != jb ==> (#[trigger] m.blacklist[k].0)
                        != addr);
            }
            lemma_bl_idx_none(without, addr);
        }
    }
    lemma_bl_idx_push_fresh(without, (addr, until));
    let m1 = spec_handle(m, Command::AddToBlacklist { addr, now_ms: t_fail }).0;
    assert(m1.blacklist == without.push((addr, until)));
}

/// This manages a pool of idle connections for RPC clients.
#[derive(Debug)]
pub struct RpcClientPool {
    /// The capacity bound on idle entries.
    pub pool_size: usize,

    /// The idle entries, oldest release first.
    pub connections: Vec<PoolEntry>,

    /// The next release sequence number.
    pub seq_no: u64,

    /// The blacklist: address to suspended-until time, in milliseconds.
    pub blacklist: Vec<(RemoteAddr, u64)>,

    /// How long a failed address stays suspended, in milliseconds.
    pub suspended_duration: u64,

    /// The fresh-connect timeout, in milliseconds.
    pub connect_timeout: u64,
}

impl RpcClientPool {
    /// The mathematical state of this pool.
    pub open spec fn model(self) -> PoolModel {
        PoolModel {
            entries: self.connections@,
            seq_no: self.seq_no as int,
            blacklist: self.blacklist@,
            pool_size: self.pool_size as int,
            suspended_duration: self.suspended_duration as int,
            connect_timeout: self.connect_timeout as int,
        }
    }

    /// Makes a new `RpcClientPool` with the default pool size (1024), a
    /// 60-second suspension and a 1-second connect timeout.
    pub fn new() -> (r: RpcClientPool)
        ensures
            r.model().wf(),
            r.model().entries.len() == 0,
            r.model().blacklist.len() == 0,
            r.model().seq_no == 0,
            r.model().pool_size == 1024,
            r.model().suspended_duration == 60000,
            r.model().connect_timeout == 1000,
    {
        Self::with_pool_size(1024)
    }

    /// Makes a new `RpcClientPool` with the specified pool size.
    pub fn with_pool_size(pool_size: usize) -> (r: RpcClientPool)
        ensures
            r.model().wf(),
            r.model().entries.len() == 0,
            r.model().blacklist.len() == 0,
            r.model().seq_no == 0,
            r.model().pool_size == pool_size,
            r.model().suspended_duration == 60000,
            r.model().connect_timeout == 1000,
    {
        RpcClientPool {
            pool_size,
            connections: Vec::new(),
            seq_no: 0,
            blacklist: Vec::new(),
            suspended_duration: 60000,
            connect_timeout: 1000,
        }
    }

    /// Sets the suspended duration of an erroneous remote address.
    pub fn set_suspended_duration(&mut self, duration_ms: u64)
        ensures
            *final(self) == (RpcClientPool { suspended_duration: duration_ms, ..*old(self) }),
    {
        self.suspended_duration = duration_ms;
    }

    /// Sets the timeout of a fresh-connect attempt.
    pub fn set_connect_timeout(&mut self, timeout_ms: u64)
        ensures
            *final(self) == (RpcClientPool { connect_timeout: timeout_ms, ..*old(self) }),
    {
        self.connect_timeout = timeout_ms;
    }

    fn find_entry_index(&self, addr: RemoteAddr) -> (r: Option<usize>)
        ensures
            ({
                match r {
                    Some(idx) => entry_idx(self.connections@, addr) == idx as int,
                    None => entry_idx(self.connections@, addr) == -1,
                }
            }),
    {
        let n: usize = self.connections.len();
        let mut i: usize = 0;
        proof {
            lemma_entry_idx(self.connections@, addr);
        }
        while i < n
            invariant
                i <= n,
                n == self.connections@.len(),
                forall|k: int| 0 <= k < i ==> (#[trigger] self.connections@[k].id.addr) != addr,
                -1 <= entry_idx(self.connections@, addr) < n,
                entry_idx(self.connections@, addr) >= 0 ==> self.connections@[entry_idx(
                    self.connections@,
                    addr,
                )].id.addr == addr,
                forall|k: int|
                    0 <= k < n && (#[trigger] self.connections@[k].id.addr) == addr ==> entry_idx(
                        self.connections@,
                        addr,
                    ) >= 0 && entry_idx(self.connections@, addr) <= k,
            decreases n - i,
        {
            if self.connections[i].id.addr == addr {
                proof {
                    assert(entry_idx(self.connections@, addr) == i);
                }
                return Some(i);
            }
            i = i + 1;
        }
        None
    }

    fn find_bl_index(&self, addr: RemoteAddr) -> (r: Option<usize>)
        ensures
            ({
                match r {
                    Some(idx) => bl_idx(self.blacklist@, addr) == idx as int,
                    None => bl_idx(self.blacklist@, addr) == -1,
                }
            }),
    {
        let n: usize = self.blacklist.len();
        let mut i: usize = 0;
        proof {
            lemma_bl_idx(self.blacklist@, addr);
        }
        while i < n
            invariant
                i <= n,
                n == self.blacklist@.len(),
                forall|k: int| 0 <= k < i ==> (#[trigger] self.blacklist@[k].0) != addr,
                -1 <= bl_idx(self.blacklist@, addr) < n,
                bl_idx(self.blacklist@, addr) >= 0 ==> self.blacklist@[bl_idx(
                    self.blacklist@,
                    addr,
                )].0 == addr,
                forall|k: int|
                    0 <= k < n && (#[trigger] self.blacklist@[k].0) == addr ==> bl_idx(
                        self.blacklist@,
                        addr,
                    ) >= 0 && bl_idx(self.blacklist@, addr) <= k,
            decreases n - i,
        {
            if self.blacklist[i].0 == addr {
                proof {
                    assert(bl_idx(self.blacklist@, addr) == i);
                }
                return Some(i);
            }
            i = i + 1;
        }
        None
    }

    /// Decides an acquisition once the blacklist has been consulted: a
    /// cache hit hands out the oldest idle entry for the address; a miss
    /// decides a fresh connect.
    pub fn acquire_connection(&mut self, addr: RemoteAddr) -> (r: AcquireDecision)
        ensures
            (final(self).model(), r) == spec_acquire_core(old(self).model(), addr),
    {
        match self.find_entry_index(addr) {
            Some(idx) => {
                proof {
                    lemma_entry_idx(self.connections@, addr);
                }
                let entry = self.connections.remove(idx);
                AcquireDecision::Reuse { connection: entry.connection }
            },
            None => {
                AcquireDecision::Connect { timeout_ms: self.connect_timeout }
            },
        }
    }

    /// Returns a connection to the pool under a fresh sequence number; if
    /// the capacity is now exceeded, evicts the globally oldest entries
    /// until back at capacity.
    pub fn release_connection(&mut self, addr: RemoteAddr, connection: u64)
        requires
            old(self).seq_no < u64::MAX,
        ensures
            (final(self).model(), None::<AcquireDecision>) == spec_handle(
                old(self).model(),
                Command::ReleaseConnection { addr, connection },
            ),
    {
        let id = ConnectionId::new(addr, self.seq_no);
        self.seq_no = self.seq_no + 1;
        self.connections.push(PoolEntry { id, connection });
        self.drop_exceeded_lru_connections();
        proof {
            assert(final(self).model() == spec_handle(
                old(self).model(),
                Command::ReleaseConnection { addr, connection },
            ).0);
        }
    }

    fn drop_exceeded_lru_connections(&mut self)
        ensures
            ({
                let n = old(self).connections@.len();
                let excess = if n > old(self).pool_size {
                    n - old(self).pool_size
                } else {
                    0
                };
                &&& final(self).connections@ == old(self).connections@.skip(excess as int)
                &&& *final(self) == (RpcClientPool {
                    connections: final(self).connections,
                    ..*old(self)
                })
            }),
    {
        proof {
            assert(self.connections@.skip(0) =~= self.connections@);
        }
        while self.connections.len() > self.pool_size
            invariant
                old(self).connections@.len() >= self.connections@.len(),
                self.connections@.len() >= self.pool_size || self.connections@.len() == old(
                    self,
                ).connections@.len(),
                self.connections@ == old(self).connections@.skip(
                    old(self).connections@.len() - self.connections@.len(),
                ),
                *self == (RpcClientPool { connections: self.connections, ..*old(self) }),
            decreases self.connections@.len(),
        {
            let ghost before = self.connections@;
            let _ = self.connections.remove(0);
            proof {
                assert(self.connections@ =~= before.skip(1));
                assert(self.connections@ =~= old(self).connections@.skip(
                    old(self).connections@.len() - self.connections@.len(),
                ));
            }
        }
        proof {
            let n = old(self).connections@.len();
            let excess: int = if n > old(self).pool_size {
                n - old(self).pool_size
            } else {
                0int
            };
            assert(self.connections@.len() == n - excess);
        }
    }

    /// Applies one command to the pool: consult-and-lapse the blacklist and
    /// decide an acquisition, take back a released connection, or suspend a
    /// failed address.
    pub fn handle_command(&mut self, cmd: Command) -> (r: Option<AcquireDecision>)
        requires
            ({
                match cmd {
                    Command::ReleaseConnection { .. } => old(self).seq_no < u64::MAX,
                    _ => true,
                }
            }),
        ensures
            (final(self).model(), r) == spec_handle(old(self).model(), cmd),
    {
        match cmd {
            Command::AcquireConnection { addr, now_ms } => {
                match self.find_bl_index(addr) {
                    Some(idx) => {
                        proof {
                            lemma_bl_idx(self.blacklist@, addr);
                        }
                        let until = self.blacklist[idx].1;
                        if until > now_ms {
                            Some(AcquireDecision::Suspended { until_ms: until })
                        } else {
                            let _ = self.blacklist.remove(idx);
                            Some(self.acquire_connection(addr))
                        }
                    },
                    None => {
                        Some(self.acquire_connection(addr))
                    },
                }
            },
            Command::ReleaseConnection { addr, connection } => {
                proof {
                    assert(self.seq_no == old(self).seq_no);
                    assert(old(self).seq_no < u64::MAX);
                }
                self.release_connection(addr, connection);
                None
            },
            Command::AddToBlacklist { addr, now_ms } => {
                match self.find_bl_index(addr) {
                    Some(idx) => {
                        proof {
                            lemma_bl_idx(self.blacklist@, addr);
                        }
                        let _ = self.blacklist.remove(idx);
                    },
                    None => {
                    },
                }
                let until = match now_ms.checked_add(self.suspended_duration) {
                    Some(t) => t,
                    None => u64::MAX,
                };
                self.blacklist.push((addr, until));
                None
            },
        }
    }
}

} // verus!
