//! Tunnels of one profile share one SSH connection.
//!
//! A lease lasts as long as one attempt of a tunnel. The last lease to go takes the
//! connection with it. A server limits the sessions of a connection, so every lease has a
//! cost, and a tunnel that no longer fits gets a connection of its own.
use crate::profiles::ServerProfile;
use crate::store::ProfileDefaults;
use crate::text;
use crate::text::{decimal_text, same_text, wide_decimal_text};
use crate::text_map;
use crate::text_map::TextMap;
use crate::transport::shared::DEFAULT_MAX_SESSIONS;
use vstd::prelude::*;

verus! {

/// Whether connections are shared where neither the profile nor the defaults say.
pub const DEFAULT_SHARE_CONNECTION: bool = true;

/// The cost of a reverse tunnel: its forwarded channels come one per connection.
pub const COST_STD_REVERSE: usize = 4;

/// The cost of a reverse tunnel in compatibility mode: one session channel.
pub const COST_COMPAT_REVERSE: usize = 1;

/// The cost of a local or dynamic tunnel.
pub const COST_DIRECT: usize = 2;

/// What the server is told when a connection is cut by force.
pub const FORCED_REASON: &'static str = "forced disconnect";

/// One tunnel's share of a connection.
pub struct LeaseInfo {
    pub tunnel_id: String,
    pub cost: usize,
}

/// The shared connection of one profile.
pub struct PooledConn {
    /// The number of the connection that stands, if one does.
    pub current: Option<u64>,
    /// The leases on it, in the order they were taken.
    pub leases: Vec<LeaseInfo>,
    /// How many connections were made so far; also the number of the latest one.
    pub connect_count: u64,
}

impl PooledConn {
    /// A standing connection is the latest one made.
    pub open spec fn wf(&self) -> bool {
        self.current matches Some(g) ==> g == self.connect_count && g > 0
    }
}

/// The costs of leases added up.
pub open spec fn total_cost(leases: Seq<LeaseInfo>) -> nat
    decreases leases.len(),
{
    if leases.len() == 0 {
        0
    } else {
        total_cost(leases.drop_last()) + leases.last().cost as nat
    }
}

/// Whether a lease is of another tunnel than `tunnel_id`.
pub open spec fn of_another(tunnel_id: Seq<char>) -> spec_fn(LeaseInfo) -> bool {
    |l: LeaseInfo| l.tunnel_id@ != tunnel_id
}

/// The leases of tunnels other than `tunnel_id`.
pub open spec fn others(leases: Seq<LeaseInfo>, tunnel_id: Seq<char>) -> Seq<LeaseInfo> {
    leases.filter(of_another(tunnel_id))
}

/// Whether the connection is closed when tunnel `tunnel_id` gives a lease on its `generation`
/// back: it was the last lease, and no other connection has taken the place of that one.
pub open spec fn closes(c: PooledConn, tunnel_id: Seq<char>, generation: u64) -> bool {
    others(c.leases@, tunnel_id).len() == 0 && c.current == Some(generation)
}

/// What a tunnel that needs a connection finds: the standing one, unless it is closed.
pub open spec fn ensure_step(current: Option<u64>, closed: bool) -> Ensure {
    match current {
        Some(g) if !closed => Ensure::Reuse(g),
        _ => Ensure::Connect,
    }
}

/// The profile after another connection was made.
pub open spec fn anew(c: PooledConn) -> PooledConn {
    let count = (c.connect_count + 1) as u64;
    PooledConn { current: Some(count), connect_count: count, ..c }
}

/// A profile whose connection was never made.
pub open spec fn is_new(c: PooledConn) -> bool {
    c.current is None && c.leases@.len() == 0 && c.connect_count == 0
}

/// The pool: one shared connection per profile.
pub struct ConnPool {
    conns: TextMap<PooledConn>,
}

impl View for ConnPool {
    type V = Map<Seq<char>, PooledConn>;

    closed spec fn view(&self) -> Map<Seq<char>, PooledConn> {
        self.conns@
    }
}

/// A pool in which every connection is well-formed.
pub open spec fn all_wf(m: Map<Seq<char>, PooledConn>) -> bool {
    forall|k: Seq<char>| #[trigger] m.dom().contains(k) ==> m[k].wf()
}

/// Whether a tunnel of cost `cost` may share a connection with `committed` cost leased out
/// and `live` channels open.
pub open spec fn fits(committed: nat, live: nat, cost: nat, budget: nat) -> bool {
    committed + cost <= budget && live + cost <= budget
}

/// The warning of a tunnel that does not fit.
pub open spec fn over_budget_note(committed: nat, live: nat, cost: nat, budget: nat) -> Seq<char> {
    "⚠️ 共享连接预算已满 (租约已承诺 "@ + text::decimal(committed) + " + 本次 "@ + text::decimal(
        cost,
    ) + ", 活通道 "@ + text::decimal(live) + ", 预算 "@ + text::decimal(budget)
        + ") —— 本隧道自动回退为独立连接"@
}

/// How a tunnel gets its connection.
#[derive(Debug, PartialEq, Eq)]
pub enum Admission {
    /// Its own, because it does not share.
    Dedicated,
    /// Its own, because the shared one is full; with the warning to log.
    Overflow(String),
    /// The profile's.
    Shared,
}

/// What a tunnel that shares has to do.
#[derive(Debug, Clone, Copy, PartialEq, Eq, Structural)]
pub enum Ensure {
    /// Use the connection of this number.
    Reuse(u64),
    /// Make a connection, then report it.
    Connect,
}

/// What the pool shows of one profile.
#[derive(Debug, PartialEq, Eq)]
pub struct ConnStats {
    pub profile_id: String,
    /// The number of the standing connection; zero if there is none.
    pub generation: u64,
    pub connect_count: u64,
    /// The open channels of the standing connection.
    pub open_channels: usize,
    /// The tunnels that hold leases.
    pub leases: Vec<String>,
}

fn sum_cost(leases: &Vec<LeaseInfo>) -> (r: u128)
    ensures
        r == total_cost(leases@),
{
    let mut sum: u128 = 0;
    let mut i: usize = 0;
    assert(leases@.take(0) =~= Seq::empty());
    while i < leases.len()
        invariant
            i <= leases.len(),
            sum == total_cost(leases@.take(i as int)),
            sum <= i * 0xFFFF_FFFF_FFFF_FFFF,
        decreases leases.len() - i,
    {
        proof {
            let next = leases@.take(i + 1);
            assert(next.drop_last() =~= leases@.take(i as int));
            assert(next.last() == leases@[i as int]);
        }
        sum = sum + leases[i].cost as u128;
        i = i + 1;
    }
    assert(leases@.take(leases@.len() as int) =~= leases@);
    sum
}

/// Takes the leases of `tunnel_id` out.
fn release(leases: &mut Vec<LeaseInfo>, tunnel_id: &str)
    ensures
        final(leases)@ == others(old(leases)@, tunnel_id@),
{
    let mut rest: Vec<LeaseInfo> = Vec::new();
    let mut todo: Vec<LeaseInfo> = Vec::new();
    todo.append(leases);
    let ghost all = todo@;
    let ghost keep = of_another(tunnel_id@);
    let n = todo.len();
    let mut i: usize = 0;
    proof {
        reveal(Seq::filter);
    }
    assert(all.take(0).filter(keep) =~= Seq::empty());
    while i < n
        invariant
            i <= n,
            n == all.len(),
            todo@ == all.skip(i as int),
            rest@ == all.take(i as int).filter(keep),
            keep == of_another(tunnel_id@),
        decreases n - i,
    {
        let l = todo.remove(0);
        proof {
            let next = all.take(i + 1);
            assert(next.drop_last() =~= all.take(i as int));
            assert(next.last() == l);
            assert(todo@ =~= all.skip(i + 1));
            reveal(Seq::filter);
        }
        if !same_text(l.tunnel_id.as_str(), tunnel_id) {
            rest.push(l);
        }
        i = i + 1;
    }
    assert(all.take(n as int) =~= all);
    *leases = rest;
}

impl Default for ConnPool {
    fn default() -> (r: Self)
        ensures
            r.wf(),
            r@ == Map::<Seq<char>, PooledConn>::empty(),
    {
        Self::new()
    }
}

impl ConnPool {
    /// The representation's invariant.
    pub closed spec fn wf(&self) -> bool {
        self.conns.wf() && all_wf(self.conns@)
    }

    /// The profiles of the pool in dictionary order, each with its connection.
    pub closed spec fn items(&self) -> Seq<(Seq<char>, PooledConn)> {
        self.conns.items()
    }

    /// An empty pool.
    pub fn new() -> (r: Self)
        ensures
            r.wf(),
            r@ == Map::<Seq<char>, PooledConn>::empty(),
    {
        ConnPool { conns: TextMap::new() }
    }

    /// Decides how a tunnel of cost `cost` gets its connection. `live` is the number of
    /// channels open on the profile's standing connection. A profile that shares has its
    /// place in the pool from here on.
    pub fn acquire(
        &mut self,
        profile_id: &str,
        share: bool,
        max_sessions: u32,
        live: usize,
        cost: usize,
    ) -> (r: Admission)
        requires
            old(self).wf(),
        ensures
            final(self).wf(),
            !share ==> r == Admission::Dedicated && final(self)@ == old(self)@,
            r is Dedicated <==> !share,
            share ==> {
                let conn = final(self)@[profile_id@];
                r is Shared <==> {
                    &&& total_cost(conn.leases@) + cost <= max_sessions
                    &&& conn.current is Some ==> live + cost <= max_sessions
                }
            },
            share ==> {
                let known = old(self)@.dom().contains(profile_id@);
                let conn = final(self)@[profile_id@];
                let committed = total_cost(conn.leases@);
                let open = if conn.current is Some {
                    live as nat
                } else {
                    0
                };
                &&& final(self)@ == old(self)@.insert(profile_id@, conn)
                &&& if known {
                    conn == old(self)@[profile_id@]
                } else {
                    is_new(conn)
                }
                &&& match r {
                    Admission::Dedicated => false,
                    Admission::Shared => fits(committed, open, cost as nat, max_sessions as nat),
                    Admission::Overflow(note) => !fits(
                        committed,
                        open,
                        cost as nat,
                        max_sessions as nat,
                    ) && note@ == over_budget_note(
                        committed,
                        open,
                        cost as nat,
                        max_sessions as nat,
                    ),
                }
            },
    {
        if !share {
            return Admission::Dedicated;
        }
        if !self.conns.contains_key(profile_id) {
            let fresh = PooledConn { current: None, leases: Vec::new(), connect_count: 0 };
            self.conns.insert(profile_id.to_owned(), fresh);
        }
        let ghost m = self.conns@;
        proof {
            assert(m =~= old(self)@.insert(profile_id@, m[profile_id@]));
            assert(m[profile_id@].leases@.len() == 0 ==> total_cost(m[profile_id@].leases@) == 0);
        }
        match self.conns.get(profile_id) {
            Some(conn) => {
                let budget = max_sessions as u128;
                let committed = sum_cost(&conn.leases);
                let open: u128 = if conn.current.is_some() {
                    live as u128
                } else {
                    0
                };
                if committed > budget || committed + cost as u128 > budget || open + cost as u128
                    > budget {
                    let mut note = "⚠️ 共享连接预算已满 (租约已承诺 ".to_owned();
                    note.append(wide_decimal_text(committed).as_str());
                    note.append(" + 本次 ");
                    note.append(decimal_text(cost as u64).as_str());
                    note.append(", 活通道 ");
                    note.append(wide_decimal_text(open).as_str());
                    note.append(", 预算 ");
                    note.append(wide_decimal_text(budget).as_str());
                    note.append(") —— 本隧道自动回退为独立连接");
                    Admission::Overflow(note)
                } else {
                    Admission::Shared
                }
            },
            None => {
                assert(false);
                Admission::Dedicated
            },
        }
    }

    /// Whether the profile's connection can be used, or another one has to be made.
    /// `closed` tells of the standing connection, if there is one.
    pub fn ensure_connected(&self, profile_id: &str, closed: bool) -> (r: Ensure)
        requires
            self.wf(),
        ensures
            r == if self@.dom().contains(profile_id@) {
                ensure_step(self@[profile_id@].current, closed)
            } else {
                Ensure::Connect
            },
    {
        match self.conns.get(profile_id) {
            Some(conn) => match conn.current {
                Some(g) => if closed {
                    Ensure::Connect
                } else {
                    Ensure::Reuse(g)
                },
                None => Ensure::Connect,
            },
            None => Ensure::Connect,
        }
    }

    /// A connection was made for the profile. Gives its number and the line to log.
    pub fn connected(&mut self, profile_id: &str) -> (r: (u64, String))
        requires
            old(self).wf(),
            old(self)@.dom().contains(profile_id@),
            old(self)@[profile_id@].connect_count < u64::MAX,
        ensures
            final(self).wf(),
            r.0 == old(self)@[profile_id@].connect_count + 1,
            r.1@ == "共享连接: 为档案 "@ + profile_id@ + " 建立第 "@ + text::decimal(r.0 as nat)
                + " 代连接"@,
            final(self)@ == old(self)@.insert(profile_id@, anew(old(self)@[profile_id@])),
    {
        let ghost before = self.conns@;
        match self.conns.remove(profile_id) {
            Some(mut conn) => {
                let g = conn.connect_count + 1;
                conn.connect_count = g;
                conn.current = Some(g);
                self.conns.insert(profile_id.to_owned(), conn);
                assert(self.conns@ =~= before.insert(profile_id@, conn));
                let mut line = "共享连接: 为档案 ".to_owned();
                line.append(profile_id);
                line.append(" 建立第 ");
                line.append(decimal_text(g).as_str());
                line.append(" 代连接");
                (g, line)
            },
            None => {
                assert(false);
                (0, String::new())
            },
        }
    }

    /// A tunnel takes a lease on the profile's connection of number `generation`.
    pub fn lease(&mut self, profile_id: &str, tunnel_id: &str, generation: u64, cost: usize) -> (r:
        Lease)
        requires
            old(self).wf(),
            old(self)@.dom().contains(profile_id@),
        ensures
            final(self).wf(),
            r matches Lease::Pooled { profile_id: p, tunnel_id: t, generation: g } && p@
                == profile_id@ && t@ == tunnel_id@ && g == generation,
            final(self)@ == old(self)@.insert(profile_id@, final(self)@[profile_id@]),
            final(self)@[profile_id@].current == old(self)@[profile_id@].current,
            final(self)@[profile_id@].connect_count == old(self)@[profile_id@].connect_count,
            final(self)@[profile_id@].leases@.drop_last() == old(self)@[profile_id@].leases@,
            final(self)@[profile_id@].leases@.len() == old(self)@[profile_id@].leases@.len() + 1,
            final(self)@[profile_id@].leases@.last().tunnel_id@ == tunnel_id@,
            final(self)@[profile_id@].leases@.last().cost == cost,
    {
        let ghost before = self.conns@;
        match self.conns.remove(profile_id) {
            Some(mut conn) => {
                conn.leases.push(LeaseInfo { tunnel_id: tunnel_id.to_owned(), cost });
                self.conns.insert(profile_id.to_owned(), conn);
                assert(self.conns@ =~= before.insert(profile_id@, conn));
                assert(conn.leases@.drop_last() =~= before[profile_id@].leases@);
            },
            None => {
                assert(false);
            },
        }
        Lease::Pooled {
            profile_id: profile_id.to_owned(),
            tunnel_id: tunnel_id.to_owned(),
            generation,
        }
    }

    /// A tunnel gives its lease back. `generation` is the number of the connection it was
    /// taken on. The result says whether that connection is to be closed: it is, where no
    /// lease is left and nobody has replaced it.
    pub fn close_lease(&mut self, profile_id: &str, tunnel_id: &str, generation: u64) -> (r: bool)
        requires
            old(self).wf(),
        ensures
            final(self).wf(),
            !old(self)@.dom().contains(profile_id@) ==> !r && final(self)@ == old(self)@,
            old(self)@.dom().contains(profile_id@) ==> {
                let was = old(self)@[profile_id@];
                let is = final(self)@[profile_id@];
                &&& final(self)@ == old(self)@.insert(profile_id@, is)
                &&& is.leases@ == others(was.leases@, tunnel_id@)
                &&& is.connect_count == was.connect_count
                &&& r == closes(was, tunnel_id@, generation)
                &&& is.current == if r {
                    None
                } else {
                    was.current
                }
            },
    {
        let ghost before = self.conns@;
        match self.conns.remove(profile_id) {
            Some(mut conn) => {
                release(&mut conn.leases, tunnel_id);
                let mut close = false;
                if conn.leases.len() == 0 {
                    if let Some(g) = conn.current {
                        if g == generation {
                            conn.current = None;
                            close = true;
                        }
                    }
                }
                self.conns.insert(profile_id.to_owned(), conn);
                assert(self.conns@ =~= before.insert(profile_id@, conn));
                close
            },
            None => {
                assert(self.conns@ =~= before);
                false
            },
        }
    }

    /// Drops the profile's connection as if the network had failed. The result says whether
    /// there was one.
    pub fn force_disconnect(&mut self, profile_id: &str) -> (r: bool)
        requires
            old(self).wf(),
        ensures
            final(self).wf(),
            r == (old(self)@.dom().contains(profile_id@) && old(self)@[profile_id@].current is Some),
            !r ==> final(self)@ == old(self)@,
            r ==> {
                let was = old(self)@[profile_id@];
                let is = final(self)@[profile_id@];
                &&& final(self)@ == old(self)@.insert(profile_id@, is)
                &&& is.current is None
                &&& is.leases == was.leases
                &&& is.connect_count == was.connect_count
            },
    {
        let ghost before = self.conns@;
        match self.conns.remove(profile_id) {
            Some(mut conn) => {
                let had = conn.current.is_some();
                conn.current = None;
                self.conns.insert(profile_id.to_owned(), conn);
                assert(self.conns@ =~= before.insert(profile_id@, conn));
                if !had {
                    assert(conn == before[profile_id@]);
                    assert(self.conns@ =~= before);
                }
                had
            },
            None => {
                assert(self.conns@ =~= before);
                false
            },
        }
    }

    /// The line to log where a standing connection is used.
    pub fn reuse_line(profile_id: &str, generation: u64) -> (r: String)
        ensures
            r@ == "共享连接: 复用档案 "@ + profile_id@ + " 现有连接 (代际 "@ + text::decimal(
                generation as nat,
            ) + ")"@,
    {
        let mut line = "共享连接: 复用档案 ".to_owned();
        line.append(profile_id);
        line.append(" 现有连接 (代际 ");
        line.append(decimal_text(generation).as_str());
        line.append(")");
        line
    }

    /// What the pool holds, in dictionary order of the profiles. `open` has the number of
    /// open channels of each profile's standing connection.
    pub fn stats(&self, open: &TextMap<usize>) -> (r: Vec<ConnStats>)
        requires
            self.wf(),
            open.wf(),
        ensures
            text_map::ascending(self.items()),
            text_map::map_of(self.items()) == self@,
            r@.len() == self.items().len(),
            forall|i: int|
                0 <= i < r@.len() ==> is_stats(#[trigger] r@[i], self.items()[i], open@),
    {
        let mut out: Vec<ConnStats> = Vec::new();
        let mut i: usize = 0;
        while i < self.conns.len()
            invariant
                i <= self.items().len(),
                self.wf(),
                open.wf(),
                out@.len() == i,
                forall|j: int|
                    0 <= j < i ==> is_stats(#[trigger] out@[j], self.items()[j], open@),
            decreases self.items().len() - i,
        {
            let (id, conn) = self.conns.at(i);
            let (generation, open_channels) = match conn.current {
                Some(g) => (
                    g,
                    match open.get(id.as_str()) {
                        Some(n) => *n,
                        None => 0,
                    },
                ),
                None => (0, 0),
            };
            let leases = lease_ids(&conn.leases);
            out.push(
                ConnStats {
                    profile_id: id.clone(),
                    generation,
                    connect_count: conn.connect_count,
                    open_channels,
                    leases,
                },
            );
            i = i + 1;
        }
        out
    }
}

/// `st` shows what the pool holds for one profile.
pub open spec fn is_stats(
    st: ConnStats,
    item: (Seq<char>, PooledConn),
    open: Map<Seq<char>, usize>,
) -> bool {
    &&& st.profile_id@ == item.0
    &&& st.generation == match item.1.current {
        Some(g) => g,
        None => 0,
    }
    &&& st.connect_count == item.1.connect_count
    &&& st.open_channels == if item.1.current is Some && open.dom().contains(item.0) {
        open[item.0]
    } else {
        0
    }
    &&& text::texts(st.leases@) == tunnels(item.1.leases@)
}

/// The tunnels that hold leases.
pub open spec fn tunnels(leases: Seq<LeaseInfo>) -> Seq<Seq<char>> {
    leases.map_values(|l: LeaseInfo| l.tunnel_id@)
}

fn lease_ids(leases: &Vec<LeaseInfo>) -> (r: Vec<String>)
    ensures
        text::texts(r@) == tunnels(leases@),
{
    let mut out: Vec<String> = Vec::new();
    let mut i: usize = 0;
    while i < leases.len()
        invariant
            i <= leases.len(),
            out@.len() == i,
            forall|j: int| 0 <= j < i ==> (#[trigger] out@[j])@ == leases@[j].tunnel_id@,
        decreases leases.len() - i,
    {
        out.push(leases[i].tunnel_id.clone());
        i = i + 1;
    }
    assert(text::texts(out@) =~= tunnels(leases@));
    out
}

/// A tunnel's hold on a connection, for one attempt.
#[derive(Debug, PartialEq, Eq)]
pub enum Lease {
    /// On a connection of its own.
    Dedicated { tunnel_id: String },
    /// On the shared connection of a profile, by the connection's number.
    Pooled { profile_id: String, tunnel_id: String, generation: u64 },
}

impl Lease {
    /// Whether the connection is shared.
    pub fn is_shared(&self) -> (r: bool)
        ensures
            r == (*self is Pooled),
    {
        match self {
            Lease::Dedicated { .. } => false,
            Lease::Pooled { .. } => true,
        }
    }

    /// Gives the lease back. The result is the reason to close the connection with, where it
    /// is to be closed: a connection of its own always is, a shared one with its last lease.
    pub fn close(self, pool: &mut ConnPool) -> (r: Option<&'static str>)
        requires
            old(pool).wf(),
        ensures
            final(pool).wf(),
            match self {
                Lease::Dedicated { .. } => final(pool)@ == old(pool)@ && (r matches Some(t)
                    && t@ == "lease closed"@),
                Lease::Pooled { profile_id, tunnel_id, generation } => if old(pool)@.dom().contains(
                    profile_id@,
                ) {
                    let was = old(pool)@[profile_id@];
                    let is = final(pool)@[profile_id@];
                    let last = closes(was, tunnel_id@, generation);
                    &&& final(pool)@ == old(pool)@.insert(profile_id@, is)
                    &&& is.leases@ == others(was.leases@, tunnel_id@)
                    &&& is.connect_count == was.connect_count
                    &&& is.current == if last {
                        None
                    } else {
                        was.current
                    }
                    &&& match r {
                        Some(t) => last && t@ == "last lease released"@,
                        None => !last,
                    }
                } else {
                    r is None && final(pool)@ == old(pool)@
                },
            },
    {
        match self {
            Lease::Dedicated { .. } => Some("lease closed"),
            Lease::Pooled { profile_id, tunnel_id, generation } => {
                if pool.close_lease(profile_id.as_str(), tunnel_id.as_str(), generation) {
                    Some("last lease released")
                } else {
                    None
                }
            },
        }
    }
}

/// Whether tunnels share: the profile decides, then the defaults, then the engine.
pub open spec fn shares(profile: Option<ServerProfile>, defaults: ProfileDefaults) -> bool {
    match profile {
        Some(p) if p.share_connection is Some => p.share_connection->0,
        _ => match defaults.share_connection {
            Some(b) => b,
            None => DEFAULT_SHARE_CONNECTION,
        },
    }
}

/// The server's session limit: the defaults decide, then the usual limit.
pub open spec fn session_limit(defaults: ProfileDefaults) -> u32 {
    match defaults.max_sessions {
        Some(n) => n,
        None => DEFAULT_MAX_SESSIONS as u32,
    }
}

/// Whether tunnels of a profile share.
pub fn resolve_share(profile: Option<&ServerProfile>, defaults: &ProfileDefaults) -> (r: bool)
    ensures
        r == shares(
            match profile {
                Some(p) => Some(*p),
                None => None,
            },
            *defaults,
        ),
{
    if let Some(p) = profile {
        if let Some(b) = p.share_connection {
            return b;
        }
    }
    match defaults.share_connection {
        Some(b) => b,
        None => DEFAULT_SHARE_CONNECTION,
    }
}

/// The server's session limit.
pub fn resolve_max_sessions(defaults: &ProfileDefaults) -> (r: u32)
    ensures
        r == session_limit(*defaults),
{
    match defaults.max_sessions {
        Some(n) => n,
        None => DEFAULT_MAX_SESSIONS as u32,
    }
}

// ---------------------------------------------------------------- laws
/// Stopping one tunnel never closes a connection that another one holds a lease on, and the
/// other one keeps its lease.
pub proof fn law_siblings_keep_connection(
    c: PooledConn,
    tunnel_id: Seq<char>,
    generation: u64,
    i: int,
)
    requires
        0 <= i < c.leases@.len(),
        c.leases@[i].tunnel_id@ != tunnel_id,
    ensures
        !closes(c, tunnel_id, generation),
        others(c.leases@, tunnel_id).contains(c.leases@[i]),
{
    let keep = of_another(tunnel_id);
    c.leases@.lemma_filter_contains(keep, i);
    assert(others(c.leases@, tunnel_id).len() > 0);
}

/// A lease on a connection that is gone never closes the one that took its place.
pub proof fn law_old_lease_spares_new_connection(
    c: PooledConn,
    tunnel_id: Seq<char>,
    generation: u64,
)
    requires
        c.current != Some(generation),
    ensures
        !closes(c, tunnel_id, generation),
{
}

/// After a tunnel gave its lease back no lease of its own is left.
pub proof fn law_lease_given_back(leases: Seq<LeaseInfo>, tunnel_id: Seq<char>, i: int)
    requires
        0 <= i < others(leases, tunnel_id).len(),
    ensures
        others(leases, tunnel_id)[i].tunnel_id@ != tunnel_id,
{
    let keep = of_another(tunnel_id);
    leases.lemma_filter_pred(keep, i);
}

/// The profile after a tunnel made sure that it is connected: `ensure_connected`, followed by
/// `connected` where that asks for it.
pub open spec fn ensured(c: PooledConn, closed: bool) -> PooledConn {
    match ensure_step(c.current, closed) {
        Ensure::Reuse(_) => c,
        Ensure::Connect => anew(c),
    }
}

/// The same for tunnels one after another, each of which saw the standing connection closed
/// or not.
pub open spec fn ensured_all(c: PooledConn, closed: Seq<bool>) -> PooledConn
    decreases closed.len(),
{
    if closed.len() == 0 {
        c
    } else {
        ensured(ensured_all(c, closed.drop_last()), closed.last())
    }
}

/// After a connection is lost, however many tunnels come back, one new connection is made:
/// the first to come makes it, and the others find it.
pub proof fn law_one_reconnect_for_all(c: PooledConn, closed: Seq<bool>)
    requires
        c.connect_count < u64::MAX,
        closed.len() > 0,
        c.current is None || closed[0],
        forall|i: int| 0 < i < closed.len() ==> !#[trigger] closed[i],
    ensures
        ensured_all(c, closed) == anew(c),
        anew(c).connect_count == c.connect_count + 1,
    decreases closed.len(),
{
    let before = closed.drop_last();
    if before.len() > 0 {
        assert(before[0] == closed[0]);
        assert forall|i: int| 0 < i < before.len() implies !#[trigger] before[i] by {
            assert(before[i] == closed[i]);
        }
        law_one_reconnect_for_all(c, before);
        assert(!closed[closed.len() - 1]);
    } else {
        assert(ensured_all(c, before) == c);
    }
}

/// A tunnel that was let in keeps the costs of its profile's leases within the budget.
pub proof fn law_budget_kept(leases: Seq<LeaseInfo>, l: LeaseInfo, live: nat, budget: nat)
    requires
        fits(total_cost(leases), live, l.cost as nat, budget),
    ensures
        total_cost(leases.push(l)) <= budget,
{
    assert(leases.push(l).drop_last() =~= leases);
}

/// Costs add up: nothing leased costs nothing, a further lease adds its own cost, and the costs
/// of two groups of leases are those of both.
pub proof fn law_costs_add_up(a: Seq<LeaseInfo>, b: Seq<LeaseInfo>, l: LeaseInfo)
    ensures
        total_cost(Seq::empty()) == 0,
        total_cost(a.push(l)) == total_cost(a) + l.cost,
        total_cost(a + b) == total_cost(a) + total_cost(b),
    decreases b.len(),
{
    assert(a.push(l).drop_last() =~= a);
    if b.len() == 0 {
        assert(a + b =~= a);
    } else {
        assert((a + b).drop_last() =~= a + b.drop_last());
        law_costs_add_up(a, b.drop_last(), l);
    }
}

/// A tunnel may share a connection exactly where its cost, on top of what is leased out, and
/// its cost, on top of the channels that are open, both stay within the budget. Once it holds
/// its lease, the leases of the profile cost no more than the budget either.
pub proof fn law_admission_keeps_both_budgets(
    leases: Seq<LeaseInfo>,
    live: nat,
    l: LeaseInfo,
    budget: nat,
)
    ensures
        fits(total_cost(leases), live, l.cost as nat, budget) ==> {
            &&& total_cost(leases) + l.cost <= budget
            &&& live + l.cost <= budget
            &&& total_cost(leases.push(l)) <= budget
        },
        total_cost(leases) + l.cost <= budget && live + l.cost <= budget ==> fits(
            total_cost(leases),
            live,
            l.cost as nat,
            budget,
        ),
{
    law_costs_add_up(leases, Seq::empty(), l);
}

/// A busier connection is never easier to get onto: who is refused stays refused where more is
/// leased out, more channels are open, the cost is higher or the budget is smaller. One that is
/// just let in at a budget is refused at the next smaller one.
pub proof fn law_admission_is_monotonic(
    committed: nat,
    live: nat,
    cost: nat,
    budget: nat,
    committed2: nat,
    live2: nat,
    cost2: nat,
    budget2: nat,
)
    requires
        committed <= committed2,
        live <= live2,
        cost <= cost2,
        budget2 <= budget,
    ensures
        !fits(committed, live, cost, budget) ==> !fits(committed2, live2, cost2, budget2),
        fits(committed, live, cost, committed + cost + live),
        committed >= 1 ==> !fits(committed, live, cost, (committed + cost - 1) as nat),
        live >= 1 ==> !fits(committed, live, cost, (live + cost - 1) as nat),
{
}

proof fn lemma_others_push(s: Seq<LeaseInfo>, l: LeaseInfo, tunnel_id: Seq<char>)
    ensures
        others(s.push(l), tunnel_id) == if l.tunnel_id@ != tunnel_id {
            others(s, tunnel_id).push(l)
        } else {
            others(s, tunnel_id)
        },
        others(Seq::empty(), tunnel_id) == Seq::<LeaseInfo>::empty(),
{
    reveal(Seq::filter);
    assert(s.push(l).drop_last() =~= s);
}

/// The leases of the others are all that is left when a tunnel gives its leases back: what is
/// not its own stays, in its order, and a lease that was taken and given back leaves no trace.
pub proof fn law_lease_and_return(a: Seq<LeaseInfo>, l: LeaseInfo, tunnel_id: Seq<char>)
    ensures
        l.tunnel_id@ == tunnel_id ==> others(a.push(l), tunnel_id) == others(a, tunnel_id),
        l.tunnel_id@ != tunnel_id ==> others(a.push(l), tunnel_id) == others(a, tunnel_id).push(l),
        (forall|i: int| 0 <= i < a.len() ==> (#[trigger] a[i]).tunnel_id@ != tunnel_id) ==> others(
            a,
            tunnel_id,
        ) == a,
    decreases a.len(),
{
    lemma_others_push(a, l, tunnel_id);
    if a.len() > 0 {
        let front = a.drop_last();
        assert(a =~= front.push(a.last()));
        assert(a[a.len() - 1] == a.last());
        lemma_others_push(front, a.last(), tunnel_id);
        law_lease_and_return(front, l, tunnel_id);
        assert(forall|i: int| 0 <= i < front.len() ==> #[trigger] front[i] == a[i]);
    } else {
        assert(a =~= Seq::empty());
    }
}

/// Giving a lease back closes the connection exactly where every lease on it was that tunnel's,
/// and it is the very connection the lease was taken on.
pub proof fn law_last_lease_closes(c: PooledConn, tunnel_id: Seq<char>, generation: u64)
    ensures
        closes(c, tunnel_id, generation) <==> {
            &&& c.current == Some(generation)
            &&& forall|i: int| 0 <= i < c.leases@.len() ==> (#[trigger] c.leases@[i]).tunnel_id@
                == tunnel_id
        },
{
    let left = others(c.leases@, tunnel_id);
    if forall|i: int| 0 <= i < c.leases@.len() ==> (#[trigger] c.leases@[i]).tunnel_id@
        == tunnel_id {
        if left.len() > 0 {
            let keep = of_another(tunnel_id);
            c.leases@.lemma_filter_pred(keep, 0);
            assert(left.contains(left[0]));
            c.leases@.lemma_filter_contains_rev(keep, left[0]);
            assert(c.leases@.contains(left[0]));
        }
    } else {
        let i = choose|i: int|
            0 <= i < c.leases@.len() && (#[trigger] c.leases@[i]).tunnel_id@ != tunnel_id;
        law_siblings_keep_connection(c, tunnel_id, generation, i);
    }
}

/// A connection that stands and is not closed is used, by its number; in every other case one
/// is made. It gets the number that follows, the leases stay, and the next tunnel to come uses
/// it by that number.
pub proof fn law_standing_connection_is_used(c: PooledConn, closed: bool)
    requires
        c.connect_count < u64::MAX,
    ensures
        match c.current {
            Some(g) => ensure_step(c.current, closed) == if closed {
                Ensure::Connect
            } else {
                Ensure::Reuse(g)
            },
            None => ensure_step(c.current, closed) == Ensure::Connect,
        },
        anew(c).current == Some((c.connect_count + 1) as u64),
        anew(c).connect_count == c.connect_count + 1,
        anew(c).leases == c.leases,
        ensure_step(anew(c).current, false) == Ensure::Reuse((c.connect_count + 1) as u64),
{
}

/// Whether tunnels share: what the profile says counts, whatever the defaults say; where it
/// says nothing, what the defaults say; where nobody says anything, they share. The session
/// limit is the one of the defaults, or ten.
pub proof fn law_sharing_is_chosen(
    p: ServerProfile,
    silent: ServerProfile,
    defaults: ProfileDefaults,
    other: ProfileDefaults,
)
    requires
        p.share_connection is Some,
        silent.share_connection is None,
    ensures
        shares(Some(p), defaults) == p.share_connection->0,
        shares(Some(p), defaults) == shares(Some(p), other),
        shares(Some(silent), defaults) == shares(None, defaults),
        defaults.share_connection matches Some(b) ==> shares(None, defaults) == b,
        defaults.share_connection is None ==> shares(None, defaults),
        defaults.max_sessions matches Some(n) ==> session_limit(defaults) == n,
        defaults.max_sessions is None ==> session_limit(defaults) == 10,
{
}

/// What is shown of a profile: the number of its connection, which is zero where none stands, no
/// open channels where none stands, and every tunnel that holds a lease, in order.
pub proof fn law_stats_show_the_profile(
    st: ConnStats,
    item: (Seq<char>, PooledConn),
    open: Map<Seq<char>, usize>,
)
    requires
        is_stats(st, item, open),
        item.1.wf(),
    ensures
        st.profile_id@ == item.0,
        st.connect_count == item.1.connect_count,
        item.1.current is Some <==> st.generation > 0,
        item.1.current matches Some(g) ==> st.generation == g && st.generation
            == st.connect_count,
        item.1.current is None ==> st.open_channels == 0,
        item.1.current is Some && open.dom().contains(item.0) ==> st.open_channels
            == open[item.0],
        st.leases@.len() == item.1.leases@.len(),
        forall|i: int|
            0 <= i < st.leases@.len() ==> (#[trigger] st.leases@[i])@
                == item.1.leases@[i].tunnel_id@,
{
    assert(text::texts(st.leases@).len() == tunnels(item.1.leases@).len());
    assert forall|i: int| 0 <= i < st.leases@.len() implies (#[trigger] st.leases@[i])@
        == item.1.leases@[i].tunnel_id@ by {
        assert(text::texts(st.leases@)[i] == tunnels(item.1.leases@)[i]);
    }
}

/// What is said to a tunnel that does not fit gives what is leased out, its own cost, the open
/// channels and the budget, in this order. A profile that is new has no connection, no leases,
/// and made none.
pub proof fn law_refusal_gives_the_numbers(
    committed: nat,
    live: nat,
    cost: nat,
    budget: nat,
    c: PooledConn,
)
    ensures
        text::occurs(
            over_budget_note(committed, live, cost, budget),
            text::decimal(committed) + " + 本次 "@ + text::decimal(cost) + ", 活通道 "@
                + text::decimal(live) + ", 预算 "@ + text::decimal(budget),
        ),
        is_new(c) <==> c.current is None && c.leases@.len() == 0 && c.connect_count == 0,
{
    lemma_numbers_in_note(
        "⚠️ 共享连接预算已满 (租约已承诺 "@,
        text::decimal(committed),
        " + 本次 "@,
        text::decimal(cost),
        ", 活通道 "@,
        text::decimal(live),
        ", 预算 "@,
        text::decimal(budget),
        ") —— 本隧道自动回退为独立连接"@,
    );
}

proof fn lemma_numbers_in_note(
    head: Seq<char>,
    a: Seq<char>,
    m1: Seq<char>,
    b: Seq<char>,
    m2: Seq<char>,
    c: Seq<char>,
    m3: Seq<char>,
    d: Seq<char>,
    end: Seq<char>,
)
    ensures
        text::occurs(
            head + a + m1 + b + m2 + c + m3 + d + end,
            a + m1 + b + m2 + c + m3 + d,
        ),
{
    let x = a + m1 + b + m2 + c + m3 + d;
    assert(head + a + m1 + b + m2 + c + m3 + d =~= head + x);
    text::law_occurrence(head, x, end);
}

} // verus!
