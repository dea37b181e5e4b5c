//! Trust on first use: the key of a server is remembered when it is first seen, and a server
//! that shows another one later is refused.
use crate::model::TunnelError;
use crate::text;
use crate::text::{decimal_text, parse_port, rsplit_once, same_text};
use crate::text_map;
use crate::text_map::TextMap;
use vstd::prelude::*;

verus! {

/// What is remembered of a server's key: its algorithm, and its fingerprint in the form
/// `SHA256:` and base64.
#[derive(Debug, PartialEq, Eq)]
pub struct KnownHost {
    pub algorithm: String,
    pub fingerprint: String,
}

impl Clone for KnownHost {
    fn clone(&self) -> (r: Self)
        ensures
            r == *self,
    {
        KnownHost { algorithm: self.algorithm.clone(), fingerprint: self.fingerprint.clone() }
    }
}

/// The key under which a server is remembered.
pub open spec fn host_key(host: Seq<char>, port: u16) -> Seq<char> {
    host + ":"@ + text::decimal(port as nat)
}

/// The key under which a server is remembered.
pub fn key_of(host: &str, port: u16) -> (r: String)
    ensures
        r@ == host_key(host@, port),
{
    let mut s = host.to_owned();
    s.append(":");
    s.append(decimal_text(port as u64).as_str());
    s
}

/// The server that a key stands for, if it stands for one.
pub open spec fn host_of(key: Seq<char>) -> Option<(Seq<char>, u16)> {
    match text::cut_last(key, ':') {
        Some((host, port)) => match text::port_of(port) {
            Some(p) => Some((host, p)),
            None => None,
        },
        None => None,
    }
}

/// A key stands for the server it was made for, whatever the host's name is.
pub proof fn law_key_round_trip(host: Seq<char>, port: u16)
    ensures
        host_of(host_key(host, port)) == Some((host, port)),
{
    let k = host_key(host, port);
    let n = text::decimal(port as nat);
    reveal_strlit(":");
    text::lemma_decimal_value(port as nat);
    text::lemma_port_round_trip(port);
    let i = host.len() as int;
    assert(k[i] == ':');
    assert forall|j: int| i < j < k.len() implies #[trigger] k[j] != ':' by {
        assert(k[j] == n[j - i - 1]);
        assert(text::is_digit(n[j - i - 1]));
    }
    text::lemma_cut_last(k, ':', i);
    assert(k.take(i) =~= host);
    assert(k.skip(i + 1) =~= n);
}

/// Two servers never share a key: another host or another port is another entry.
pub proof fn law_keys_differ(h1: Seq<char>, p1: u16, h2: Seq<char>, p2: u16)
    requires
        host_key(h1, p1) == host_key(h2, p2),
    ensures
        h1 == h2,
        p1 == p2,
{
    law_key_round_trip(h1, p1);
    law_key_round_trip(h2, p2);
}

/// The servers of a list of entries, in their order. Keys that stand for no server are left
/// out.
pub open spec fn hosts_of(items: Seq<(Seq<char>, KnownHost)>) -> Seq<(Seq<char>, u16, KnownHost)>
    decreases items.len(),
{
    if items.len() == 0 {
        seq![]
    } else {
        let front = hosts_of(items.drop_last());
        match host_of(items.last().0) {
            Some((host, port)) => front.push((host, port, items.last().1)),
            None => front,
        }
    }
}

/// The servers of an executable vector.
pub open spec fn host_items(v: Seq<(String, u16, KnownHost)>) -> Seq<(Seq<char>, u16, KnownHost)> {
    v.map_values(|e: (String, u16, KnownHost)| (e.0@, e.1, e.2))
}

/// The memory of servers' keys. Its view maps keys to what is remembered under them.
pub struct KnownHosts {
    entries: TextMap<KnownHost>,
}

impl View for KnownHosts {
    type V = Map<Seq<char>, KnownHost>;

    closed spec fn view(&self) -> Map<Seq<char>, KnownHost> {
        self.entries@
    }
}

/// The map with the entries of `s` put in one by one.
pub open spec fn with_entries(
    m: Map<Seq<char>, KnownHost>,
    s: Seq<(String, KnownHost)>,
) -> Map<Seq<char>, KnownHost>
    decreases s.len(),
{
    if s.len() == 0 {
        m
    } else {
        with_entries(m, s.drop_last()).insert(s.last().0@, s.last().1)
    }
}

impl KnownHosts {
    /// The representation's invariant.
    pub closed spec fn wf(&self) -> bool {
        self.entries.wf()
    }

    /// The entries in dictionary order of their keys.
    pub closed spec fn items(&self) -> Seq<(Seq<char>, KnownHost)> {
        self.entries.items()
    }

    /// A memory that holds nothing.
    pub fn in_memory() -> (r: Self)
        ensures
            r.wf(),
            r@ == Map::<Seq<char>, KnownHost>::empty(),
    {
        KnownHosts { entries: TextMap::new() }
    }

    /// A memory with the entries of an earlier run. Of two entries with one key the later
    /// one counts.
    pub fn load(entries: Vec<(String, KnownHost)>) -> (r: Self)
        ensures
            r.wf(),
            r@ == with_entries(Map::empty(), entries@),
    {
        let mut r = KnownHosts { entries: TextMap::new() };
        let mut i: usize = 0;
        assert(entries@.take(0) =~= Seq::empty());
        while i < entries.len()
            invariant
                i <= entries.len(),
                r.wf(),
                r@ == with_entries(Map::empty(), entries@.take(i as int)),
            decreases entries.len() - i,
        {
            proof {
                let next = entries@.take(i + 1);
                assert(next.drop_last() =~= entries@.take(i as int));
                assert(next.last() == entries@[i as int]);
            }
            r.entries.insert(entries[i].0.clone(), entries[i].1.clone());
            i = i + 1;
        }
        assert(entries@.take(entries@.len() as int) =~= entries@);
        r
    }

    /// All entries, in dictionary order: what is kept between runs.
    pub fn entries(&self) -> (r: Vec<(String, KnownHost)>)
        requires
            self.wf(),
        ensures
            text_map::ascending(self.items()),
            text_map::map_of(self.items()) == self@,
            r@.len() == self.items().len(),
            forall|i: int|
                0 <= i < r@.len() ==> ((#[trigger] r@[i]).0@, r@[i].1) == self.items()[i],
    {
        let mut out: Vec<(String, KnownHost)> = Vec::new();
        let mut i: usize = 0;
        while i < self.entries.len()
            invariant
                i <= self.items().len(),
                out@.len() == i,
                forall|j: int|
                    0 <= j < i ==> ((#[trigger] out@[j]).0@, out@[j].1) == self.items()[j],
            decreases self.items().len() - i,
        {
            let (k, v) = self.entries.at(i);
            out.push((k.clone(), v.clone()));
            i = i + 1;
        }
        out
    }

    /// What is remembered of a server.
    pub fn known(&self, host: &str, port: u16) -> (r: Option<KnownHost>)
        requires
            self.wf(),
        ensures
            match r {
                Some(e) => self@.dom().contains(host_key(host@, port)) && e == self@[host_key(
                    host@,
                    port,
                )],
                None => !self@.dom().contains(host_key(host@, port)),
            },
    {
        let key = key_of(host, port);
        match self.entries.get(key.as_str()) {
            Some(e) => Some(e.clone()),
            None => None,
        }
    }

    /// All servers that are remembered, in dictionary order of their keys.
    pub fn list(&self) -> (r: Vec<(String, u16, KnownHost)>)
        requires
            self.wf(),
        ensures
            text_map::ascending(self.items()),
            text_map::map_of(self.items()) == self@,
            host_items(r@) == hosts_of(self.items()),
    {
        let mut out: Vec<(String, u16, KnownHost)> = Vec::new();
        let mut i: usize = 0;
        assert(self.items().take(0) =~= Seq::empty());
        assert(host_items(out@) =~= Seq::empty());
        while i < self.entries.len()
            invariant
                i <= self.items().len(),
                host_items(out@) == hosts_of(self.items().take(i as int)),
            decreases self.items().len() - i,
        {
            let (k, v) = self.entries.at(i);
            let ghost before = out@;
            proof {
                let next = self.items().take(i + 1);
                assert(next.drop_last() =~= self.items().take(i as int));
                assert(next.last() == self.items()[i as int]);
            }
            if let Some((host, port)) = rsplit_once(k.as_str(), ':') {
                if let Some(p) = parse_port(port) {
                    let e = (host.to_owned(), p, v.clone());
                    out.push(e);
                    assert(host_items(out@) =~= host_items(before).push((e.0@, e.1, e.2)));
                }
            }
            i = i + 1;
        }
        assert(self.items().take(self.items().len() as int) =~= self.items());
        out
    }

    /// Remembers a server's key, in place of what was remembered.
    pub fn remember(&mut self, host: &str, port: u16, entry: KnownHost)
        requires
            old(self).wf(),
        ensures
            final(self).wf(),
            final(self)@ == old(self)@.insert(host_key(host@, port), entry),
    {
        self.entries.insert(key_of(host, port), entry);
    }

    /// Forgets a server. The result says whether it was remembered.
    pub fn forget(&mut self, host: &str, port: u16) -> (r: bool)
        requires
            old(self).wf(),
        ensures
            final(self).wf(),
            final(self)@ == old(self)@.remove(host_key(host@, port)),
            r == old(self)@.dom().contains(host_key(host@, port)),
    {
        let key = key_of(host, port);
        self.entries.remove(key.as_str()).is_some()
    }
}

// ---------------------------------------------------------------- reading keys
/// The algorithm of a public key in SSH's wire format, if the bytes are one.
pub uninterp spec fn key_algorithm(blob: Seq<u8>) -> Option<Seq<char>>;

/// The SHA-256 fingerprint of a public key in SSH's wire format, if the bytes are one.
pub uninterp spec fn key_fingerprint(blob: Seq<u8>) -> Option<Seq<char>>;

/// `ssh_key::PublicKey::from_bytes` and the name of the key's `algorithm`. Both depend on
/// the bytes alone. There is a result just where the bytes are a key.
#[verifier::external_body]
fn read_algorithm(blob: &[u8]) -> (r: Option<String>)
    ensures
        match r {
            Some(s) => key_algorithm(blob@) == Some(s@),
            None => key_algorithm(blob@) is None,
        },
{
    match ssh_key::PublicKey::from_bytes(blob) {
        Ok(key) => Some(key.algorithm().to_string()),
        Err(_) => None,
    }
}

/// `ssh_key::PublicKey::from_bytes` and the key's `fingerprint` by SHA-256, as text. Both
/// depend on the bytes alone. There is a result just where the bytes are a key.
#[verifier::external_body]
fn read_fingerprint(blob: &[u8]) -> (r: Option<String>)
    ensures
        match r {
            Some(s) => key_fingerprint(blob@) == Some(s@),
            None => key_fingerprint(blob@) is None,
        },
{
    match ssh_key::PublicKey::from_bytes(blob) {
        Ok(key) => Some(key.fingerprint(ssh_key::HashAlg::Sha256).to_string()),
        Err(_) => None,
    }
}

// ---------------------------------------------------------------- checking
/// What was made of a server's key.
#[derive(Debug, PartialEq, Eq)]
pub struct Verdict {
    /// Whether the connection may go on.
    pub accept: bool,
    /// Whether the key is remembered from now on (and the memory to be saved).
    pub remembered: bool,
    /// The line to log, if there is one.
    pub line: Option<String>,
}

/// The line of a server that was seen for the first time.
pub open spec fn first_line(host: Seq<char>, port: u16, fingerprint: Seq<char>) -> Seq<char> {
    "首次连接 "@ + host + ":"@ + text::decimal(port as nat) + ", 已记住服务器指纹 "@ + fingerprint
        + " (TOFU)"@
}

/// The line of a server that shows another key.
pub open spec fn changed_line(
    host: Seq<char>,
    port: u16,
    expected: Seq<char>,
    actual: Seq<char>,
) -> Seq<char> {
    "❌ 服务器 "@ + host + ":"@ + text::decimal(port as nat) + " 主机密钥指纹已变更 (预期 "@
        + expected + ", 实际 "@ + actual + ")"@
}

/// Whether a key with this fingerprint is accepted under `key`.
pub open spec fn accepted(
    m: Map<Seq<char>, KnownHost>,
    key: Seq<char>,
    fingerprint: Seq<char>,
) -> bool {
    m.dom().contains(key) ==> m[key].fingerprint@ == fingerprint
}

/// The memory after a key was shown: a first key is remembered, nothing else changes.
pub open spec fn after_showing(
    m: Map<Seq<char>, KnownHost>,
    key: Seq<char>,
    shown: KnownHost,
) -> Map<Seq<char>, KnownHost> {
    if m.dom().contains(key) {
        m
    } else {
        m.insert(key, shown)
    }
}

/// The line to log when a key is shown: none for a key that is known.
pub open spec fn line_on_showing(
    m: Map<Seq<char>, KnownHost>,
    host: Seq<char>,
    port: u16,
    fingerprint: Seq<char>,
) -> Option<Seq<char>> {
    let key = host_key(host, port);
    if !m.dom().contains(key) {
        Some(first_line(host, port, fingerprint))
    } else if m[key].fingerprint@ != fingerprint {
        Some(changed_line(host, port, m[key].fingerprint@, fingerprint))
    } else {
        None
    }
}

/// The check of one connection's server. A refusal is kept until it is asked for, because
/// the SSH library only takes yes or no.
pub struct HostKeyCheck {
    host: String,
    port: u16,
    mismatch: Option<(String, String)>,
}

impl HostKeyCheck {
    /// The server's host.
    pub closed spec fn host(&self) -> Seq<char> {
        self.host@
    }

    /// The server's port.
    pub closed spec fn port(&self) -> u16 {
        self.port
    }

    /// The refusal that was not asked for yet: the fingerprint that was expected, and the one
    /// that was shown.
    pub closed spec fn refusal(&self) -> Option<(Seq<char>, Seq<char>)> {
        match self.mismatch {
            Some((e, a)) => Some((e@, a@)),
            None => None,
        }
    }

    /// The check of a connection to `host:port`.
    pub fn new(host: &str, port: u16) -> (r: Self)
        ensures
            r.host() == host@,
            r.port() == port,
            r.refusal() is None,
    {
        HostKeyCheck { host: host.to_owned(), port, mismatch: None }
    }

    /// Judges a key by its algorithm and fingerprint: the first key of a server is
    /// remembered, the same key is accepted, another one is refused.
    pub fn observe(
        &mut self,
        known: &mut KnownHosts,
        algorithm: String,
        fingerprint: String,
    ) -> (r: Verdict)
        requires
            old(known).wf(),
        ensures
            final(known).wf(),
            final(self).host() == old(self).host(),
            final(self).port() == old(self).port(),
            r.accept == accepted(
                old(known)@,
                host_key(old(self).host(), old(self).port()),
                fingerprint@,
            ),
            r.remembered == !old(known)@.dom().contains(
                host_key(old(self).host(), old(self).port()),
            ),
            final(known)@ == after_showing(
                old(known)@,
                host_key(old(self).host(), old(self).port()),
                (KnownHost { algorithm, fingerprint }),
            ),
            final(self).refusal() == if r.accept {
                old(self).refusal()
            } else {
                Some(
                    (
                        old(known)@[host_key(old(self).host(), old(self).port())].fingerprint@,
                        fingerprint@,
                    ),
                )
            },
            text::maybe(r.line) == line_on_showing(
                old(known)@,
                old(self).host(),
                old(self).port(),
                fingerprint@,
            ),
    {
        match known.known(self.host.as_str(), self.port) {
            None => {
                let mut line = "首次连接 ".to_owned();
                line.append(self.host.as_str());
                line.append(":");
                line.append(decimal_text(self.port as u64).as_str());
                line.append(", 已记住服务器指纹 ");
                line.append(fingerprint.as_str());
                line.append(" (TOFU)");
                known.remember(
                    self.host.as_str(),
                    self.port,
                    KnownHost { algorithm, fingerprint },
                );
                Verdict { accept: true, remembered: true, line: Some(line) }
            },
            Some(entry) => {
                if same_text(entry.fingerprint.as_str(), fingerprint.as_str()) {
                    return Verdict { accept: true, remembered: false, line: None };
                }
                let mut line = "❌ 服务器 ".to_owned();
                line.append(self.host.as_str());
                line.append(":");
                line.append(decimal_text(self.port as u64).as_str());
                line.append(" 主机密钥指纹已变更 (预期 ");
                line.append(entry.fingerprint.as_str());
                line.append(", 实际 ");
                line.append(fingerprint.as_str());
                line.append(")");
                self.mismatch = Some((entry.fingerprint, fingerprint));
                Verdict { accept: false, remembered: false, line: Some(line) }
            },
        }
    }

    /// Judges the key that a server shows, in SSH's wire format. What is no key is refused,
    /// and nothing is noted of it.
    pub fn verify(&mut self, known: &mut KnownHosts, blob: &[u8]) -> (r: Verdict)
        requires
            old(known).wf(),
        ensures
            final(known).wf(),
            final(self).host() == old(self).host(),
            final(self).port() == old(self).port(),
            match (key_algorithm(blob@), key_fingerprint(blob@)) {
                (Some(a), Some(f)) => {
                    let key = host_key(old(self).host(), old(self).port());
                    &&& r.accept == accepted(old(known)@, key, f)
                    &&& r.remembered == !old(known)@.dom().contains(key)
                    &&& r.remembered ==> {
                        &&& final(known)@ == old(known)@.insert(key, final(known)@[key])
                        &&& final(known)@[key].algorithm@ == a
                        &&& final(known)@[key].fingerprint@ == f
                    }
                    &&& !r.remembered ==> final(known)@ == old(known)@
                    &&& final(self).refusal() == if r.accept {
                        old(self).refusal()
                    } else {
                        Some((old(known)@[key].fingerprint@, f))
                    }
                    &&& text::maybe(r.line) == line_on_showing(
                        old(known)@,
                        old(self).host(),
                        old(self).port(),
                        f,
                    )
                },
                _ => {
                    &&& !r.accept && !r.remembered && r.line is None
                    &&& final(known)@ == old(known)@
                    &&& final(self).refusal() == old(self).refusal()
                },
            },
    {
        match (read_algorithm(blob), read_fingerprint(blob)) {
            (Some(algorithm), Some(fingerprint)) => self.observe(known, algorithm, fingerprint),
            _ => Verdict { accept: false, remembered: false, line: None },
        }
    }

    /// After a connection failed: the error that a refusal stands for, once.
    pub fn take_error(&mut self) -> (r: Option<TunnelError>)
        ensures
            final(self).host() == old(self).host(),
            final(self).port() == old(self).port(),
            final(self).refusal() is None,
            match old(self).refusal() {
                Some((e, a)) => r matches Some(TunnelError::HostKeyChanged {
                    host,
                    expected,
                    actual,
                }) && host@ == host_key(old(self).host(), old(self).port()) && expected@ == e
                    && actual@ == a,
                None => r is None,
            },
    {
        match self.mismatch.take() {
            Some((expected, actual)) => Some(
                TunnelError::HostKeyChanged {
                    host: key_of(self.host.as_str(), self.port),
                    expected,
                    actual,
                },
            ),
            None => None,
        }
    }
}

// ---------------------------------------------------------------- laws
/// Trust on first use: the first key of a server is accepted, from then on that key is
/// accepted and every other one refused, and refusing changes nothing.
pub proof fn law_first_key_sticks(
    m: Map<Seq<char>, KnownHost>,
    key: Seq<char>,
    first: KnownHost,
    later: KnownHost,
)
    requires
        !m.dom().contains(key),
    ensures
        accepted(m, key, first.fingerprint@),
        accepted(after_showing(m, key, first), key, later.fingerprint@) <==> later.fingerprint@
            == first.fingerprint@,
        after_showing(after_showing(m, key, first), key, later) == after_showing(m, key, first),
{
}

/// What one server shows has no bearing on another one, be it another host or another port.
pub proof fn law_servers_apart(
    m: Map<Seq<char>, KnownHost>,
    h1: Seq<char>,
    p1: u16,
    h2: Seq<char>,
    p2: u16,
    shown: KnownHost,
    fingerprint: Seq<char>,
)
    requires
        h1 != h2 || p1 != p2,
    ensures
        accepted(after_showing(m, host_key(h1, p1), shown), host_key(h2, p2), fingerprint)
            == accepted(m, host_key(h2, p2), fingerprint),
{
    if host_key(h1, p1) == host_key(h2, p2) {
        law_keys_differ(h1, p1, h2, p2);
    }
}

/// A server that was forgotten is met for the first time again.
pub proof fn law_forget_renews_trust(
    m: Map<Seq<char>, KnownHost>,
    key: Seq<char>,
    shown: KnownHost,
)
    ensures
        accepted(m.remove(key), key, shown.fingerprint@),
        after_showing(m.remove(key), key, shown)[key] == shown,
{
}

/// Whether no key but the server's own stands for it. So it is of every memory that was filled
/// by `remember`: a key of another form, such as one with a zero in front of the port, can only
/// come from an earlier run's file.
pub open spec fn own_key_only(m: Map<Seq<char>, KnownHost>, host: Seq<char>, port: u16) -> bool {
    forall|k: Seq<char>| #[trigger]
        m.dom().contains(k) && host_of(k) == Some((host, port)) ==> k == host_key(host, port)
}

/// An empty memory has no foreign keys, and remembering or forgetting a server brings none in.
pub proof fn law_keys_stay_own(
    m: Map<Seq<char>, KnownHost>,
    h1: Seq<char>,
    p1: u16,
    entry: KnownHost,
    h2: Seq<char>,
    p2: u16,
)
    ensures
        own_key_only(Map::empty(), h2, p2),
        own_key_only(m, h2, p2) ==> own_key_only(m.insert(host_key(h1, p1), entry), h2, p2),
        own_key_only(m, h2, p2) ==> own_key_only(m.remove(host_key(h1, p1)), h2, p2),
{
    law_key_round_trip(h1, p1);
}

/// The list of servers holds every remembered server exactly once, with what is remembered of
/// it, and no server that is not remembered.
pub proof fn law_list_holds_each_once(
    items: Seq<(Seq<char>, KnownHost)>,
    host: Seq<char>,
    port: u16,
)
    requires
        text_map::ascending(items),
        own_key_only(text_map::map_of(items), host, port),
    ensures
        ({
            let m = text_map::map_of(items);
            let key = host_key(host, port);
            let l = hosts_of(items);
            &&& m.dom().contains(key) ==> l.contains((host, port, m[key]))
            &&& forall|i: int|
                0 <= i < l.len() && (#[trigger] l[i]).0 == host && l[i].1 == port
                    ==> m.dom().contains(key) && l[i].2 == m[key]
            &&& forall|i: int, j: int|
                0 <= i < j < l.len() && (#[trigger] l[i]).0 == host && l[i].1 == port ==> !((
                #[trigger] l[j]).0 == host && l[j].1 == port)
        }),
{
    let m = text_map::map_of(items);
    let key = host_key(host, port);
    let l = hosts_of(items);
    assert forall|i: int, j: int| 0 <= i < j < items.len() implies (#[trigger] items[i]).0
        != (#[trigger] items[j]).0 by {
        assert(text_map::precedes(items[i].0, items[j].0));
        text_map::lemma_irreflexive(items[i].0);
    }
    assert forall|i: int|
        0 <= i < items.len() && host_of((#[trigger] items[i]).0) == Some((host, port)) implies
        items[i].0 == key by {
        text_map::lemma_map_of(items, i);
        assert(m.dom().contains(items[i].0));
    }
    lemma_hosts_of(items, host, port);
    assert forall|i: int|
        0 <= i < l.len() && (#[trigger] l[i]).0 == host && l[i].1 == port implies
        m.dom().contains(key) && l[i].2 == m[key] by {
        let x = choose|x: int| 0 <= x < items.len() && #[trigger] items[x] == (key, l[i].2);
        text_map::lemma_map_of(items, x);
    }
    if m.dom().contains(key) {
        let x = choose|x: int| 0 <= x < items.len() && #[trigger] items[x].0 == key;
        text_map::lemma_map_of(items, x);
        assert(items[x] == (key, m[key]));
        assert(items.contains((key, m[key])));
    }
}

proof fn lemma_hosts_of(items: Seq<(Seq<char>, KnownHost)>, host: Seq<char>, port: u16)
    requires
        forall|i: int, j: int|
            0 <= i < j < items.len() ==> (#[trigger] items[i]).0 != (#[trigger] items[j]).0,
        forall|i: int|
            0 <= i < items.len() && host_of((#[trigger] items[i]).0) == Some((host, port))
                ==> items[i].0 == host_key(host, port),
    ensures
        ({
            let key = host_key(host, port);
            let l = hosts_of(items);
            &&& forall|e: KnownHost|
                #[trigger] items.contains((key, e)) ==> l.contains((host, port, e))
            &&& forall|i: int|
                0 <= i < l.len() && (#[trigger] l[i]).0 == host && l[i].1 == port
                    ==> items.contains((key, l[i].2))
            &&& forall|i: int, j: int|
                0 <= i < j < l.len() && (#[trigger] l[i]).0 == host && l[i].1 == port ==> !((
                #[trigger] l[j]).0 == host && l[j].1 == port)
        }),
    decreases items.len(),
{
    if items.len() > 0 {
        let key = host_key(host, port);
        let front = items.drop_last();
        let last = items.last();
        let lf = hosts_of(front);
        let l = hosts_of(items);
        lemma_hosts_of(front, host, port);
        law_key_round_trip(host, port);
        assert(items[items.len() - 1] == last);
        assert(last.0 == key ==> host_of(last.0) == Some((host, port)));
        assert(host_of(last.0) == Some((host, port)) ==> last.0 == key);
        assert forall|e: KnownHost| #[trigger] items.contains((key, e)) implies l.contains(
            (host, port, e),
        ) by {
            let x = choose|x: int| 0 <= x < items.len() && items[x] == (key, e);
            if x < front.len() {
                assert(front[x] == (key, e));
                assert(front.contains((key, e)));
                let y = choose|y: int| 0 <= y < lf.len() && lf[y] == (host, port, e);
                assert(l[y] == (host, port, e));
            } else {
                assert(l[l.len() - 1] == (host, port, e));
            }
        }
        assert forall|i: int|
            0 <= i < l.len() && (#[trigger] l[i]).0 == host && l[i].1 == port implies
            items.contains((key, l[i].2)) by {
            if i < lf.len() {
                assert(lf[i] == l[i]);
                let x = choose|x: int| 0 <= x < front.len() && front[x] == (key, l[i].2);
                assert(items[x] == (key, l[i].2));
            } else {
                assert(items[items.len() - 1] == (key, l[i].2));
            }
        }
        assert forall|i: int, j: int|
            0 <= i < j < l.len() && (#[trigger] l[i]).0 == host && l[i].1 == port implies !((
        #[trigger] l[j]).0 == host && l[j].1 == port) by {
            assert(lf[i] == l[i]);
            if j < lf.len() {
                assert(lf[j] == l[j]);
            } else if l[j].0 == host && l[j].1 == port {
                let x = choose|x: int| 0 <= x < front.len() && front[x] == (key, l[i].2);
                assert(items[x].0 == key);
                assert(last.0 == key);
            }
        }
    }
}

/// The memory after a server showed these keys one after the other, and the refusal that is kept
/// then.
pub open spec fn after_checks(m: Map<Seq<char>, KnownHost>, key: Seq<char>, shown: Seq<KnownHost>) -> (
    Map<Seq<char>, KnownHost>,
    Option<(Seq<char>, Seq<char>)>,
)
    decreases shown.len(),
{
    if shown.len() == 0 {
        (m, None)
    } else {
        let before = after_checks(m, key, shown.drop_last());
        let next = shown.last();
        (
            after_showing(before.0, key, next),
            if accepted(before.0, key, next.fingerprint@) {
                before.1
            } else {
                Some((before.0[key].fingerprint@, next.fingerprint@))
            },
        )
    }
}

/// The fingerprint that a server is held to: the remembered one, or else the first it shows.
pub open spec fn held_to(m: Map<Seq<char>, KnownHost>, key: Seq<char>, first: KnownHost) -> Seq<
    char,
> {
    if m.dom().contains(key) {
        m[key].fingerprint@
    } else {
        first.fingerprint@
    }
}

/// After several checks there is an error to take just where one of them failed. It names the
/// fingerprint that the server is held to, and the one that was refused last, even where the
/// right key was shown since. The memory is what the first check made of it.
#[verifier::spinoff_prover]
#[verifier::rlimit(40)]
pub proof fn law_last_refusal_is_kept(
    m: Map<Seq<char>, KnownHost>,
    key: Seq<char>,
    shown: Seq<KnownHost>,
)
    requires
        shown.len() > 0,
    ensures
        ({
            let right = held_to(m, key, shown[0]);
            let after = after_checks(m, key, shown);
            &&& after.0 == after_showing(m, key, shown[0])
            &&& after.1 is None <==> forall|i: int|
                0 <= i < shown.len() ==> (#[trigger] shown[i]).fingerprint@ == right
            &&& forall|k: int|
                0 <= k < shown.len() && (#[trigger] shown[k]).fingerprint@ != right && (forall|
                    j: int,
                |
                    k < j < shown.len() ==> (#[trigger] shown[j]).fingerprint@ == right)
                    ==> after.1 == Some((right, shown[k].fingerprint@))
        }),
    decreases shown.len(),
{
    let right = held_to(m, key, shown[0]);
    let front = shown.drop_last();
    let n = shown.len() - 1;
    assert(shown[n] == shown.last());
    if front.len() == 0 {
        assert(after_checks(m, key, front) == (m, None::<(Seq<char>, Seq<char>)>));
    } else {
        law_last_refusal_is_kept(m, key, front);
        assert(front[0] == shown[0]);
        let before = after_checks(m, key, front);
        let after = after_checks(m, key, shown);
        assert(before.0.dom().contains(key) && before.0[key].fingerprint@ == right);
        assert(forall|i: int| 0 <= i < n ==> front[i] == #[trigger] shown[i]);
        if shown[n].fingerprint@ == right {
            assert(after.1 == before.1);
            if before.1 is None {
                assert forall|i: int| 0 <= i < shown.len() implies (
                #[trigger] shown[i]).fingerprint@ == right by {
                    if i < n {
                        assert(front[i].fingerprint@ == right);
                    }
                }
            } else {
                let i = choose|i: int|
                    0 <= i < front.len() && (#[trigger] front[i]).fingerprint@ != right;
                assert(shown[i].fingerprint@ != right);
            }
            assert forall|k: int|
                0 <= k < shown.len() && (#[trigger] shown[k]).fingerprint@ != right && (forall|
                    j: int,
                |
                    k < j < shown.len() ==> (#[trigger] shown[j]).fingerprint@
                        == right) implies after.1 == Some((right, shown[k].fingerprint@)) by {
                assert(front[k].fingerprint@ != right);
                assert forall|j: int| k < j < front.len() implies (
                #[trigger] front[j]).fingerprint@ == right by {
                    assert(shown[j].fingerprint@ == right);
                }
            }
        } else {
            assert(after.1 == Some((right, shown[n].fingerprint@)));
        }
    }
}

/// The key of a server is its host, a colon, and the numeral of its port.
pub proof fn law_key_is_host_and_port(host: Seq<char>, port: u16)
    ensures
        host.is_prefix_of(host_key(host, port)),
        host_key(host, port)[host.len() as int] == ':',
        text::all_digits(host_key(host, port).skip(host.len() as int + 1)),
        text::digits_value(host_key(host, port).skip(host.len() as int + 1)) == port,
{
    let k = host_key(host, port);
    reveal_strlit(":");
    text::lemma_decimal_value(port as nat);
    assert(k.take(host.len() as int) =~= host);
    assert(k.skip(host.len() as int + 1) =~= text::decimal(port as nat));
}

/// Trust on first use, check by check: a server that is not remembered is accepted and
/// remembered as it shows itself; one that is remembered is accepted exactly where it shows the
/// remembered fingerprint, and what is remembered stays. Something is logged exactly where the
/// server is new or shows another key, and then with the fingerprint it shows.
pub proof fn law_trust_on_first_use(
    m: Map<Seq<char>, KnownHost>,
    host: Seq<char>,
    port: u16,
    shown: KnownHost,
    other: Seq<char>,
)
    ensures
        ({
            let key = host_key(host, port);
            let f = shown.fingerprint@;
            let after = after_showing(m, key, shown);
            let line = line_on_showing(m, host, port, f);
            &&& !m.dom().contains(key) ==> {
                &&& accepted(m, key, f)
                &&& after.dom().contains(key) && after[key] == shown
                &&& line matches Some(l) && text::occurs(l, f)
            }
            &&& m.dom().contains(key) ==> {
                &&& accepted(m, key, f) <==> f == m[key].fingerprint@
                &&& after == m
                &&& line is None <==> f == m[key].fingerprint@
                &&& line matches Some(l) ==> text::occurs(
                    l,
                    m[key].fingerprint@ + ", 实际 "@ + f,
                )
            }
            &&& other != key ==> after.dom().contains(other) == m.dom().contains(other) && (
            m.dom().contains(other) ==> after[other] == m[other])
        }),
{
    let key = host_key(host, port);
    let f = shown.fingerprint@;
    let n = text::decimal(port as nat);
    if !m.dom().contains(key) {
        let front = "首次连接 "@ + host + ":"@ + n + ", 已记住服务器指纹 "@;
        text::law_occurrence(front, f, " (TOFU)"@);
    } else if f != m[key].fingerprint@ {
        let e = m[key].fingerprint@;
        let front = "❌ 服务器 "@ + host + ":"@ + n + " 主机密钥指纹已变更 (预期 "@;
        lemma_pair_in_line(front, e, ", 实际 "@, f, ")"@);
    }
}

proof fn lemma_pair_in_line(
    front: Seq<char>,
    a: Seq<char>,
    mid: Seq<char>,
    b: Seq<char>,
    end: Seq<char>,
)
    ensures
        text::occurs(front + a + mid + b + end, a + mid + b),
{
    let x = a + mid + b;
    assert(front + a + mid + b =~= front + x);
    text::law_occurrence(front, x, end);
}

/// Of entries that are loaded with one key the last one counts, and every key is there.
pub proof fn law_last_entry_counts(
    m: Map<Seq<char>, KnownHost>,
    s: Seq<(String, KnownHost)>,
    e: (String, KnownHost),
    other: Seq<char>,
)
    ensures
        with_entries(m, Seq::empty()) == m,
        with_entries(m, s.push(e)).dom().contains(e.0@),
        with_entries(m, s.push(e))[e.0@] == e.1,
        other != e.0@ ==> with_entries(m, s.push(e)).dom().contains(other) == with_entries(
            m,
            s,
        ).dom().contains(other),
        other != e.0@ && with_entries(m, s).dom().contains(other) ==> with_entries(
            m,
            s.push(e),
        )[other] == with_entries(m, s)[other],
{
    assert(s.push(e).drop_last() =~= s);
}

} // verus!
