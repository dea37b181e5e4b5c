//! Finding a local SOCKS proxy: VPN clients usually listen on one of a few ports.
use crate::bytes::same_bytes;
use vstd::prelude::*;

verus! {

/// The ports that are tried, in this order.
pub const CANDIDATES: [u16; 13] = [
    10808,
    10809,
    7890,
    7892,
    7891,
    1080,
    1081,
    20170,
    20171,
    20172,
    2080,
    2081,
    9090,
];

/// The greeting of a SOCKS5 client that offers one method: no authentication.
pub const GREETING: [u8; 3] = [5, 1, 0];

/// The answer of a SOCKS5 server that takes it.
pub const ANSWER: [u8; 2] = [5, 0];

/// What was found at a port.
#[derive(Debug, PartialEq, Eq)]
pub enum Finding {
    /// Nothing answers, or not in time.
    Silent,
    /// Something answers. These are the two bytes that followed the greeting; none where
    /// they did not come in time.
    Answering(Option<Vec<u8>>),
}

/// What is reported of a port.
#[derive(Debug, Clone, Copy, PartialEq, Eq, Structural)]
pub struct ProbeResult {
    pub port: u16,
    pub tcp_reachable: bool,
    pub socks5_confirmed: bool,
}

/// Whether a finding is a SOCKS5 server that takes the greeting.
pub open spec fn is_socks5(f: Finding) -> bool {
    f matches Finding::Answering(Some(a)) && a@ == ANSWER@
}

/// What is reported of the ports that answer, in the order in which they were tried.
pub open spec fn report(found: Seq<(u16, Finding)>) -> Seq<ProbeResult>
    decreases found.len(),
{
    if found.len() == 0 {
        seq![]
    } else {
        let rest = report(found.drop_last());
        let (port, f) = found.last();
        if f is Answering {
            rest.push(
                ProbeResult { port, tcp_reachable: true, socks5_confirmed: is_socks5(f) },
            )
        } else {
            rest
        }
    }
}

/// Reports what was found.
pub fn probe_local_proxy(found: &Vec<(u16, Finding)>) -> (r: Vec<ProbeResult>)
    ensures
        r@ == report(found@),
{
    let mut out: Vec<ProbeResult> = Vec::new();
    let mut i: usize = 0;
    assert(found@.take(0) =~= Seq::empty());
    while i < found.len()
        invariant
            i <= found.len(),
            out@ == report(found@.take(i as int)),
        decreases found.len() - i,
    {
        proof {
            assert(found@.take(i + 1).drop_last() =~= found@.take(i as int));
            assert(found@.take(i + 1).last() == found@[i as int]);
        }
        let e = &found[i];
        match &e.1 {
            Finding::Silent => {},
            Finding::Answering(a) => {
                let confirmed = match a {
                    Some(a) => same_bytes(a.as_slice(), &ANSWER),
                    None => false,
                };
                out.push(
                    ProbeResult { port: e.0, tcp_reachable: true, socks5_confirmed: confirmed },
                );
            },
        }
        i = i + 1;
    }
    assert(found@.take(found@.len() as int) =~= found@);
    out
}

/// Whether `i` is the first confirmed SOCKS5 port.
pub open spec fn is_first_confirmed(s: Seq<ProbeResult>, i: int) -> bool {
    0 <= i < s.len() && s[i].socks5_confirmed && forall|j: int|
        0 <= j < i ==> !(#[trigger] s[j]).socks5_confirmed
}

/// The first confirmed SOCKS5 port.
pub open spec fn first_confirmed(s: Seq<ProbeResult>) -> Option<u16> {
    if exists|i: int| is_first_confirmed(s, i) {
        Some(s[choose|i: int| is_first_confirmed(s, i)].port)
    } else {
        None
    }
}

/// Finds the first confirmed SOCKS5 port.
pub fn confirmed_port(results: &Vec<ProbeResult>) -> (r: Option<u16>)
    ensures
        r == first_confirmed(results@),
        r is None <==> forall|i: int|
            0 <= i < results@.len() ==> !(#[trigger] results@[i]).socks5_confirmed,
{
    let mut i: usize = 0;
    while i < results.len()
        invariant
            i <= results.len(),
            forall|j: int| 0 <= j < i ==> !(#[trigger] results@[j]).socks5_confirmed,
        decreases results.len() - i,
    {
        if results[i].socks5_confirmed {
            proof {
                assert(is_first_confirmed(results@, i as int));
                let k = choose|k: int| is_first_confirmed(results@, k);
                assert(is_first_confirmed(results@, k));
                assert(k == i) by {
                    if k < i {
                        assert(!results@[k].socks5_confirmed);
                    } else if i < k {
                        assert(!results@[i as int].socks5_confirmed);
                    }
                }
            }
            return Some(results[i].port);
        }
        i = i + 1;
    }
    None
}

/// Every port that is reported answered, and a port that is taken for SOCKS5 gave the
/// answer of one.
pub proof fn law_reported_ports_answered(found: Seq<(u16, Finding)>, i: int)
    requires
        0 <= i < report(found).len(),
    ensures
        report(found)[i].tcp_reachable,
        exists|j: int|
            0 <= j < found.len() && (#[trigger] found[j]).0 == report(found)[i].port && found[j].1
                is Answering && is_socks5(found[j].1) == report(found)[i].socks5_confirmed,
    decreases found.len(),
{
    let rest = report(found.drop_last());
    if i < rest.len() {
        law_reported_ports_answered(found.drop_last(), i);
        let j = choose|j: int|
            0 <= j < found.drop_last().len() && (#[trigger] found.drop_last()[j]).0 == rest[i].port
                && found.drop_last()[j].1 is Answering && is_socks5(found.drop_last()[j].1)
                == rest[i].socks5_confirmed;
        assert(found[j] == found.drop_last()[j]);
    } else {
        assert(found[found.len() - 1] == found.last());
    }
}

/// A port is reported exactly where something answers, in the order in which the ports were
/// tried, and it is taken for SOCKS5 exactly where the answer was five, zero: version five, no
/// authentication.
pub proof fn law_answering_ports_are_reported(found: Seq<(u16, Finding)>, port: u16, f: Finding)
    ensures
        report(Seq::empty()).len() == 0,
        f is Silent ==> report(found.push((port, f))) == report(found),
        f is Answering ==> {
            let r = report(found.push((port, f)));
            &&& r.len() == report(found).len() + 1
            &&& r.drop_last() == report(found)
            &&& r.last().port == port
            &&& r.last().tcp_reachable
            &&& r.last().socks5_confirmed <==> (f matches Finding::Answering(Some(a)) && a@
                == seq![5u8, 0u8])
        },
{
    let all = found.push((port, f));
    assert(all.drop_last() =~= found);
    assert(all.last() == (port, f));
    assert(ANSWER@ =~= seq![5u8, 0u8]);
    if f is Answering {
        assert(report(all).drop_last() =~= report(found));
    }
}

/// The port that is taken is the first that was confirmed: it is one of the results, it was
/// confirmed, and none in front of it was. None is taken where none was confirmed.
pub proof fn law_first_confirmed_port(s: Seq<ProbeResult>)
    ensures
        match first_confirmed(s) {
            Some(p) => exists|i: int|
                0 <= i < s.len() && (#[trigger] s[i]).port == p && s[i].socks5_confirmed && forall|
                    j: int,
                |
                    0 <= j < i ==> !(#[trigger] s[j]).socks5_confirmed,
            None => forall|i: int| 0 <= i < s.len() ==> !(#[trigger] s[i]).socks5_confirmed,
        },
    decreases s.len(),
{
    if exists|i: int| is_first_confirmed(s, i) {
        let i = choose|i: int| is_first_confirmed(s, i);
        assert(is_first_confirmed(s, i));
    } else if exists|i: int| 0 <= i < s.len() && (#[trigger] s[i]).socks5_confirmed {
        let i = choose|i: int| 0 <= i < s.len() && (#[trigger] s[i]).socks5_confirmed;
        lemma_some_is_first(s, i);
    }
}

proof fn lemma_some_is_first(s: Seq<ProbeResult>, i: int)
    requires
        0 <= i < s.len(),
        s[i].socks5_confirmed,
    ensures
        exists|k: int| is_first_confirmed(s, k),
    decreases i,
{
    if forall|j: int| 0 <= j < i ==> !(#[trigger] s[j]).socks5_confirmed {
        assert(is_first_confirmed(s, i));
    } else {
        let j = choose|j: int| 0 <= j < i && (#[trigger] s[j]).socks5_confirmed;
        lemma_some_is_first(s, j);
    }
}

} // verus!
