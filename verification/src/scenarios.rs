//! The user's own scenarios: tunnel templates without a server, saved under a name.
use crate::keyed::Keyed;
use crate::model::{Backend, TunnelKind};
use crate::text;
use crate::text::decimal_text;
use vstd::prelude::*;

verus! {

/// A saved tunnel template.
#[derive(Debug, PartialEq, Eq)]
pub struct Scenario {
    /// A UUID; blank for one that was never saved.
    pub id: String,
    pub name: String,
    /// One line about it; blank to have it made when saved.
    pub description: String,
    pub kind: TunnelKind,
    /// Where a reverse tunnel lands.
    pub backend: Backend,
}

impl Clone for Scenario {
    fn clone(&self) -> (r: Self)
        ensures
            r == *self,
    {
        Scenario {
            id: self.id.clone(),
            name: self.name.clone(),
            description: self.description.clone(),
            kind: self.kind.clone(),
            backend: self.backend.clone(),
        }
    }
}

impl Keyed for Scenario {
    open spec fn key(&self) -> Seq<char> {
        self.id@
    }

    fn id(&self) -> (r: &str) {
        self.id.as_str()
    }
}

/// What follows a reverse tunnel's port: a remark where the server chooses it.
pub open spec fn port_remark(port: u16) -> Seq<char> {
    if port == 0 {
        " (动态分配)"@
    } else {
        ""@
    }
}

/// A tunnel's shape and landing in one line.
pub open spec fn summary(kind: TunnelKind, backend: Backend) -> Seq<char> {
    match kind {
        TunnelKind::Reverse { port, .. } => match backend {
            Backend::SocksAuto { fallback_port } => "反向 → 本机 SOCKS (自动探测 VPN, 备用 "@
                + text::decimal(fallback_port as nat) + "); 服务器端口 "@ + text::decimal(
                port as nat,
            ) + port_remark(port),
            Backend::Tcp(host, lport) => "反向 → 本机 "@ + host@ + ":"@ + text::decimal(
                lport as nat,
            ) + "; 服务器端口 "@ + text::decimal(port as nat) + port_remark(port),
        },
        TunnelKind::Local { port, target_host, target_port, .. } => "本地 → 本机 :"@
            + text::decimal(port as nat) + " → "@ + target_host@ + ":"@ + text::decimal(
            target_port as nat,
        ),
        TunnelKind::Dynamic { port, .. } => "动态 → 本机 SOCKS5 :"@ + text::decimal(
            port as nat,
        ) + " (访问服务器内网)"@,
    }
}

impl Scenario {
    /// The scenario in one line.
    pub fn describe(&self) -> (r: String)
        ensures
            r@ == summary(self.kind, self.backend),
    {
        match &self.kind {
            TunnelKind::Reverse { port, .. } => {
                let mut s = match &self.backend {
                    Backend::SocksAuto { fallback_port } => {
                        let mut s = "反向 → 本机 SOCKS (自动探测 VPN, 备用 ".to_owned();
                        s.append(decimal_text(*fallback_port as u64).as_str());
                        s.append("); 服务器端口 ");
                        s
                    },
                    Backend::Tcp(host, lport) => {
                        let mut s = "反向 → 本机 ".to_owned();
                        s.append(host.as_str());
                        s.append(":");
                        s.append(decimal_text(*lport as u64).as_str());
                        s.append("; 服务器端口 ");
                        s
                    },
                };
                s.append(decimal_text(*port as u64).as_str());
                s.append(
                    if *port == 0 {
                        " (动态分配)"
                    } else {
                        ""
                    },
                );
                s
            },
            TunnelKind::Local { port, target_host, target_port, .. } => {
                let mut s = "本地 → 本机 :".to_owned();
                s.append(decimal_text(*port as u64).as_str());
                s.append(" → ");
                s.append(target_host.as_str());
                s.append(":");
                s.append(decimal_text(*target_port as u64).as_str());
                s
            },
            TunnelKind::Dynamic { port, .. } => {
                let mut s = "动态 → 本机 SOCKS5 :".to_owned();
                s.append(decimal_text(*port as u64).as_str());
                s.append(" (访问服务器内网)");
                s
            },
        }
    }
}

// ---------------------------------------------------------------- laws
/// The line about a scenario names the ports and the addresses that matter: where this machine
/// listens and what it reaches, or where the server listens and where that lands. A port that
/// the server chooses is remarked on.
pub proof fn law_summary_names_addresses(kind: TunnelKind, backend: Backend)
    ensures
        match kind {
            TunnelKind::Local { port, target_host, target_port, .. } => text::occurs(
                summary(kind, backend),
                text::decimal(port as nat),
            ) && text::ends_in(
                summary(kind, backend),
                target_host@ + ":"@ + text::decimal(target_port as nat),
            ),
            TunnelKind::Dynamic { port, .. } => text::occurs(
                summary(kind, backend),
                text::decimal(port as nat),
            ),
            TunnelKind::Reverse { port, .. } => {
                &&& text::ends_in(
                    summary(kind, backend),
                    text::decimal(port as nat) + if port == 0 {
                        " (动态分配)"@
                    } else {
                        ""@
                    },
                )
                &&& match backend {
                    Backend::Tcp(host, lport) => text::occurs(
                        summary(kind, backend),
                        host@ + ":"@ + text::decimal(lport as nat),
                    ),
                    Backend::SocksAuto { fallback_port } => text::occurs(
                        summary(kind, backend),
                        text::decimal(fallback_port as nat),
                    ),
                }
            },
        },
{
    let s = summary(kind, backend);
    match kind {
        TunnelKind::Local { port, target_host, target_port, .. } => {
            let n = text::decimal(port as nat);
            let target = target_host@ + ":"@ + text::decimal(target_port as nat);
            text::lemma_says("本地 → 本机 :"@, n, " → "@, target);
            assert("本地 → 本机 :"@ + n + " → "@ + target =~= s);
        },
        TunnelKind::Dynamic { port, .. } => {
            text::law_occurrence(
                "动态 → 本机 SOCKS5 :"@,
                text::decimal(port as nat),
                " (访问服务器内网)"@,
            );
        },
        TunnelKind::Reverse { port, .. } => {
            let end = text::decimal(port as nat) + port_remark(port);
            match backend {
                Backend::Tcp(host, lport) => {
                    let at = host@ + ":"@ + text::decimal(lport as nat);
                    text::lemma_says("反向 → 本机 "@, at, "; 服务器端口 "@, end);
                    assert("反向 → 本机 "@ + at + "; 服务器端口 "@ + end =~= s);
                },
                Backend::SocksAuto { fallback_port } => {
                    let head = "反向 → 本机 SOCKS (自动探测 VPN, 备用 "@;
                    let at = text::decimal(fallback_port as nat);
                    text::lemma_says(head, at, "); 服务器端口 "@, end);
                    assert(head + at + "); 服务器端口 "@ + end =~= s);
                },
            }
        },
    }
}

} // verus!
