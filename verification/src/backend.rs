//! Where the traffic of a reverse tunnel lands: a fixed address, or a SOCKS server, a VPN
//! client's if one is found and a built-in one if not. All tunnels share one built-in server.
use crate::model::{Backend, TunnelError};
use crate::probe;
use crate::probe::{confirmed_port, ProbeResult};
use crate::socks;
use crate::socks::{start_socks_server, StartFailure};
use crate::text;
use crate::text::decimal_text;
use vstd::prelude::*;

verus! {

/// What resolving a landing asks for.
#[derive(Debug, PartialEq, Eq)]
pub enum BackendAction {
    /// This is the landing.
    Use { host: String, port: u16 },
    /// Probe the local ports for a SOCKS proxy.
    Probe { fallback_port: u16 },
    /// Start the built-in server on this port; first stop the one that runs, if it is to be
    /// stopped.
    Start { port: u16, stop_old: bool },
}

/// The built-in server, if it runs.
#[derive(Debug, PartialEq, Eq)]
pub struct BackendPool {
    socks: Option<u16>,
}

/// What is done once the ports are probed. `running` is the port of the built-in server.
pub enum Probed {
    /// A VPN client's port is used.
    Found(u16),
    /// The built-in server that runs is used.
    Kept(u16),
    /// The built-in server is started, and the old one stopped if there is one.
    Started { stop_old: bool },
}

/// What is done once the ports are probed: a VPN client's port first, then a built-in server
/// on the wanted port.
pub open spec fn after_probe(
    running: Option<u16>,
    fallback_port: u16,
    found: Option<u16>,
) -> Probed {
    match found {
        Some(p) => Probed::Found(p),
        None => match running {
            Some(p) if p == fallback_port => Probed::Kept(p),
            _ => Probed::Started { stop_old: running is Some },
        },
    }
}

/// Whether an action uses a port of this machine.
pub open spec fn uses_local(a: BackendAction, p: u16) -> bool {
    a matches BackendAction::Use { host, port } && host@ == "127.0.0.1"@ && port == p
}

impl BackendPool {
    /// The port of the built-in server that runs.
    pub closed spec fn running(&self) -> Option<u16> {
        self.socks
    }

    /// No built-in server.
    pub fn new() -> (r: Self)
        ensures
            r.running() is None,
    {
        BackendPool { socks: None }
    }

    /// Begins to resolve a landing. A fixed address needs nothing.
    pub fn resolve_reverse(&self, backend: &Backend) -> (r: BackendAction)
        ensures
            match *backend {
                Backend::Tcp(host, port) => r == (BackendAction::Use { host, port }),
                Backend::SocksAuto { fallback_port } => r == (BackendAction::Probe {
                    fallback_port,
                }),
            },
    {
        match backend {
            Backend::Tcp(host, port) => BackendAction::Use { host: host.clone(), port: *port },
            Backend::SocksAuto { fallback_port } => BackendAction::Probe {
                fallback_port: *fallback_port,
            },
        }
    }

    /// Takes what the probe reports. Comes with the line to log, if there is one. A server
    /// that is to be stopped counts as stopped.
    pub fn on_probed(&mut self, fallback_port: u16, results: &Vec<ProbeResult>) -> (r: (
        BackendAction,
        Option<String>,
    ))
        ensures
            match after_probe(old(self).running(), fallback_port, probe::first_confirmed(results@)) {
                Probed::Found(p) => {
                    &&& uses_local(r.0, p)
                    &&& text::maybe(r.1) == Some(
                        "发现 VPN 自带 SOCKS 端口 "@ + text::decimal(p as nat)
                            + " (SOCKS5 确认), 直接复用"@,
                    )
                    &&& final(self).running() == old(self).running()
                },
                Probed::Kept(p) => {
                    &&& uses_local(r.0, p)
                    &&& r.1 is None
                    &&& final(self).running() == old(self).running()
                },
                Probed::Started { stop_old } => {
                    &&& r.0 == (BackendAction::Start { port: fallback_port, stop_old })
                    &&& text::maybe(r.1) == Some(
                        "未发现 VPN 代理端口, 启动内置 SOCKS5 服务器 (127.0.0.1:"@ + text::decimal(
                            fallback_port as nat,
                        ) + ")"@,
                    )
                    &&& final(self).running() is None
                },
            },
    {
        if let Some(p) = confirmed_port(results) {
            let mut line = "发现 VPN 自带 SOCKS 端口 ".to_owned();
            line.append(decimal_text(p as u64).as_str());
            line.append(" (SOCKS5 确认), 直接复用");
            return (BackendAction::Use { host: "127.0.0.1".to_owned(), port: p }, Some(line));
        }
        let mut stop_old = false;
        if let Some(p) = self.socks {
            if p == fallback_port {
                return (BackendAction::Use { host: "127.0.0.1".to_owned(), port: p }, None);
            }
            stop_old = true;
            self.socks = None;
        }
        let mut line = "未发现 VPN 代理端口, 启动内置 SOCKS5 服务器 (127.0.0.1:".to_owned();
        line.append(decimal_text(fallback_port as u64).as_str());
        line.append(")");
        (BackendAction::Start { port: fallback_port, stop_old }, Some(line))
    }

    /// Takes the outcome of starting the built-in server: the landing, or an error that is
    /// final for the tunnel.
    pub fn on_started(&mut self, port: u16, bound: Result<u16, StartFailure>) -> (r: Result<
        (String, u16),
        TunnelError,
    >)
        ensures
            match bound {
                Ok(p) => {
                    &&& final(self).running() == Some(p)
                    &&& r matches Ok(t) && t.0@ == "127.0.0.1"@ && t.1 == p
                },
                Err(f) => {
                    &&& final(self).running() == old(self).running()
                    &&& r matches Err(TunnelError::PortInUse { port: q, reason }) && q == port
                        && reason@ == socks::start_failure_text(port, f)
                },
            },
    {
        match start_socks_server(port, bound) {
            Ok(p) => {
                self.socks = Some(p);
                Ok(("127.0.0.1".to_owned(), p))
            },
            Err(e) => Err(e),
        }
    }
}

impl Default for BackendPool {
    fn default() -> (r: Self)
        ensures
            r.running() is None,
    {
        BackendPool::new()
    }
}

/// While a built-in server runs on the wanted port it is kept, and a VPN client's port
/// always comes first.
pub proof fn law_one_builtin_server(port: u16, found: Option<u16>)
    ensures
        after_probe(Some(port), port, found) == match found {
            Some(p) => Probed::Found(p),
            None => Probed::Kept(port),
        },
{
}

/// Where a reverse tunnel lands: on a VPN client's port, if one was found, whatever runs; else on
/// the built-in server, if it runs on the wanted port; else on a built-in server that is
/// started, and one that runs on another port is stopped first. So two never run.
pub proof fn law_landing_is_chosen(running: Option<u16>, fallback_port: u16, found: Option<u16>)
    ensures
        match found {
            Some(p) => after_probe(running, fallback_port, found) == Probed::Found(p),
            None => match running {
                Some(q) => after_probe(running, fallback_port, found) == if q == fallback_port {
                    Probed::Kept(fallback_port)
                } else {
                    Probed::Started { stop_old: true }
                },
                None => after_probe(running, fallback_port, found) == (Probed::Started {
                    stop_old: false,
                }),
            },
        },
{
}

/// What is found is used on this machine, on that very port.
pub proof fn law_landing_is_local(a: BackendAction, p: u16)
    requires
        uses_local(a, p),
    ensures
        a matches BackendAction::Use { host, port } && host@ == "127.0.0.1"@ && port == p,
{
}

} // verus!
