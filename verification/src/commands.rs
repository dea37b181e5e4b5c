//! What the commands of the user interface decide. They read the stores and the registry,
//! and say what is to be done; files and connections are handled around them.
use crate::diag::fmt_mb;
use crate::diag;
use crate::engine;
use crate::engine::pool;
use crate::engine::pool::{resolve_max_sessions, resolve_share, ConnStats};
use crate::engine::{Entry, Registry, SshCreds};
use crate::keyed;
use crate::keyed::position;
use crate::known_hosts;
use crate::known_hosts::KnownHosts;
use crate::model;
use crate::model::{ReconnectPolicy, StateView, TunnelKind, TunnelSpec, TunnelState};
use crate::presets;
use crate::profiles::ServerProfile;
use crate::secrets::SecretStore;
use crate::ssh::AuthMethod;
use crate::store::{ProfileDefaults, ProfileStore, ScenarioStore};
use crate::text;
use crate::text::{contains, decimal_text, same_text};
use vstd::prelude::*;

verus! {

// ---------------------------------------------------------------- states
/// The name of a state in the user interface.
pub open spec fn state_name(s: StateView) -> Seq<char> {
    match s {
        StateView::Stopped => "disconnected"@,
        StateView::Starting => "connecting"@,
        StateView::Running => "connected"@,
        StateView::Backoff { .. } => "reconnecting"@,
        StateView::Failed { .. } => "error"@,
    }
}

/// What is said of a state.
pub open spec fn state_message(s: StateView) -> Option<Seq<char>> {
    match s {
        StateView::Backoff { attempt, wait_secs } => Some(
            "第 "@ + text::decimal(attempt as nat) + " 次重连, "@ + text::decimal(wait_secs as nat)
                + "s 后重试"@,
        ),
        StateView::Failed { message, .. } => Some(message),
        _ => None,
    }
}

/// A state as the user interface shows it.
pub fn state_to_dto(st: &TunnelState) -> (r: (String, Option<String>))
    ensures
        r.0@ == state_name(st@),
        text::maybe(r.1) == state_message(st@),
{
    match st {
        TunnelState::Stopped => ("disconnected".to_owned(), None),
        TunnelState::Starting => ("connecting".to_owned(), None),
        TunnelState::Running => ("connected".to_owned(), None),
        TunnelState::Backoff { attempt, wait_secs } => {
            let mut s = "第 ".to_owned();
            s.append(decimal_text(*attempt as u64).as_str());
            s.append(" 次重连, ");
            s.append(decimal_text(*wait_secs).as_str());
            s.append("s 后重试");
            ("reconnecting".to_owned(), Some(s))
        },
        TunnelState::Failed { message, .. } => ("error".to_owned(), Some(message.clone())),
    }
}

// ---------------------------------------------------------------- credentials
/// A secret that was entered; an empty one counts as none.
pub open spec fn entered(password: Option<Seq<char>>) -> Option<Seq<char>> {
    match password {
        Some(p) if p.len() > 0 => Some(p),
        _ => None,
    }
}

/// The secret of a profile: the one that was entered, or else the one that is remembered.
pub open spec fn secret_of(
    password: Option<Seq<char>>,
    secrets: Map<Seq<char>, Seq<char>>,
    profile_id: Seq<char>,
) -> Option<Seq<char>> {
    match entered(password) {
        Some(p) => Some(p),
        None => if secrets.dom().contains(profile_id) {
            Some(secrets[profile_id])
        } else {
            None
        },
    }
}

/// Whether `auth` is how a profile authenticates with this secret. A key file takes it as
/// its passphrase, if it is not empty.
pub open spec fn is_auth(
    identity_file: Option<String>,
    secret: Option<Seq<char>>,
    auth: AuthMethod,
) -> bool {
    match identity_file {
        Some(path) => auth matches AuthMethod::KeyFile { path: p, passphrase } && p == path
            && text::maybe(passphrase) == entered(secret),
        None => auth matches AuthMethod::Password(p) && Some(p@) == entered(secret),
    }
}

/// Whether a profile can authenticate with this secret: a password is needed where there is
/// no key file.
pub open spec fn has_auth(identity_file: Option<String>, secret: Option<Seq<char>>) -> bool {
    identity_file is Some || entered(secret) is Some
}

/// How a profile authenticates with a secret.
pub fn resolve_auth(profile: &ServerProfile, password: Option<String>) -> (r: Result<
    AuthMethod,
    String,
>)
    ensures
        match r {
            Ok(a) => has_auth(profile.identity_file, text::maybe(password)) && is_auth(
                profile.identity_file,
                text::maybe(password),
                a,
            ),
            Err(e) => !has_auth(profile.identity_file, text::maybe(password)) && e@
                == "该服务器使用密码认证, 请输入密码 (或勾选记住密码)"@,
        },
{
    let nonempty = match password {
        Some(p) => if p.as_str().is_empty() {
            None
        } else {
            Some(p)
        },
        None => None,
    };
    match &profile.identity_file {
        Some(path) => Ok(AuthMethod::KeyFile { path: path.clone(), passphrase: nonempty }),
        None => match nonempty {
            Some(p) => Ok(AuthMethod::Password(p)),
            None => Err("该服务器使用密码认证, 请输入密码 (或勾选记住密码)".to_owned()),
        },
    }
}

/// The secret to use for a profile.
pub fn choose_secret(password: Option<String>, secrets: &SecretStore, profile_id: &str) -> (r:
    Option<String>)
    requires
        secrets.wf(),
    ensures
        text::maybe(r) == secret_of(text::maybe(password), secrets@, profile_id@),
{
    if let Some(p) = password {
        if !p.as_str().is_empty() {
            return Some(p);
        }
    }
    match secrets.get(profile_id) {
        Some(s) => Some(s.to_owned()),
        None => None,
    }
}

/// What is said of a tunnel whose profile is gone.
pub open spec fn no_profile(profile_id: Seq<char>) -> Seq<char> {
    "隧道关联的档案不存在 (id: "@ + profile_id + ")"@
}

fn find_profile(profiles: &Vec<ServerProfile>, id: &str) -> (r: Result<ServerProfile, String>)
    ensures
        match r {
            Ok(p) => keyed::first_with(profiles@, id@) == Some(p),
            Err(e) => keyed::first_with(profiles@, id@) is None && e@ == no_profile(id@),
        },
{
    match position(profiles, id) {
        Some(i) => Ok(profiles[i].clone()),
        None => {
            let mut e = "隧道关联的档案不存在 (id: ".to_owned();
            e.append(id);
            e.append(")");
            Err(e)
        },
    }
}

/// What starting tunnel `id` needs. It is missing, in this order: the tunnel, its profile, a
/// secret.
pub fn start_by_profile(
    registry: &Registry,
    store: &ProfileStore,
    secrets: &SecretStore,
    id: &str,
    password: Option<String>,
) -> (r: Result<SshCreds, String>)
    requires
        registry.wf(),
        secrets.wf(),
    ensures
        if !engine::listed(registry@, id@) {
            r matches Err(e) && e@ == engine::missing(id@)
        } else {
            let pid = engine::entry(registry@, id@).spec.profile_id@;
            match keyed::first_with(store.profiles@, pid) {
                None => r matches Err(e) && e@ == no_profile(pid),
                Some(p) => {
                    let secret = secret_of(text::maybe(password), secrets@, pid);
                    if has_auth(p.identity_file, secret) {
                        r matches Ok(c) && c.host == p.host && c.port == p.port && c.username
                            == p.username && is_auth(p.identity_file, secret, c.auth) && c.share
                            == pool::shares(Some(p), store.defaults) && c.max_sessions
                            == pool::session_limit(store.defaults)
                    } else {
                        r matches Err(e) && e@ == "该服务器使用密码认证, 请输入密码 (或勾选记住密码)"@
                    }
                },
            }
        },
{
    let spec = match registry.get(id) {
        Some(s) => s,
        None => {
            let mut e = "隧道不存在: ".to_owned();
            e.append(id);
            return Err(e);
        },
    };
    let profile = match find_profile(&store.profiles, spec.profile_id.as_str()) {
        Ok(p) => p,
        Err(e) => {
            return Err(e);
        },
    };
    let secret = choose_secret(password, secrets, spec.profile_id.as_str());
    let auth = match resolve_auth(&profile, secret) {
        Ok(a) => a,
        Err(e) => {
            return Err(e);
        },
    };
    let share = resolve_share(Some(&profile), &store.defaults);
    let max_sessions = resolve_max_sessions(&store.defaults);
    Ok(
        SshCreds {
            host: profile.host,
            port: profile.port,
            username: profile.username,
            auth,
            share,
            max_sessions,
        },
    )
}

/// The secrets after the user said whether the secret that was entered for tunnel `id` is to
/// be remembered. Nothing changes where nothing was entered or said.
pub open spec fn remembered(
    secrets: Map<Seq<char>, Seq<char>>,
    es: Seq<Entry>,
    id: Seq<char>,
    password: Option<Seq<char>>,
    remember: Option<bool>,
) -> Map<Seq<char>, Seq<char>> {
    match (remember, entered(password)) {
        (Some(b), Some(p)) if engine::listed(es, id) => {
            let pid = engine::entry(es, id).spec.profile_id@;
            if b {
                secrets.insert(pid, p)
            } else {
                secrets.remove(pid)
            }
        },
        _ => secrets,
    }
}

/// Remembers or forgets the secret that was entered for a tunnel. The result says whether
/// the secrets are to be saved.
pub fn tunnel_start(
    secrets: &mut SecretStore,
    registry: &Registry,
    id: &str,
    password: &Option<String>,
    remember: Option<bool>,
) -> (r: bool)
    requires
        old(secrets).wf(),
        registry.wf(),
    ensures
        final(secrets).wf(),
        final(secrets)@ == remembered(
            old(secrets)@,
            registry@,
            id@,
            text::maybe(*password),
            remember,
        ),
        r == (remember is Some && entered(text::maybe(*password)) is Some && engine::listed(
            registry@,
            id@,
        )),
{
    let remember = match remember {
        Some(b) => b,
        None => {
            return false;
        },
    };
    let pw = match password {
        Some(p) => p,
        None => {
            return false;
        },
    };
    if pw.as_str().is_empty() {
        return false;
    }
    let spec = match registry.get(id) {
        Some(s) => s,
        None => {
            return false;
        },
    };
    if remember {
        secrets.set(spec.profile_id.as_str(), pw.as_str());
    } else {
        secrets.remove(spec.profile_id.as_str());
    }
    true
}

/// Whether a status reports that a secret is wrong.
pub open spec fn blames_secret(state: Seq<char>, message: Option<Seq<char>>) -> bool {
    state == "error"@ && (message matches Some(m) && (text::occurs(m, "认证被拒"@)
        || text::occurs(m, "加载私钥"@)))
}

/// Forgets a remembered secret that a status of tunnel `id` reports to be wrong, so that it
/// is asked for again. The result says whether the secrets are to be saved.
pub fn forget_on_status(
    secrets: &mut SecretStore,
    registry: &Registry,
    id: &str,
    state: &str,
    message: Option<&str>,
) -> (r: bool)
    requires
        old(secrets).wf(),
        registry.wf(),
    ensures
        final(secrets).wf(),
        r == (blames_secret(state@, diag::maybe_str(message)) && engine::listed(registry@, id@)
            && old(secrets)@.dom().contains(
            engine::entry(registry@, id@).spec.profile_id@,
        )),
        final(secrets)@ == if r {
            old(secrets)@.remove(engine::entry(registry@, id@).spec.profile_id@)
        } else {
            old(secrets)@
        },
{
    if !same_text(state, "error") {
        return false;
    }
    let blamed = match message {
        Some(m) => contains(m, "认证被拒") || contains(m, "加载私钥"),
        None => false,
    };
    if !blamed {
        return false;
    }
    match registry.get(id) {
        Some(spec) => {
            if !secrets.contains(spec.profile_id.as_str()) {
                return false;
            }
            secrets.remove(spec.profile_id.as_str());
            true
        },
        None => false,
    }
}

// ---------------------------------------------------------------- logging
/// Whether the first eight bytes of a text, or all of a shorter one, are whole characters.
pub open spec fn has_short_form(id: Seq<char>) -> bool {
    let b = vstd::utf8::encode_utf8(id);
    b.len() <= 8 || vstd::utf8::is_char_boundary(b, 8)
}

/// The first eight bytes of a text, or all of a shorter one.
pub open spec fn short_form(id: Seq<char>) -> Seq<char> {
    let b = vstd::utf8::encode_utf8(id);
    if b.len() <= 8 {
        id
    } else {
        vstd::utf8::decode_utf8(b.take(8))
    }
}

/// Shortens an id.
pub fn short_id(id: &str) -> (r: &str)
    requires
        has_short_form(id@),
    ensures
        r@ == short_form(id@),
{
    if id.as_bytes().len() <= 8 {
        id
    } else {
        let (a, _) = id.split_at(8);
        proof {
            vstd::utf8::encode_utf8_decode_utf8(a@);
            assert(vstd::utf8::encode_utf8(a@) =~= vstd::utf8::encode_utf8(id@).take(8));
        }
        a
    }
}

/// The ids that this application makes have a short form: their first eight characters.
pub proof fn law_uuid_short_form(id: Seq<char>)
    requires
        model::is_uuid_v4(id),
    ensures
        has_short_form(id),
        short_form(id) == id.take(8),
{
    assert(vstd::utf8::is_ascii_chars(id)) by {
        assert forall|i: int| 0 <= i < id.len() implies '\0' <= #[trigger] id[i] <= '\u{7f}' by {
            if i == 8 || i == 13 || i == 18 || i == 23 {
                assert(id[i] == '-');
            } else {
                assert(model::is_hex(id[i]));
            }
        }
    }
    vstd::utf8::is_ascii_chars_encode_utf8(id);
    let b = vstd::utf8::encode_utf8(id);
    let t = id.take(8);
    assert(vstd::utf8::is_ascii_chars(t));
    vstd::utf8::is_ascii_chars_encode_utf8(t);
    assert(b.take(8) =~= vstd::utf8::encode_utf8(t));
    vstd::utf8::encode_utf8_decode_utf8(t);
    vstd::utf8::encode_utf8_valid_utf8(id);
    assert(b[8] == '-' as u8);
    vstd::utf8::is_char_boundary_iff_not_is_continuation_byte(b, 8);
    assert(!vstd::utf8::is_continuation_byte(b[8]));
}

/// A line for the log file: level, source, message.
#[derive(Debug, PartialEq, Eq)]
pub struct LogEntry {
    pub level: &'static str,
    pub tag: String,
    pub msg: String,
}

fn tunnel_tag(id: &str) -> (r: String)
    requires
        has_short_form(id@),
    ensures
        r@ == "tunnel:"@ + short_form(id@),
{
    let mut s = "tunnel:".to_owned();
    s.append(short_id(id));
    s
}

/// What is logged of a status of tunnel `id`.
pub fn status_entry(id: &str, state: &str, message: Option<&str>) -> (r: LogEntry)
    requires
        has_short_form(id@),
    ensures
        r.level@ == if state@ == "error"@ {
            "error"@
        } else {
            "info"@
        },
        r.tag@ == "tunnel:"@ + short_form(id@),
        r.msg@ == match message {
            Some(m) => "状态 → "@ + state@ + " | "@ + m@,
            None => "状态 → "@ + state@,
        },
{
    let mut msg = "状态 → ".to_owned();
    msg.append(state);
    if let Some(m) = message {
        msg.append(" | ");
        msg.append(m);
    }
    let level = if same_text(state, "error") {
        "error"
    } else {
        "info"
    };
    LogEntry { level, tag: tunnel_tag(id), msg }
}

/// What is logged of a message of tunnel `id`.
pub fn message_entry(id: &str, msg: &str) -> (r: LogEntry)
    requires
        has_short_form(id@),
    ensures
        r.level@ == diag::level(msg@),
        r.tag@ == "tunnel:"@ + short_form(id@),
        r.msg@ == msg@,
{
    LogEntry { level: diag::level_of(msg), tag: tunnel_tag(id), msg: msg.to_owned() }
}

// ---------------------------------------------------------------- templates
/// The policy of a new tunnel.
pub open spec fn new_policy(defaults: ProfileDefaults, p: ReconnectPolicy) -> bool {
    match defaults.reconnect {
        Some(d) => p == d,
        None => model::is_default_policy(p),
    }
}

/// Gives a new tunnel the policy of the defaults, if they have one.
pub fn apply_profile_defaults(defaults: &ProfileDefaults, spec: &mut TunnelSpec)
    ensures
        *final(spec) == (TunnelSpec {
            policy: match defaults.reconnect {
                Some(p) => p,
                None => old(spec).policy,
            },
            ..*old(spec)
        }),
{
    if let Some(p) = defaults.reconnect {
        spec.policy = p;
    }
}

/// A new tunnel from a preset, with the policy of the defaults.
pub fn tunnel_from_preset(
    defaults: &ProfileDefaults,
    preset_id: &str,
    name: &str,
    profile_id: &str,
) -> (r: Result<TunnelSpec, String>)
    ensures
        match r {
            Ok(t) => {
                &&& presets::is_preset(preset_id@)
                &&& model::is_uuid_v4(t.id@)
                &&& t.name@ == name@
                &&& t.enabled
                &&& t.profile_id@ == profile_id@
                &&& presets::fits(preset_id@, t.kind, t.backend)
                &&& new_policy(*defaults, t.policy)
            },
            Err(e) => !presets::is_preset(preset_id@) && e@ == "未知预设: "@ + preset_id@,
        },
{
    match presets::template(preset_id, name, profile_id) {
        Ok(t) => {
            let mut spec = t;
            apply_profile_defaults(defaults, &mut spec);
            Ok(spec)
        },
        Err(e) => Err(e),
    }
}

/// Whether `t` is a new tunnel of this name, profile and shape.
pub open spec fn is_copy(
    t: TunnelSpec,
    name: Seq<char>,
    profile_id: Seq<char>,
    kind: TunnelKind,
    backend: model::Backend,
) -> bool {
    t.name@ == name && t.profile_id@ == profile_id && t.enabled && t.kind == kind && t.backend
        == backend && model::is_uuid_v4(t.id@)
}

/// A new tunnel from a scenario, with the policy of the defaults.
pub fn tunnel_from_scenario(
    scenarios: &ScenarioStore,
    defaults: &ProfileDefaults,
    scenario_id: &str,
    name: String,
    profile_id: String,
) -> (r: Result<TunnelSpec, String>)
    ensures
        match keyed::first_with(scenarios.scenarios@, scenario_id@) {
            None => r matches Err(e) && e@ == "场景不存在: "@ + scenario_id@,
            Some(s) => match r {
                Ok(t) => is_copy(t, name@, profile_id@, s.kind, s.backend) && model::objection(t)
                    is None && new_policy(*defaults, t.policy),
                Err(e) => exists|t: TunnelSpec| #[trigger]
                    is_copy(t, name@, profile_id@, s.kind, s.backend) && model::objection(t)
                        == Some(e@),
            },
        },
{
    let i = match position(&scenarios.scenarios, scenario_id) {
        Some(i) => i,
        None => {
            let mut e = "场景不存在: ".to_owned();
            e.append(scenario_id);
            return Err(e);
        },
    };
    let s = &scenarios.scenarios[i];
    let mut spec = TunnelSpec {
        id: TunnelSpec::new_id(),
        name,
        enabled: true,
        profile_id,
        kind: s.kind.clone(),
        backend: s.backend.clone(),
        policy: ReconnectPolicy::default(),
    };
    assert(is_copy(spec, name@, profile_id@, s.kind, s.backend));
    if let Err(e) = spec.validate() {
        return Err(e);
    }
    apply_profile_defaults(defaults, &mut spec);
    Ok(spec)
}

// ---------------------------------------------------------------- actions on the server
/// The profile of a reverse tunnel and the port the server listens on for it.
pub fn resolve_reverse(registry: &Registry, store: &ProfileStore, id: &str) -> (r: Result<
    (ServerProfile, u32),
    String,
>)
    requires
        registry.wf(),
    ensures
        if !engine::listed(registry@, id@) {
            r matches Err(e) && e@ == engine::missing(id@)
        } else {
            let spec = engine::entry(registry@, id@).spec;
            match spec.kind {
                TunnelKind::Reverse { port, .. } => match keyed::first_with(
                    store.profiles@,
                    spec.profile_id@,
                ) {
                    Some(p) => r matches Ok(x) && x.0 == p && x.1 == port,
                    None => r matches Err(e) && e@ == no_profile(spec.profile_id@),
                },
                _ => r matches Err(e) && e@ == "仅反向隧道支持此操作"@,
            }
        },
{
    let spec = match registry.get(id) {
        Some(s) => s,
        None => {
            let mut e = "隧道不存在: ".to_owned();
            e.append(id);
            return Err(e);
        },
    };
    match spec.kind {
        TunnelKind::Reverse { port, .. } => {
            match find_profile(&store.profiles, spec.profile_id.as_str()) {
                Ok(p) => Ok((p, port as u32)),
                Err(e) => Err(e),
            }
        },
        _ => Err("仅反向隧道支持此操作".to_owned()),
    }
}

/// The command that tries the Internet from the server, in front of the port.
pub const VERIFY_HEAD: &'static str = "echo '--- 直连(不经隧道) ---'; curl -s -o /dev/null -m 8 -w '直连: http_code=%{http_code} time=%{time_total}s\\n' https://www.google.com || echo '直连失败(预期: 服务器网络无法访问被墙站点)'; echo '--- 经隧道 ---'; curl -s -o /dev/null -m 10 -w '隧道: http_code=%{http_code} time=%{time_total}s\\n' --socks5-hostname 127.0.0.1:";

/// The same command behind the port.
pub const VERIFY_TAIL: &'static str = " https://www.google.com || echo '隧道访问失败'";

/// The command that tries the Internet from the server: directly, and through the tunnel.
pub fn verify_command(remote_port: u32) -> (r: String)
    ensures
        r@ == VERIFY_HEAD@ + text::decimal(remote_port as nat) + VERIFY_TAIL@,
{
    let mut s = VERIFY_HEAD.to_owned();
    s.append(decimal_text(remote_port as u64).as_str());
    s.append(VERIFY_TAIL);
    s
}

/// The command that installs the `proxy` script, in front of the first port.
pub const DEPLOY_HEAD: &'static str = "set -e\nmkdir -p \"$HOME/.local/bin\"\ncat > \"$HOME/.local/bin/proxy\" <<'PROXYEOF'\n#!/bin/bash\nALL_PROXY=socks5h://127.0.0.1:";

/// Between the first port and the second.
pub const DEPLOY_HTTP: &'static str = " HTTP_PROXY=http://127.0.0.1:";

/// Between the second port and the third.
pub const DEPLOY_HTTPS: &'static str = " HTTPS_PROXY=http://127.0.0.1:";

/// Behind the third port.
pub const DEPLOY_TAIL: &'static str = " exec \"$@\"\nPROXYEOF\nchmod +x \"$HOME/.local/bin/proxy\"\necho \"已部署: $HOME/.local/bin/proxy\"\nif [ -w /usr/local/bin ]; then\n  cp \"$HOME/.local/bin/proxy\" /usr/local/bin/proxy\n  chmod +x /usr/local/bin/proxy\n  echo \"已部署: /usr/local/bin/proxy (全局可用)\"\n  echo \"用法示例: proxy curl google.com\"\nelse\n  echo \"无权限写 /usr/local/bin (需 root), 仅用户级可用\"\n  echo \"用法示例: $HOME/.local/bin/proxy curl google.com\"\n  echo \"提示: 若 PATH 不含 ~/.local/bin, 可把它加入 .bashrc\"\nfi";

/// The command that installs a script on the server which runs a command through the tunnel.
pub fn deploy_command(remote_port: u32) -> (r: String)
    ensures
        r@ == DEPLOY_HEAD@ + text::decimal(remote_port as nat) + DEPLOY_HTTP@ + text::decimal(
            remote_port as nat,
        ) + DEPLOY_HTTPS@ + text::decimal(remote_port as nat) + DEPLOY_TAIL@,
{
    let port = decimal_text(remote_port as u64);
    let mut s = DEPLOY_HEAD.to_owned();
    s.append(port.as_str());
    s.append(DEPLOY_HTTP);
    s.append(port.as_str());
    s.append(DEPLOY_HTTPS);
    s.append(port.as_str());
    s.append(DEPLOY_TAIL);
    s
}

/// Forgets a server's key at the user's wish; it must be remembered.
pub fn known_hosts_forget(known: &mut KnownHosts, host: &str, port: u16) -> (r: Result<
    (),
    String,
>)
    requires
        old(known).wf(),
    ensures
        final(known).wf(),
        final(known)@ == old(known)@.remove(known_hosts::host_key(host@, port)),
        match r {
            Ok(_) => old(known)@.dom().contains(known_hosts::host_key(host@, port)),
            Err(e) => !old(known)@.dom().contains(known_hosts::host_key(host@, port)) && e@
                == "没有 "@ + host@ + ":"@ + text::decimal(port as nat) + " 的指纹记录"@,
        },
{
    if known.forget(host, port) {
        Ok(())
    } else {
        let mut e = "没有 ".to_owned();
        e.append(host);
        e.append(":");
        e.append(decimal_text(port as u64).as_str());
        e.append(" 的指纹记录");
        Err(e)
    }
}

// ---------------------------------------------------------------- deleting a profile
/// What is left to do after a profile was deleted.
#[derive(Debug)]
pub struct Deleted {
    /// The secrets are to be saved.
    pub secrets_changed: bool,
    /// The tunnels whose tasks are to stop.
    pub tunnels: Vec<Entry>,
}

/// Deletes a profile with its secret and its tunnels, so that neither outlives it.
pub fn delete_profile(
    secrets: &mut SecretStore,
    registry: &mut Registry,
    store: &mut ProfileStore,
    id: &str,
) -> (r: Deleted)
    requires
        old(secrets).wf(),
        old(registry).wf(),
    ensures
        final(secrets).wf(),
        final(registry).wf(),
        final(secrets)@ == old(secrets)@.remove(id@),
        final(registry)@ == engine::of_others(old(registry)@, id@),
        final(store).profiles@ == keyed::without(old(store).profiles@, id@),
        final(store).version == old(store).version,
        final(store).defaults == old(store).defaults,
        r.secrets_changed == old(secrets)@.dom().contains(id@),
        r.tunnels@ == engine::stopped_of(old(registry)@, id@),
{
    let secrets_changed = secrets.contains(id);
    if secrets_changed {
        secrets.remove(id);
    } else {
        assert(secrets@ =~= secrets@.remove(id@));
    }
    let tunnels = registry.delete_of_profile(id);
    store.delete(id);
    Deleted { secrets_changed, tunnels }
}

// ---------------------------------------------------------------- diagnostics
/// A tunnel in the summary: its name, shape and state.
pub open spec fn tunnel_line(spec: TunnelSpec, state: StateView) -> Seq<char> {
    "- 隧道「"@ + spec.name@ + "」["@ + model::tag_of(spec.kind) + "] 状态: "@ + state_name(state)
        + match state_message(state) {
        Some(m) => " | "@ + m,
        None => ""@,
    } + "\n"@
}

/// A shared connection in the summary.
pub open spec fn conn_line(c: ConnStats) -> Seq<char> {
    "- 共享连接 ["@ + short_form(c.profile_id@) + "] 代际 "@ + text::decimal(c.generation as nat)
        + " 建连 "@ + text::decimal(c.connect_count as nat) + " 次, 活跃通道 "@ + text::decimal(
        c.open_channels as nat,
    ) + ", 租约 "@ + text::decimal(c.leases@.len()) + "\n"@
}

/// The lines of the tunnels.
pub open spec fn tunnel_lines(list: Seq<(TunnelSpec, TunnelState)>) -> Seq<char>
    decreases list.len(),
{
    if list.len() == 0 {
        seq![]
    } else {
        tunnel_lines(list.drop_last()) + tunnel_line(list.last().0, list.last().1@)
    }
}

/// The lines of the connections.
pub open spec fn conn_lines(stats: Seq<ConnStats>) -> Seq<char>
    decreases stats.len(),
{
    if stats.len() == 0 {
        seq![]
    } else {
        conn_lines(stats.drop_last()) + conn_line(stats.last())
    }
}

fn push_tunnel_line(out: &mut String, spec: &TunnelSpec, state: &TunnelState)
    ensures
        final(out)@ == old(out)@ + tunnel_line(*spec, state@),
{
    let (name, message) = state_to_dto(state);
    let ghost before = out@;
    out.append("- 隧道「");
    out.append(spec.name.as_str());
    out.append("」[");
    out.append(spec.kind.tag());
    out.append("] 状态: ");
    out.append(name.as_str());
    match &message {
        Some(m) => {
            out.append(" | ");
            out.append(m.as_str());
        },
        None => {
            out.append("");
        },
    }
    out.append("\n");
    assert(out@ =~= before + tunnel_line(*spec, state@));
}

fn push_conn_line(out: &mut String, c: &ConnStats)
    requires
        has_short_form(c.profile_id@),
    ensures
        final(out)@ == old(out)@ + conn_line(*c),
{
    let ghost before = out@;
    out.append("- 共享连接 [");
    out.append(short_id(c.profile_id.as_str()));
    out.append("] 代际 ");
    out.append(decimal_text(c.generation).as_str());
    out.append(" 建连 ");
    out.append(decimal_text(c.connect_count).as_str());
    out.append(" 次, 活跃通道 ");
    out.append(decimal_text(c.open_channels as u64).as_str());
    out.append(", 租约 ");
    out.append(decimal_text(c.leases.len() as u64).as_str());
    out.append("\n");
    assert(out@ =~= before + conn_line(*c));
}

/// The summary of a diagnostic bundle: tunnels, shared connections, memory.
pub fn diag_summary(
    list: &Vec<(TunnelSpec, TunnelState)>,
    stats: &Vec<ConnStats>,
    rss: Option<u64>,
) -> (r: String)
    requires
        forall|i: int| 0 <= i < stats@.len() ==> has_short_form((#[trigger] stats@[i]).profile_id@),
    ensures
        r@ == "==== 运行时摘要 ====\n"@ + tunnel_lines(list@) + conn_lines(stats@) + match rss {
            Some(b) => "当前内存 RSS: "@ + diag::megabytes(b as nat) + "\n"@,
            None => ""@,
        },
{
    let mut out = "==== 运行时摘要 ====\n".to_owned();
    let ghost head = out@;
    let mut i: usize = 0;
    assert(list@.take(0) =~= seq![]);
    assert(out@ =~= head + tunnel_lines(list@.take(0)));
    while i < list.len()
        invariant
            i <= list.len(),
            out@ == head + tunnel_lines(list@.take(i as int)),
        decreases list.len() - i,
    {
        proof {
            assert(list@.take(i + 1).drop_last() =~= list@.take(i as int));
            assert(list@.take(i + 1).last() == list@[i as int]);
        }
        push_tunnel_line(&mut out, &list[i].0, &list[i].1);
        assert(out@ =~= head + tunnel_lines(list@.take(i + 1)));
        i = i + 1;
    }
    assert(list@.take(list@.len() as int) =~= list@);
    let ghost head = out@;
    let mut k: usize = 0;
    assert(stats@.take(0) =~= seq![]);
    assert(out@ =~= head + conn_lines(stats@.take(0)));
    while k < stats.len()
        invariant
            k <= stats.len(),
            out@ == head + conn_lines(stats@.take(k as int)),
            forall|i: int|
                0 <= i < stats@.len() ==> has_short_form((#[trigger] stats@[i]).profile_id@),
        decreases stats.len() - k,
    {
        proof {
            assert(stats@.take(k + 1).drop_last() =~= stats@.take(k as int));
            assert(stats@.take(k + 1).last() == stats@[k as int]);
        }
        push_conn_line(&mut out, &stats[k]);
        assert(out@ =~= head + conn_lines(stats@.take(k + 1)));
        k = k + 1;
    }
    assert(stats@.take(stats@.len() as int) =~= stats@);
    let ghost before = out@;
    match rss {
        Some(b) => {
            out.append("当前内存 RSS: ");
            out.append(fmt_mb(b).as_str());
            out.append("\n");
            assert(out@ =~= before + ("当前内存 RSS: "@ + diag::megabytes(b as nat) + "\n"@));
        },
        None => {
            out.append("");
        },
    }
    out
}

/// The line of a start that restored tunnels.
pub fn restored_line(n: usize) -> (r: Option<String>)
    ensures
        text::maybe(r) == if n == 0 {
            None::<Seq<char>>
        } else {
            Some("已恢复 "@ + text::decimal(n as nat) + " 条隧道配置"@)
        },
{
    if n == 0 {
        None
    } else {
        let mut s = "已恢复 ".to_owned();
        s.append(decimal_text(n as u64).as_str());
        s.append(" 条隧道配置");
        Some(s)
    }
}

/// The line of a start that starts `n` tunnels.
pub fn autostart_line(n: usize) -> (r: String)
    ensures
        r@ == "开机自启: "@ + text::decimal(n as nat) + " 条 enabled 隧道"@,
{
    let mut s = "开机自启: ".to_owned();
    s.append(decimal_text(n as u64).as_str());
    s.append(" 条 enabled 隧道");
    s
}

// ---------------------------------------------------------------- laws
/// A secret that is remembered for a tunnel is the one the next start of it uses, where
/// nothing is entered; a secret that is entered always comes first.
pub proof fn law_remembered_secret_is_used(
    secrets: Map<Seq<char>, Seq<char>>,
    es: Seq<Entry>,
    id: Seq<char>,
    password: Seq<char>,
    other: Seq<char>,
)
    requires
        engine::listed(es, id),
        password.len() > 0,
        other.len() > 0,
    ensures
        secret_of(
            None,
            remembered(secrets, es, id, Some(password), Some(true)),
            engine::entry(es, id).spec.profile_id@,
        ) == Some(password),
        secret_of(
            None,
            remembered(secrets, es, id, Some(password), Some(false)),
            engine::entry(es, id).spec.profile_id@,
        ) is None,
        secret_of(
            Some(other),
            remembered(secrets, es, id, Some(password), Some(true)),
            engine::entry(es, id).spec.profile_id@,
        ) == Some(other),
{
}

/// The summary shows of a tunnel its name, its shape and its state, and nothing else: tunnels
/// that agree in these have the same line, whatever their addresses, ports and profiles are.
pub proof fn law_summary_shows_three_things(a: TunnelSpec, b: TunnelSpec, state: StateView)
    requires
        a.name@ == b.name@,
        model::tag_of(a.kind) == model::tag_of(b.kind),
    ensures
        tunnel_line(a, state) == tunnel_line(b, state),
{
}

/// Nothing of a deleted profile is left: no secret, no tunnel, no entry.
pub proof fn law_profile_leaves_nothing(
    secrets: Map<Seq<char>, Seq<char>>,
    es: Seq<Entry>,
    profiles: Seq<ServerProfile>,
    id: Seq<char>,
)
    ensures
        !secrets.remove(id).dom().contains(id),
        !keyed::has_id(keyed::without(profiles, id), id),
        forall|i: int|
            0 <= i < engine::of_others(es, id).len() ==> (#[trigger] engine::of_others(
                es,
                id,
            )[i]).spec.profile_id@ != id,
{
    keyed::law_deleted_is_gone(profiles, id);
    engine::law_no_orphans(es, id);
}

/// The user interface has a word of its own for each state of a tunnel, and says of a state what
/// the tunnel's task says of it: the number and the wait of a retry, the words of a failure, and
/// nothing otherwise.
pub proof fn law_states_are_shown(s: StateView)
    ensures
        s is Stopped <==> state_name(s) == "disconnected"@,
        s is Starting <==> state_name(s) == "connecting"@,
        s is Running <==> state_name(s) == "connected"@,
        s is Backoff <==> state_name(s) == "reconnecting"@,
        s is Failed <==> state_name(s) == "error"@,
        s matches StateView::Backoff { attempt, wait_secs } ==> state_message(s) == Some(
            engine::tunnel::retry_message(attempt as nat, wait_secs as nat),
        ),
        s matches StateView::Backoff { attempt, wait_secs } ==> (state_message(s) matches Some(m)
            && text::occurs(m, text::decimal(attempt as nat)) && text::occurs(
            m,
            text::decimal(wait_secs as nat) + "s"@,
        )),
        s matches StateView::Failed { message, .. } ==> state_message(s) == Some(message),
        s is Stopped || s is Starting || s is Running ==> state_message(s) is None,
{
    reveal_strlit("disconnected");
    reveal_strlit("connecting");
    reveal_strlit("connected");
    reveal_strlit("reconnecting");
    reveal_strlit("error");
    assert("disconnected"@[0] == 'd');
    assert("connecting"@.len() == 10);
    assert("connected"@.len() == 9 && "connected"@[0] == 'c');
    assert("reconnecting"@.len() == 12 && "reconnecting"@[0] == 'r');
    assert("error"@.len() == 5);
    if let StateView::Backoff { attempt, wait_secs } = s {
        let a = text::decimal(attempt as nat);
        let w = text::decimal(wait_secs as nat);
        let m = "第 "@ + a + " 次重连, "@ + w + "s 后重试"@;
        text::law_occurrence("第 "@, a, " 次重连, "@ + w + "s 后重试"@);
        assert("第 "@ + a + (" 次重连, "@ + w + "s 后重试"@) =~= m);
        reveal_strlit("s 后重试");
        reveal_strlit("s");
        let tail = "s 后重试"@.skip(1);
        assert("s 后重试"@ =~= "s"@ + tail);
        text::law_occurrence("第 "@ + a + " 次重连, "@, w + "s"@, tail);
        assert("第 "@ + a + " 次重连, "@ + (w + "s"@) + tail =~= m);
    }
}

/// Which secret a tunnel uses: the one that was entered, whatever is remembered; where nothing
/// was entered, or an empty text, the one that is remembered for its own profile; none where
/// there is neither.
pub proof fn law_secret_is_chosen(
    p: Seq<char>,
    secrets: Map<Seq<char>, Seq<char>>,
    profile_id: Seq<char>,
)
    ensures
        p.len() > 0 ==> secret_of(Some(p), secrets, profile_id) == Some(p),
        secrets.dom().contains(profile_id) ==> secret_of(None, secrets, profile_id) == Some(
            secrets[profile_id],
        ),
        !secrets.dom().contains(profile_id) ==> secret_of(None, secrets, profile_id) is None,
        secret_of(Some(Seq::empty()), secrets, profile_id) == secret_of(
            None,
            secrets,
            profile_id,
        ),
{
}

/// How a profile authenticates: with its key file and the secret as the passphrase, if there is
/// one; without a key file, with the secret as the password, and not at all where there is none.
pub proof fn law_auth_follows_the_profile(
    identity_file: Option<String>,
    secret: Option<Seq<char>>,
    auth: AuthMethod,
)
    ensures
        has_auth(identity_file, secret) <==> identity_file is Some || (secret matches Some(s)
            && s.len() > 0),
        is_auth(identity_file, secret, auth) ==> match auth {
            AuthMethod::KeyFile { path, passphrase } => {
                &&& identity_file == Some(path)
                &&& passphrase matches Some(w) ==> w@.len() > 0 && secret == Some(w@)
                &&& passphrase is None ==> secret is None || secret->0.len() == 0
            },
            AuthMethod::Password(w) => identity_file is None && w@.len() > 0 && secret == Some(w@),
        },
        identity_file is Some && is_auth(identity_file, secret, auth) ==> auth is KeyFile,
        identity_file is None && is_auth(identity_file, secret, auth) ==> auth is Password,
{
}

/// Remembering and forgetting concern the profile of the tunnel and no other one. Nothing changes
/// where nothing was entered, nothing was said, or there is no such tunnel.
pub proof fn law_remembering_concerns_one_profile(
    secrets: Map<Seq<char>, Seq<char>>,
    es: Seq<Entry>,
    id: Seq<char>,
    password: Option<Seq<char>>,
    remember: Option<bool>,
    other: Seq<char>,
)
    ensures
        ({
            let after = remembered(secrets, es, id, password, remember);
            let pid = engine::entry(es, id).spec.profile_id@;
            let entered = password is Some && password->0.len() > 0;
            &&& remember is None || !entered || !engine::listed(es, id) ==> after == secrets
            &&& engine::listed(es, id) && entered && remember == Some(true)
                ==> after.dom().contains(pid) && after[pid] == password->0
            &&& engine::listed(es, id) && entered && remember == Some(false)
                ==> !after.dom().contains(pid)
            &&& other != pid ==> after.dom().contains(other) == secrets.dom().contains(other) && (
            secrets.dom().contains(other) ==> after[other] == secrets[other])
        }),
{
}

/// A secret that the server refuses, or with which the key cannot be loaded, is blamed: the
/// status with which such a tunnel ends makes it forgotten. A status that is no error blames
/// nothing, whatever it says.
pub proof fn law_refused_secret_is_blamed(e: model::TunnelError, state: Seq<char>, m: Option<Seq<char>>)
    requires
        e is AuthRejected || e is KeyLoad,
    ensures
        blames_secret("error"@, Some(engine::tunnel::final_message(e))),
        state != "error"@ ==> !blames_secret(state, m),
        !blames_secret(state, None),
{
    let t = engine::tunnel::final_message(e);
    match e {
        model::TunnelError::KeyLoad { path, reason } => {
            reveal_strlit("加载私钥 ");
            reveal_strlit("加载私钥");
            assert("加载私钥 "@ =~= "加载私钥"@ + seq![' ']);
            let rest = seq![' '] + path@ + " 失败: "@ + reason@;
            text::law_occurrence(Seq::empty(), "加载私钥"@, rest);
            assert(Seq::empty() + "加载私钥"@ + rest =~= t);
        },
        _ => {
            reveal_strlit("认证被拒绝 (请检查用户名/密码, 或私钥是否已加入服务器 authorized_keys)");
            reveal_strlit("认证被拒");
            let said = model::error_text(e);
            let advice = " —— 已停止自动重连, 请检查用户名/密码后重新连接"@;
            assert(said.take(4) =~= "认证被拒"@);
            assert(said =~= said.take(4) + said.skip(4));
            text::law_occurrence(Seq::empty(), "认证被拒"@, said.skip(4) + advice);
            assert(Seq::empty() + "认证被拒"@ + (said.skip(4) + advice) =~= t);
        },
    }
}

/// The summary has a line for every tunnel and for every connection, in their order. The line of
/// a tunnel names it; that of a connection gives its number, how often it was made, its open
/// channels and how many tunnels hold it.
pub proof fn law_summary_has_every_line(
    list: Seq<(TunnelSpec, TunnelState)>,
    t: (TunnelSpec, TunnelState),
    stats: Seq<ConnStats>,
    c: ConnStats,
)
    ensures
        tunnel_lines(list.push(t)) == tunnel_lines(list) + tunnel_line(t.0, t.1@),
        conn_lines(stats.push(c)) == conn_lines(stats) + conn_line(c),
        tunnel_lines(Seq::empty()).len() == 0,
        conn_lines(Seq::empty()).len() == 0,
        text::occurs(tunnel_line(t.0, t.1@), t.0.name@),
        text::occurs(tunnel_line(t.0, t.1@), state_name(t.1@)),
        text::ends_in(conn_line(c), text::decimal(c.leases@.len()) + "\n"@),
        text::occurs(
            conn_line(c),
            text::decimal(c.open_channels as nat) + ", 租约 "@ + text::decimal(c.leases@.len()),
        ),
{
    assert(list.push(t).drop_last() =~= list);
    assert(stats.push(c).drop_last() =~= stats);
    let msg = match state_message(t.1@) {
        Some(m) => " | "@ + m,
        None => ""@,
    };
    lemma_five_parts(
        "- 隧道「"@,
        t.0.name@,
        "」["@,
        model::tag_of(t.0.kind),
        "] 状态: "@,
        state_name(t.1@),
        msg,
        "\n"@,
    );
    let head = "- 共享连接 ["@ + short_form(c.profile_id@) + "] 代际 "@ + text::decimal(
        c.generation as nat,
    ) + " 建连 "@ + text::decimal(c.connect_count as nat) + " 次, 活跃通道 "@;
    let o = text::decimal(c.open_channels as nat);
    let n = text::decimal(c.leases@.len());
    lemma_last_part(head + o + ", 租约 "@, n, "\n"@);
    lemma_middle_parts(head, o, ", 租约 "@, n, "\n"@);
}

proof fn lemma_five_parts(
    a: Seq<char>,
    name: Seq<char>,
    b: Seq<char>,
    tag: Seq<char>,
    c: Seq<char>,
    state: Seq<char>,
    msg: Seq<char>,
    end: Seq<char>,
)
    ensures
        text::occurs(a + name + b + tag + c + state + msg + end, name),
        text::occurs(a + name + b + tag + c + state + msg + end, state),
{
    let s = a + name + b + tag + c + state + msg + end;
    let rest = b + tag + c + state + msg + end;
    text::law_occurrence(a, name, rest);
    assert(a + name + rest =~= s);
    text::law_occurrence(a + name + b + tag + c, state, msg + end);
    assert(a + name + b + tag + c + state + (msg + end) =~= s);
}

proof fn lemma_last_part(front: Seq<char>, b: Seq<char>, end: Seq<char>)
    ensures
        text::ends_in(front + b + end, b + end),
{
    let s = front + b + end;
    let x = b + end;
    assert(s.subrange(s.len() - x.len(), s.len() as int) =~= x);
}

proof fn lemma_middle_parts(
    head: Seq<char>,
    a: Seq<char>,
    mid: Seq<char>,
    b: Seq<char>,
    end: Seq<char>,
)
    ensures
        text::occurs(head + a + mid + b + end, a + mid + b),
{
    let x = a + mid + b;
    assert(head + a + mid + b =~= head + x);
    text::law_occurrence(head, x, end);
}

/// A tunnel that is made from a template has the policy of the defaults, or the usual one, and a
/// copy of a scenario has the scenario's shape and landing under its own name and profile.
pub proof fn law_new_tunnel_follows_its_template(
    defaults: ProfileDefaults,
    p: ReconnectPolicy,
    t: TunnelSpec,
    name: Seq<char>,
    profile_id: Seq<char>,
    kind: TunnelKind,
    backend: model::Backend,
)
    ensures
        defaults.reconnect matches Some(d) ==> (new_policy(defaults, p) <==> p == d),
        defaults.reconnect is None && new_policy(defaults, p) ==> p.auto && p.fast_retries == 3,
        is_copy(t, name, profile_id, kind, backend) ==> {
            &&& t.name@ == name && t.profile_id@ == profile_id
            &&& t.kind == kind && t.backend == backend && t.enabled
            &&& t.id@.len() == 36
        },
{
}

/// What is said of a tunnel whose profile is gone names the profile.
pub proof fn law_missing_profile_is_named(profile_id: Seq<char>)
    ensures
        text::occurs(no_profile(profile_id), profile_id),
{
    text::law_occurrence("隧道关联的档案不存在 (id: "@, profile_id, ")"@);
}

/// The short form of an id is the id where that has at most eight bytes, and otherwise the text
/// of its first eight.
pub proof fn law_short_form_is_a_beginning(id: Seq<char>)
    requires
        has_short_form(id),
    ensures
        vstd::utf8::encode_utf8(id).len() <= 8 ==> short_form(id) == id,
        vstd::utf8::encode_utf8(id).len() > 8 ==> vstd::utf8::encode_utf8(short_form(id))
            == vstd::utf8::encode_utf8(id).take(8),
{
    let b = vstd::utf8::encode_utf8(id);
    vstd::utf8::encode_utf8_valid_utf8(id);
    if b.len() > 8 {
        vstd::utf8::valid_utf8_split(b, 8);
        assert(b.take(8) =~= b.subrange(0, 8));
        vstd::utf8::decode_utf8_encode_utf8(b.take(8));
    }
}

} // verus!
