//! Presets: ready-made tunnel templates for the usual scenarios. The engine knows none of
//! them.
use crate::model;
use crate::model::{Backend, ReconnectPolicy, TunnelKind, TunnelSpec};
use crate::text;
use crate::text::same_text;
use vstd::prelude::*;

verus! {

/// What a preset's card shows.
#[derive(Debug, Clone, Copy)]
pub struct Preset {
    /// The stable id.
    pub id: &'static str,
    pub name: &'static str,
    /// One line about it.
    pub description: &'static str,
    /// The ids of the extra actions of the scenario.
    pub actions: &'static [&'static str],
}

/// Whether a preset shows these texts and actions.
pub open spec fn shows(
    p: Preset,
    id: Seq<char>,
    name: Seq<char>,
    description: Seq<char>,
    actions: Seq<Seq<char>>,
) -> bool {
    &&& p.id@ == id
    &&& p.name@ == name
    &&& p.description@ == description
    &&& p.actions@.len() == actions.len()
    &&& forall|i: int| 0 <= i < actions.len() ==> (#[trigger] p.actions@[i])@ == actions[i]
}

/// The presets in the order of their cards.
pub fn list() -> (r: Vec<Preset>)
    ensures
        r@.len() == 5,
        shows(
            r@[0],
            "vpn_share"@,
            "服务器借 VPN 出网"@,
            "反向隧道 + SOCKS: 服务器经本机 VPN 访问外网"@,
            seq!["verify_internet"@, "deploy_wrapper"@],
        ),
        shows(
            r@[1],
            "expose_local"@,
            "暴露本地服务到服务器"@,
            "反向隧道 + 固定地址: 服务器上直接访问本机运行的服务"@,
            seq![],
        ),
        shows(
            r@[2],
            "reach_service"@,
            "访问服务器侧服务"@,
            "本地转发: 本机端口 → 服务器侧目标 (如服务器的数据库)"@,
            seq![],
        ),
        shows(
            r@[3],
            "reach_lan"@,
            "访问服务器内网"@,
            "动态隧道: 本机 SOCKS5, 服务器代连其内网任意地址"@,
            seq![],
        ),
        shows(
            r@[4],
            "custom"@,
            "自定义"@,
            "从空白配置: 自选隧道形态 (反向/本地/动态) 与落地后端"@,
            seq![],
        ),
{
    vec![
        Preset {
            id: "vpn_share",
            name: "服务器借 VPN 出网",
            description: "反向隧道 + SOCKS: 服务器经本机 VPN 访问外网",
            actions: &["verify_internet", "deploy_wrapper"],
        },
        Preset {
            id: "expose_local",
            name: "暴露本地服务到服务器",
            description: "反向隧道 + 固定地址: 服务器上直接访问本机运行的服务",
            actions: &[],
        },
        Preset {
            id: "reach_service",
            name: "访问服务器侧服务",
            description: "本地转发: 本机端口 → 服务器侧目标 (如服务器的数据库)",
            actions: &[],
        },
        Preset {
            id: "reach_lan",
            name: "访问服务器内网",
            description: "动态隧道: 本机 SOCKS5, 服务器代连其内网任意地址",
            actions: &[],
        },
        Preset {
            id: "custom",
            name: "自定义",
            description: "从空白配置: 自选隧道形态 (反向/本地/动态) 与落地后端",
            actions: &[],
        },
    ]
}

/// Whether `id` is a preset's.
pub open spec fn is_preset(id: Seq<char>) -> bool {
    id == "vpn_share"@ || id == "expose_local"@ || id == "reach_service"@ || id == "reach_lan"@
        || id == "custom"@
}

/// Whether a tunnel has the shape and the landing of a preset.
pub open spec fn fits(id: Seq<char>, kind: TunnelKind, backend: Backend) -> bool {
    if id == "vpn_share"@ {
        &&& kind matches TunnelKind::Reverse { bind, port: 1080 } && bind@ == "127.0.0.1"@
        &&& backend == (Backend::SocksAuto { fallback_port: 7892 })
    } else if id == "expose_local"@ {
        &&& kind matches TunnelKind::Reverse { bind, port: 0 } && bind@ == "127.0.0.1"@
        &&& backend matches Backend::Tcp(host, 3000) && host@ == "127.0.0.1"@
    } else if id == "reach_service"@ {
        &&& kind matches TunnelKind::Local { bind, port: 8080, target_host, target_port: 80 }
            && bind@ == "127.0.0.1"@ && target_host@ == "127.0.0.1"@
        &&& backend == (Backend::SocksAuto { fallback_port: 1080 })
    } else if id == "reach_lan"@ {
        &&& kind matches TunnelKind::Dynamic { bind, port: 1080 } && bind@ == "127.0.0.1"@
        &&& backend == (Backend::SocksAuto { fallback_port: 1080 })
    } else {
        &&& kind matches TunnelKind::Reverse { bind, port: 0 } && bind@ == "127.0.0.1"@
        &&& backend == (Backend::SocksAuto { fallback_port: 1080 })
    }
}

/// Whether `t` is the template of a preset, for this name and profile.
pub open spec fn is_template(
    t: TunnelSpec,
    preset: Seq<char>,
    name: Seq<char>,
    profile: Seq<char>,
) -> bool {
    &&& model::is_uuid_v4(t.id@)
    &&& t.name@ == name
    &&& t.enabled
    &&& t.profile_id@ == profile
    &&& fits(preset, t.kind, t.backend)
    &&& model::is_default_policy(t.policy)
}

/// A new tunnel from a preset, for the user to adjust.
pub fn template(preset_id: &str, name: &str, profile_id: &str) -> (r: Result<TunnelSpec, String>)
    ensures
        match r {
            Ok(t) => is_preset(preset_id@) && is_template(t, preset_id@, name@, profile_id@),
            Err(e) => !is_preset(preset_id@) && e@ == "未知预设: "@ + preset_id@,
        },
{
    let (kind, backend) = if same_text(preset_id, "vpn_share") {
        (
            TunnelKind::Reverse { bind: "127.0.0.1".to_owned(), port: 1080 },
            Backend::SocksAuto { fallback_port: 7892 },
        )
    } else if same_text(preset_id, "expose_local") {
        (
            TunnelKind::Reverse { bind: "127.0.0.1".to_owned(), port: 0 },
            Backend::Tcp("127.0.0.1".to_owned(), 3000),
        )
    } else if same_text(preset_id, "reach_service") {
        (
            TunnelKind::Local {
                bind: "127.0.0.1".to_owned(),
                port: 8080,
                target_host: "127.0.0.1".to_owned(),
                target_port: 80,
            },
            Backend::default(),
        )
    } else if same_text(preset_id, "reach_lan") {
        (
            TunnelKind::Dynamic { bind: "127.0.0.1".to_owned(), port: 1080 },
            Backend::default(),
        )
    } else if same_text(preset_id, "custom") {
        (TunnelKind::Reverse { bind: "127.0.0.1".to_owned(), port: 0 }, Backend::default())
    } else {
        let mut e = "未知预设: ".to_owned();
        e.append(preset_id);
        return Err(e);
    };
    Ok(
        TunnelSpec {
            id: TunnelSpec::new_id(),
            name: name.to_owned(),
            enabled: true,
            profile_id: profile_id.to_owned(),
            kind,
            backend,
            policy: ReconnectPolicy::default(),
        },
    )
}

/// Every template is acceptable as it is, given a name and a profile.
pub proof fn law_templates_are_valid(
    t: TunnelSpec,
    preset: Seq<char>,
    name: Seq<char>,
    profile: Seq<char>,
)
    requires
        is_preset(preset),
        is_template(t, preset, name, profile),
        !text::blank(name),
        !text::blank(profile),
    ensures
        model::objection(t) is None,
{
    reveal_strlit("127.0.0.1");
    assert("127.0.0.1"@[0] == '1');
}

/// What each preset is for. A server that borrows this machine's VPN: a reverse tunnel to a
/// SOCKS proxy. A local service shown to the server: a reverse tunnel to a fixed address, on a
/// port that the server chooses. A service of the server: a local forward to it. The server's
/// network: a dynamic tunnel. None of them listens anywhere but on the loopback address, on
/// either side.
pub proof fn law_presets_fit_their_purpose(id: Seq<char>, kind: TunnelKind, backend: Backend)
    requires
        is_preset(id),
        fits(id, kind, backend),
    ensures
        id == "vpn_share"@ ==> kind is Reverse && kind->Reverse_port == 1080 && backend
            == (Backend::SocksAuto { fallback_port: 7892 }),
        id == "expose_local"@ ==> kind is Reverse && kind->Reverse_port == 0 && (
        backend matches Backend::Tcp(_, p) && p == 3000),
        id == "reach_service"@ ==> kind is Local && kind->Local_port == 8080
            && kind->target_port == 80,
        id == "reach_lan"@ ==> kind is Dynamic && kind->Dynamic_port == 1080,
        id == "custom"@ ==> kind is Reverse && backend is SocksAuto && kind->Reverse_port == 0,
        match kind {
            TunnelKind::Reverse { bind, .. } => bind@ == "127.0.0.1"@,
            TunnelKind::Local { bind, target_host, .. } => bind@ == "127.0.0.1"@ && target_host@
                == "127.0.0.1"@,
            TunnelKind::Dynamic { bind, .. } => bind@ == "127.0.0.1"@,
        },
        backend matches Backend::Tcp(host, _) ==> host@ == "127.0.0.1"@,
{
    reveal_strlit("vpn_share");
    reveal_strlit("expose_local");
    reveal_strlit("reach_service");
    reveal_strlit("reach_lan");
    reveal_strlit("custom");
    assert("vpn_share"@[0] == 'v');
    assert("expose_local"@[0] == 'e');
    assert("reach_service"@[6] == 's');
    assert("reach_lan"@[6] == 'l' && "reach_lan"@[0] == 'r');
    assert("reach_service"@[0] == 'r');
    assert("custom"@[0] == 'c');
}

} // verus!
