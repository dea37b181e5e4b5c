use std::collections::HashMap;

use proxy_tool::model::TunnelError;
use proxy_tool::ssh::{AuthMethod, Keepalive};
use proxy_tool::transport::russh_direct::{ForwardAction, ForwardSetup};
use proxy_tool::transport::shared::{
    lookup_route, warn_exhausted, Bridge, BridgeAction, ChannelCount, ChannelGuard, Incoming,
    RouteMap, SharedHandler, TunnelHandler, DEFAULT_MAX_SESSIONS,
};
use proxy_tool::tunnel::TunnelConfig;

fn landing(port: u16) -> (String, u16) {
    ("127.0.0.1".into(), port)
}

fn config(remote_port: u32) -> TunnelConfig {
    TunnelConfig {
        server_host: "srv".into(),
        server_port: 22,
        username: "u".into(),
        auth: AuthMethod::Password("x".into()),
        remote_port,
        local_proxy_host: "127.0.0.1".into(),
        local_proxy_port: 7892,
        keepalive: Keepalive::default(),
    }
}

#[test]
fn route_exact_match() {
    let mut m = HashMap::new();
    m.insert(1081, landing(7892));
    m.insert(1082, landing(1080));
    assert_eq!(lookup_route(&m, 1081), Some(landing(7892)));
    assert_eq!(lookup_route(&m, 1082), Some(landing(1080)));
}

#[test]
fn route_single_fallback() {
    let mut m = HashMap::new();
    m.insert(1081, landing(7892));
    assert_eq!(lookup_route(&m, 9999), Some(landing(7892)));
}

#[test]
fn route_multi_miss_rejected() {
    let mut m = HashMap::new();
    m.insert(1081, landing(7892));
    m.insert(1082, landing(1080));
    assert_eq!(lookup_route(&m, 9999), None);
    assert_eq!(lookup_route(&m, 0), None);
}

#[test]
fn route_empty_rejected() {
    let m = HashMap::<u16, (String, u16)>::new();
    assert_eq!(lookup_route(&m, 1081), None);
}

#[test]
fn route_insert_remove() {
    let mut m: RouteMap = HashMap::new();
    m.insert(1081, landing(7892));
    assert_eq!(lookup_route(&m, 1081), Some(landing(7892)));
    m.remove(&1081);
    assert!(lookup_route(&m, 1081).is_none());
}

#[test]
fn channels_are_counted_and_warned_of() {
    assert_eq!(DEFAULT_MAX_SESSIONS, 10);
    let mut c = ChannelCount { open: 0, budget: 2 };
    let (a, note) = ChannelGuard::acquire(&mut c);
    assert!(note.is_none());
    let (b, note) = ChannelGuard::acquire(&mut c);
    assert_eq!(
        note.unwrap(),
        "⚠️ 连接通道数 2 已达预算 2 —— 服务器 MaxSessions 可能拒绝新转发通道, 可在默认值中上调 MaxSessions 或关闭共享连接"
    );
    a.release(&mut c);
    b.release(&mut c);
    assert_eq!(c, ChannelCount { open: 0, budget: 2 });
    assert!(warn_exhausted(1, 2).is_none());
    assert!(warn_exhausted(3, 2).is_some());
}

#[test]
fn forwarded_connections_find_their_landing() {
    let mut h = SharedHandler::new("srv", 22, 10);
    assert_eq!(
        h.on_forwarded(1081),
        Incoming::Refuse("转发端口 1081 无路由, 拒绝通道".to_string())
    );
    assert_eq!(h.channels.open, 0);
    h.routes.insert(1081, landing(7892));
    assert_eq!(
        h.on_forwarded(1081),
        Incoming::Bridge { target: "127.0.0.1:7892".to_string(), warning: None }
    );
    assert_eq!(h.channels.open, 1);
    h.on_bridge_ended();
    assert_eq!(h.channels.open, 0);
    assert_eq!(h.routes.len(), 1);
}

#[test]
fn first_byte_decides_about_a_channel() {
    let mut b = Bridge::new("127.0.0.1:7892".into());
    assert_eq!(b.on_head(None), (BridgeAction::Close, Some("转发通道无数据, 关闭".into())));
    let (a, line) = b.on_head(Some(0));
    assert_eq!(a, BridgeAction::Taint);
    assert!(line.unwrap().contains("0x00"));
    assert_eq!(b.on_head(Some(0x58)), (BridgeAction::Dial("127.0.0.1:7892".into()), None));
    assert_eq!(
        b.on_dialed(Ok(())),
        (BridgeAction::Pass(0x58), "已连接本地代理 127.0.0.1:7892".to_string())
    );
    assert_eq!(
        b.on_dialed(Err("refused".into())),
        (BridgeAction::Close, "连接本地代理 127.0.0.1:7892 失败: refused".to_string())
    );
    assert_eq!(b.on_passed(Ok(())), (BridgeAction::Copy, None));
    assert_eq!(
        b.on_passed(Err("gone".into())),
        (BridgeAction::Close, Some("写回首字节失败: gone".to_string()))
    );
    assert_eq!(Bridge::closed_line(&Ok((1, 22))), "连接关闭 (Ok((1, 22)))");
}

#[test]
fn a_socks_landing_takes_socks_only() {
    let mut h = TunnelHandler::new("127.0.0.1", 7892);
    assert_eq!(h.target, "127.0.0.1:7892");
    assert_eq!(h.on_head(Some(5)), (BridgeAction::Dial("127.0.0.1:7892".into()), None));
    assert_eq!(
        h.on_head(Some(0x58)),
        (
            BridgeAction::Close,
            Some("转发通道首字节 0x58 非 SOCKS5 (探测数据?), 关闭".to_string())
        )
    );
    assert!(!h.corrupted);
    assert_eq!(h.on_head(Some(0)).0, BridgeAction::Taint);
    assert!(h.corrupted);
    assert_eq!(h.on_head(None).0, BridgeAction::Close);
    assert!(h.corrupted);
}

#[test]
fn a_forward_that_works_has_one_route() {
    let mut routes: RouteMap = HashMap::new();
    let mut n = ChannelCount { open: 3, budget: 4 };
    let mut f = ForwardSetup::new(&config(0), &mut routes);
    assert!(routes.is_empty());
    let (a, line) = f.on_forward(&mut routes, Ok(40001));
    assert_eq!(a, ForwardAction::OpenProbe);
    assert_eq!(
        line.unwrap(),
        "服务器已监听 127.0.0.1:40001 (转发到 127.0.0.1:7892)"
    );
    assert_eq!(
        f.on_probe_opened(&mut routes, &mut n, Ok(())),
        (
            ForwardAction::ExecProbe(
                "exec 3<>/dev/tcp/127.0.0.1/40001 && echo PROBE_OK && echo X >&3 || echo PROBE_FAIL"
                    .to_string()
            ),
            warn_exhausted(4, 4)
        )
    );
    assert!(warn_exhausted(4, 4).is_some());
    assert_eq!(n.open, 4);
    assert_eq!(f.on_probe_started(&mut routes, &mut n, Ok(())), ForwardAction::ReadProbe);
    let (a, line) = f.on_probe_output(&mut routes, &mut n, b" PROBE_OK\n");
    assert_eq!(a, ForwardAction::Ready(40001));
    assert_eq!(line, "端口探测结果: PROBE_OK");
    assert_eq!(lookup_route(&routes, 40001), Some(landing(7892)));
    assert_eq!(routes.len(), 1);
    assert_eq!(n, ChannelCount { open: 3, budget: 4 });
}

#[test]
fn a_forward_that_fails_leaves_no_route() {
    let mut routes: RouteMap = HashMap::new();
    let mut n = ChannelCount { open: 3, budget: 10 };
    let mut f = ForwardSetup::new(&config(1081), &mut routes);
    assert_eq!(routes.len(), 1);
    let (a, _) = f.on_forward(&mut routes, Err("denied".into()));
    assert_eq!(
        a,
        ForwardAction::Fail {
            error: TunnelError::ForwardRejected { port: 1081, reason: "denied".into() },
            cancel: None,
        }
    );
    assert!(routes.is_empty());

    let mut f = ForwardSetup::new(&config(1081), &mut routes);
    let (a, _) = f.on_forward(&mut routes, Ok(70000));
    assert_eq!(
        a,
        ForwardAction::Fail {
            error: TunnelError::Protocol("服务器返回异常端口: 70000".into()),
            cancel: None,
        }
    );
    assert!(routes.is_empty());

    let mut f = ForwardSetup::new(&config(1081), &mut routes);
    f.on_forward(&mut routes, Ok(1081));
    assert_eq!(
        f.on_probe_opened(&mut routes, &mut n, Err("no".into())).0,
        ForwardAction::Fail {
            error: TunnelError::ChannelOpen { what: "探测通道".into(), reason: "no".into() },
            cancel: Some(1081),
        }
    );
    assert!(routes.is_empty());

    let mut f = ForwardSetup::new(&config(0), &mut routes);
    f.on_forward(&mut routes, Ok(5000));
    f.on_probe_opened(&mut routes, &mut n, Ok(()));
    assert_eq!(
        f.on_probe_started(&mut routes, &mut n, Err("no".into())),
        ForwardAction::Fail {
            error: TunnelError::Protocol("执行探测命令失败: no".into()),
            cancel: Some(5000),
        }
    );
    assert!(routes.is_empty());
    assert_eq!(n.open, 3);

    let mut f = ForwardSetup::new(&config(0), &mut routes);
    f.on_forward(&mut routes, Ok(5000));
    f.on_probe_opened(&mut routes, &mut n, Ok(()));
    f.on_probe_started(&mut routes, &mut n, Ok(()));
    let (a, _) = f.on_probe_text(&mut routes, &mut n, "PROBE_FAIL\n");
    assert_eq!(
        a,
        ForwardAction::Fail {
            error: TunnelError::Protocol("转发端口探测失败, 服务器输出: PROBE_FAIL".into()),
            cancel: Some(5000),
        }
    );
    assert!(routes.is_empty());
    assert_eq!(n, ChannelCount { open: 3, budget: 10 });
}
