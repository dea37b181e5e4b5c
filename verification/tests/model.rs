use proxy_tool::engine::tunnel::wait_before;
use proxy_tool::model::{
    Backend, ReconnectPolicy, TunnelError, TunnelKind, TunnelSpec, TunnelState,
};
use proxy_tool::time::Duration;

fn policy(fast_retries: u32) -> ReconnectPolicy {
    ReconnectPolicy { auto: true, fast_retries, ..ReconnectPolicy::default() }
}

#[test]
fn fast_backoff_sequence() {
    let p = policy(3);
    let seq: Vec<u64> = (1..=8).map(|n| wait_before(&p, n).as_secs()).collect();
    assert_eq!(seq, vec![1, 1, 1, 1, 2, 4, 8, 16]);
    assert_eq!(wait_before(&p, 9).as_secs(), 30);
    assert_eq!(wait_before(&p, 99).as_secs(), 30);
}

#[test]
fn no_fast_retries_is_pure_exponential() {
    let p = policy(0);
    let seq: Vec<u64> = (1..=5).map(|n| wait_before(&p, n).as_secs()).collect();
    assert_eq!(seq, vec![1, 2, 4, 8, 16]);
}

#[test]
fn max_backoff_respected() {
    let p = ReconnectPolicy { max_backoff: Duration::from_secs(5), ..policy(0) };
    assert_eq!(wait_before(&p, 1).as_secs(), 1);
    assert_eq!(wait_before(&p, 3).as_secs(), 4);
    assert_eq!(wait_before(&p, 4).as_secs(), 5);
    assert_eq!(wait_before(&p, 10).as_secs(), 5);
}

#[test]
fn backoff_never_overflows() {
    let p = ReconnectPolicy { max_backoff: Duration::from_secs(u64::MAX), ..policy(0) };
    assert_eq!(wait_before(&p, 64).as_secs(), 1u64 << 63);
    assert_eq!(wait_before(&p, u32::MAX).as_secs(), u64::MAX);
}

#[test]
fn a_cap_below_a_second_comes_after_the_fast_retries() {
    let p = ReconnectPolicy { max_backoff: Duration::from_millis(200), ..policy(1) };
    assert_eq!(wait_before(&p, 1), Duration::from_secs(1));
    assert_eq!(wait_before(&p, 2), Duration::from_millis(200));
    assert_eq!(wait_before(&p, 9), Duration::from_millis(200));
}

#[test]
fn retryable_classification() {
    let connect = TunnelError::Connect {
        addr: "1.2.3.4:22".into(),
        source: russh::Error::UnknownKey.to_string(),
    };
    let auth_io = TunnelError::AuthIo { source: russh::Error::UnknownKey.to_string() };
    let channel =
        TunnelError::ChannelOpen { what: "会话通道".into(), reason: "closed".into() };
    let protocol = TunnelError::Protocol("转发端口探测失败".into());
    let session = TunnelError::Session { source: russh::Error::UnknownKey.to_string() };
    for e in [&connect, &auth_io, &channel, &protocol, &session] {
        assert!(e.retryable(), "{} 应可重试", e.to_string());
    }

    let auth_rejected = TunnelError::AuthRejected;
    let port_in_use = TunnelError::PortInUse { port: 1080, reason: "Addr in use".into() };
    let forward_rejected = TunnelError::ForwardRejected {
        port: 1081,
        reason: "administratively prohibited".into(),
    };
    let host_key_changed = TunnelError::HostKeyChanged {
        host: "1.2.3.4:22".into(),
        expected: "SHA256:aaa".into(),
        actual: "SHA256:bbb".into(),
    };
    let key_load =
        TunnelError::KeyLoad { path: "C:/k/id_ed25519".into(), reason: "invalid format".into() };
    let cancelled = TunnelError::Cancelled;
    for e in [
        &auth_rejected,
        &port_in_use,
        &forward_rejected,
        &host_key_changed,
        &key_load,
        &cancelled,
    ] {
        assert!(!e.retryable(), "{} 应为致命 (停止重连)", e.to_string());
    }
}

#[test]
fn display_carries_context() {
    let e = TunnelError::PortInUse { port: 1080, reason: "Addr in use".into() };
    assert!(e.to_string().contains("1080"));
    assert!(e.to_string().contains("Addr in use"));

    let e = TunnelError::Connect {
        addr: "1.2.3.4:22".into(),
        source: russh::Error::UnknownKey.to_string(),
    };
    assert!(e.to_string().contains("1.2.3.4:22"));
}

#[test]
fn every_error_has_its_message() {
    let cases = vec![
        (
            TunnelError::Connect { addr: "h:22".into(), source: "x".into() },
            "SSH 连接 h:22 失败: x",
        ),
        (
            TunnelError::AuthRejected,
            "认证被拒绝 (请检查用户名/密码, 或私钥是否已加入服务器 authorized_keys)",
        ),
        (
            TunnelError::KeyLoad { path: "k".into(), reason: "r".into() },
            "加载私钥 k 失败: r",
        ),
        (TunnelError::AuthIo { source: "x".into() }, "认证失败: x"),
        (
            TunnelError::PortInUse { port: 80, reason: "r".into() },
            "绑定本机监听端口 80 失败: r",
        ),
        (
            TunnelError::ForwardRejected { port: 70000, reason: "r".into() },
            "服务器拒绝反向端口转发 70000: r",
        ),
        (
            TunnelError::ChannelOpen { what: "会话通道".into(), reason: "r".into() },
            "打开会话通道失败: r",
        ),
        (TunnelError::Protocol("p".into()), "p"),
        (TunnelError::Session { source: "x".into() }, "SSH 会话错误: x"),
        (
            TunnelError::HostKeyChanged {
                host: "h:22".into(),
                expected: "a".into(),
                actual: "b".into(),
            },
            "服务器 h:22 主机密钥指纹已变更 (预期 a, 实际 b) —— 若服务器确已重装, 请在「服务器」页清除指纹记录后重试",
        ),
        (TunnelError::Cancelled, "已取消"),
    ];
    for (e, text) in cases {
        assert_eq!(e.to_string(), text);
    }
}

#[test]
fn reconnect_policy_defaults() {
    let p = ReconnectPolicy::default();
    assert!(p.auto);
    assert_eq!(p.fast_retries, 3);
    assert_eq!(p.max_backoff, Duration::from_secs(30));
    assert_eq!(p.alive_reset, Duration::from_secs(3));
    assert_eq!(p.keepalive, Duration::from_secs(10));
    assert_eq!(p.keepalive_max, 3);
}

#[test]
fn spec_validate_rejects_bad_input() {
    let mut spec = TunnelSpec {
        id: "x".into(),
        name: "n".into(),
        enabled: true,
        profile_id: "p".into(),
        kind: TunnelKind::Reverse { bind: "127.0.0.1".into(), port: 1081 },
        backend: Backend::SocksAuto { fallback_port: 1080 },
        policy: ReconnectPolicy::default(),
    };
    assert!(spec.validate().is_ok());
    spec.kind = TunnelKind::Reverse { bind: "127.0.0.1".into(), port: 0 };
    assert!(spec.validate().is_ok());
    spec.kind = TunnelKind::Reverse { bind: String::new(), port: 1081 };
    assert!(spec.validate().is_err(), "空 bind 应报错");
    spec.kind = TunnelKind::Reverse { bind: "127.0.0.1".into(), port: 1081 };
    spec.name = "  ".into();
    assert!(spec.validate().is_err(), "空白名应报错");
    spec.name = "n".into();
    spec.profile_id = String::new();
    assert!(spec.validate().is_err(), "缺档案应报错");
}

#[test]
fn spec_validate_says_what_is_wrong_first() {
    let mut spec = TunnelSpec {
        id: "x".into(),
        name: "\u{3000}".into(),
        enabled: true,
        profile_id: "".into(),
        kind: TunnelKind::Local {
            bind: " ".into(),
            port: 1,
            target_host: "\t".into(),
            target_port: 1,
        },
        backend: Backend::default(),
        policy: ReconnectPolicy::default(),
    };
    assert_eq!(spec.validate(), Err("隧道名称不能为空".to_string()));
    spec.name = "n".into();
    assert_eq!(spec.validate(), Err("未关联服务器档案".to_string()));
    spec.profile_id = "p".into();
    assert_eq!(spec.validate(), Err("目标地址不能为空".to_string()));
    spec.kind = TunnelKind::Local {
        bind: " ".into(),
        port: 1,
        target_host: "h".into(),
        target_port: 1,
    };
    assert_eq!(spec.validate(), Err("监听地址不能为空".to_string()));
    spec.kind = TunnelKind::Dynamic { bind: "".into(), port: 1 };
    assert_eq!(spec.validate(), Err("监听地址不能为空".to_string()));
}

#[test]
fn kind_tag_matches_legacy_kind() {
    let rev = TunnelKind::Reverse { bind: "127.0.0.1".into(), port: 1 };
    let loc = TunnelKind::Local {
        bind: "127.0.0.1".into(),
        port: 1,
        target_host: "h".into(),
        target_port: 1,
    };
    let dyn_ = TunnelKind::Dynamic { bind: "127.0.0.1".into(), port: 1 };
    assert_eq!(rev.tag(), "remote");
    assert_eq!(loc.tag(), "local");
    assert_eq!(dyn_.tag(), "dynamic");
}

#[test]
fn new_ids_are_version_four_uuids() {
    let a = TunnelSpec::new_id();
    let b = TunnelSpec::new_id();
    assert_ne!(a, b);
    assert_eq!(uuid::Uuid::parse_str(&a).unwrap().get_version_num(), 4);
    assert_eq!(a.len(), 36);
    assert_eq!(a, a.to_lowercase());
}

#[test]
fn states_compare_by_content() {
    let a = TunnelState::Backoff { attempt: 2, wait_secs: 4 };
    assert_eq!(a.clone(), a);
    assert_ne!(a, TunnelState::Backoff { attempt: 2, wait_secs: 5 });
}

#[test]
fn spans_of_time_add_up() {
    let a = Duration::from_millis(1500);
    assert_eq!(a.as_secs(), 1);
    assert_eq!(a.as_millis(), 1500);
    assert_eq!(a.subsec_nanos(), 500_000_000);
    assert!(Duration::from_secs(1).shorter(&a));
    assert_eq!(Duration::from_secs(2).min(a), a);
    assert_eq!(a.plus(Duration::from_millis(500)), Duration::from_secs(2));
    assert_eq!(a.minus(Duration::from_secs(1)), Duration::from_millis(500));
    assert_eq!(Duration::from_secs(10).times(3), Duration::from_secs(30));
}
