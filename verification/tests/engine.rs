use proxy_tool::engine::attempt::{plan, Attempt, AttemptAction, AttemptEvent, AttemptPlan};
use proxy_tool::engine::pool::{
    resolve_max_sessions, resolve_share, Admission, ConnPool, Ensure, Lease, COST_DIRECT,
    COST_STD_REVERSE,
};
use proxy_tool::engine::tunnel::{
    AttemptEnd, BackoffOutcome, BackoffPoll, BackoffWait, Effect, Next, TunnelTask,
};
use proxy_tool::engine::{Registry, SshCreds};
use proxy_tool::model::{
    Backend, ReconnectPolicy, TunnelError, TunnelKind, TunnelSpec, TunnelState,
};
use proxy_tool::profiles::ServerProfile;
use proxy_tool::ssh::AuthMethod;
use proxy_tool::store::ProfileDefaults;
use proxy_tool::text_map::TextMap;
use proxy_tool::time::Duration;
use proxy_tool::tunnel::TunnelEvent;

fn local_spec(listen_port: u16) -> TunnelSpec {
    TunnelSpec {
        id: TunnelSpec::new_id(),
        name: "引擎测试-本地转发".into(),
        enabled: true,
        profile_id: "p-test".into(),
        kind: TunnelKind::Local {
            bind: "127.0.0.1".into(),
            port: listen_port,
            target_host: "127.0.0.1".into(),
            target_port: 22,
        },
        backend: Backend::default(),
        policy: ReconnectPolicy::default(),
    }
}

fn reverse_spec(id: &str, port: u16) -> TunnelSpec {
    TunnelSpec {
        id: id.into(),
        name: "n".into(),
        enabled: true,
        profile_id: "p".into(),
        kind: TunnelKind::Reverse { bind: "127.0.0.1".into(), port },
        backend: Backend::default(),
        policy: ReconnectPolicy::default(),
    }
}

fn creds() -> SshCreds {
    SshCreds {
        host: "h".into(),
        port: 22,
        username: "u".into(),
        auth: AuthMethod::Password("x".into()),
        share: true,
        max_sessions: 10,
    }
}

#[test]
fn engine_test_persistence_roundtrip() {
    let mut registry = Registry::new();
    let spec = local_spec(12345);
    let id = spec.id.clone();
    registry.create(spec).expect("创建失败");

    let saved = registry.specs();
    assert_eq!(saved.len(), 1);
    assert_eq!(saved[0].id, id);

    let mut registry2 = Registry::new();
    let restored = registry2.restore(&saved);
    assert_eq!(restored.len(), 1);
    assert_eq!(restored[0].id, id);
    let all = registry2.list();
    assert!(all.iter().any(|(s, st)| s.id == id && *st == TunnelState::Stopped));

    registry2.set_enabled(&id, false).expect("更新 enabled 失败");
    assert!(!registry2.list()[0].0.enabled, "内存态应已更新");
    let mut registry3 = Registry::new();
    registry3.restore(&registry2.specs());
    assert!(!registry3.list()[0].0.enabled, "落盘后重启应保持 false");
    registry3.set_enabled(&id, true).expect("恢复 enabled 失败");
    assert!(registry3.list()[0].0.enabled);
}

#[test]
fn list_and_persist_preserve_creation_order() {
    let mut registry = Registry::new();
    let mut ids = Vec::new();
    for i in 0..3 {
        let mut spec = local_spec(20000 + i);
        spec.name = format!("顺序-{i}");
        ids.push(spec.id.clone());
        registry.create(spec).expect("创建失败");
    }
    let listed: Vec<String> = registry.list().into_iter().map(|(s, _)| s.id).collect();
    assert_eq!(listed, ids, "list 应按创建顺序");
    let saved: Vec<String> = registry.specs().into_iter().map(|s| s.id).collect();
    assert_eq!(saved, ids, "tunnels.json 落盘顺序应稳定");

    registry.delete(&ids[1]).expect("删除失败");
    let after: Vec<String> = registry.list().into_iter().map(|(s, _)| s.id).collect();
    assert_eq!(after, vec![ids[0].clone(), ids[2].clone()], "删除后其余保持相对顺序");

    let mut registry2 = Registry::new();
    let restored: Vec<String> =
        registry2.restore(&registry.specs()).into_iter().map(|s| s.id).collect();
    assert_eq!(restored, vec![ids[0].clone(), ids[2].clone()]);
}

#[test]
fn delete_running_tunnel() {
    let mut registry = Registry::new();
    let spec = local_spec(1);
    let id = spec.id.clone();
    registry.create(spec).expect("创建失败");
    registry.start(&id).expect("启动失败");
    registry.set_state(&id, TunnelState::Running);
    let gone = registry.delete(&id).expect("删除失败");
    assert!(gone.stop);
    assert!(registry.list().iter().all(|(s, _)| s.id != id), "删除后列表不应再有该隧道");
    assert!(registry.stop(&id).is_err(), "删除后 stop 应报不存在");
}

#[test]
fn the_registry_refuses_what_it_cannot_take() {
    let mut r = Registry::new();
    r.create(reverse_spec("a", 0)).unwrap();
    assert!(r.create(reverse_spec("a", 0)).is_err());
    let mut bad = reverse_spec("b", 0);
    bad.name = "".into();
    assert_eq!(r.create(bad), Err("隧道名称不能为空".to_string()));
    assert_eq!(r.start("zz").unwrap_err(), "隧道不存在: zz");
    assert_eq!(r.retry_now("zz").unwrap_err(), "隧道不存在: zz");
    assert_eq!(r.set_enabled("zz", true).unwrap_err(), "隧道不存在: zz");
    assert_eq!(r.drop_connection("zz").unwrap_err(), "隧道不存在: zz");
    assert!(r.start("a").is_ok());
    assert!(r.start("a").is_err(), "already running");
}

#[test]
fn flags_reach_the_task() {
    let mut r = Registry::new();
    r.create(reverse_spec("a", 0)).unwrap();
    r.start("a").unwrap();
    assert!(!r.stop_requested("a"));
    r.retry_now("a").unwrap();
    assert!(r.take_retry("a"));
    assert!(!r.take_retry("a"));
    r.stop("a").unwrap();
    assert!(r.stop_requested("a"));
    r.task_ended("a");
    assert!(r.start("a").is_ok());
    assert!(!r.stop_requested("a"));
}

#[test]
fn the_servers_port_is_kept() {
    let mut r = Registry::new();
    r.create(reverse_spec("a", 0)).unwrap();
    assert_eq!(
        r.on_bound_port("a", 40001),
        Some(("服务器分配端口 40001, 已回填并保存".to_string(), true))
    );
    assert_eq!(r.on_bound_port("a", 40001), Some(("服务器分配端口 40001".to_string(), false)));
    assert_eq!(
        r.get("a").unwrap().kind,
        TunnelKind::Reverse { bind: "127.0.0.1".into(), port: 40001 }
    );
    assert!(r.on_bound_port("zz", 1).is_none());
    let l = local_spec(5);
    let id = l.id.clone();
    r.create(l).unwrap();
    assert!(r.on_bound_port(&id, 9).is_none());
}

#[test]
fn a_profiles_tunnels_go_together() {
    let mut r = Registry::new();
    r.create(reverse_spec("a", 0)).unwrap();
    r.create(local_spec(1)).unwrap();
    r.create(reverse_spec("c", 0)).unwrap();
    let gone = r.delete_of_profile("p");
    assert_eq!(gone.len(), 2);
    assert!(gone.iter().all(|e| e.stop && e.spec.profile_id == "p"));
    assert_eq!(r.list().len(), 1);
    assert_eq!(r.list()[0].0.profile_id, "p-test");
}

#[test]
fn enabled_tunnels_are_found_in_order() {
    let mut r = Registry::new();
    for id in ["a", "b", "c"] {
        r.create(reverse_spec(id, 0)).unwrap();
    }
    r.set_enabled("b", false).unwrap();
    assert_eq!(r.enabled_ids(), vec!["a".to_string(), "c".to_string()]);
}

#[test]
fn a_wait_is_slept_in_small_steps() {
    let mut w = BackoffWait::new(Duration::from_millis(500));
    let mut retry = false;
    assert_eq!(w.poll(false, &mut retry), BackoffPoll::Sleep(Duration::from_millis(200)));
    assert_eq!(w.poll(false, &mut retry), BackoffPoll::Sleep(Duration::from_millis(200)));
    assert_eq!(w.poll(false, &mut retry), BackoffPoll::Sleep(Duration::from_millis(100)));
    assert_eq!(w.poll(false, &mut retry), BackoffPoll::Done(BackoffOutcome::Completed));

    let mut w = BackoffWait::new(Duration::from_secs(9));
    let mut retry = true;
    assert_eq!(w.poll(true, &mut retry), BackoffPoll::Done(BackoffOutcome::Stopped));
    assert!(retry);
    assert_eq!(w.poll(false, &mut retry), BackoffPoll::Done(BackoffOutcome::RetryNow));
    assert!(!retry);
}

#[test]
fn a_lost_network_is_retried_at_once() {
    let mut t = TunnelTask::new(&reverse_spec("a", 0));
    let (effects, next) = t.on_top(false);
    assert_eq!(
        effects,
        vec![Effect::State(TunnelState::Starting), Effect::Status("connecting", None)]
    );
    assert_eq!(next, Next::Attempt);
    let end = AttemptEnd { result: Ok(()), stop: false, alive: Some(Duration::from_secs(1)) };
    let (effects, next) = t.on_attempt_end(&end);
    assert_eq!(
        effects,
        vec![
            Effect::State(TunnelState::Backoff { attempt: 1, wait_secs: 1 }),
            Effect::Status("reconnecting", Some("第 1 次重连, 1s 后重试".into())),
        ]
    );
    assert_eq!(next, Next::Wait(Duration::from_secs(1)));
    assert_eq!(t.on_wait_end(BackoffOutcome::Completed), (vec![], Next::Top));
    assert_eq!(
        t.on_wait_end(BackoffOutcome::RetryNow),
        (vec![Effect::Log("跳过剩余等待, 立即重试".into())], Next::Top)
    );
    let (_, next) = t.on_wait_end(BackoffOutcome::Stopped);
    assert_eq!(next, Next::Exit);
}

#[test]
fn a_wrong_password_is_not_retried() {
    let mut t = TunnelTask::new(&reverse_spec("a", 0));
    let end = AttemptEnd { result: Err(TunnelError::AuthRejected), stop: false, alive: None };
    let (effects, next) = t.on_attempt_end(&end);
    assert_eq!(next, Next::Exit);
    let errors: Vec<&Effect> = effects
        .iter()
        .filter(|e| matches!(e, Effect::Status("error", Some(m)) if m.contains("认证被拒")))
        .collect();
    assert_eq!(errors.len(), 1);
    assert!(!effects.iter().any(|e| matches!(e, Effect::Status("reconnecting", _))));
}

#[test]
fn a_long_life_starts_the_count_afresh() {
    let mut t = TunnelTask::new(&reverse_spec("a", 0));
    let short = AttemptEnd {
        result: Err(TunnelError::Protocol("x".into())),
        stop: false,
        alive: None,
    };
    for _ in 0..6 {
        t.on_attempt_end(&short);
    }
    assert_eq!(t.n, 6);
    let long = AttemptEnd { result: Ok(()), stop: false, alive: Some(Duration::from_secs(3)) };
    let (effects, next) = t.on_attempt_end(&long);
    assert_eq!(t.n, 1);
    assert_eq!(effects[0], Effect::Log("连接存活超过重置阈值, 退避计数归零".into()));
    assert_eq!(next, Next::Wait(Duration::from_secs(1)));
}

#[test]
fn without_reconnecting_the_first_end_is_the_last() {
    let mut spec = reverse_spec("a", 0);
    spec.policy.auto = false;
    let mut t = TunnelTask::new(&spec);
    let end = AttemptEnd { result: Ok(()), stop: false, alive: None };
    let (effects, next) = t.on_attempt_end(&end);
    assert_eq!(next, Next::Exit);
    assert!(effects.contains(&Effect::State(TunnelState::Stopped)));
}

#[test]
fn a_missing_landing_is_final() {
    let e = TunnelError::PortInUse { port: 1080, reason: "r".into() };
    let effects = TunnelTask::on_no_landing(&e);
    assert_eq!(effects[0], Effect::Log(format!("❌ {}", e.to_string())));
    assert_eq!(
        effects[1],
        Effect::State(TunnelState::Failed { message: e.to_string(), retryable: false })
    );
    assert_eq!(effects[2], Effect::Status("error", Some(e.to_string())));
}

#[test]
fn an_attempt_gives_its_lease_back_once() {
    let mut a = Attempt::new(&local_spec(1));
    assert_eq!(a.on_event(AttemptEvent::Leased).0, vec![AttemptAction::OpenForward]);
    let (acts, result) = a.on_event(AttemptEvent::Opened);
    assert_eq!(acts.first(), Some(&AttemptAction::FillSlot));
    assert_eq!(acts.last(), Some(&AttemptAction::AwaitForward));
    assert!(result.is_none());
    let (acts, result) = a.on_event(AttemptEvent::Served(Ok(())));
    assert_eq!(acts, vec![AttemptAction::EmptySlot, AttemptAction::CloseLease]);
    assert_eq!(result, Some(Ok(())));
    assert!(a.on_event(AttemptEvent::Served(Ok(()))).0.is_empty());

    let mut a = Attempt::new(&local_spec(1));
    a.on_event(AttemptEvent::Leased);
    let e = TunnelError::PortInUse { port: 1, reason: "r".into() };
    let (acts, result) = a.on_event(AttemptEvent::OpenFailed(e));
    assert_eq!(acts, vec![AttemptAction::CloseLease]);
    assert_eq!(result, Some(Err(TunnelError::PortInUse { port: 1, reason: "r".into() })));

    let mut a = Attempt::new(&reverse_spec("r", 0));
    let (acts, result) = a.on_event(AttemptEvent::LeaseDenied(TunnelError::AuthRejected));
    assert!(acts.is_empty());
    assert_eq!(result, Some(Err(TunnelError::AuthRejected)));

    let mut a = Attempt::new(&reverse_spec("r", 0));
    assert_eq!(a.on_event(AttemptEvent::Leased).0, vec![AttemptAction::ServeReverse]);
    assert_eq!(
        a.on_event(AttemptEvent::Session(TunnelEvent::BoundPort(9))).0,
        vec![AttemptAction::Backfill(9)]
    );
    let (acts, _) = a.on_event(AttemptEvent::Served(Ok(())));
    assert_eq!(acts, vec![AttemptAction::TeardownSlot, AttemptAction::CloseLease]);
}

#[test]
fn a_plan_follows_the_shape() {
    let landing = Some(("127.0.0.1".to_string(), 7892));
    match plan(&reverse_spec("r", 1081), &creds(), &landing) {
        AttemptPlan::Reverse { cfg, cost } => {
            assert_eq!(cost, COST_STD_REVERSE);
            assert_eq!(cfg.remote_port, 1081);
            assert_eq!(cfg.local_proxy_port, 7892);
            assert_eq!(cfg.keepalive.interval, Duration::from_secs(10));
        }
        _ => panic!("not a reverse plan"),
    }
    match plan(&local_spec(8080), &creds(), &None) {
        AttemptPlan::Local { cfg, target_host, target_port, cost } => {
            assert_eq!(cost, COST_DIRECT);
            assert_eq!(cfg.listen_port, 8080);
            assert_eq!((target_host.as_str(), target_port), ("127.0.0.1", 22));
        }
        _ => panic!("not a local plan"),
    }
}

#[test]
fn tunnels_of_a_profile_share_one_connection() {
    let mut pool = ConnPool::default();
    assert_eq!(pool.acquire("p", true, 10, 0, COST_DIRECT), Admission::Shared);
    assert_eq!(pool.ensure_connected("p", false), Ensure::Connect);
    let (g, line) = pool.connected("p");
    assert_eq!(g, 1);
    assert_eq!(line, "共享连接: 为档案 p 建立第 1 代连接");
    let a = pool.lease("p", "a", g, COST_DIRECT);
    assert!(a.is_shared());
    assert_eq!(pool.acquire("p", true, 10, 1, COST_DIRECT), Admission::Shared);
    assert_eq!(pool.ensure_connected("p", false), Ensure::Reuse(1));
    assert_eq!(ConnPool::reuse_line("p", 1), "共享连接: 复用档案 p 现有连接 (代际 1)");
    let b = pool.lease("p", "b", 1, COST_DIRECT);

    let mut open = TextMap::new();
    open.insert("p".to_string(), 3usize);
    let s = pool.stats(&open);
    assert_eq!(s.len(), 1);
    assert_eq!((s[0].generation, s[0].connect_count, s[0].open_channels), (1, 1, 3));
    assert_eq!(s[0].leases, vec!["a".to_string(), "b".to_string()]);

    assert_eq!(a.close(&mut pool), None);
    assert_eq!(pool.stats(&open)[0].leases, vec!["b".to_string()]);
    assert_eq!(b.close(&mut pool), Some("last lease released"));
    assert_eq!(pool.stats(&open)[0].generation, 0);
}

#[test]
fn a_dropped_connection_is_made_once_for_all() {
    let mut pool = ConnPool::new();
    pool.acquire("p", true, 10, 0, 2);
    let (g, _) = pool.connected("p");
    let a = pool.lease("p", "a", g, 2);
    assert!(pool.force_disconnect("p"));
    assert!(!pool.force_disconnect("p"));
    assert_eq!(a.close(&mut pool), None);
    assert_eq!(pool.ensure_connected("p", false), Ensure::Connect);
    let (g, _) = pool.connected("p");
    assert_eq!(g, 2);
    assert_eq!(pool.ensure_connected("p", false), Ensure::Reuse(2));
    assert_eq!(pool.ensure_connected("p", true), Ensure::Connect);
}

#[test]
fn an_old_lease_never_closes_a_new_connection() {
    let mut pool = ConnPool::new();
    pool.acquire("p", true, 10, 0, 2);
    pool.connected("p");
    let a = pool.lease("p", "a", 1, 2);
    pool.force_disconnect("p");
    pool.connected("p");
    assert_eq!(a.close(&mut pool), None);
    assert_eq!(pool.ensure_connected("p", false), Ensure::Reuse(2));
}

#[test]
fn a_full_connection_makes_way() {
    let mut pool = ConnPool::new();
    assert_eq!(pool.acquire("p", true, 3, 0, 2), Admission::Shared);
    pool.connected("p");
    pool.lease("p", "a", 1, 2);
    match pool.acquire("p", true, 3, 0, 2) {
        Admission::Overflow(note) => assert_eq!(
            note,
            "⚠️ 共享连接预算已满 (租约已承诺 2 + 本次 2, 活通道 0, 预算 3) —— 本隧道自动回退为独立连接"
        ),
        other => panic!("{other:?}"),
    }
    assert!(matches!(
        pool.acquire("p", true, u32::MAX, usize::MAX, usize::MAX),
        Admission::Overflow(_)
    ));
    assert_eq!(pool.acquire("q", false, 3, 0, 2), Admission::Dedicated);
    assert_eq!(pool.stats(&TextMap::new()).len(), 1);
    let own = Lease::Dedicated { tunnel_id: "b".into() };
    assert!(!own.is_shared());
    assert_eq!(own.close(&mut pool), Some("lease closed"));
}

#[test]
fn sharing_is_decided_from_the_profile_up() {
    let mut p = ServerProfile {
        id: "p".into(),
        name: "n".into(),
        host: "h".into(),
        port: 22,
        username: "u".into(),
        identity_file: None,
        share_connection: None,
    };
    let mut d = ProfileDefaults::default();
    assert!(resolve_share(Some(&p), &d));
    assert_eq!(resolve_max_sessions(&d), 10);
    d.share_connection = Some(false);
    d.max_sessions = Some(4);
    assert!(!resolve_share(Some(&p), &d));
    assert!(!resolve_share(None, &d));
    assert_eq!(resolve_max_sessions(&d), 4);
    p.share_connection = Some(true);
    assert!(resolve_share(Some(&p), &d));
}
