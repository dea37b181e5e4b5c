use proxy_tool::commands::{
    autostart_line, delete_profile, deploy_command, diag_summary, forget_on_status, message_entry,
    resolve_auth, resolve_reverse, restored_line, short_id, start_by_profile, state_to_dto,
    status_entry, tunnel_from_preset, tunnel_from_scenario, tunnel_start, verify_command,
};
use proxy_tool::diag::{
    bundle_name, export_bundle, fmt_mb, level_of, log, memory_line, name_bundle, now,
    prune_bundles, rotate, start_line, uptime_minutes, FileLog, RotateStep, DEFAULT_MAX_BYTES,
};
use proxy_tool::engine::pool::ConnStats;
use proxy_tool::engine::Registry;
use proxy_tool::model::{Backend, ReconnectPolicy, TunnelKind, TunnelSpec, TunnelState};
use proxy_tool::profiles::ServerProfile;
use proxy_tool::scenarios::Scenario;
use proxy_tool::secrets::SecretStore;
use proxy_tool::ssh::AuthMethod;
use proxy_tool::store::{load_profiles, ProfileDefaults, ProfileStore, ProfilesFile, ScenarioStore};

fn profile(id: &str, key: Option<&str>) -> ServerProfile {
    ServerProfile {
        id: id.into(),
        name: "n".into(),
        host: "h".into(),
        port: 2222,
        username: "u".into(),
        identity_file: key.map(String::from),
        share_connection: None,
    }
}

fn spec(id: &str, profile_id: &str) -> TunnelSpec {
    TunnelSpec {
        id: id.into(),
        name: "隧道".into(),
        enabled: true,
        profile_id: profile_id.into(),
        kind: TunnelKind::Reverse { bind: "127.0.0.1".into(), port: 1081 },
        backend: Backend::default(),
        policy: ReconnectPolicy::default(),
    }
}

fn desk() -> (Registry, ProfileStore, SecretStore) {
    let mut r = Registry::new();
    r.create(spec("t1", "p1")).unwrap();
    r.create(spec("t2", "p2")).unwrap();
    r.create(spec("t3", "gone")).unwrap();
    let mut s = load_profiles(ProfilesFile::Missing);
    s.save(profile("p1", None));
    s.save(profile("p2", Some("/k")));
    (r, s, SecretStore::default())
}

#[test]
fn level_of_matches_frontend_semantics() {
    assert_eq!(level_of("连接失败: 拒绝"), "error");
    assert_eq!(level_of("❌ 认证被拒"), "error");
    assert_eq!(level_of("WARN 通道耗尽, 回退独立连接"), "warn");
    assert_eq!(level_of("已连接"), "info");
}

#[test]
fn memory_is_written_as_the_standard_does() {
    let f = |b: u64| format!("{:.1} MB", b as f64 / 1024.0 / 1024.0);
    let mut cases = vec![
        0,
        1,
        52428,
        52429,
        262144,
        786432,
        1048576,
        1310720,
        157286400,
        u64::MAX,
        u64::MAX - 1023,
        u64::MAX - 1024,
        u64::MAX - 1025,
        (1 << 53) - 1,
        1 << 53,
        (1 << 53) + 1,
        (1 << 53) + 3,
        (1 << 60) + 129,
    ];
    let mut x: u64 = 0x9E37_79B9_7F4A_7C15;
    for i in 0..20000u32 {
        x ^= x << 13;
        x ^= x >> 7;
        x ^= x << 17;
        cases.push(x >> (i % 64));
        cases.push(((x >> 40) << 17) + (i as u64 % 3));
    }
    for b in cases {
        assert_eq!(fmt_mb(b), f(b), "{b}");
    }
}

#[test]
fn time_is_written_by_the_calendar() {
    assert_eq!(now(0, 0).unwrap(), "1970-01-01 00:00:00");
    assert_eq!(now(0, 8 * 3600).unwrap(), "1970-01-01 08:00:00");
    assert_eq!(now(951_782_399, 1).unwrap(), "2000-02-29 00:00:00");
    assert_eq!(bundle_name(951_782_400, 0).unwrap(), "diag-20000229-000000.txt");
    assert_eq!(now(0, 86_400), None);
    assert_eq!(now(i64::MAX, 0), None);
    assert_eq!(bundle_name(i64::MAX, 0), None);
    assert_eq!(name_bundle("x"), "diag-x.txt");
    assert_eq!(uptime_minutes(Some(119)), 1);
    assert_eq!(uptime_minutes(None), 0);
}

struct Disk {
    files: Vec<(String, String)>,
}

impl Disk {
    fn get(&self, name: &str) -> Option<&str> {
        self.files.iter().find(|f| f.0 == name).map(|f| f.1.as_str())
    }

    fn take(&mut self, name: &str) -> Option<String> {
        let i = self.files.iter().position(|f| f.0 == name)?;
        Some(self.files.remove(i).1)
    }

    fn write(&mut self, log: &mut FileLog, msg: &str) {
        let step = log.write_line("2026-01-01 00:00:00", "info", "t", msg);
        if step.rotate {
            for s in rotate("app.log") {
                match s {
                    RotateStep::Remove(a) => {
                        self.take(&a);
                    }
                    RotateStep::Rename(a, b) => {
                        if let Some(t) = self.take(&a) {
                            self.take(&b);
                            self.files.push((b, t));
                        }
                    }
                }
            }
            self.files.push(("app.log".into(), String::new()));
            log.on_rotated(true);
        }
        let mut t = self.take("app.log").unwrap_or_default();
        t.push_str(&step.line);
        self.files.push(("app.log".into(), t));
        log.on_written(&step.line);
    }
}

#[test]
fn rotation_creates_and_prunes() {
    let mut disk = Disk { files: Vec::new() };
    let mut log = FileLog::open(0, 300);
    for i in 0..60 {
        disk.write(&mut log, &format!("line-{i:04} padding-padding-padding"));
    }
    assert!(disk.get("app.log").is_some());
    assert!(disk.get("app.log.1").is_some());
    assert!(disk.get("app.log.2").is_some());
    assert!(disk.get("app.log.3").is_none(), "最旧份应被删除");
    for name in ["app.log", "app.log.1", "app.log.2"] {
        let size = disk.get(name).unwrap().len();
        assert!(size <= 300 + 80, "{name} 超出上限: {size}");
    }
    assert!(disk.get("app.log").unwrap().contains("line-0059"));
}

#[test]
fn bundle_contains_summary_and_lines() {
    let mut disk = Disk { files: Vec::new() };
    let mut log = FileLog::open(0, DEFAULT_MAX_BYTES);
    disk.write(&mut log, "MARKER-LIVE-LINE");
    disk.write(&mut log, "MARKER-ERR-LINE");
    let text = export_bundle(
        "0.1.0",
        "2026-01-01 00:00:00",
        7,
        "SUMMARY-MARKER: 3 tunnels",
        None,
        Some("old\n"),
        disk.get("app.log"),
    );
    assert!(text.contains("MARKER-LIVE-LINE"));
    assert!(text.contains("MARKER-ERR-LINE"));
    assert!(text.contains("SUMMARY-MARKER"));
    assert!(text.contains("proxyTool 诊断包"));
    assert!(text.starts_with(
        "proxyTool 诊断包 v0.1.0 | 导出于 2026-01-01 00:00:00 | 运行 7 分钟\n\nSUMMARY-MARKER: 3 tunnels\n==== 运行日志 (旧 → 新, 已自动轮转) ====\n\n---- app.log.1 ----\nold\n\n---- app.log ----\n2026"
    ));
}

#[test]
fn oversized_line_truncated() {
    let mut disk = Disk { files: Vec::new() };
    let mut log = FileLog::open(0, DEFAULT_MAX_BYTES);
    let huge = "x".repeat(200 * 1024);
    disk.write(&mut log, &huge);
    let text = disk.get("app.log").unwrap();
    assert!(text.contains("超长行"));
    assert!(text.len() < 8 * 1024, "截断后应远小于原串: {}", text.len());
    assert!(text.contains(&format!("(超长行 {}B 已截断)", 200 * 1024 + 32)));
    assert_eq!(log.written, text.len() as u64);
}

#[test]
fn prune_bundles_keeps_newest_and_ignores_other_files() {
    let mut names: Vec<String> = [
        "20260103-000000",
        "20260101-000000",
        "20260105-000000",
        "20260102-000000",
        "20260104-000000",
    ]
    .iter()
    .map(|ts| format!("diag-{ts}.txt"))
    .collect();
    names.push("app.log".into());
    names.push("diag-notes.txt".into());
    names.push("diag-x.log".into());
    let gone = prune_bundles(&names, 3);
    let mut left: Vec<String> = names.into_iter().filter(|n| !gone.contains(n)).collect();
    left.sort();
    assert_eq!(
        left,
        vec![
            String::from("app.log"),
            String::from("diag-20260104-000000.txt"),
            String::from("diag-20260105-000000.txt"),
            String::from("diag-notes.txt"),
            String::from("diag-x.log"),
        ]
    );
    assert!(prune_bundles(&left, 3).is_empty());
}

#[test]
fn lines_are_logged_where_there_is_a_log() {
    assert!(log(None, "n", "info", "t", "m").is_none());
    let f = FileLog::open(10, 20);
    let s = log(Some(&f), "n", "info", "t", "m").unwrap();
    assert_eq!(s.line, "n [info] [t] m\n");
    assert!(s.rotate);
    assert_eq!(
        start_line("0.1.0", "linux", "x86_64", false),
        "==== proxyTool 0.1.0 启动 | linux x86_64 | release ===="
    );
    assert_eq!(memory_line(true, 1 << 20), "启动内存 RSS: 1.0 MB");
    assert_eq!(memory_line(false, 1 << 20), "内存 RSS: 1.0 MB");
}

#[test]
fn states_have_names_and_messages() {
    assert_eq!(state_to_dto(&TunnelState::Stopped), ("disconnected".to_string(), None));
    assert_eq!(state_to_dto(&TunnelState::Starting), ("connecting".to_string(), None));
    assert_eq!(state_to_dto(&TunnelState::Running), ("connected".to_string(), None));
    assert_eq!(
        state_to_dto(&TunnelState::Backoff { attempt: 2, wait_secs: 4 }),
        ("reconnecting".to_string(), Some("第 2 次重连, 4s 后重试".to_string()))
    );
    assert_eq!(
        state_to_dto(&TunnelState::Failed { message: "x".into(), retryable: false }),
        ("error".to_string(), Some("x".to_string()))
    );
}

#[test]
fn secrets_are_chosen_for_a_start() {
    let (r, s, mut secrets) = desk();
    let start = |secrets: &SecretStore, id: &str, pw: Option<&str>| {
        start_by_profile(&r, &s, secrets, id, pw.map(String::from))
    };
    assert_eq!(start(&secrets, "zz", None).unwrap_err(), "隧道不存在: zz");
    assert_eq!(
        start(&secrets, "t3", None).unwrap_err(),
        "隧道关联的档案不存在 (id: gone)"
    );
    assert_eq!(
        start(&secrets, "t1", Some("")).unwrap_err(),
        "该服务器使用密码认证, 请输入密码 (或勾选记住密码)"
    );
    let c = start(&secrets, "t1", Some("pw")).unwrap();
    assert_eq!(c.auth, AuthMethod::Password("pw".into()));
    assert_eq!((c.port, c.share, c.max_sessions), (2222, true, 10));
    assert_eq!(
        start(&secrets, "t2", None).unwrap().auth,
        AuthMethod::KeyFile { path: "/k".into(), passphrase: None }
    );
    assert!(tunnel_start(&mut secrets, &r, "t1", &Some("kept".into()), Some(true)));
    assert_eq!(
        start(&secrets, "t1", None).unwrap().auth,
        AuthMethod::Password("kept".into())
    );
    assert_eq!(
        start(&secrets, "t1", Some("new")).unwrap().auth,
        AuthMethod::Password("new".into())
    );
    assert!(!tunnel_start(&mut secrets, &r, "t1", &None, Some(false)));
    assert!(!tunnel_start(&mut secrets, &r, "t1", &Some("x".into()), None));
    assert!(!tunnel_start(&mut secrets, &r, "zz", &Some("x".into()), Some(true)));
    assert!(secrets.contains("p1"));
    assert!(tunnel_start(&mut secrets, &r, "t1", &Some("x".into()), Some(false)));
    assert!(!secrets.contains("p1"));
    assert_eq!(
        resolve_auth(&profile("k", Some("/k")), Some("pp".into())).unwrap(),
        AuthMethod::KeyFile { path: "/k".into(), passphrase: Some("pp".into()) }
    );
}

#[test]
fn wrong_secrets_are_forgotten() {
    let (r, _, mut secrets) = desk();
    secrets.set("p1", "bad");
    assert!(!forget_on_status(&mut secrets, &r, "t1", "connected", Some("认证被拒")));
    assert!(!forget_on_status(&mut secrets, &r, "t1", "error", Some("其他")));
    assert!(!forget_on_status(&mut secrets, &r, "t1", "error", None));
    assert!(!forget_on_status(&mut secrets, &r, "t2", "error", Some("认证被拒")));
    assert!(secrets.contains("p1"));
    assert!(forget_on_status(&mut secrets, &r, "t1", "error", Some("认证被拒绝 (…)")));
    assert!(!secrets.contains("p1"));
    secrets.set("p1", "bad");
    assert!(forget_on_status(&mut secrets, &r, "t1", "error", Some("加载私钥 k 失败")));
}

#[test]
fn a_profile_goes_with_all_it_has() {
    let (mut r, mut s, mut secrets) = desk();
    secrets.set("p1", "x");
    let d = delete_profile(&mut secrets, &mut r, &mut s, "p1");
    assert!(d.secrets_changed);
    assert_eq!(d.tunnels.len(), 1);
    assert_eq!(d.tunnels[0].spec.id, "t1");
    assert!(!secrets.contains("p1"));
    assert_eq!(s.profiles.len(), 1);
    assert_eq!(r.list().len(), 2);
    let d = delete_profile(&mut secrets, &mut r, &mut s, "p1");
    assert!(!d.secrets_changed && d.tunnels.is_empty());
}

#[test]
fn tunnels_are_made_from_templates() {
    let fast = ReconnectPolicy { fast_retries: 9, ..ReconnectPolicy::default() };
    let d = ProfileDefaults { reconnect: Some(fast), ..ProfileDefaults::default() };
    let t = tunnel_from_preset(&d, "vpn_share", "n", "p").unwrap();
    assert_eq!(t.policy, fast);
    assert_eq!(
        tunnel_from_preset(&d, "x", "n", "p").unwrap_err(),
        "未知预设: x"
    );
    let mut s = ScenarioStore::default();
    s.save(Scenario {
        id: "s1".into(),
        name: "n".into(),
        description: "".into(),
        kind: TunnelKind::Dynamic { bind: "127.0.0.1".into(), port: 9 },
        backend: Backend::default(),
    })
    .unwrap();
    let t = tunnel_from_scenario(&s, &d, "s1", "名".into(), "p".into()).unwrap();
    assert_eq!(t.kind, TunnelKind::Dynamic { bind: "127.0.0.1".into(), port: 9 });
    assert_eq!(t.policy, fast);
    assert!(t.enabled);
    let none = ProfileDefaults::default();
    let t = tunnel_from_scenario(&s, &none, "s1", "名".into(), "p".into()).unwrap();
    assert_eq!(t.policy, ReconnectPolicy::default());
    assert_eq!(
        tunnel_from_scenario(&s, &d, "s2", "名".into(), "p".into()).unwrap_err(),
        "场景不存在: s2"
    );
    assert_eq!(
        tunnel_from_scenario(&s, &d, "s1", " ".into(), "p".into()).unwrap_err(),
        "隧道名称不能为空"
    );
}

#[test]
fn server_actions_need_a_reverse_tunnel() {
    let (mut r, s, _) = desk();
    let (p, port) = resolve_reverse(&r, &s, "t1").unwrap();
    assert_eq!((p.id.as_str(), port), ("p1", 1081));
    assert_eq!(resolve_reverse(&r, &s, "zz").unwrap_err(), "隧道不存在: zz");
    assert_eq!(
        resolve_reverse(&r, &s, "t3").unwrap_err(),
        "隧道关联的档案不存在 (id: gone)"
    );
    let mut d = spec("t4", "p1");
    d.kind = TunnelKind::Dynamic { bind: "b".into(), port: 1 };
    r.create(d).unwrap();
    assert_eq!(resolve_reverse(&r, &s, "t4").unwrap_err(), "仅反向隧道支持此操作");
    assert!(verify_command(1081).contains("--socks5-hostname 127.0.0.1:1081 https://"));
    assert!(verify_command(1081).contains("%{http_code} time=%{time_total}s\\n'"));
    let c = deploy_command(1081);
    assert!(c.contains("ALL_PROXY=socks5h://127.0.0.1:1081 HTTP_PROXY=http://127.0.0.1:1081 HTTPS_PROXY=http://127.0.0.1:1081 exec \"$@\"\nPROXYEOF\n"));
    assert!(c.starts_with("set -e\nmkdir -p") && c.ends_with("\nfi"));
}

#[test]
fn tunnels_are_logged_by_their_short_id() {
    assert_eq!(short_id("abc"), "abc");
    assert_eq!(short_id("12345678-90"), "12345678");
    assert_eq!(short_id("隧道12xyz"), "隧道12");
    let e = status_entry("12345678-90", "error", Some("m"));
    assert_eq!((e.level, e.tag.as_str(), e.msg.as_str()), ("error", "tunnel:12345678", "状态 → error | m"));
    let e = status_entry("t", "connected", None);
    assert_eq!((e.level, e.msg.as_str()), ("info", "状态 → connected"));
    let e = message_entry("t", "回退");
    assert_eq!((e.level, e.tag.as_str()), ("warn", "tunnel:t"));
}

#[test]
fn the_summary_has_no_addresses() {
    let list = vec![
        (spec("t1", "p1"), TunnelState::Running),
        (spec("t2", "p1"), TunnelState::Backoff { attempt: 1, wait_secs: 1 }),
    ];
    let stats = vec![ConnStats {
        profile_id: "12345678-90".into(),
        generation: 2,
        connect_count: 3,
        open_channels: 4,
        leases: vec!["t1".into()],
    }];
    assert_eq!(
        diag_summary(&list, &stats, Some(3 << 19)),
        "==== 运行时摘要 ====\n- 隧道「隧道」[remote] 状态: connected\n- 隧道「隧道」[remote] 状态: reconnecting | 第 1 次重连, 1s 后重试\n- 共享连接 [12345678] 代际 2 建连 3 次, 活跃通道 4, 租约 1\n当前内存 RSS: 1.5 MB\n"
    );
    assert_eq!(diag_summary(&vec![], &vec![], None), "==== 运行时摘要 ====\n");
    assert_eq!(restored_line(0), None);
    assert_eq!(restored_line(2).unwrap(), "已恢复 2 条隧道配置");
    assert_eq!(autostart_line(1), "开机自启: 1 条 enabled 隧道");
}
