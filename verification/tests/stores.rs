use std::collections::BTreeMap;

use proxy_tool::cmd_recipes;
use proxy_tool::cmd_recipes::{
    load_cmd_store, save_cmd_store, CmdParams, CmdRecipe, CmdRecipeStore,
};
use proxy_tool::crypto::{load_or_create_key, open, seal, seal_with_nonce, KEY_LEN};
use proxy_tool::model::{Backend, ReconnectPolicy, TunnelKind, TunnelSpec};
use proxy_tool::presets::{list, template};
use proxy_tool::profiles::ServerProfile;
use proxy_tool::scenarios::Scenario;
use proxy_tool::secrets;
use proxy_tool::secrets::{load_secret_store, save_secret_store, SecretStore};
use proxy_tool::store::{
    load_profiles, load_tunnels, migrate_needed, ProfileDefaults, ProfileStore, ProfilesFile,
    SaveFailure, ScenarioStore, PROFILES_VERSION,
};

fn key() -> Vec<u8> {
    load_or_create_key(None).unwrap().0
}

fn to_json(s: &SecretStore) -> String {
    let mut m = BTreeMap::new();
    for p in s.profiles() {
        m.insert(p.clone(), s.get(&p).unwrap().to_string());
    }
    serde_json::to_string(&m).unwrap()
}

fn from_json(text: Option<String>) -> SecretStore {
    let mut s = SecretStore::default();
    if let Some(text) = text {
        let m: BTreeMap<String, String> = serde_json::from_str(&text).unwrap();
        for (k, v) in m {
            s.set(&k, &v);
        }
    }
    s
}

#[test]
fn secrets_roundtrip_and_ciphertext_is_opaque() {
    let key = key();
    assert!(!from_json(load_secret_store(&key, b"")).contains("p1"), "无文件应返回空");

    let mut s = SecretStore::default();
    s.set("p1", "S3cret!密码");
    s.set("p2", "");
    let bytes = save_secret_store(&key, &to_json(&s)).unwrap();
    let back = from_json(load_secret_store(&key, &bytes));
    assert_eq!(back.get("p1"), Some("S3cret!密码"));
    assert_eq!(back.get("p2"), Some(""));

    assert!(bytes.starts_with(b"PTSR1"));
    let text = String::from_utf8_lossy(&bytes);
    assert!(!text.contains("S3cret"), "密码明文不应出现在密文文件: {text}");
    assert_eq!(key.len(), KEY_LEN);
}

#[test]
fn remove_and_overwrite() {
    let key = key();
    let mut s = SecretStore::default();
    s.set("p1", "old");
    s.set("p1", "new");
    s.remove("p2");
    s.remove("p1");
    s.set("p1", "kept");
    let bytes = save_secret_store(&key, &to_json(&s)).unwrap();
    let back = from_json(load_secret_store(&key, &bytes));
    assert_eq!(back.get("p1"), Some("kept"));
    assert!(!back.contains("p2"));
}

#[test]
fn secrets_corrupt_or_keyless_is_empty() {
    let k = key();
    let mut s = SecretStore::default();
    s.set("p1", "x");
    let mut bytes = save_secret_store(&k, &to_json(&s)).unwrap();
    let last = bytes.len() - 1;
    bytes[last] ^= 0xff;
    assert!(!from_json(load_secret_store(&k, &bytes)).contains("p1"));

    let bytes = save_secret_store(&k, &to_json(&s)).unwrap();
    assert!(!from_json(load_secret_store(&key(), &bytes)).contains("p1"));
}

#[test]
fn magic_isolates_stores() {
    let key = key();
    let mut s = SecretStore::default();
    s.set("p1", "x");
    let bytes = save_secret_store(&key, &to_json(&s)).unwrap();
    assert!(load_cmd_store(&key, &bytes).is_none());
    assert_ne!(secrets::MAGIC, cmd_recipes::MAGIC);
    assert!(open(&key, b"QTSR1", &bytes).is_none());
    assert!(open(&key, b"PTX", &bytes).is_none());
    assert!(open(&key, b"PTSR1 and more", &bytes).is_none());
    assert!(open(&key, b"PTS", &bytes).is_none());
}

#[test]
fn an_empty_form_is_the_default() {
    let p = CmdParams::default();
    assert_eq!((p.kind, p.host, p.user, p.target_host), Default::default());
    assert_eq!((p.port, p.listen, p.target_port, p.bind_all), (0, 0, 0, false));
}

fn params() -> CmdParams {
    CmdParams {
        kind: "local".into(),
        host: "10.0.0.8".into(),
        port: 22,
        user: "root".into(),
        listen: 3307,
        target_host: "10.0.0.5".into(),
        target_port: 3306,
        bind_all: false,
    }
}

fn recipe(id: &str, name: &str) -> CmdRecipe {
    CmdRecipe { id: id.into(), name: name.into(), params: params() }
}

#[test]
fn cmd_recipes_roundtrip_and_ciphertext_is_opaque() {
    let key = key();
    assert!(load_cmd_store(&key, b"").is_none(), "无文件应返回空");
    let p = params();
    let text = format!("{} {}@{}:{}", p.kind, p.user, p.host, p.port);
    let bytes = save_cmd_store(&key, &text).unwrap();
    assert_eq!(load_cmd_store(&key, &bytes), Some(text));
    assert!(bytes.starts_with(b"PTCR1"));
    let text = String::from_utf8_lossy(&bytes);
    assert!(!text.contains("10.0.0.8"), "内网地址不应明文出现: {text}");
    assert!(!text.contains("root"), "用户名不应明文出现");
    assert_eq!(key.len(), KEY_LEN);
}

#[test]
fn resave_keeps_key_stable() {
    let (key1, new) = load_or_create_key(None).unwrap();
    assert!(new);
    save_cmd_store(&key1, "one").unwrap();
    let (key2, new) = load_or_create_key(Some(key1.clone())).unwrap();
    assert!(!new);
    assert_eq!(key1, key2, "密钥不应随保存变动");
    let (key3, new) = load_or_create_key(Some(vec![1; 31])).unwrap();
    assert!(new && key3.len() == KEY_LEN);
}

#[test]
fn cmd_recipes_corrupt_or_keyless_is_empty() {
    let k = key();
    let mut bytes = save_cmd_store(&k, "text").unwrap();
    let last = bytes.len() - 1;
    bytes[last] ^= 0xff;
    assert!(load_cmd_store(&k, &bytes).is_none());
    let bytes = save_cmd_store(&k, "text").unwrap();
    assert!(load_cmd_store(&key(), &bytes).is_none());
    assert!(load_cmd_store(&k, b"XXXXrest-of-file").is_none());
}

#[test]
fn sealing_is_deterministic_but_for_the_nonce() {
    let k = vec![7u8; 32];
    let a = seal_with_nonce(&k, &[1; 12], b"MAGIC", "text").unwrap();
    let b = seal_with_nonce(&k, &[1; 12], b"MAGIC", "text").unwrap();
    let c = seal_with_nonce(&k, &[2; 12], b"MAGIC", "text").unwrap();
    assert_eq!(a, b);
    assert_ne!(a, c);
    assert_eq!(a.len(), 5 + 12 + 4 + 16);
    assert_eq!(&a[..5], b"MAGIC");
    assert_eq!(&a[5..17], &[1; 12]);
    assert_eq!(open(&k, b"MAGIC", &a), Some("text".to_string()));
    assert_eq!(open(&k, b"OTHER", &a), None);
    assert_eq!(open(&k, b"MAGIC", &a[..16]), None);
    let x = seal(&k, b"MAGIC", "text").unwrap();
    let y = seal(&k, b"MAGIC", "text").unwrap();
    assert_ne!(x, y);
}

#[test]
fn commands_are_saved_by_id() {
    let mut s = CmdRecipeStore::default();
    assert_eq!(s.save(recipe("r1", " ")), Err("命令名称不能为空".to_string()));
    s.save(recipe("r1", "A 连 B 的数据库")).unwrap();
    s.save(recipe("", "新")).unwrap();
    assert_eq!(s.recipes.len(), 2);
    assert_eq!(s.recipes[1].id.len(), 36);
    s.save(recipe("r1", "改")).unwrap();
    assert_eq!(s.recipes.len(), 2);
    assert_eq!(s.recipes[0], recipe("r1", "改"));
    s.set_last(CmdParams { listen: 1080, kind: "dynamic".into(), ..params() });
    assert_eq!(s.last.as_ref().unwrap().listen, 1080);
    s.delete("r1");
    assert_eq!(s.recipes.len(), 1);
    assert!(s.last.is_some());
}

#[test]
fn secrets_are_listed_in_order() {
    let mut s = SecretStore::default();
    for p in ["b", "a", "ä", "B"] {
        s.set(p, "x");
    }
    assert_eq!(s.profiles(), vec!["B", "a", "b", "ä"]);
}

fn profile(id: &str, name: &str) -> ServerProfile {
    ServerProfile {
        id: id.into(),
        name: name.into(),
        host: "1.2.3.4".into(),
        port: 22,
        username: "tester".into(),
        identity_file: None,
        share_connection: None,
    }
}

#[test]
fn profiles_missing_is_empty() {
    let store = load_profiles(ProfilesFile::Missing);
    assert!(store.profiles.is_empty());
    assert_eq!(store.version, PROFILES_VERSION);
    assert!(!migrate_needed(&ProfilesFile::Missing));
}

#[test]
fn profiles_v1_migrates_losslessly() {
    let v1 = ProfilesFile::Text { store: None, list: Some(vec![profile("p1", "测试机")]) };
    assert!(migrate_needed(&v1), "v1 文件应报告需要迁移");
    let store = load_profiles(v1);
    assert_eq!(store.version, PROFILES_VERSION);
    assert_eq!(store.profiles.len(), 1);
    assert_eq!(store.profiles[0].host, "1.2.3.4");
    assert_eq!(store.profiles[0].username, "tester");

    let saved = ProfilesFile::Text { store: Some(store), list: None };
    assert!(!migrate_needed(&saved));
    let again = load_profiles(saved);
    assert_eq!(again.profiles.len(), 1);
    assert_eq!(again.profiles[0].name, "测试机");
}

#[test]
fn profiles_v2_roundtrip_with_defaults() {
    let mut p = profile("p1", "n");
    p.identity_file = Some("C:/keys/id_ed25519".into());
    let store = ProfileStore {
        version: PROFILES_VERSION,
        defaults: ProfileDefaults {
            connect_timeout_secs: Some(15),
            ..ProfileDefaults::default()
        },
        profiles: vec![p],
    };
    let saved = ProfilesFile::Text { store: Some(store), list: None };
    assert!(!migrate_needed(&saved));
    let back = load_profiles(saved);
    assert_eq!(back.defaults.connect_timeout_secs, Some(15));
    assert_eq!(back.profiles.len(), 1);
    assert_eq!(
        back.profiles[0].identity_file.as_deref(),
        Some("C:/keys/id_ed25519"),
        "私钥路径应往返无损"
    );
}

#[test]
fn damaged_files_read_as_empty() {
    let bad = ProfilesFile::Text { store: None, list: None };
    assert!(!migrate_needed(&bad));
    assert!(load_profiles(bad).profiles.is_empty());
    assert!(load_tunnels(None).is_empty());
}

#[test]
fn profiles_are_saved_by_id() {
    let mut s = load_profiles(ProfilesFile::Missing);
    s.save(profile("a", "1"));
    s.save(profile("b", "2"));
    s.save(profile("a", "3"));
    assert_eq!(s.profiles.len(), 2);
    assert_eq!(s.profiles[0].name, "3");
    s.delete("a");
    assert_eq!(s.profiles.len(), 1);
    s.set_defaults(ProfileDefaults { max_sessions: Some(3), ..ProfileDefaults::default() });
    assert_eq!(s.defaults.max_sessions, Some(3));
}

#[test]
fn failed_saves_say_why() {
    let cases = vec![
        (SaveFailure::Directory("e".into()), "创建数据目录失败: e"),
        (SaveFailure::Encode("e".into()), "序列化失败: e"),
        (SaveFailure::Write("e".into()), "写入配置失败: e"),
        (SaveFailure::Replace("e".into()), "替换配置失败: e"),
        (SaveFailure::WriteKey("e".into()), "写入密钥失败: e"),
        (SaveFailure::ReplaceKey("e".into()), "替换密钥失败: e"),
        (SaveFailure::Task("e".into()), "落盘任务异常: e"),
    ];
    for (f, text) in cases {
        assert_eq!(f.to_string(), text);
    }
}

fn vpn() -> Scenario {
    Scenario {
        id: "s1".into(),
        name: "n".into(),
        description: String::new(),
        kind: TunnelKind::Reverse { bind: "127.0.0.1".into(), port: 1080 },
        backend: Backend::SocksAuto { fallback_port: 7892 },
    }
}

#[test]
fn describe_covers_all_shapes() {
    let vpn = vpn();
    assert!(vpn.describe().contains("SOCKS"), "{}", vpn.describe());
    assert!(vpn.describe().contains("7892"));

    let expose = Scenario {
        kind: TunnelKind::Reverse { bind: "127.0.0.1".into(), port: 0 },
        backend: Backend::Tcp("127.0.0.1".into(), 3000),
        ..vpn.clone()
    };
    assert!(expose.describe().contains("3000"));
    assert!(expose.describe().contains("动态分配"), "port 0 应标注动态分配");

    let local = Scenario {
        kind: TunnelKind::Local {
            bind: "127.0.0.1".into(),
            port: 8080,
            target_host: "db.internal".into(),
            target_port: 5432,
        },
        backend: Backend::default(),
        ..vpn.clone()
    };
    assert!(local.describe().contains("db.internal:5432"));

    let dynamic = Scenario {
        kind: TunnelKind::Dynamic { bind: "127.0.0.1".into(), port: 1080 },
        backend: Backend::default(),
        ..vpn
    };
    assert!(dynamic.describe().contains("SOCKS5"));
}

#[test]
fn descriptions_are_exact() {
    let s = vpn();
    assert_eq!(
        s.describe(),
        "反向 → 本机 SOCKS (自动探测 VPN, 备用 7892); 服务器端口 1080"
    );
    let t = Scenario {
        kind: TunnelKind::Reverse { bind: "b".into(), port: 0 },
        backend: Backend::Tcp("h".into(), 3000),
        ..vpn()
    };
    assert_eq!(t.describe(), "反向 → 本机 h:3000; 服务器端口 0 (动态分配)");
    let l = Scenario {
        kind: TunnelKind::Local {
            bind: "b".into(),
            port: 1,
            target_host: "h".into(),
            target_port: 2,
        },
        ..vpn()
    };
    assert_eq!(l.describe(), "本地 → 本机 :1 → h:2");
    let d = Scenario { kind: TunnelKind::Dynamic { bind: "b".into(), port: 9 }, ..vpn() };
    assert_eq!(d.describe(), "动态 → 本机 SOCKS5 :9 (访问服务器内网)");
}

#[test]
fn scenarios_are_completed_when_saved() {
    let mut s = ScenarioStore::default();
    let mut blank = vpn();
    blank.name = "\n".into();
    assert_eq!(s.save(blank), Err("场景名称不能为空".to_string()));
    let mut fresh = vpn();
    fresh.id = "".into();
    s.save(fresh).unwrap();
    assert_eq!(s.scenarios[0].id.len(), 36);
    assert_eq!(s.scenarios[0].description, vpn().describe());
    let mut mine = vpn();
    mine.description = "我的".into();
    s.save(mine.clone()).unwrap();
    assert_eq!(s.scenarios[1], mine);
    s.delete("s1");
    assert_eq!(s.scenarios.len(), 1);
}

#[test]
fn templates_match_preset_kinds() {
    let (k, b) = {
        let t = template("vpn_share", "测试", "p1").unwrap();
        assert_eq!(t.policy, ReconnectPolicy::default());
        (t.kind, t.backend)
    };
    assert!(matches!(k, TunnelKind::Reverse { port: 1080, .. }));
    assert!(matches!(b, Backend::SocksAuto { fallback_port: 7892 }));

    let t = template("expose_local", "x", "p1").unwrap();
    assert!(matches!(t.kind, TunnelKind::Reverse { port: 0, .. }));
    assert!(matches!(t.backend, Backend::Tcp(h, 3000) if h == "127.0.0.1"));

    let t = template("reach_service", "x", "p1").unwrap();
    assert!(matches!(t.kind, TunnelKind::Local { target_port: 80, .. }));
    assert_eq!(t.backend, Backend::default());

    let t = template("reach_lan", "x", "p1").unwrap();
    assert!(matches!(t.kind, TunnelKind::Dynamic { port: 1080, .. }));
}

#[test]
fn every_preset_has_a_template() {
    for p in list() {
        let t = template(p.id, "n", "p").unwrap_or_else(|e| panic!("{e}"));
        t.validate()
            .unwrap_or_else(|e| panic!("预设 {} 的模板应直接可校验通过: {e}", p.id));
    }
}

#[test]
fn unknown_preset_rejected() {
    assert!(template("nope", "n", "p").is_err());
    assert_eq!(template("nope", "n", "p").unwrap_err(), "未知预设: nope");
}

#[test]
fn presets_keep_their_order() {
    let ids: Vec<&str> = list().iter().map(|p| p.id).collect();
    assert_eq!(ids, vec!["vpn_share", "expose_local", "reach_service", "reach_lan", "custom"]);
    assert_eq!(list()[0].actions.to_vec(), vec!["verify_internet", "deploy_wrapper"]);
    assert!(list()[1].actions.is_empty());
    let t: TunnelSpec = template("custom", "n", "p").unwrap();
    assert!(matches!(t.kind, TunnelKind::Reverse { port: 0, .. }));
}
