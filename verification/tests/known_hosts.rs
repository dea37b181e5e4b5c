use proxy_tool::commands::known_hosts_forget;
use proxy_tool::known_hosts::{HostKeyCheck, KnownHost, KnownHosts};
use proxy_tool::model::TunnelError;
use proxy_tool::ssh::connect_error;

const KEY_A: &str = "ssh-ed25519 AAAAC3NzaC1lZDI1NTE5AAAAIGJl1AV4vB6DFTGXYUd0dl9nUsZbRl+3zUtnzGfTeUbL alice@example";
const KEY_B: &str = "ssh-ed25519 AAAAC3NzaC1lZDI1NTE5AAAAIBAm5LhPTLMQnKaaPyvL3c1PnRfL1T4nS8smWFCeeJsb bob@example";

fn key(openssh: &str) -> Vec<u8> {
    ssh_key::PublicKey::from_openssh(openssh).unwrap().to_bytes().unwrap()
}

#[test]
fn tofu_trust_match_reject() {
    let mut known = KnownHosts::in_memory();
    let mut check = HostKeyCheck::new("srv", 22);

    assert!(check.verify(&mut known, &key(KEY_A)).accept);
    let remembered = known.known("srv", 22).expect("首次连接应记住指纹");
    assert_eq!(remembered.algorithm, "ssh-ed25519");
    assert!(remembered.fingerprint.starts_with("SHA256:"));
    assert!(check.take_error().is_none());

    let mut check2 = HostKeyCheck::new("srv", 22);
    assert!(check2.verify(&mut known, &key(KEY_A)).accept);
    assert!(check2.take_error().is_none());

    let mut check3 = HostKeyCheck::new("srv", 22);
    assert!(!check3.verify(&mut known, &key(KEY_B)).accept);
    let err = check3.take_error().expect("指纹变更应给出类型化错误");
    assert!(!err.retryable(), "指纹变更应为致命 (不进重连)");
    let msg = err.to_string();
    assert!(msg.contains("指纹已变更"), "信息应指向指纹变更: {msg}");
    assert!(msg.contains("SHA256:"), "信息应含指纹: {msg}");
    assert!(check3.take_error().is_none());
}

#[test]
fn port_scoped_and_forget() {
    let mut known = KnownHosts::in_memory();
    let mut c22 = HostKeyCheck::new("srv", 22);
    let mut c2222 = HostKeyCheck::new("srv", 2222);
    assert!(c22.verify(&mut known, &key(KEY_A)).accept);
    assert!(c2222.verify(&mut known, &key(KEY_B)).accept);

    assert!(known.forget("srv", 22));
    assert!(!known.forget("srv", 22), "重复 forget 返回 false");
    assert!(known.known("srv", 22).is_none());
    assert!(known.known("srv", 2222).is_some(), "2222 不受影响");

    let mut c = HostKeyCheck::new("srv", 22);
    assert!(c.verify(&mut known, &key(KEY_B)).accept);
}

#[test]
fn known_hosts_persistence_roundtrip() {
    let mut known = KnownHosts::load(Vec::new());
    let mut c = HostKeyCheck::new("h1", 22);
    c.verify(&mut known, &key(KEY_A));

    let mut known2 = KnownHosts::load(known.entries());
    assert!(known2.known("h1", 22).is_some());
    let mut c2 = HostKeyCheck::new("h1", 22);
    assert!(!c2.verify(&mut known2, &key(KEY_B)).accept, "重启后仍应拒绝变更指纹");

    let l = known2.list();
    assert_eq!(l.len(), 1);
    assert_eq!(l[0].0, "h1");
    assert_eq!(l[0].1, 22);
}

#[test]
fn fingerprints_are_those_of_the_key() {
    let k = ssh_key::PublicKey::from_openssh(KEY_A).unwrap();
    let mut known = KnownHosts::in_memory();
    let v = HostKeyCheck::new("srv", 22).verify(&mut known, &key(KEY_A));
    assert!(v.remembered);
    let print = k.fingerprint(ssh_key::HashAlg::Sha256).to_string();
    assert_eq!(known.known("srv", 22).unwrap().fingerprint, print);
    assert_eq!(v.line.unwrap(), format!("首次连接 srv:22, 已记住服务器指纹 {print} (TOFU)"));
}

#[test]
fn what_is_no_key_is_refused() {
    let mut known = KnownHosts::in_memory();
    let mut c = HostKeyCheck::new("srv", 22);
    let v = c.verify(&mut known, b"not a key");
    assert!(!v.accept && !v.remembered && v.line.is_none());
    assert!(c.take_error().is_none());
    assert!(known.known("srv", 22).is_none());
}

#[test]
fn a_changed_key_outweighs_the_connection_error() {
    let mut known = KnownHosts::in_memory();
    known.remember(
        "srv",
        22,
        KnownHost { algorithm: "ssh-ed25519".into(), fingerprint: "SHA256:old".into() },
    );
    let mut c = HostKeyCheck::new("srv", 22);
    let v = c.observe(&mut known, "ssh-ed25519".into(), "SHA256:new".into());
    assert_eq!(
        v.line.unwrap(),
        "❌ 服务器 srv:22 主机密钥指纹已变更 (预期 SHA256:old, 实际 SHA256:new)"
    );
    let e = connect_error(
        &mut c,
        TunnelError::Connect { addr: "srv:22".into(), source: "Unknown key".into() },
    );
    assert_eq!(
        e,
        TunnelError::HostKeyChanged {
            host: "srv:22".into(),
            expected: "SHA256:old".into(),
            actual: "SHA256:new".into(),
        }
    );
    let e = connect_error(&mut c, TunnelError::AuthRejected);
    assert_eq!(e, TunnelError::AuthRejected);
}

#[test]
fn forgetting_needs_a_record() {
    let mut known = KnownHosts::in_memory();
    assert_eq!(
        known_hosts_forget(&mut known, "srv", 22),
        Err("没有 srv:22 的指纹记录".to_string())
    );
    known.remember(
        "srv",
        22,
        KnownHost { algorithm: "a".into(), fingerprint: "f".into() },
    );
    assert_eq!(known_hosts_forget(&mut known, "srv", 22), Ok(()));
    assert!(known.list().is_empty());
}

#[test]
fn hosts_are_listed_in_order() {
    let mut known = KnownHosts::in_memory();
    for (h, p) in [("b", 22u16), ("a", 2222), ("a", 22)] {
        known.remember(h, p, KnownHost { algorithm: "a".into(), fingerprint: "f".into() });
    }
    let l: Vec<(String, u16)> = known.list().into_iter().map(|(h, p, _)| (h, p)).collect();
    assert_eq!(
        l,
        vec![("a".to_string(), 22), ("a".to_string(), 2222), ("b".to_string(), 22)]
    );
}

#[test]
fn each_host_is_listed_once() {
    let entry = |f: &str| KnownHost { algorithm: "a".into(), fingerprint: f.into() };
    let mut known = KnownHosts::in_memory();
    known.remember("b", 22, entry("1"));
    known.remember("a:b", 22, entry("2"));
    known.remember("b", 22, entry("3"));
    known.remember("b", 2222, entry("4"));
    let mut l = known.list();
    l.sort_by_key(|e| (e.0.clone(), e.1));
    assert_eq!(
        l,
        vec![
            ("a:b".to_string(), 22, entry("2")),
            ("b".to_string(), 22, entry("3")),
            ("b".to_string(), 2222, entry("4")),
        ]
    );
}

#[test]
fn the_last_refusal_is_reported() {
    let mut known = KnownHosts::in_memory();
    let mut check = HostKeyCheck::new("srv", 22);
    for (f, accepted) in [("1", true), ("2", false), ("1", true), ("3", false), ("1", true)] {
        assert_eq!(check.observe(&mut known, "a".into(), f.into()).accept, accepted);
    }
    assert_eq!(
        check.take_error(),
        Some(TunnelError::HostKeyChanged {
            host: "srv:22".into(),
            expected: "1".into(),
            actual: "3".into()
        })
    );
    assert!(check.take_error().is_none());
    assert_eq!(known.known("srv", 22).unwrap().fingerprint, "1");
}
