use proxy_tool::backend::{BackendAction, BackendPool};
use proxy_tool::direct::{
    channel_line, closed_line, run_dynamic_forward, run_local_forward, CleanUp, DirectConfig,
    DirectSession, ListenFailure, OpenFailure, Reason, ServeAction, ServeEvent,
};
use proxy_tool::model::{Backend, TunnelError};
use proxy_tool::probe::{
    confirmed_port, probe_local_proxy, Finding, ProbeResult, ANSWER, CANDIDATES, GREETING,
};
use proxy_tool::socks::{
    start_socks_server, Dialed, SocksAction, SocksHost, SocksSession, StartFailure,
};
use proxy_tool::ssh::{
    connect_plan, connect_result, remote_exec, AuthMethod, ConnectOutcome, ExecFailure, Keepalive,
};
use proxy_tool::time::Duration;
use proxy_tool::transport::frame::{encode_end, encode_payload, Frame, MARKER};
use proxy_tool::transport::python_bridge::{
    helper_command, parse_port_line, port_line_error, read_note, ChannelReader, Forwarder, FrameMsg,
    FwdAction, FwdEvent, HelperSetup, HelperTask, HelperTasks, LocalMsg, PortLine, PortLineFault,
    PortLineStep, SetupAction, HELPER_PY,
};
use proxy_tool::transport::shared::{warn_exhausted, ChannelCount};
use proxy_tool::tunnel::{
    establish_after_helper, establish_after_standard, establish_first, EstablishAction,
    ReverseMode, SessionWatch, Sighting, Teardown, TunnelConfig, TunnelEvent, WatchAction,
};

fn config(remote_port: u32) -> TunnelConfig {
    TunnelConfig {
        server_host: "srv".into(),
        server_port: 22,
        username: "u".into(),
        auth: AuthMethod::Password("x".into()),
        remote_port,
        local_proxy_host: "127.0.0.1".into(),
        local_proxy_port: 7892,
        keepalive: Keepalive::default(),
    }
}

fn direct(listen_port: u16) -> DirectConfig {
    DirectConfig {
        server_host: "srv".into(),
        server_port: 22,
        username: "u".into(),
        auth: AuthMethod::Password("x".into()),
        listen_host: "127.0.0.1".into(),
        listen_port,
        keepalive: Keepalive::default(),
    }
}

#[test]
fn the_helper_reports_its_port() {
    assert_eq!(parse_port_line("PORT 40001\r"), Ok(40001));
    assert_eq!(
        parse_port_line("PORT 0"),
        Err(TunnelError::Protocol("助手端口行异常: PORT 0".into()))
    );
    assert_eq!(
        parse_port_line("bash: python3"),
        Err(TunnelError::Protocol("助手端口行异常: bash: python3".into()))
    );
    let mut l = PortLine::new();
    for b in b"PORT 8123" {
        assert_eq!(l.on_byte(Some(*b)), PortLineStep::More);
    }
    assert_eq!(l.on_byte(Some(b'\n')), PortLineStep::Done(Ok(8123)));
    assert_eq!(
        PortLine::new().on_byte(None),
        PortLineStep::Done(Err(TunnelError::Protocol(
            "转发助手提前退出 (未上报端口)——服务器可能没有 python3".into()
        )))
    );
    let mut l = PortLine::new();
    for _ in 0..32 {
        assert_eq!(l.on_byte(Some(b'x')), PortLineStep::More);
    }
    assert_eq!(
        l.on_byte(Some(b'x')),
        PortLineStep::Done(Err(TunnelError::Protocol("助手端口行超长".into())))
    );
    assert_eq!(
        port_line_error(PortLineFault::TimedOut),
        TunnelError::Protocol("等待助手上报端口超时".into())
    );
    assert_eq!(
        port_line_error(PortLineFault::Broken("reset".into())),
        TunnelError::Protocol("读助手端口行失败: reset".into())
    );
}

#[test]
fn the_helper_is_started_step_by_step() {
    assert!(!HELPER_PY[12..HELPER_PY.len() - 1].contains('\''));
    assert_eq!(helper_command(7), format!("{HELPER_PY} 7"));
    let before = ChannelCount { open: 2, budget: 3 };
    let mut n = before;
    let (mut s, line) = HelperSetup::new(&config(0));
    assert_eq!(line, "兼容模式: 在服务器上启动 stdio 转发助手 (请求端口 0)");
    assert_eq!(s.on_outcome(Ok(()), &mut n), (SetupAction::Exec(helper_command(0)), vec![]));
    assert_eq!(s.on_outcome(Ok(()), &mut n), (SetupAction::Write(MARKER.to_vec()), vec![]));
    assert_eq!(
        s.on_outcome(Ok(()), &mut n),
        (SetupAction::ReadPortLine, vec!["已发送标记帧 (吸收服务器端写注入)".to_string()])
    );
    assert_eq!(n, before);
    let (a, lines) = s.on_port_line(Ok(5), &mut n);
    assert_eq!(a, SetupAction::Ready(5));
    assert_eq!(
        lines,
        vec!["转发助手已启动, 动态分配端口 5".to_string(), warn_exhausted(3, 3).unwrap()]
    );
    assert_eq!(n, ChannelCount { open: 3, budget: 3 });

    let mut n = ChannelCount { open: 0, budget: 10 };
    let (mut s, _) = HelperSetup::new(&config(1082));
    s.on_outcome(Ok(()), &mut n);
    s.on_outcome(Ok(()), &mut n);
    let (a, lines) = s.on_outcome(Ok(()), &mut n);
    assert_eq!(a, SetupAction::Ready(1082));
    assert_eq!(
        lines,
        vec![
            "已发送标记帧 (吸收服务器端写注入)".to_string(),
            "转发助手已启动 (监听 127.0.0.1:1082)".to_string()
        ]
    );
    assert_eq!(n.open, 1);
}

#[test]
fn a_helper_that_fails_counts_no_channel() {
    let before = ChannelCount { open: 2, budget: 3 };
    let mut n = before;
    let errors = [
        TunnelError::ChannelOpen { what: "会话通道".into(), reason: "no".into() },
        TunnelError::Protocol("启动转发助手失败: no".into()),
        TunnelError::Protocol("写标记帧失败: no".into()),
    ];
    for (done, error) in errors.into_iter().enumerate() {
        let (mut s, _) = HelperSetup::new(&config(1082));
        for _ in 0..done {
            s.on_outcome(Ok(()), &mut n);
        }
        assert_eq!(s.on_outcome(Err("no".into()), &mut n), (SetupAction::Fail(error), vec![]));
        assert_eq!(n, before);
    }
    let (mut s, _) = HelperSetup::new(&config(0));
    for _ in 0..3 {
        s.on_outcome(Ok(()), &mut n);
    }
    let late = port_line_error(PortLineFault::TimedOut);
    assert_eq!(
        s.on_port_line(Err(late), &mut n),
        (SetupAction::Fail(port_line_error(PortLineFault::TimedOut)), vec![])
    );
    assert_eq!(n, before);
}

#[test]
fn a_helpers_channel_counts_until_both_tasks_end() {
    let both = [HelperTask::Reader, HelperTask::Forwarder];
    for (first, second) in [(both[0], both[1]), (both[1], both[0])] {
        let mut n = ChannelCount { open: 3, budget: 10 };
        let mut tasks = HelperTasks::new();
        assert!(!tasks.on_ended(first, &mut n));
        assert!(!tasks.on_ended(first, &mut n));
        assert_eq!(n.open, 3);
        assert!(tasks.on_ended(second, &mut n));
        assert_eq!(n, ChannelCount { open: 2, budget: 10 });
        assert!(!tasks.on_ended(second, &mut n));
        assert_eq!(n.open, 2);
    }
}

#[test]
fn a_frame_that_stays_incomplete_is_given_up() {
    let mut r = ChannelReader::new();
    let mut notes = Vec::new();
    let bytes = encode_payload(b"12345678");
    assert!(r.on_bytes(&bytes[..bytes.len() - 3], &mut notes).is_empty());
    assert!(!r.before_read(Duration::from_secs(100), &mut notes));
    assert!(!r.before_read(Duration::from_secs(105), &mut notes));
    assert!(notes.is_empty());
    assert!(r.before_read(Duration::from_millis(105_001), &mut notes));
    assert_eq!(notes.len(), 1);
    assert_eq!(
        r.on_bytes(&encode_payload(b"new"), &mut notes),
        vec![Frame::Payload(b"new".to_vec())]
    );
}

#[test]
fn reads_are_dumped_on_request() {
    let data: Vec<u8> = (0..40).collect();
    assert_eq!(read_note(false, &data), None);
    assert_eq!(
        read_note(true, &data).unwrap(),
        "READ n=40 head=000102030405060708090a0b0c0d0e0f1011121314151617"
    );
    assert_eq!(read_note(true, &[255]).unwrap(), "READ n=1 head=ff");
}

#[test]
fn connections_are_served_one_after_another() {
    let mut f = Forwarder::new(&config(0), true);
    assert_eq!(f.on_event(FwdEvent::Frame(FrameMsg::End)), vec![]);
    assert_eq!(
        f.on_event(FwdEvent::Frame(FrameMsg::Payload(b"hi".to_vec()))),
        vec![FwdAction::Dial("127.0.0.1:7892".into())]
    );
    assert_eq!(
        f.on_event(FwdEvent::Dialed(Ok(()))),
        vec![
            FwdAction::Log("已连接本地代理, 开始转发 (首帧 2 字节)".into()),
            FwdAction::WriteLocal(b"hi".to_vec()),
        ]
    );
    assert_eq!(f.on_event(FwdEvent::Written(true)), vec![]);
    assert_eq!(
        f.on_event(FwdEvent::Local(LocalMsg::Data(b"yo".to_vec()))),
        vec![
            FwdAction::Log("FWD#1 local Data 2".into()),
            FwdAction::WriteChannel(encode_payload(b"yo")),
        ]
    );
    assert_eq!(
        f.on_event(FwdEvent::Written(true)),
        vec![FwdAction::Log("回写帧 2 字节".into())]
    );
    assert_eq!(
        f.on_event(FwdEvent::Local(LocalMsg::Closed)),
        vec![
            FwdAction::Log("本地代理连接结束, 发送结束帧".into()),
            FwdAction::WriteChannel(encode_end()),
        ]
    );
    assert_eq!(
        f.on_event(FwdEvent::Written(true)),
        vec![FwdAction::Log("连接转发结束".into()), FwdAction::DropLocal]
    );
    f.on_event(FwdEvent::Frame(FrameMsg::Payload(b"2".to_vec())));
    assert_eq!(
        f.on_event(FwdEvent::Dialed(Err("no".into()))),
        vec![
            FwdAction::Log("连接本地代理 127.0.0.1:7892 失败: no".into()),
            FwdAction::Log("隧道会话通道已结束".into()),
        ]
    );
    assert_eq!(f.on_event(FwdEvent::Frame(FrameMsg::End)), vec![]);
    assert!(f.ended());
    assert_eq!(MARKER.len(), 12);
}

#[test]
fn a_tampered_forward_changes_to_the_helper() {
    assert_eq!(establish_first(false), (EstablishAction::TryStandard, None));
    assert_eq!(establish_first(true).0, EstablishAction::OpenHelper);
    assert_eq!(
        establish_after_standard(&Ok(1081), false).0,
        EstablishAction::Standing {
            mode: ReverseMode::Std { bound_port: 1081 },
            bound_port: 1081
        }
    );
    assert_eq!(
        establish_after_standard(&Ok(1081), true).0,
        EstablishAction::SwitchToHelper(1081)
    );
    let (a, line) = establish_after_standard(&Err(TunnelError::Protocol("x".into())), false);
    assert_eq!(a, EstablishAction::OpenHelper);
    assert_eq!(line.unwrap(), "标准转发模式不可用 (x), 同连接改用兼容模式");
    assert_eq!(
        establish_after_helper(Ok(9)),
        Ok(EstablishAction::Standing { mode: ReverseMode::Compat, bound_port: 9 })
    );
    assert_eq!(
        establish_after_helper(Err(TunnelError::Cancelled)),
        Err(TunnelError::Cancelled)
    );
    let mut routes = std::collections::HashMap::new();
    routes.insert(9u16, ("h".to_string(), 1u16));
    assert_eq!(ReverseMode::Compat.teardown(&mut routes), Teardown::AbortHelper);
    assert_eq!(
        ReverseMode::Std { bound_port: 9 }.teardown(&mut routes),
        Teardown::CancelForward(9)
    );
    assert!(routes.is_empty());
}

#[test]
fn a_session_is_rebuilt_once_at_most() {
    let (mut w, acts) =
        SessionWatch::new(&config(0), ReverseMode::Std { bound_port: 9 }, 9, false);
    assert_eq!(
        acts,
        vec![
            WatchAction::Report(TunnelEvent::BoundPort(9)),
            WatchAction::FillSlot,
            WatchAction::Report(TunnelEvent::Connected),
        ]
    );
    let seen = Sighting { stop: false, in_slot: true, closed: false, corrupted: true };
    assert_eq!(w.on_look(seen).0, WatchAction::Rebuild);
    assert_eq!(w.on_look(seen), (WatchAction::Sleep, None));
    assert_eq!(
        w.on_rebuilt(Ok(9)).unwrap().last(),
        Some(&WatchAction::LookAgain)
    );
    assert_eq!(w.on_look(Sighting { closed: true, ..seen }).0, WatchAction::Exit);
    let (_, acts) = SessionWatch::new(&config(0), ReverseMode::Compat, 9, true);
    assert_eq!(acts, vec![WatchAction::Undo, WatchAction::Exit]);
}

#[test]
fn a_socks_client_is_served() {
    let mut s = SocksSession::new();
    assert_eq!(s.wants(), Some(2));
    assert_eq!(s.on_read(&[5, 2]), vec![SocksAction::Read(2)]);
    assert_eq!(
        s.on_read(&[2, 0]),
        vec![SocksAction::Write(vec![5, 0]), SocksAction::Read(4)]
    );
    assert_eq!(s.on_read(&[5, 1, 0, 3]), vec![SocksAction::Read(1)]);
    assert_eq!(s.on_read(&[11]), vec![SocksAction::Read(11)]);
    assert_eq!(s.on_read(b"example.com"), vec![SocksAction::Read(2)]);
    assert_eq!(
        s.on_read(&[1, 187]),
        vec![SocksAction::Dial { host: SocksHost::Name("example.com".into()), port: 443 }]
    );
    assert_eq!(s.wants(), None);
    assert_eq!(
        s.on_dialed(Dialed::Connected),
        vec![SocksAction::Write(vec![5, 0, 0, 1, 0, 0, 0, 0, 0, 0]), SocksAction::Relay]
    );
}

#[test]
fn a_socks_client_is_refused() {
    let mut s = SocksSession::new();
    assert_eq!(s.on_read(&[4, 1]), vec![SocksAction::Close]);

    let mut s = SocksSession::new();
    s.on_read(&[5, 1]);
    assert_eq!(
        s.on_read(&[2]),
        vec![SocksAction::Write(vec![5, 0xFF]), SocksAction::Close]
    );
    for (head, code) in [([5, 2, 0, 1], 7u8), ([5, 1, 0, 9], 8)] {
        let mut s = SocksSession::new();
        s.on_read(&[5, 1]);
        s.on_read(&[0]);
        assert_eq!(
            s.on_read(&head),
            vec![
                SocksAction::Write(vec![5, code, 0, 1, 0, 0, 0, 0, 0, 0]),
                SocksAction::Close
            ]
        );
    }
    for (d, code) in [(Dialed::Failed, 5u8), (Dialed::TimedOut, 4)] {
        let mut s = SocksSession::new();
        s.on_read(&[5, 1]);
        s.on_read(&[0]);
        s.on_read(&[5, 1, 0, 1]);
        s.on_read(&[10, 0, 0, 255]);
        assert_eq!(
            s.on_read(&[0, 80]),
            vec![SocksAction::Dial { host: SocksHost::Name("10.0.0.255".into()), port: 80 }]
        );
        assert_eq!(
            s.on_dialed(d),
            vec![
                SocksAction::Write(vec![5, code, 0, 1, 0, 0, 0, 0, 0, 0]),
                SocksAction::Close
            ]
        );
    }
}

#[test]
fn names_that_are_no_text_are_mended() {
    let mut s = SocksSession::new();
    s.on_read(&[5, 1]);
    s.on_read(&[0]);
    s.on_read(&[5, 1, 0, 3]);
    s.on_read(&[3]);
    s.on_read(&[b'a', 0xff, b'b']);
    assert_eq!(
        s.on_read(&[0, 1]),
        vec![SocksAction::Dial { host: SocksHost::Name("a\u{fffd}b".into()), port: 1 }]
    );
    let mut s = SocksSession::new();
    s.on_read(&[5, 1]);
    s.on_read(&[0]);
    s.on_read(&[5, 1, 0, 4]);
    s.on_read(&[0; 16]);
    assert_eq!(
        s.on_read(&[0, 1]),
        vec![SocksAction::Dial { host: SocksHost::V6(vec![0; 16]), port: 1 }]
    );
}

#[test]
fn a_port_in_use_is_final() {
    assert_eq!(start_socks_server(7892, Ok(7892)), Ok(7892));
    let e = start_socks_server(7892, Err(StartFailure::Bind("in use".into()))).unwrap_err();
    assert_eq!(
        e,
        TunnelError::PortInUse {
            port: 7892,
            reason: "绑定内置 SOCKS 端口 7892 失败: in use".into()
        }
    );
    assert!(!e.retryable());
    let e = start_socks_server(0, Err(StartFailure::Address("x".into()))).unwrap_err();
    assert_eq!(
        e,
        TunnelError::PortInUse { port: 0, reason: "获取内置 SOCKS 端口失败: x".into() }
    );
}

#[test]
fn probes_are_reported_in_order() {
    assert_eq!(CANDIDATES.len(), 13);
    assert_eq!(GREETING, [5, 1, 0]);
    let found = vec![
        (10808, Finding::Silent),
        (7890, Finding::Answering(None)),
        (7892, Finding::Answering(Some(vec![5, 0xFF]))),
        (1080, Finding::Answering(Some(ANSWER.to_vec()))),
        (9090, Finding::Answering(Some(vec![5, 0]))),
    ];
    let r = probe_local_proxy(&found);
    assert_eq!(
        r,
        vec![
            ProbeResult { port: 7890, tcp_reachable: true, socks5_confirmed: false },
            ProbeResult { port: 7892, tcp_reachable: true, socks5_confirmed: false },
            ProbeResult { port: 1080, tcp_reachable: true, socks5_confirmed: true },
            ProbeResult { port: 9090, tcp_reachable: true, socks5_confirmed: true },
        ]
    );
    assert_eq!(confirmed_port(&r), Some(1080));
    assert_eq!(confirmed_port(&vec![]), None);
}

#[test]
fn a_landing_is_found_or_made() {
    let mut pool = BackendPool::new();
    assert_eq!(
        pool.resolve_reverse(&Backend::Tcp("h".into(), 80)),
        BackendAction::Use { host: "h".into(), port: 80 }
    );
    assert_eq!(
        pool.resolve_reverse(&Backend::SocksAuto { fallback_port: 7 }),
        BackendAction::Probe { fallback_port: 7 }
    );
    let (a, line) = pool.on_probed(7, &vec![]);
    assert_eq!(a, BackendAction::Start { port: 7, stop_old: false });
    assert_eq!(line.unwrap(), "未发现 VPN 代理端口, 启动内置 SOCKS5 服务器 (127.0.0.1:7)");
    assert_eq!(pool.on_started(7, Ok(7)), Ok(("127.0.0.1".to_string(), 7)));
    assert_eq!(
        pool.on_probed(7, &vec![]),
        (BackendAction::Use { host: "127.0.0.1".into(), port: 7 }, None)
    );
    assert_eq!(pool.on_probed(8, &vec![]).0, BackendAction::Start { port: 8, stop_old: true });
    assert!(pool.on_started(8, Err(StartFailure::Bind("x".into()))).is_err());
    assert_eq!(pool.on_probed(8, &vec![]).0, BackendAction::Start { port: 8, stop_old: false });
    let vpn = vec![ProbeResult { port: 1080, tcp_reachable: true, socks5_confirmed: true }];
    let (a, line) = pool.on_probed(8, &vpn);
    assert_eq!(a, BackendAction::Use { host: "127.0.0.1".into(), port: 1080 });
    assert_eq!(line.unwrap(), "发现 VPN 自带 SOCKS 端口 1080 (SOCKS5 确认), 直接复用");
}

#[test]
fn local_and_dynamic_tunnels_come_up() {
    let (s, line) = run_local_forward(&direct(0), "db", 5432, Ok(8080)).unwrap();
    assert_eq!(s, DirectSession { listen_port: 8080, target: Some(("db".into(), 5432)) });
    assert_eq!(line, "本地转发: 本机监听 127.0.0.1:8080 -> 经 SSH 隧道 -> db:5432");
    assert_eq!(
        run_local_forward(&direct(80), "db", 1, Err(ListenFailure::Bind("x".into()))),
        Err(TunnelError::PortInUse { port: 80, reason: "x".into() })
    );
    assert_eq!(
        run_local_forward(&direct(80), "db", 1, Err(ListenFailure::Address("x".into()))),
        Err(TunnelError::PortInUse { port: 80, reason: "获取监听端口失败: x".into() })
    );
    let (s, line) = run_dynamic_forward(&direct(1080), Ok(1080)).unwrap();
    assert_eq!(s, DirectSession { listen_port: 1080, target: None });
    assert_eq!(
        line,
        "动态隧道: 本机 SOCKS5 127.0.0.1:1080 (经 SSH 隧道访问服务器内网, 等价 ssh -D)"
    );
    assert!(run_dynamic_forward(&direct(1080), Err(StartFailure::Bind("x".into()))).is_err());
}

#[test]
fn local_and_dynamic_tunnels_end() {
    let local = DirectSession { listen_port: 1, target: Some(("db".into(), 5432)) };
    let dynamic = DirectSession { listen_port: 1, target: None };
    assert_eq!(
        local.on_event(ServeEvent::Accepted, true),
        (ServeAction::Forward(("db".into(), 5432)), None)
    );
    assert_eq!(dynamic.on_event(ServeEvent::Accepted, true), (ServeAction::Leave, None));
    assert_eq!(
        local.on_event(ServeEvent::Closed, true),
        (
            ServeAction::End(vec![CleanUp::Disconnect(Reason::TunnelClosed)]),
            Some("SSH 连接已断开, 本地转发停止".to_string())
        )
    );
    assert_eq!(
        dynamic.on_event(ServeEvent::Closed, false),
        (
            ServeAction::End(vec![CleanUp::StopSocks]),
            Some("SSH 连接已断开, 动态隧道停止".to_string())
        )
    );
    assert_eq!(
        local.on_event(ServeEvent::ListenerFailed("x".into()), false).1,
        Some("监听器错误: x".to_string())
    );
    assert_eq!(local.on_event(ServeEvent::Stop, false), (ServeAction::End(vec![]), None));
    assert_eq!(
        dynamic.disconnect(true),
        vec![
            CleanUp::StopListening,
            CleanUp::StopSocks,
            CleanUp::Disconnect(Reason::UserDisconnect)
        ]
    );
    assert_eq!(local.disconnect(false), vec![CleanUp::StopListening]);
    assert_eq!(Reason::UserDisconnect.text(), "user disconnect");
    assert_eq!(Reason::TunnelClosed.text(), "tunnel closed");
    assert_eq!(channel_line(&Ok(())), None);
    assert_eq!(channel_line(&Err(OpenFailure::TimedOut)).unwrap(), "打开直连通道超时");
    assert_eq!(
        channel_line(&Err(OpenFailure::Refused("x".into()))).unwrap(),
        "打开直连通道失败: x"
    );
    assert_eq!(closed_line(&Ok((3, 4))), format!("转发连接关闭 ({:?})", Ok::<(u64, u64), ()>((3, 4))));
    assert_eq!(closed_line(&Err("Kind(A)".into())), "转发连接关闭 (Err(Kind(A)))");
}

#[test]
fn connecting_is_planned_and_judged() {
    let p = connect_plan("srv", 22, Keepalive { interval: Duration::from_secs(5), max: 0 });
    assert_eq!(p.addr, "srv:22");
    assert_eq!(p.keepalive_max, 1);
    assert_eq!(p.line, "连接 srv:22 ...");
    assert_eq!(
        connect_result("srv:22", ConnectOutcome::Answered(true)),
        Ok("SSH 认证成功".to_string())
    );
    assert_eq!(
        connect_result("srv:22", ConnectOutcome::Answered(false)),
        Err(TunnelError::AuthRejected)
    );
    assert_eq!(
        connect_result("srv:22", ConnectOutcome::Unreachable("x".into())),
        Err(TunnelError::Connect { addr: "srv:22".into(), source: "x".into() })
    );
    assert_eq!(
        connect_result("srv:22", ConnectOutcome::AuthBroken("x".into())),
        Err(TunnelError::AuthIo { source: "x".into() })
    );
    assert_eq!(
        connect_result(
            "srv:22",
            ConnectOutcome::BadKey { path: "k".into(), reason: "r".into() }
        ),
        Err(TunnelError::KeyLoad { path: "k".into(), reason: "r".into() })
    );
    assert_eq!(Keepalive::default().dead_after(), Duration::from_secs(30));
}

#[test]
fn remote_commands_report() {
    assert_eq!(remote_exec(Ok(b"out\xff".to_vec())), Ok("out\u{fffd}".to_string()));
    assert_eq!(
        remote_exec(Err(ExecFailure::Timeout(Duration::from_secs(45)))),
        Err("命令执行超时 (>45s)".to_string())
    );
    assert_eq!(
        remote_exec(Err(ExecFailure::Channel("x".into()))),
        Err("打开会话通道失败: x".to_string())
    );
    assert_eq!(
        remote_exec(Err(ExecFailure::Request("x".into()))),
        Err("发送执行请求失败: x".to_string())
    );
    assert_eq!(
        remote_exec(Err(ExecFailure::Read("x".into()))),
        Err("读取命令输出失败: x".to_string())
    );
}
