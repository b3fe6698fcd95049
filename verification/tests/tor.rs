use cyberdesk::tor::{
    bootstrap_finished, bootstrap_timeout, connect_reply, fail_reason, init, needs_fresh_client,
    new_identity, set_failed, socks_port, socks_reply, socks_start, socks_step, status,
    BootResult, ConnectResult, SocksAction, SocksStage, SocksTarget, TorState, STATUS_BOOTSTRAPPING,
    STATUS_FAILED, STATUS_IDLE, STATUS_READY,
};

#[test]
fn socks_ports_are_per_slot_and_capped() {
    assert_eq!(socks_port(0), 9250);
    assert_eq!(socks_port(3), 9253);
    assert_eq!(socks_port(4), 9253);
    assert_eq!(socks_port(usize::MAX), 9253);
}

#[test]
fn bootstrap_time_limit_from_configuration() {
    assert_eq!(bootstrap_timeout(None), 90);
    assert_eq!(bootstrap_timeout(Some(" 5 ")), 5);
    assert_eq!(bootstrap_timeout(Some("0")), 90);
    assert_eq!(bootstrap_timeout(Some("-3")), 90);
    assert_eq!(bootstrap_timeout(Some("ten")), 90);
    assert_eq!(bootstrap_timeout(Some("+7")), 7);
}

#[test]
fn engine_starts_once_and_records_failures() {
    let mut t = TorState::new();
    assert_eq!(status(&t), STATUS_IDLE);
    assert!(init(&mut t));
    assert!(!init(&mut t));
    assert_eq!(status(&t), STATUS_BOOTSTRAPPING);
    assert_eq!(fail_reason(&t), "");
    bootstrap_finished(&mut t, BootResult::TimedOut(90));
    assert_eq!(status(&t), STATUS_FAILED);
    assert_eq!(fail_reason(&t), "bootstrap timed out after 90s (network blocking Tor?)");

    let mut t = TorState::new();
    init(&mut t);
    bootstrap_finished(&mut t, BootResult::Error("no route".into()));
    assert_eq!(fail_reason(&t), "bootstrap error: no route");

    let mut t = TorState::new();
    init(&mut t);
    bootstrap_finished(&mut t, BootResult::Ready);
    assert_eq!(status(&t), STATUS_READY);
    assert_eq!(fail_reason(&t), "");
    set_failed(&mut t, "config/state-dir error: denied");
    assert_eq!(status(&t), STATUS_FAILED);
    assert_eq!(fail_reason(&t), "config/state-dir error: denied");
}

#[test]
fn new_identity_moves_the_epoch_and_relays_refresh() {
    let mut t = TorState::new();
    assert_eq!(new_identity(&mut t), 1);
    assert_eq!(new_identity(&mut t), 2);
    assert!(needs_fresh_client(false, 2, 2));
    assert!(needs_fresh_client(true, 1, 2));
    assert!(!needs_fresh_client(true, 2, 2));
}

fn read_stage(a: SocksAction) -> (SocksStage, usize, Vec<u8>) {
    match a {
        SocksAction::Read { stage, need, reply } => (stage, need, reply),
        _ => panic!("expected a read"),
    }
}

#[test]
fn socks_handshake_for_a_host_name() {
    let (st, need, reply) = read_stage(socks_start());
    assert_eq!(need, 2);
    assert!(reply.is_empty());
    let (st, need, reply) = read_stage(socks_step(st, &[5, 1]));
    assert_eq!(need, 1);
    assert!(reply.is_empty());
    let (st, need, reply) = read_stage(socks_step(st, &[0]));
    assert_eq!(need, 4);
    assert_eq!(reply, vec![5, 0]);
    let (st, need, _) = read_stage(socks_step(st, &[5, 1, 0, 3]));
    assert_eq!(need, 1);
    let (st, need, _) = read_stage(socks_step(st, &[11]));
    assert_eq!(need, 11);
    let (st, need, _) = read_stage(socks_step(st, b"example.com"));
    assert_eq!(need, 2);
    match socks_step(st, &[0x01, 0xBB]) {
        SocksAction::Connect { target: SocksTarget::Host(h), port } => {
            assert_eq!(h, "example.com");
            assert_eq!(port, 443);
        }
        _ => panic!("expected a connect"),
    }
}

#[test]
fn socks_handshake_for_addresses_and_refusals() {
    let (_, _, _) = read_stage(socks_start());
    let (st, need, _) = read_stage(socks_step(SocksStage::Request, &[5, 1, 0, 1]));
    assert_eq!(need, 4);
    let (st, _, _) = read_stage(socks_step(st, &[127, 0, 0, 1]));
    match socks_step(st, &[0, 80]) {
        SocksAction::Connect { target: SocksTarget::Addr(a), port } => {
            assert_eq!(a, vec![127, 0, 0, 1]);
            assert_eq!(port, 80);
        }
        _ => panic!("expected a connect"),
    }
    let (_, need, _) = read_stage(socks_step(SocksStage::Request, &[5, 1, 0, 4]));
    assert_eq!(need, 16);
    match socks_step(SocksStage::Greeting, &[4, 1]) {
        SocksAction::Refuse { reply, reason } => {
            assert!(reply.is_empty());
            assert_eq!(reason, "not SOCKS5");
        }
        _ => panic!("expected a refusal"),
    }
    match socks_step(SocksStage::Request, &[5, 2, 0, 1]) {
        SocksAction::Refuse { reply, reason } => {
            assert_eq!(reply, socks_reply(7));
            assert_eq!(reason, "unsupported SOCKS command");
        }
        _ => panic!("expected a refusal"),
    }
    match socks_step(SocksStage::Request, &[5, 1, 0, 9]) {
        SocksAction::Refuse { reply, reason } => {
            assert_eq!(reply, vec![5, 8, 0, 1, 0, 0, 0, 0, 0, 0]);
            assert_eq!(reason, "bad ATYP");
        }
        _ => panic!("expected a refusal"),
    }
    match socks_step(SocksStage::Name(2), &[0xff, 0xfe]) {
        SocksAction::Refuse { reason, .. } => assert_eq!(reason, "bad host"),
        _ => panic!("expected a refusal"),
    }
    assert_eq!(connect_reply(ConnectResult::Opened), vec![5, 0, 0, 1, 0, 0, 0, 0, 0, 0]);
    assert_eq!(connect_reply(ConnectResult::BadAddress)[1], 8);
    assert_eq!(connect_reply(ConnectResult::Failed)[1], 5);
}
