use study_gateway::gateway::{
    after_retire, check_toggle_port, finish_bind, start_lan_server, GatewayError, ServerSlot, ToggleAction,
};
use study_gateway::sync::{session_step, sync_payload, Inbound, SessionAction, SessionEvent, SyncAction};

#[test]
fn port_zero_is_rejected() {
    let e = check_toggle_port(0).unwrap_err();
    assert!(matches!(e, GatewayError::InvalidPort));
    assert_eq!(e.message(), "端口必须大于 0");
    assert!(check_toggle_port(4545).is_ok());
}

#[test]
fn disable_replies_stopped() {
    match after_retire(false, 4545, false) {
        ToggleAction::Reply(Ok(msg)) => assert_eq!(msg, "局域网共享服务已关闭"),
        _ => panic!("expected the stopped status"),
    }
}

#[test]
fn enable_without_store_fails() {
    match after_retire(true, 4545, false) {
        ToggleAction::Reply(Err(e)) => {
            assert!(matches!(e, GatewayError::StoreNotReady));
            assert_eq!(e.message(), "数据库尚未就绪，请稍后重试。");
        }
        _ => panic!("expected the store error"),
    }
}

#[test]
fn enable_with_store_binds() {
    match after_retire(true, 4545, true) {
        ToggleAction::Bind { port } => assert_eq!(port, 4545),
        _ => panic!("expected a bind"),
    }
}

#[test]
fn bind_outcomes() {
    assert_eq!(finish_bind(4545, Ok(())).unwrap(), "局域网共享服务已启动，端口 4545");
    let e = finish_bind(8080, Err("address in use".to_string())).unwrap_err();
    assert_eq!(e.message(), "启动局域网服务失败（端口 8080）: address in use");
}

#[test]
fn start_checks() {
    assert!(matches!(start_lan_server(0, true), Err(GatewayError::InvalidPort)));
    assert!(matches!(start_lan_server(7, false), Err(GatewayError::StoreNotReady)));
    assert_eq!(start_lan_server(7, true).ok(), Some(7));
}

#[test]
fn disabling_twice_tears_down_once() {
    let mut slot: ServerSlot<&str> = ServerSlot::new();
    slot.install(4545, "server");
    let first = slot.retire();
    assert_eq!(first.map(|l| (l.port, l.handle)), Some((4545, "server")));
    assert!(matches!(after_retire(false, 4545, true), ToggleAction::Reply(Ok(_))));
    let second = slot.retire();
    assert!(second.is_none());
    assert!(matches!(after_retire(false, 4545, true), ToggleAction::Reply(Ok(_))));
    assert!(slot.is_idle());
}

#[test]
fn enabling_on_a_new_port_retires_the_old_one() {
    let mut slot: ServerSlot<u32> = ServerSlot::new();
    slot.install(4545, 1);
    let old = slot.retire().expect("the first instance is live");
    assert_eq!(old.port, 4545);
    assert!(slot.is_idle());
    slot.install(4546, 2);
    assert_eq!(slot.current_port(), Some(4546));
}

#[test]
fn task_notification_payload() {
    assert_eq!(sync_payload(SyncAction::Tasks), "{\"action\":\"SYNC_TASKS\"}");
    assert_eq!(
        sync_payload(SyncAction::FocusRuns),
        "{\"action\":\"SYNC_FOCUS_RUNS\"}"
    );
    assert_eq!(SyncAction::FocusTemplates.tag(), "SYNC_FOCUS_TEMPLATES");
}

#[test]
fn session_reactions() {
    assert!(matches!(session_step(SessionEvent::Client(Inbound::Close)), SessionAction::Stop));
    assert!(matches!(session_step(SessionEvent::Client(Inbound::Ended)), SessionAction::Stop));
    assert!(matches!(session_step(SessionEvent::Client(Inbound::Failed)), SessionAction::Stop));
    assert!(matches!(session_step(SessionEvent::Client(Inbound::Other)), SessionAction::Continue));
    assert!(matches!(session_step(SessionEvent::BusFailed), SessionAction::Stop));
    match session_step(SessionEvent::Client(Inbound::Ping(vec![1, 2, 3]))) {
        SessionAction::SendPong(p) => assert_eq!(p, vec![1, 2, 3]),
        _ => panic!("expected a pong"),
    }
    match session_step(SessionEvent::Notification("{\"action\":\"SYNC_TASKS\"}".to_string())) {
        SessionAction::SendText(t) => assert_eq!(t, "{\"action\":\"SYNC_TASKS\"}"),
        _ => panic!("expected a text frame"),
    }
}

#[test]
fn toggle_sequence_through_the_slot() {
    let mut slot: ServerSlot<&str> = ServerSlot::new();
    assert!(matches!(slot.begin_toggle(0), Err(GatewayError::InvalidPort)));
    assert!(slot.begin_toggle(4545).unwrap().is_none());
    assert_eq!(slot.finish_start(4545, Ok("a")).unwrap(), "局域网共享服务已启动，端口 4545");
    assert_eq!(slot.current_port(), Some(4545));
    assert!(matches!(slot.begin_toggle(0), Err(GatewayError::InvalidPort)));
    assert_eq!(slot.current_port(), Some(4545));
    let retired = slot.begin_toggle(4546).unwrap().expect("the instance on 4545 is retired");
    assert_eq!((retired.port, retired.handle), (4545, "a"));
    assert_eq!(slot.finish_start(4546, Ok("b")).unwrap(), "局域网共享服务已启动，端口 4546");
    assert_eq!(slot.current_port(), Some(4546));
    let failed = slot.begin_toggle(80).unwrap();
    assert_eq!(failed.map(|l| l.port), Some(4546));
    let e = slot.finish_start(80, Err("permission denied".to_string())).unwrap_err();
    assert_eq!(e.message(), "启动局域网服务失败（端口 80）: permission denied");
    assert!(slot.is_idle());
}
