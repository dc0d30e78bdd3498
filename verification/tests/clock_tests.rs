use zellij_remote::frame::{Cell, FrameData};
use zellij_remote::lease::{LeaseEvent, LeaseManager, LeaseResult};
use zellij_remote::manager::{RemoteManager, Size};
use zellij_remote::protocol::ControllerPolicy;
use zellij_remote::resume_token::ResumeToken;
use zellij_remote::server::idle_update;
use zellij_remote::session::{RemoteSession, RenderUpdate};
use zellij_remote::state_history::StateHistory;

fn unix_now_ms() -> u64 {
    std::time::SystemTime::now()
        .duration_since(std::time::UNIX_EPOCH)
        .unwrap()
        .as_millis() as u64
}

#[test]
fn test_lease_by_its_own_clock() {
    // an hour is far longer than the test runs
    let mut mgr = LeaseManager::new(ControllerPolicy::ExplicitOnly, 3_600_000);
    assert!(mgr.get_current_lease().is_none());
    assert!(mgr.tick().is_none());
    let lease_id = match mgr.request_control(1, None, false) {
        LeaseResult::Granted(lease) => {
            assert_eq!(lease.remaining_ms, 3_600_000);
            lease.lease_id
        },
        other => panic!("expected a grant, got {:?}", other),
    };
    assert!(mgr.tick().is_none());
    assert!(mgr.keepalive(1, lease_id));
    assert!(!mgr.keepalive(1, lease_id + 1));
    assert!(!mgr.keepalive(2, lease_id));
    let lease = mgr.get_current_lease().unwrap();
    assert_eq!((lease.lease_id, lease.owner_client_id), (lease_id, 1));
    assert!(lease.remaining_ms <= 3_600_000 && lease.remaining_ms > 3_000_000);
    assert!(mgr.tick().is_none());
    assert!(mgr.is_controller(1));
}

#[test]
fn test_lease_of_no_duration_runs_out_at_once() {
    let mut mgr = LeaseManager::new(ControllerPolicy::ExplicitOnly, 0);
    let _ = mgr.request_control(7, None, false);
    assert_eq!(mgr.get_current_lease().unwrap().remaining_ms, 0);
    assert_eq!(mgr.tick(), Some(LeaseEvent::Expired { lease_id: 1, owner: 7 }));
    assert!(mgr.tick().is_none());
    assert!(mgr.get_current_lease().is_none());
    assert!(!mgr.keepalive(7, 1));
}

#[test]
fn test_lease_ids_only_go_up() {
    let mut mgr = LeaseManager::new(ControllerPolicy::LastWriterWins, 1000);
    let mut last = 0;
    for round in 0..20u64 {
        let client = round % 3;
        let before = mgr.next_lease_id();
        match mgr.request_control_at(client, None, round % 5 == 0, round) {
            LeaseResult::Granted(lease) => {
                assert!(lease.lease_id >= last);
                assert!(lease.lease_id < mgr.next_lease_id());
                if lease.lease_id > last {
                    assert_eq!(lease.lease_id, before);
                }
                last = lease.lease_id;
            },
            other => panic!("expected a grant, got {:?}", other),
        }
        if round % 4 == 3 {
            assert!(mgr.release_control(client, last));
            assert!(mgr.get_current_lease_at(round).is_none());
        }
    }
}

#[test]
fn test_token_age_by_the_system_clock() {
    let now = unix_now_ms();
    let fresh = ResumeToken::new_at(1, 2, 3, 4, now);
    assert!(!fresh.is_expired(60_000));
    let old = ResumeToken::new_at(1, 2, 3, 4, now - 120_000);
    assert!(old.is_expired(60_000));
    assert!(!old.is_expired(600_000));
    let ahead = ResumeToken::new_at(1, 2, 3, 4, now + 120_000);
    assert!(!ahead.is_expired(0));
    let made_now = ResumeToken::new(1, 2, 3, 4);
    assert!(!made_now.is_expired(60_000));
}

#[test]
fn test_history_pruned_by_its_own_clock() {
    let mut history = StateHistory::new(10);
    history.push(1, FrameData::new(2, 2));
    history.push(2, FrameData::new(2, 2));
    // nothing is an hour old
    history.prune_older_than(3_600_000);
    assert_eq!(history.len(), 2);
    // an entry pushed long before the clock's reading goes, a young one stays
    let mut history = StateHistory::new(10);
    let now = history.now_ms();
    history.push_at(1, FrameData::new(2, 2), 0);
    history.push_at(2, FrameData::new(2, 2), now + 3_600_000);
    while history.now_ms() < 5 {
        std::hint::spin_loop();
    }
    history.prune_older_than(1);
    assert_eq!(history.len(), 1);
    assert_eq!(history.oldest_state_id(), Some(2));
}

#[test]
fn test_session_resumes_by_the_system_clock() {
    let mut session = RemoteSession::with_session_id(4, 2, 42);
    session.add_client(1, 4);
    let _ = session.lease_manager.request_control(1, None, false);
    for seq in 1..=3 {
        let input = zellij_remote::protocol::InputEvent { input_seq: seq, client_time_ms: 0, payload: None };
        assert!(session.process_input(1, &input).is_ok());
    }
    session.frame_store.advance_state();
    session.record_state_snapshot();
    let _ = session.get_render_update(1);
    let token = session.generate_resume_token(1);
    session.remove_client(1);
    session.add_client(9, 4);

    let result = session.try_resume(&token, 6);
    assert_eq!(
        result,
        zellij_remote::resume_token::ResumeResult::Resumed { client_id: 1, baseline_state_id: 1 }
    );
    assert!(session.has_client(1) && session.has_client(9));
    assert_eq!(session.client_count(), 2);
    let client = &session.clients[&1];
    assert!(client.has_baseline());
    assert_eq!(client.baseline_state_id(), 1);
    assert_eq!(client.render_window().window_size(), 6);
    assert_eq!(client.render_window().unacked_count(), 0);
    assert_eq!(session.input_receivers[&1].last_acked_seq(), 3);
    assert_eq!(session.input_receivers[&9].last_acked_seq(), 0);
}

#[test]
fn test_idle_update_sends_nothing_twice() {
    let mut session = RemoteSession::with_session_id(4, 2, 1);
    assert!(idle_update(&mut session, 1).is_none());
    session.add_client(1, 2);
    session.frame_store.advance_state();
    // a client without a baseline gets its snapshot, then nothing while the screen stays
    assert!(matches!(idle_update(&mut session, 1), Some(RenderUpdate::Snapshot(_))));
    assert!(idle_update(&mut session, 1).is_none());
    assert!(idle_update(&mut session, 1).is_none());
    assert_eq!(session.clients[&1].render_window().unacked_count(), 1);
    // a new state goes out once
    session.frame_store.update_row(0, |r| r.set_cell(0, Cell { codepoint: 65, width: 1, style_id: 0 }));
    session.frame_store.advance_state();
    assert!(matches!(idle_update(&mut session, 1), Some(RenderUpdate::Delta(_))));
    assert!(idle_update(&mut session, 1).is_none());
    // the window is full now, and the screen did not change: nothing goes out
    assert!(session.clients[&1].should_send_snapshot());
    assert!(idle_update(&mut session, 1).is_none());
    // a forced snapshot goes out though the screen did not change
    session.force_client_snapshot(1);
    assert!(matches!(idle_update(&mut session, 1), Some(RenderUpdate::Snapshot(_))));
    assert!(idle_update(&mut session, 1).is_none());
}

#[test]
fn test_client_of_a_window_without_slots_gets_snapshots_only() {
    let mut session = RemoteSession::with_session_id(4, 2, 1);
    session.add_client(1, 0);
    for _ in 0..3 {
        session.frame_store.advance_state();
        assert!(matches!(session.get_render_update(1), Some(RenderUpdate::Snapshot(_))));
        assert!(!session.clients[&1].can_send());
    }
}

#[test]
fn test_manager_resize_keeps_what_fits() {
    let mut manager = RemoteManager::new(4, 3);
    let _ = manager.add_client(1, Size { rows: 3, cols: 4 });
    manager.session_mut().frame_store.update_row(1, |r| {
        r.set_cell(0, Cell { codepoint: 65, width: 1, style_id: 0 });
        r.set_cell(3, Cell { codepoint: 66, width: 1, style_id: 0 });
    });
    manager.resize(2, 5);
    let frame = manager.session().frame_store.current_frame();
    assert_eq!((frame.cols, frame.rows.len()), (2, 5));
    assert_eq!(frame.rows[1].0.cells, vec![Cell { codepoint: 65, width: 1, style_id: 0 }, Cell::default()]);
    assert_eq!(frame.rows[4].0.cells, vec![Cell::default(); 2]);
    manager.resize(3, 2);
    let frame = manager.session().frame_store.current_frame();
    assert_eq!(
        frame.rows[1].0.cells,
        vec![Cell { codepoint: 65, width: 1, style_id: 0 }, Cell::default(), Cell::default()]
    );
    assert_eq!(manager.dimensions(), (3, 2));
}
