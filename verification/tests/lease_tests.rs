#![allow(unused_mut, unused_variables, unused_assignments)]
use zellij_remote::lease::{LeaseEvent, LeaseManager, LeaseResult};
use zellij_remote::protocol::{ControllerPolicy, DisplaySize};


#[test]
fn test_initial_request_granted() {
    let mut now: u64 = 0;
    let mut mgr = LeaseManager::new(ControllerPolicy::ExplicitOnly, 60_000);

    let result = mgr.request_control_at(
        1,
        Some(DisplaySize {
            cols: 120,
            rows: 40,
        }),
        false, now,
    );

    match result {
        LeaseResult::Granted(lease) => {
            assert_eq!(lease.owner_client_id, 1);
            assert_eq!(lease.lease_id, 1);
            let size = lease.current_size.unwrap();
            assert_eq!(size.cols, 120);
            assert_eq!(size.rows, 40);
        },
        _ => panic!("Expected Granted, got {:?}", result),
    }

    assert!(mgr.is_controller(1));
}

#[test]
fn test_second_client_denied() {
    let mut now: u64 = 0;
    let mut mgr = LeaseManager::new(ControllerPolicy::ExplicitOnly, 60_000);

    let _ = mgr.request_control_at(1, Some(DisplaySize { cols: 80, rows: 24 }), false, now);

    let result = mgr.request_control_at(
        2,
        Some(DisplaySize {
            cols: 100,
            rows: 30,
        }),
        false, now,
    );

    match result {
        LeaseResult::Denied {
            reason,
            current_lease,
        } => {
            assert!(reason.contains("client 1"));
            assert!(current_lease.is_some());
            let lease = current_lease.unwrap();
            assert_eq!(lease.owner_client_id, 1);
        },
        _ => panic!("Expected Denied, got {:?}", result),
    }

    assert!(mgr.is_controller(1));
    assert!(!mgr.is_controller(2));
}

#[test]
fn test_last_writer_wins_takeover() {
    let mut now: u64 = 0;
    let mut mgr = LeaseManager::new(ControllerPolicy::LastWriterWins, 60_000);

    let result1 = mgr.request_control_at(1, Some(DisplaySize { cols: 80, rows: 24 }), false, now);
    assert!(matches!(result1, LeaseResult::Granted(_)));

    let result2 = mgr.request_control_at(
        2,
        Some(DisplaySize {
            cols: 100,
            rows: 30,
        }),
        false, now,
    );

    match result2 {
        LeaseResult::Granted(lease) => {
            assert_eq!(lease.owner_client_id, 2);
            assert_eq!(lease.lease_id, 2);
            assert_eq!(lease.current_size.unwrap().cols, 100);
        },
        _ => panic!("Expected Granted for takeover, got {:?}", result2),
    }

    assert!(!mgr.is_controller(1));
    assert!(mgr.is_controller(2));
    assert!(mgr.is_viewer(1));
}

#[test]
fn test_keepalive_extends_lease() {
    let mut now: u64 = 0;
    let mut mgr = LeaseManager::new(ControllerPolicy::ExplicitOnly, 60_000);

    let result = mgr.request_control_at(1, None, false, now);
    let lease_id = match result {
        LeaseResult::Granted(lease) => lease.lease_id,
        _ => panic!("Expected Granted"),
    };

    now += 30 * 1000;

    assert!(mgr.keepalive_at(1, lease_id, now));

    now += 40 * 1000;

    let event = mgr.tick_at(now);
    assert!(event.is_none(), "Lease should not expire after keepalive");

    assert!(mgr.is_controller(1));
}

#[test]
fn test_lease_expires_without_keepalive() {
    let mut now: u64 = 0;
    let mut mgr = LeaseManager::new(ControllerPolicy::ExplicitOnly, 60_000);

    let result = mgr.request_control_at(1, None, false, now);
    let lease_id = match result {
        LeaseResult::Granted(lease) => lease.lease_id,
        _ => panic!("Expected Granted"),
    };

    now += 61 * 1000;

    let event = mgr.tick_at(now);
    match event {
        Some(LeaseEvent::Expired {
            lease_id: id,
            owner,
        }) => {
            assert_eq!(id, lease_id);
            assert_eq!(owner, 1);
        },
        _ => panic!("Expected Expired event, got {:?}", event),
    }

    assert!(!mgr.is_controller(1));
}

#[test]
fn test_release_frees_lease() {
    let mut now: u64 = 0;
    let mut mgr = LeaseManager::new(ControllerPolicy::ExplicitOnly, 60_000);

    let result = mgr.request_control_at(1, None, false, now);
    let lease_id = match result {
        LeaseResult::Granted(lease) => lease.lease_id,
        _ => panic!("Expected Granted"),
    };

    assert!(mgr.release_control(1, lease_id));
    assert!(!mgr.is_controller(1));

    let result2 = mgr.request_control_at(2, None, false, now);
    match result2 {
        LeaseResult::Granted(lease) => {
            assert_eq!(lease.owner_client_id, 2);
        },
        _ => panic!("Expected second client to get lease after release"),
    }
}

#[test]
fn test_size_change_by_controller() {
    let mut now: u64 = 0;
    let mut mgr = LeaseManager::new(ControllerPolicy::ExplicitOnly, 60_000);

    let result = mgr.request_control_at(1, Some(DisplaySize { cols: 80, rows: 24 }), false, now);
    let lease_id = match result {
        LeaseResult::Granted(lease) => lease.lease_id,
        _ => panic!("Expected Granted"),
    };

    assert!(mgr.set_size(
        1,
        lease_id,
        DisplaySize {
            cols: 120,
            rows: 40
        }
    ));

    let size = mgr.current_size().unwrap();
    assert_eq!(size.cols, 120);
    assert_eq!(size.rows, 40);
}

#[test]
fn test_size_change_by_non_controller_rejected() {
    let mut now: u64 = 0;
    let mut mgr = LeaseManager::new(ControllerPolicy::ExplicitOnly, 60_000);

    let result = mgr.request_control_at(1, Some(DisplaySize { cols: 80, rows: 24 }), false, now);
    let lease_id = match result {
        LeaseResult::Granted(lease) => lease.lease_id,
        _ => panic!("Expected Granted"),
    };

    assert!(!mgr.set_size(
        2,
        lease_id,
        DisplaySize {
            cols: 120,
            rows: 40
        }
    ));
    assert!(!mgr.set_size(
        1,
        lease_id + 1,
        DisplaySize {
            cols: 120,
            rows: 40
        }
    ));

    let size = mgr.current_size().unwrap();
    assert_eq!(size.cols, 80);
    assert_eq!(size.rows, 24);
}

#[test]
fn test_viewer_mode_receives_updates() {
    let mut now: u64 = 0;
    let mut mgr = LeaseManager::new(ControllerPolicy::ExplicitOnly, 60_000);

    let _ = mgr.request_control_at(1, Some(DisplaySize { cols: 80, rows: 24 }), false, now);

    mgr.add_viewer(2);
    mgr.add_viewer(3);

    assert!(mgr.is_controller(1));
    assert!(mgr.is_viewer(2));
    assert!(mgr.is_viewer(3));
    assert!(!mgr.is_viewer(1));

    assert_eq!(mgr.viewer_count(), 2);

    let size = mgr.current_size();
    assert!(size.is_some());
}

#[test]
fn test_remove_controller_frees_lease() {
    let mut now: u64 = 0;
    let mut mgr = LeaseManager::new(ControllerPolicy::ExplicitOnly, 60_000);

    let result = mgr.request_control_at(1, None, false, now);
    let lease_id = match result {
        LeaseResult::Granted(lease) => lease.lease_id,
        _ => panic!("Expected Granted"),
    };

    let event = mgr.remove_client(1);
    match event {
        Some(LeaseEvent::Revoked {
            lease_id: id,
            owner,
            reason,
        }) => {
            assert_eq!(id, lease_id);
            assert_eq!(owner, 1);
            assert_eq!(reason, "disconnect");
        },
        _ => panic!("Expected Revoked event"),
    }

    assert!(!mgr.is_controller(1));
}

#[test]
fn test_remove_viewer_no_event() {
    let mut now: u64 = 0;
    let mut mgr = LeaseManager::new(ControllerPolicy::ExplicitOnly, 60_000);

    let _ = mgr.request_control_at(1, None, false, now);
    mgr.add_viewer(2);

    let event = mgr.remove_client(2);
    assert!(event.is_none());
    assert!(!mgr.is_viewer(2));
    assert!(mgr.is_controller(1));
}

#[test]
fn test_force_takeover_explicit_only() {
    let mut now: u64 = 0;
    let mut mgr = LeaseManager::new(ControllerPolicy::ExplicitOnly, 60_000);

    let _ = mgr.request_control_at(1, None, false, now);

    let result = mgr.request_control_at(2, None, true, now);

    match result {
        LeaseResult::Granted(lease) => {
            assert_eq!(lease.owner_client_id, 2);
        },
        _ => panic!("Expected force takeover to succeed"),
    }
}

#[test]
fn test_keepalive_wrong_lease_id_fails() {
    let mut now: u64 = 0;
    let mut mgr = LeaseManager::new(ControllerPolicy::ExplicitOnly, 60_000);

    let _ = mgr.request_control_at(1, None, false, now);

    assert!(!mgr.keepalive_at(1, 999, now));
    assert!(!mgr.keepalive_at(2, 1, now));
}

#[test]
fn test_release_wrong_credentials_fails() {
    let mut now: u64 = 0;
    let mut mgr = LeaseManager::new(ControllerPolicy::ExplicitOnly, 60_000);

    let result = mgr.request_control_at(1, None, false, now);
    let lease_id = match result {
        LeaseResult::Granted(lease) => lease.lease_id,
        _ => panic!("Expected Granted"),
    };

    assert!(!mgr.release_control(2, lease_id));
    assert!(!mgr.release_control(1, lease_id + 1));
    assert!(mgr.is_controller(1));
}

#[test]
fn test_get_current_lease() {
    let mut now: u64 = 0;
    let mut mgr = LeaseManager::new(ControllerPolicy::ExplicitOnly, 60_000);

    assert!(mgr.get_current_lease_at(now).is_none());

    let _ = mgr.request_control_at(1, Some(DisplaySize { cols: 80, rows: 24 }), false, now);

    let lease = mgr.get_current_lease_at(now).unwrap();
    assert_eq!(lease.owner_client_id, 1);
    assert_eq!(lease.lease_id, 1);
    assert!(lease.remaining_ms <= 60000);
}

#[test]
fn test_same_client_re_request_returns_existing() {
    let mut now: u64 = 0;
    let mut mgr = LeaseManager::new(ControllerPolicy::ExplicitOnly, 60_000);

    let result1 = mgr.request_control_at(1, None, false, now);
    let lease_id = match result1 {
        LeaseResult::Granted(lease) => lease.lease_id,
        _ => panic!("Expected Granted"),
    };

    let result2 = mgr.request_control_at(1, None, false, now);
    match result2 {
        LeaseResult::Granted(lease) => {
            assert_eq!(lease.lease_id, lease_id);
            assert_eq!(lease.owner_client_id, 1);
        },
        _ => panic!("Expected same lease returned"),
    }
}
