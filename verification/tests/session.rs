use weighted_balancer::balancer::{BalancerError, LoadBalancer};
use weighted_balancer::session::{
    advance, Outcome, ProxySession, SessionAction, SessionEvent, SessionState, MAX_RETRIES,
};

fn selected(target: &str) -> SessionEvent {
    SessionEvent::TargetSelected { target: target.to_string() }
}

#[test]
fn retry_bound_is_three() {
    assert_eq!(MAX_RETRIES, 3);
}

#[test]
fn new_session_selects_first() {
    let session = ProxySession::new();
    assert_eq!(session.state(), &SessionState::SelectTarget { retries: 0 });
    assert_eq!(session.retries(), Some(0));
    assert_eq!(session.outcome(), None);
    assert!(!session.is_closed());
}

#[test]
fn session_relays_and_reports_byte_totals() {
    let mut session = ProxySession::new();
    assert_eq!(session.step(selected("A")), SessionAction::Connect { target: "A".to_string() });
    assert_eq!(
        session.state(),
        &SessionState::Connecting { retries: 0, target: "A".to_string() }
    );
    assert_eq!(session.step(SessionEvent::Connected), SessionAction::Relay);
    assert_eq!(session.state(), &SessionState::Relaying { target: "A".to_string() });
    assert_eq!(
        session.step(SessionEvent::RelayFinished { inbound: 1000, outbound: 2000 }),
        SessionAction::Close
    );
    assert!(session.is_closed());
    assert_eq!(session.outcome(), Some(Outcome::Relayed { inbound: 1000, outbound: 2000 }));
    assert_eq!(session.retries(), None);
}

#[test]
fn session_without_targets_is_rejected() {
    let mut session = ProxySession::new();
    assert_eq!(session.step(SessionEvent::NoActiveTargets), SessionAction::Close);
    assert_eq!(session.outcome(), Some(Outcome::Rejected));
    assert!(session.is_closed());
}

#[test]
fn session_gives_up_after_four_attempts() {
    let mut session = ProxySession::new();
    let mut attempts = 0;
    let mut demoted = Vec::new();
    let targets = ["A", "B", "C", "A", "B", "C"];
    let mut next = 0;
    loop {
        match session.step(selected(targets[next])) {
            SessionAction::Connect { target } => {
                assert_eq!(target, targets[next]);
                attempts += 1;
            }
            other => panic!("unexpected action {:?}", other),
        }
        match session.step(SessionEvent::ConnectFailed) {
            SessionAction::DemoteAndSelect { target } => {
                demoted.push(target);
                assert_eq!(session.retries(), Some(attempts as u8));
            }
            SessionAction::DemoteAndClose { target } => {
                demoted.push(target);
                break;
            }
            other => panic!("unexpected action {:?}", other),
        }
        next += 1;
    }
    assert_eq!(attempts, 4);
    assert_eq!(demoted, vec!["A", "B", "C", "A"]);
    assert!(session.is_closed());
    assert_eq!(session.outcome(), Some(Outcome::RetriesExhausted));
}

#[test]
fn session_connects_on_a_retry() {
    let mut session = ProxySession::new();
    session.step(selected("A"));
    assert_eq!(
        session.step(SessionEvent::ConnectFailed),
        SessionAction::DemoteAndSelect { target: "A".to_string() }
    );
    assert_eq!(session.state(), &SessionState::SelectTarget { retries: 1 });
    assert_eq!(session.step(selected("B")), SessionAction::Connect { target: "B".to_string() });
    assert_eq!(session.step(SessionEvent::Connected), SessionAction::Relay);
    assert_eq!(session.step(SessionEvent::RelayFinished { inbound: 7, outbound: 0 }), SessionAction::Close);
    assert_eq!(session.outcome(), Some(Outcome::Relayed { inbound: 7, outbound: 0 }));
}

#[test]
fn session_is_rejected_when_a_retry_finds_no_target() {
    let mut session = ProxySession::new();
    session.step(selected("A"));
    session.step(SessionEvent::ConnectFailed);
    assert_eq!(session.step(SessionEvent::NoActiveTargets), SessionAction::Close);
    assert_eq!(session.outcome(), Some(Outcome::Rejected));
}

#[test]
fn relay_error_ends_the_session_without_a_retry() {
    let mut session = ProxySession::new();
    session.step(selected("A"));
    session.step(SessionEvent::Connected);
    assert_eq!(session.step(SessionEvent::RelayFailed), SessionAction::Close);
    assert_eq!(session.outcome(), Some(Outcome::RelayFailed));
    assert_eq!(session.step(selected("B")), SessionAction::Ignore);
    assert_eq!(session.outcome(), Some(Outcome::RelayFailed));
}

#[test]
fn events_out_of_place_are_ignored() {
    let mut session = ProxySession::new();
    assert_eq!(session.step(SessionEvent::Connected), SessionAction::Ignore);
    assert_eq!(session.step(SessionEvent::ConnectFailed), SessionAction::Ignore);
    assert_eq!(session.step(SessionEvent::RelayFailed), SessionAction::Ignore);
    assert_eq!(session.state(), &SessionState::SelectTarget { retries: 0 });
    session.step(selected("A"));
    assert_eq!(session.step(selected("B")), SessionAction::Ignore);
    assert_eq!(session.step(SessionEvent::NoActiveTargets), SessionAction::Ignore);
    assert_eq!(
        session.step(SessionEvent::RelayFinished { inbound: 1, outbound: 1 }),
        SessionAction::Ignore
    );
    assert_eq!(
        session.state(),
        &SessionState::Connecting { retries: 0, target: "A".to_string() }
    );
    session.step(SessionEvent::Connected);
    assert_eq!(session.step(SessionEvent::ConnectFailed), SessionAction::Ignore);
    assert_eq!(session.step(SessionEvent::Connected), SessionAction::Ignore);
    assert_eq!(session.state(), &SessionState::Relaying { target: "A".to_string() });
}

#[test]
fn advance_is_the_step_on_plain_values() {
    let (state, action) = advance(
        SessionState::Connecting { retries: 2, target: "T".to_string() },
        SessionEvent::ConnectFailed,
    );
    assert_eq!(state, SessionState::SelectTarget { retries: 3 });
    assert_eq!(action, SessionAction::DemoteAndSelect { target: "T".to_string() });
    let (state, action) = advance(
        SessionState::Connecting { retries: 3, target: "T".to_string() },
        SessionEvent::ConnectFailed,
    );
    assert_eq!(state, SessionState::Closed { outcome: Outcome::RetriesExhausted });
    assert_eq!(action, SessionAction::DemoteAndClose { target: "T".to_string() });
}

#[test]
fn session_drives_the_registry_until_no_target_is_left() {
    let targets: Vec<String> = vec!["A".to_string(), "B".to_string()];
    let mut lb = LoadBalancer::new(&targets, &vec![1, 1]);
    let mut session = ProxySession::new();
    let mut attempts = 0;
    let mut event = match lb.select_target() {
        Ok(target) => SessionEvent::TargetSelected { target },
        Err(_) => SessionEvent::NoActiveTargets,
    };
    loop {
        match session.step(event) {
            SessionAction::Connect { .. } => {
                attempts += 1;
                event = SessionEvent::ConnectFailed;
            }
            SessionAction::DemoteAndSelect { target } => {
                lb.update_weight(target, 0);
                event = match lb.select_target() {
                    Ok(target) => SessionEvent::TargetSelected { target },
                    Err(e) => {
                        assert_eq!(e, BalancerError::NoActiveTargets);
                        SessionEvent::NoActiveTargets
                    }
                };
            }
            SessionAction::Close => break,
            other => panic!("unexpected action {:?}", other),
        }
    }
    assert_eq!(attempts, 2);
    assert_eq!(session.outcome(), Some(Outcome::Rejected));
    assert!(!lb.is_active());
}
