use zeco::auth::{
    check_secret, generate_secret, guest_accepts, guest_on_decision, guest_success_message,
    host_decision_byte, protocol_alpn, GuestPhase, HostPhase, HostRun, SECRET_LEN,
};

#[test]
fn alpn_is_fixed() {
    assert_eq!(protocol_alpn(), vec![3, 1, 4, 1, 5, 9, 2, 6]);
}

#[test]
fn secret_is_32_alphanumeric_bytes() {
    let s = generate_secret();
    assert_eq!(s.len(), SECRET_LEN);
    for b in s {
        assert!(b.is_ascii_alphanumeric());
    }
}

#[test]
fn matching_secret_accepted() {
    let s = generate_secret();
    assert!(check_secret(&s, &s.clone()));
    assert_eq!(host_decision_byte(&s, &s.clone()), 1);
}

#[test]
fn wrong_secret_rejected() {
    let mut other = vec![b'a'; SECRET_LEN];
    other[31] = b'b';
    let secret = vec![b'a'; SECRET_LEN];
    assert!(!check_secret(&secret, &other));
    assert_eq!(host_decision_byte(&secret, &other), 0);
}

#[test]
fn empty_secret_rejected() {
    let secret = generate_secret();
    assert_eq!(host_decision_byte(&secret, &vec![]), 0);
}

#[test]
fn truncated_secret_rejected() {
    let secret = generate_secret();
    let truncated = secret[..16].to_vec();
    assert_eq!(host_decision_byte(&secret, &truncated), 0);
}

#[test]
fn all_zero_secret_rejected() {
    let secret = generate_secret();
    assert_eq!(host_decision_byte(&secret, &vec![0u8; SECRET_LEN]), 0);
}

#[test]
fn wrong_length_secret_rejected() {
    let secret = generate_secret();
    assert_eq!(host_decision_byte(&secret, &vec![b'x'; 31]), 0);
    assert_eq!(host_decision_byte(&secret, &vec![b'x'; 33]), 0);
}

#[test]
fn guest_reads_decision_byte() {
    assert!(guest_accepts(1));
    assert!(!guest_accepts(0));
    assert!(!guest_accepts(2));
    assert!(!guest_accepts(255));
}

#[test]
fn guest_success_message_text() {
    assert_eq!(guest_success_message(), "Host let you in.");
}

#[test]
fn host_accepts_correct_secret() {
    let secret = generate_secret();
    let mut run = HostRun::new();
    run.start_listening();
    assert!(run.on_connection());
    let byte = run.on_secret(&secret, &secret.clone());
    assert_eq!(byte, Some(1));
    assert_eq!(run.phase, HostPhase::Authenticated);
}

#[test]
fn host_rejects_wrong_secret() {
    let secret = vec![b'a'; SECRET_LEN];
    let provided = vec![b'b'; SECRET_LEN];
    let mut run = HostRun::new();
    run.start_listening();
    assert!(run.on_connection());
    assert_eq!(run.on_secret(&secret, &provided), Some(0));
    assert_eq!(run.phase, HostPhase::Rejected);
    // After rejection the run is over: nothing further is evaluated.
    assert_eq!(run.on_secret(&secret, &secret.clone()), None);
    assert_eq!(run.phase, HostPhase::Rejected);
}

#[test]
fn second_connection_is_not_evaluated() {
    let secret = vec![b'a'; SECRET_LEN];
    let mut run = HostRun::new();
    run.start_listening();
    assert!(run.on_connection());
    assert_eq!(run.rendezvous, Some(1));
    // A second concurrent connection attempt during the same run.
    assert!(!run.on_connection());
    assert_eq!(run.rendezvous, Some(1));
    assert_eq!(run.connections, 2);
    // Authentication still belongs to the first connection only.
    assert_eq!(run.on_secret(&secret, &secret.clone()), Some(1));
    assert_eq!(run.phase, HostPhase::Authenticated);
    // A third connection after authentication changes nothing either.
    assert!(!run.on_connection());
    assert_eq!(run.rendezvous, Some(1));
    assert_eq!(run.phase, HostPhase::Authenticated);
}

#[test]
fn guest_phase_on_decision() {
    assert_eq!(
        guest_on_decision(GuestPhase::AwaitingDecision, 1),
        GuestPhase::Authenticated
    );
    assert_eq!(
        guest_on_decision(GuestPhase::AwaitingDecision, 0),
        GuestPhase::Rejected
    );
    assert_eq!(
        guest_on_decision(GuestPhase::AwaitingDecision, 7),
        GuestPhase::Rejected
    );
    assert_eq!(guest_on_decision(GuestPhase::Init, 1), GuestPhase::Init);
}
