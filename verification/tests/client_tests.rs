use clickrtraining::client::{
    ClientAction, ClientEvent, ClientLoop, ClientPhase, INITIAL_BACKOFF_MS, MAX_BACKOFF_MS,
};
use clickrtraining::registry::ClickEvent;
use clickrtraining::session::{SessionEvent, SessionLifecycle, SessionPhase};
use clickrtraining::sound::SoundRef;

fn received(ts: u64) -> ClientEvent {
    ClientEvent::EventReceived(ClickEvent { sound: SoundRef::DefaultCue, timestamp: ts })
}

#[test]
fn listener_reconnects_to_the_same_room_and_resumes() {
    let mut c = ClientLoop::new("kitchen".to_string(), 1000);
    assert_eq!(c.phase, ClientPhase::Connecting);

    c.step(ClientEvent::Connected);
    assert_eq!(c.phase, ClientPhase::Streaming);

    let a = c.step(received(1));
    assert!(matches!(a, ClientAction::Play(_)));

    let a = c.step(ClientEvent::ReadError);
    match a {
        ClientAction::Wait(ms) => assert_eq!(ms, INITIAL_BACKOFF_MS),
        _ => panic!("expected a bounded wait before reconnecting"),
    }
    assert_eq!(c.phase, ClientPhase::Retrying);
    assert_eq!(c.room_id, "kitchen");

    let a = c.step(ClientEvent::RetryElapsed);
    assert!(matches!(a, ClientAction::Connect));
    assert_eq!(c.phase, ClientPhase::Connecting);
    assert_eq!(c.room_id, "kitchen");

    c.step(ClientEvent::Connected);
    assert_eq!(c.phase, ClientPhase::Streaming);
    assert_eq!(c.backoff_ms, INITIAL_BACKOFF_MS);

    // An event broadcast during the outage is never seen again; the next
    // broadcast after reconnecting is received and played.
    let a = c.step(received(3));
    match a {
        ClientAction::Play(req) => {
            assert!(matches!(req.sound, SoundRef::DefaultCue));
            assert_eq!(req.volume_millis, 1000);
        },
        _ => panic!("expected playback to resume"),
    }
}

#[test]
fn backoff_doubles_and_stays_bounded() {
    let mut c = ClientLoop::new("r".to_string(), 1000);
    let mut last_wait = 0u64;
    for _ in 0..20 {
        let a = c.step(ClientEvent::ConnectFailed);
        match a {
            ClientAction::Wait(ms) => {
                assert!(ms <= MAX_BACKOFF_MS);
                last_wait = ms;
            },
            _ => panic!("a failed attempt must be followed by a wait"),
        }
        c.step(ClientEvent::RetryElapsed);
        assert!(c.backoff_ms <= MAX_BACKOFF_MS);
    }
    assert_eq!(last_wait, MAX_BACKOFF_MS);
}

#[test]
fn cancellation_closes_the_client_for_good() {
    let mut c = ClientLoop::new("r".to_string(), 500);
    c.step(ClientEvent::Connected);
    let a = c.step(ClientEvent::Cancelled);
    assert!(matches!(a, ClientAction::Stop));
    assert_eq!(c.phase, ClientPhase::Closed);
    let a = c.step(received(9));
    assert!(matches!(a, ClientAction::Stop));
    assert_eq!(c.phase, ClientPhase::Closed);
}

#[test]
fn keepalives_are_answered_while_streaming() {
    let mut c = ClientLoop::new("r".to_string(), 500);
    c.step(ClientEvent::Connected);
    let a = c.step(ClientEvent::KeepaliveReceived);
    assert!(matches!(a, ClientAction::AnswerKeepalive));
    assert_eq!(c.phase, ClientPhase::Streaming);
}

#[test]
fn session_detaches_exactly_once_whatever_ends_it() {
    let mut s = SessionLifecycle::new();
    assert_eq!(s.phase, SessionPhase::Attaching);

    assert!(!s.step(SessionEvent::AttachComplete));
    assert_eq!(s.phase, SessionPhase::Active);

    assert!(s.step(SessionEvent::KeepaliveTimeout));
    assert_eq!(s.phase, SessionPhase::Detached);

    assert!(!s.step(SessionEvent::ClientClosed));
    assert!(!s.step(SessionEvent::HostShutdown));
    assert_eq!(s.phase, SessionPhase::Detached);
}

#[test]
fn session_detaches_once_on_client_close_too() {
    let mut s = SessionLifecycle::new();
    s.step(SessionEvent::AttachComplete);
    assert!(s.step(SessionEvent::ClientClosed));
    assert!(!s.step(SessionEvent::ClientClosed));
}
