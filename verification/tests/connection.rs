use zxzedesk::connection::{
    auth_accepted, auth_payload, client_begin, client_step, host_step, msg_type_for_event,
    ClientAction, ClientError, ClientEvent, ClientPhase, ConnectionStatus, HostAction, HostEvent,
    HostPhase,
};
use zxzedesk::network::MsgType;
use zxzedesk::InputEvent;

fn auth(p: &[u8]) -> HostEvent {
    HostEvent::Message(MsgType::Auth, p.to_vec())
}

#[test]
fn right_password_starts_streaming() {
    let (ph, a) = host_step(HostPhase::AwaitingAuth, "1A2B", auth(b"1A2B"));
    assert_eq!(ph, HostPhase::Streaming);
    assert!(matches!(a, HostAction::SendAuthOk));
}

#[test]
fn wrong_password_is_refused_and_closes() {
    let (ph, a) = host_step(HostPhase::AwaitingAuth, "1A2B", auth(b"1a2b"));
    assert_eq!(ph, HostPhase::Closed);
    assert!(matches!(a, HostAction::SendAuthFail));
    let (ph, a) = host_step(HostPhase::AwaitingAuth, "1A2B", auth(b"0000"));
    assert_eq!(ph, HostPhase::Closed);
    assert!(matches!(a, HostAction::SendAuthFail));
    let (ph, a) = host_step(HostPhase::AwaitingAuth, "pw", auth(b""));
    assert_eq!(ph, HostPhase::Closed);
    assert!(matches!(a, HostAction::SendAuthFail));
}

#[test]
fn password_bytes_are_read_lossily() {
    let (ph, _) = host_step(HostPhase::AwaitingAuth, "\u{FFFD}", auth(&[0xFF]));
    assert_eq!(ph, HostPhase::Streaming);
    let (ph, _) = host_step(HostPhase::AwaitingAuth, "ü", auth("ü".as_bytes()));
    assert_eq!(ph, HostPhase::Streaming);
}

#[test]
fn first_message_must_be_auth() {
    let (ph, a) = host_step(HostPhase::AwaitingAuth, "pw", HostEvent::Message(MsgType::MouseEvent, vec![1]));
    assert_eq!(ph, HostPhase::Closed);
    assert!(matches!(a, HostAction::Close));
    let (ph, a) = host_step(HostPhase::AwaitingAuth, "pw", HostEvent::Disconnected);
    assert_eq!(ph, HostPhase::Closed);
    assert!(matches!(a, HostAction::Close));
    let (ph, a) = host_step(HostPhase::AwaitingAuth, "pw", HostEvent::Tick);
    assert_eq!(ph, HostPhase::AwaitingAuth);
    assert!(matches!(a, HostAction::Wait));
}

#[test]
fn streaming_host_sends_frames_and_applies_input() {
    let s = HostPhase::Streaming;
    assert!(matches!(host_step(s, "pw", HostEvent::Tick), (HostPhase::Streaming, HostAction::SendFrame)));
    match host_step(s, "pw", HostEvent::Message(MsgType::MouseEvent, vec![7, 8])) {
        (HostPhase::Streaming, HostAction::ApplyMouse(p)) => assert_eq!(p, vec![7, 8]),
        other => panic!("unexpected {:?}", other),
    }
    match host_step(s, "pw", HostEvent::Message(MsgType::KeyEvent, vec![9])) {
        (HostPhase::Streaming, HostAction::ApplyKey(p)) => assert_eq!(p, vec![9]),
        other => panic!("unexpected {:?}", other),
    }
    assert!(matches!(
        host_step(s, "pw", HostEvent::Message(MsgType::Clipboard, vec![])),
        (HostPhase::Streaming, HostAction::Wait)
    ));
    assert!(matches!(
        host_step(s, "pw", HostEvent::Message(MsgType::Auth, b"pw".to_vec())),
        (HostPhase::Streaming, HostAction::Wait)
    ));
}

#[test]
fn streaming_host_stops_on_disconnect_or_send_failure() {
    assert!(matches!(host_step(HostPhase::Streaming, "pw", HostEvent::Disconnected), (HostPhase::Closed, HostAction::Close)));
    assert!(matches!(host_step(HostPhase::Streaming, "pw", HostEvent::FrameSendFailed), (HostPhase::Closed, HostAction::Close)));
}

#[test]
fn closed_host_does_nothing() {
    for e in [auth(b"pw"), HostEvent::Tick, HostEvent::Disconnected, HostEvent::Message(MsgType::KeyEvent, vec![])] {
        assert!(matches!(host_step(HostPhase::Closed, "pw", e), (HostPhase::Closed, HostAction::Wait)));
    }
}

fn privileged(a: &HostAction) -> bool {
    matches!(a, HostAction::SendFrame | HostAction::ApplyMouse(_) | HostAction::ApplyKey(_))
}

#[test]
fn host_acts_only_after_auth_law_on_values() {
    let events = vec![
        HostEvent::Tick,
        HostEvent::Message(MsgType::MouseEvent, vec![1]),
        auth(b"nope"),
        HostEvent::Tick,
        HostEvent::Message(MsgType::KeyEvent, vec![2]),
    ];
    let mut phase = HostPhase::AwaitingAuth;
    for e in events {
        let (p, a) = host_step(phase, "pw", e);
        assert!(!privileged(&a));
        phase = p;
    }
    assert_eq!(phase, HostPhase::Closed);
}

#[test]
fn auth_comparison() {
    assert!(auth_accepted("ABCD", "ABCD"));
    assert!(!auth_accepted("ABCD", "ABCE"));
}

#[test]
fn viewer_sends_password_as_utf8() {
    assert_eq!(auth_payload("pässword"), "pässword".as_bytes().to_vec());
}

#[test]
fn input_kind_follows_event_type() {
    assert_eq!(msg_type_for_event("mouse_move"), MsgType::MouseEvent);
    assert_eq!(msg_type_for_event("mousedown"), MsgType::MouseEvent);
    assert_eq!(msg_type_for_event("key_down"), MsgType::KeyEvent);
    assert_eq!(msg_type_for_event("Mouse"), MsgType::KeyEvent);
}

#[test]
fn status_labels_and_error_texts() {
    assert_eq!(ConnectionStatus::Connecting.label(), "Connecting");
    assert_eq!(ConnectionStatus::Failed.label(), "Failed");
    assert_eq!(ConnectionStatus::Success.label(), "Success");
    assert_eq!(ClientError::AuthenticationFailed.message(), "Authentication failed");
    assert_eq!(ClientError::UnexpectedResponse.message(), "Unexpected response from server");
    assert_eq!(ClientError::Io("refused".to_string()).message(), "refused");
}

fn is_failed_then(acts: &[ClientAction], check: fn(&ClientError) -> bool) -> bool {
    acts.len() == 2
        && matches!(acts[0], ClientAction::EmitStatus(ConnectionStatus::Failed))
        && matches!(&acts[1], ClientAction::Finish(Err(e)) if check(e))
}

#[test]
fn viewer_happy_path() {
    let (ph, acts) = client_begin();
    assert_eq!(ph, ClientPhase::Connecting);
    assert!(matches!(acts.as_slice(), [ClientAction::EmitStatus(ConnectionStatus::Connecting)]));
    let (ph, acts) = client_step(ph, ClientEvent::Connected);
    assert_eq!(ph, ClientPhase::Authenticating);
    assert!(matches!(acts.as_slice(), [ClientAction::SendAuth]));
    let (ph, acts) = client_step(ph, ClientEvent::Message(MsgType::AuthOk, vec![]));
    assert_eq!(ph, ClientPhase::Streaming);
    assert!(matches!(acts.as_slice(), [ClientAction::EmitStatus(ConnectionStatus::Success)]));
    let (ph, acts) = client_step(ph, ClientEvent::Message(MsgType::Frame, vec![0xFF, 0xD8]));
    assert_eq!(ph, ClientPhase::Streaming);
    match acts.as_slice() {
        [ClientAction::EmitFrame(f)] => assert_eq!(f, &vec![0xFF, 0xD8]),
        other => panic!("unexpected {:?}", other),
    }
    let e = InputEvent { event_type: "mouse_down".to_string(), payload: "{}".to_string() };
    let (ph, acts) = client_step(ph, ClientEvent::Input(e));
    assert_eq!(ph, ClientPhase::Streaming);
    match acts.as_slice() {
        [ClientAction::SendInput(t, ev)] => {
            assert_eq!(*t, MsgType::MouseEvent);
            assert_eq!(ev.event_type, "mouse_down");
        }
        other => panic!("unexpected {:?}", other),
    }
    let (ph, acts) = client_step(ph, ClientEvent::ReceiveEnded);
    assert_eq!(ph, ClientPhase::Finished);
    assert!(matches!(acts.as_slice(), [ClientAction::Finish(Ok(()))]));
}

#[test]
fn viewer_failures_show_failed() {
    let (ph, acts) = client_step(ClientPhase::Connecting, ClientEvent::ConnectFailed("refused".into()));
    assert_eq!(ph, ClientPhase::Finished);
    assert!(is_failed_then(&acts, |e| matches!(e, ClientError::Io(m) if m == "refused")));
    let (ph, acts) = client_step(ClientPhase::Authenticating, ClientEvent::AuthSendFailed("broken".into()));
    assert_eq!(ph, ClientPhase::Finished);
    assert!(is_failed_then(&acts, |e| matches!(e, ClientError::Io(m) if m == "broken")));
    let (_, acts) = client_step(ClientPhase::Authenticating, ClientEvent::Message(MsgType::AuthFail, vec![]));
    assert!(is_failed_then(&acts, |e| matches!(e, ClientError::AuthenticationFailed)));
    let (_, acts) = client_step(ClientPhase::Authenticating, ClientEvent::Message(MsgType::Frame, vec![]));
    assert!(is_failed_then(&acts, |e| matches!(e, ClientError::UnexpectedResponse)));
    let (_, acts) = client_step(ClientPhase::Authenticating, ClientEvent::ReceiveEnded);
    assert!(is_failed_then(&acts, |e| matches!(e, ClientError::UnexpectedResponse)));
}

#[test]
fn streaming_viewer_ends_quietly() {
    let (ph, acts) = client_step(ClientPhase::Streaming, ClientEvent::Message(MsgType::Disconnect, vec![]));
    assert_eq!(ph, ClientPhase::Finished);
    assert!(matches!(acts.as_slice(), [ClientAction::Finish(Ok(()))]));
    let (ph, acts) = client_step(ClientPhase::Streaming, ClientEvent::InputSendFailed);
    assert_eq!(ph, ClientPhase::Finished);
    assert!(matches!(acts.as_slice(), [ClientAction::Finish(Ok(()))]));
}

#[test]
fn finished_viewer_does_nothing() {
    let (ph, acts) = client_step(ClientPhase::Finished, ClientEvent::Message(MsgType::Frame, vec![1]));
    assert_eq!(ph, ClientPhase::Finished);
    assert!(acts.is_empty());
}

#[test]
fn viewer_streams_only_after_auth_ok_law_on_values() {
    let e = || InputEvent { event_type: "key_down".to_string(), payload: "{}".to_string() };
    let mut ph = ClientPhase::Connecting;
    for ev in [
        ClientEvent::Input(e()),
        ClientEvent::Message(MsgType::Frame, vec![1]),
        ClientEvent::Connected,
        ClientEvent::Input(e()),
    ] {
        let (p, acts) = client_step(ph, ev);
        assert!(acts.iter().all(|a| !matches!(a, ClientAction::EmitFrame(_) | ClientAction::SendInput(..))));
        ph = p;
    }
    assert_eq!(ph, ClientPhase::Authenticating);
}

#[test]
fn viewer_session_law_on_values() {
    let sessions: Vec<Vec<ClientEvent>> = vec![
        vec![ClientEvent::ConnectFailed("no".into())],
        vec![ClientEvent::Connected, ClientEvent::Message(MsgType::AuthFail, vec![])],
        vec![
            ClientEvent::Connected,
            ClientEvent::Message(MsgType::AuthOk, vec![]),
            ClientEvent::Message(MsgType::Frame, vec![1]),
            ClientEvent::ReceiveEnded,
        ],
    ];
    for events in sessions {
        let (mut phase, mut all) = client_begin();
        for e in events {
            let (p, acts) = client_step(phase, e);
            phase = p;
            all.extend(acts);
        }
        assert_eq!(phase, ClientPhase::Finished);
        assert!(matches!(all[0], ClientAction::EmitStatus(ConnectionStatus::Connecting)));
        let statuses: Vec<usize> = (1..all.len())
            .filter(|&i| matches!(all[i], ClientAction::EmitStatus(_)))
            .collect();
        assert_eq!(statuses.len(), 1);
        let success = matches!(all[statuses[0]], ClientAction::EmitStatus(ConnectionStatus::Success));
        match all.last().unwrap() {
            ClientAction::Finish(Ok(())) => assert!(success),
            ClientAction::Finish(Err(_)) => assert!(!success),
            other => panic!("unexpected {:?}", other),
        }
    }
}
