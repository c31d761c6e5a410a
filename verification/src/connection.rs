//! The two sides of a session, as state machines: the host, which checks
//! the viewer's password and then streams its screen and takes remote input,
//! and the viewer (client), which authenticates, shows the frames it gets
//! and forwards local input. Each step takes the current phase and what
//! happened, and gives the next phase and what to do; the caller performs
//! the I/O.

use vstd::prelude::*;
use vstd::string::*;

use crate::network::MsgType;
use crate::text::{starts_with_text, text_equals, text_starts_with};
use crate::InputEvent;

verus! {

/// The connection manager. A host session is driven by [`host_step`], a
/// viewer's by [`client_begin`] and [`client_step`].
pub struct ConnectionManager;

// ---------------------------------------------------------------------------
// Host
// ---------------------------------------------------------------------------

/// What `String::from_utf8_lossy` gives for `bytes`.
pub uninterp spec fn utf8_lossy(bytes: Seq<u8>) -> Seq<char>;

/// `String::from_utf8_lossy`, made an owned `String`. The contract claims
/// that the result is `utf8_lossy` of the bytes and, as the function's
/// documentation states, that valid UTF-8 is decoded as it stands; how
/// invalid sequences are replaced is not stated.
#[verifier::external_body]
fn text_from_utf8_lossy(bytes: &[u8]) -> (s: String)
    ensures
        s@ == utf8_lossy(bytes@),
        vstd::utf8::valid_utf8(bytes@) ==> s@ == vstd::utf8::decode_utf8(bytes@),
{
    String::from_utf8_lossy(bytes).into_owned()
}

/// Where the host's session stands.
#[derive(Debug, Clone, Copy, PartialEq, Eq, Structural)]
pub enum HostPhase {
    /// Waiting for the viewer's first message, which must carry the password.
    AwaitingAuth,
    /// Authenticated: frames go out, input comes in.
    Streaming,
    /// The session is over.
    Closed,
}

/// What happened on the host's side.
#[derive(Debug)]
pub enum HostEvent {
    /// A whole message arrived.
    Message(MsgType, Vec<u8>),
    /// The viewer went away, or reading failed.
    Disconnected,
    /// Time for the next frame.
    Tick,
    /// Sending a frame failed.
    FrameSendFailed,
}

/// What the host does next.
#[derive(Debug)]
pub enum HostAction {
    /// Reply `AuthOk`.
    SendAuthOk,
    /// Reply `AuthFail`, then drop the connection.
    SendAuthFail,
    /// Capture the screen and, if that succeeds, send it as a `Frame`.
    SendFrame,
    /// Carry out the mouse event in this payload.
    ApplyMouse(Vec<u8>),
    /// Carry out the key event in this payload.
    ApplyKey(Vec<u8>),
    /// Drop the connection.
    Close,
    /// Nothing to do.
    Wait,
}

/// The host's next phase and action, in phase `phase`, with the password
/// `password`, when `event` happens.
pub open spec fn host_next(phase: HostPhase, password: Seq<char>, event: HostEvent) -> (
    HostPhase,
    HostAction,
) {
    match phase {
        HostPhase::AwaitingAuth => match event {
            HostEvent::Message(t, p) => if t == MsgType::Auth {
                if utf8_lossy(p@) == password {
                    (HostPhase::Streaming, HostAction::SendAuthOk)
                } else {
                    (HostPhase::Closed, HostAction::SendAuthFail)
                }
            } else {
                (HostPhase::Closed, HostAction::Close)
            },
            HostEvent::Disconnected => (HostPhase::Closed, HostAction::Close),
            _ => (HostPhase::AwaitingAuth, HostAction::Wait),
        },
        HostPhase::Streaming => match event {
            HostEvent::Message(t, p) => if t == MsgType::MouseEvent {
                (HostPhase::Streaming, HostAction::ApplyMouse(p))
            } else if t == MsgType::KeyEvent {
                (HostPhase::Streaming, HostAction::ApplyKey(p))
            } else {
                (HostPhase::Streaming, HostAction::Wait)
            },
            HostEvent::Tick => (HostPhase::Streaming, HostAction::SendFrame),
            HostEvent::Disconnected => (HostPhase::Closed, HostAction::Close),
            HostEvent::FrameSendFailed => (HostPhase::Closed, HostAction::Close),
        },
        HostPhase::Closed => (HostPhase::Closed, HostAction::Wait),
    }
}

/// Whether the password received in `payload` is the host's password.
pub fn auth_accepted(received: &str, password: &str) -> (b: bool)
    ensures
        b == (received@ == password@),
{
    text_equals(received, password)
}

/// One step of the host: the next phase and action when `event` happens in
/// phase `phase`. The payload of an `Auth` message is read as text with
/// `String::from_utf8_lossy` and compared with `password`.
pub fn host_step(phase: HostPhase, password: &str, event: HostEvent) -> (r: (HostPhase, HostAction))
    ensures
        r == host_next(phase, password@, event),
        phase == HostPhase::AwaitingAuth ==> (event matches HostEvent::Message(t, p) ==> (t
            == MsgType::Auth && vstd::utf8::valid_utf8(p@) ==> (if vstd::utf8::decode_utf8(p@)
            == password@ {
            r.0 == HostPhase::Streaming && r.1 is SendAuthOk
        } else {
            r.0 == HostPhase::Closed && r.1 is SendAuthFail
        }))),
        phase == HostPhase::AwaitingAuth && (event matches HostEvent::Message(t, p) && t
            == MsgType::Auth && p@ == vstd::utf8::encode_utf8(password@)) ==> r.0
            == HostPhase::Streaming && r.1 is SendAuthOk,
{
    match phase {
        HostPhase::AwaitingAuth => match event {
            HostEvent::Message(t, p) => match t {
                MsgType::Auth => {
                    let received = text_from_utf8_lossy(p.as_slice());
                    proof {
                        if p@ == vstd::utf8::encode_utf8(password@) {
                            vstd::utf8::encode_utf8_valid_utf8(password@);
                            vstd::utf8::encode_utf8_decode_utf8(password@);
                        }
                    }
                    if auth_accepted(received.as_str(), password) {
                        (HostPhase::Streaming, HostAction::SendAuthOk)
                    } else {
                        (HostPhase::Closed, HostAction::SendAuthFail)
                    }
                },
                _ => (HostPhase::Closed, HostAction::Close),
            },
            HostEvent::Disconnected => (HostPhase::Closed, HostAction::Close),
            _ => (HostPhase::AwaitingAuth, HostAction::Wait),
        },
        HostPhase::Streaming => match event {
            HostEvent::Message(t, p) => match t {
                MsgType::MouseEvent => (HostPhase::Streaming, HostAction::ApplyMouse(p)),
                MsgType::KeyEvent => (HostPhase::Streaming, HostAction::ApplyKey(p)),
                _ => (HostPhase::Streaming, HostAction::Wait),
            },
            HostEvent::Tick => (HostPhase::Streaming, HostAction::SendFrame),
            HostEvent::Disconnected => (HostPhase::Closed, HostAction::Close),
            HostEvent::FrameSendFailed => (HostPhase::Closed, HostAction::Close),
        },
        HostPhase::Closed => (HostPhase::Closed, HostAction::Wait),
    }
}

/// The host's phase after `events`, from the start of a session.
pub open spec fn host_phase_after(password: Seq<char>, events: Seq<HostEvent>) -> HostPhase
    decreases events.len(),
{
    if events.len() == 0 {
        HostPhase::AwaitingAuth
    } else {
        host_next(host_phase_after(password, events.drop_last()), password, events.last()).0
    }
}

/// `event` is an `Auth` message that carries the password.
pub open spec fn is_accepted_auth(password: Seq<char>, event: HostEvent) -> bool {
    event matches HostEvent::Message(t, p) && t == MsgType::Auth && utf8_lossy(p@) == password
}

/// Actions that only an authenticated viewer may cause: sending the screen
/// and taking remote input.
pub open spec fn is_privileged(action: HostAction) -> bool {
    ||| action is SendFrame
    ||| action is ApplyMouse
    ||| action is ApplyKey
}

/// Events that leave a session waiting for the viewer's first message as
/// it is: a timer tick, or a frame send that cannot have happened yet.
pub open spec fn is_idle_event(event: HostEvent) -> bool {
    event is Tick || event is FrameSendFailed
}

proof fn lemma_streaming_needs_auth(password: Seq<char>, events: Seq<HostEvent>)
    ensures
        host_phase_after(password, events) == HostPhase::AwaitingAuth ==> forall|i: int|
            0 <= i < events.len() ==> is_idle_event(#[trigger] events[i]),
        host_phase_after(password, events) == HostPhase::Streaming ==> exists|j: int|
            0 <= j < events.len() && is_accepted_auth(password, #[trigger] events[j])
                && forall|i: int| 0 <= i < j ==> is_idle_event(#[trigger] events[i]),
    decreases events.len(),
{
    if events.len() > 0 {
        let prev = events.drop_last();
        let last = events.len() - 1;
        lemma_streaming_needs_auth(password, prev);
        let before = host_phase_after(password, prev);
        let now = host_phase_after(password, events);
        if now == HostPhase::AwaitingAuth {
            assert(before == HostPhase::AwaitingAuth);
            assert forall|i: int| 0 <= i < events.len() implies is_idle_event(
                #[trigger] events[i],
            ) by {
                if i < last {
                    assert(events[i] == prev[i]);
                }
            }
        }
        if now == HostPhase::Streaming {
            if before == HostPhase::Streaming {
                let j = choose|j: int|
                    0 <= j < prev.len() && is_accepted_auth(password, #[trigger] prev[j])
                        && forall|i: int| 0 <= i < j ==> is_idle_event(#[trigger] prev[i]);
                assert(events[j] == prev[j]);
                assert forall|i: int| 0 <= i < j implies is_idle_event(#[trigger] events[i]) by {
                    assert(events[i] == prev[i]);
                }
            } else {
                assert(before == HostPhase::AwaitingAuth);
                assert(is_accepted_auth(password, events[last]));
                assert forall|i: int| 0 <= i < last implies is_idle_event(#[trigger] events[i]) by {
                    assert(events[i] == prev[i]);
                }
            }
        }
    }
}

/// Law: whatever happened before, the host sends its screen or carries out
/// remote input only once the viewer's first message (the first event other
/// than timer ticks) has carried its password.
pub proof fn lemma_host_acts_only_after_auth(
    password: Seq<char>,
    events: Seq<HostEvent>,
    event: HostEvent,
)
    requires
        is_privileged(host_next(host_phase_after(password, events), password, event).1),
    ensures
        exists|j: int|
            0 <= j < events.len() && is_accepted_auth(password, #[trigger] events[j]) && forall|
                i: int,
            | 0 <= i < j ==> is_idle_event(#[trigger] events[i]),
{
    lemma_streaming_needs_auth(password, events);
}

/// Law: a first message that is an `Auth` without the password is answered
/// `AuthFail` and ends the session.
pub proof fn lemma_host_refuses_wrong_password(password: Seq<char>, payload: Vec<u8>)
    requires
        utf8_lossy(payload@) != password,
    ensures
        host_next(HostPhase::AwaitingAuth, password, HostEvent::Message(MsgType::Auth, payload))
            == (HostPhase::Closed, HostAction::SendAuthFail),
{
}

/// Law: once closed, a host session stays closed and does nothing, whatever
/// happens next.
pub proof fn lemma_host_closed_is_final(
    password: Seq<char>,
    events: Seq<HostEvent>,
    more: Seq<HostEvent>,
)
    requires
        host_phase_after(password, events) == HostPhase::Closed,
    ensures
        host_phase_after(password, events + more) == HostPhase::Closed,
    decreases more.len(),
{
    if more.len() > 0 {
        lemma_host_closed_is_final(password, events, more.drop_last());
        assert((events + more).drop_last() =~= events + more.drop_last());
    } else {
        assert(events + more =~= events);
    }
}

// ---------------------------------------------------------------------------
// Client
// ---------------------------------------------------------------------------

/// Where the viewer's session stands.
#[derive(Debug, Clone, Copy, PartialEq, Eq, Structural)]
pub enum ClientPhase {
    /// Dialing the host.
    Connecting,
    /// The password is on its way; waiting for the host's answer.
    Authenticating,
    /// Accepted: frames come in, input goes out.
    Streaming,
    /// The session is over.
    Finished,
}

/// The connection status shown to the user.
#[derive(Debug, Clone, Copy, PartialEq, Eq, Structural)]
pub enum ConnectionStatus {
    Connecting,
    Failed,
    Success,
}

impl ConnectionStatus {
    /// The text with which the status is shown.
    pub fn label(&self) -> (s: &'static str)
        ensures
            s@ == match self {
                ConnectionStatus::Connecting => "Connecting"@,
                ConnectionStatus::Failed => "Failed"@,
                ConnectionStatus::Success => "Success"@,
            },
    {
        match self {
            ConnectionStatus::Connecting => "Connecting",
            ConnectionStatus::Failed => "Failed",
            ConnectionStatus::Success => "Success",
        }
    }
}

/// Why a viewer's session failed.
#[derive(Debug)]
pub enum ClientError {
    /// Dialing or sending the password failed, with this text.
    Io(String),
    /// The host refused the password.
    AuthenticationFailed,
    /// The host answered something other than `AuthOk` or `AuthFail`, or
    /// went away.
    UnexpectedResponse,
}

impl ClientError {
    /// The text of the error.
    pub fn message(&self) -> (s: String)
        ensures
            s@ == match self {
                ClientError::Io(m) => m@,
                ClientError::AuthenticationFailed => "Authentication failed"@,
                ClientError::UnexpectedResponse => "Unexpected response from server"@,
            },
    {
        match self {
            ClientError::Io(m) => m.clone(),
            ClientError::AuthenticationFailed => "Authentication failed".to_owned(),
            ClientError::UnexpectedResponse => "Unexpected response from server".to_owned(),
        }
    }
}

/// What happened on the viewer's side.
#[derive(Debug)]
pub enum ClientEvent {
    /// The connection to the host is open.
    Connected,
    /// Dialing failed, with this text.
    ConnectFailed(String),
    /// Sending the password failed, with this text.
    AuthSendFailed(String),
    /// A whole message arrived.
    Message(MsgType, Vec<u8>),
    /// The host went away, or reading failed.
    ReceiveEnded,
    /// The user produced an input event.
    Input(InputEvent),
    /// Sending an input event failed.
    InputSendFailed,
}

/// What the viewer does next.
#[derive(Debug)]
pub enum ClientAction {
    /// Show this status.
    EmitStatus(ConnectionStatus),
    /// Send the password in an `Auth` message.
    SendAuth,
    /// Show this frame.
    EmitFrame(Vec<u8>),
    /// Send this input event in a message of this kind.
    SendInput(MsgType, InputEvent),
    /// End the session with this outcome.
    Finish(Result<(), ClientError>),
}

/// The kind of message in which an input event of type `event_type` is sent:
/// mouse events for types that begin with `mouse`, key events otherwise.
pub open spec fn input_msg_type(event_type: Seq<char>) -> MsgType {
    if starts_with_text(event_type, "mouse"@) {
        MsgType::MouseEvent
    } else {
        MsgType::KeyEvent
    }
}

/// `s` begins with the five characters `mouse`.
pub open spec fn has_mouse_prefix(s: Seq<char>) -> bool {
    s.len() >= 5 && s.subrange(0, 5) == seq!['m', 'o', 'u', 's', 'e']
}

/// Law: an input event is sent as a mouse event exactly when its type
/// begins with `mouse`, and as a key event otherwise.
pub proof fn lemma_input_kind(event_type: Seq<char>)
    ensures
        input_msg_type(event_type) == (if has_mouse_prefix(event_type) {
            MsgType::MouseEvent
        } else {
            MsgType::KeyEvent
        }),
{
    reveal_strlit("mouse");
    assert("mouse"@ =~= seq!['m', 'o', 'u', 's', 'e']);
}

/// Law: while streaming, the viewer forwards each input event, unchanged,
/// in a mouse message when its type begins with `mouse` and in a key message
/// otherwise.
pub proof fn lemma_client_forwards_input(e: InputEvent)
    ensures
        client_next(ClientPhase::Streaming, ClientEvent::Input(e)) == (
            ClientPhase::Streaming,
            seq![
                ClientAction::SendInput(
                    if has_mouse_prefix(e.event_type@) {
                        MsgType::MouseEvent
                    } else {
                        MsgType::KeyEvent
                    },
                    e,
                ),
            ],
        ),
{
    lemma_input_kind(e.event_type@);
}

/// The kind of message in which an input event of type `event_type` is sent.
pub fn msg_type_for_event(event_type: &str) -> (t: MsgType)
    ensures
        t == input_msg_type(event_type@),
        t == MsgType::MouseEvent || t == MsgType::KeyEvent,
        t == MsgType::MouseEvent <==> has_mouse_prefix(event_type@),
{
    proof {
        lemma_input_kind(event_type@);
    }
    if text_starts_with(event_type, "mouse") {
        MsgType::MouseEvent
    } else {
        MsgType::KeyEvent
    }
}

/// The actions for a failed session: show `Failed`, end with `error`.
pub open spec fn failure_actions(error: ClientError) -> Seq<ClientAction> {
    seq![
        ClientAction::EmitStatus(ConnectionStatus::Failed),
        ClientAction::Finish(Err(error)),
    ]
}

/// The viewer's next phase and actions, in phase `phase`, when `event`
/// happens. Input events are only taken while streaming: before that they
/// wait in their queue, and one that is handed over anyway is dropped.
pub open spec fn client_next(phase: ClientPhase, event: ClientEvent) -> (
    ClientPhase,
    Seq<ClientAction>,
) {
    match phase {
        ClientPhase::Connecting => match event {
            ClientEvent::Connected => (ClientPhase::Authenticating, seq![ClientAction::SendAuth]),
            ClientEvent::ConnectFailed(m) => (
                ClientPhase::Finished,
                failure_actions(ClientError::Io(m)),
            ),
            _ => (ClientPhase::Connecting, seq![]),
        },
        ClientPhase::Authenticating => match event {
            ClientEvent::AuthSendFailed(m) => (
                ClientPhase::Finished,
                failure_actions(ClientError::Io(m)),
            ),
            ClientEvent::Message(t, p) => if t == MsgType::AuthOk {
                (
                    ClientPhase::Streaming,
                    seq![ClientAction::EmitStatus(ConnectionStatus::Success)],
                )
            } else if t == MsgType::AuthFail {
                (ClientPhase::Finished, failure_actions(ClientError::AuthenticationFailed))
            } else {
                (ClientPhase::Finished, failure_actions(ClientError::UnexpectedResponse))
            },
            ClientEvent::ReceiveEnded => (
                ClientPhase::Finished,
                failure_actions(ClientError::UnexpectedResponse),
            ),
            _ => (ClientPhase::Authenticating, seq![]),
        },
        ClientPhase::Streaming => match event {
            ClientEvent::Message(t, p) => if t == MsgType::Frame {
                (ClientPhase::Streaming, seq![ClientAction::EmitFrame(p)])
            } else {
                (ClientPhase::Finished, seq![ClientAction::Finish(Ok(()))])
            },
            ClientEvent::ReceiveEnded => (
                ClientPhase::Finished,
                seq![ClientAction::Finish(Ok(()))],
            ),
            ClientEvent::Input(e) => (
                ClientPhase::Streaming,
                seq![ClientAction::SendInput(input_msg_type(e.event_type@), e)],
            ),
            ClientEvent::InputSendFailed => (
                ClientPhase::Finished,
                seq![ClientAction::Finish(Ok(()))],
            ),
            _ => (ClientPhase::Streaming, seq![]),
        },
        ClientPhase::Finished => (ClientPhase::Finished, seq![]),
    }
}

fn failure(error: ClientError) -> (r: (ClientPhase, Vec<ClientAction>))
    ensures
        r.0 == ClientPhase::Finished,
        r.1@ == failure_actions(error),
{
    let mut acts: Vec<ClientAction> = Vec::new();
    acts.push(ClientAction::EmitStatus(ConnectionStatus::Failed));
    acts.push(ClientAction::Finish(Err(error)));
    assert(acts@ =~= failure_actions(error));
    (ClientPhase::Finished, acts)
}

fn single(phase: ClientPhase, action: ClientAction) -> (r: (ClientPhase, Vec<ClientAction>))
    ensures
        r.0 == phase,
        r.1@ == seq![action],
{
    let mut acts: Vec<ClientAction> = Vec::new();
    acts.push(action);
    assert(acts@ =~= seq![action]);
    (phase, acts)
}

/// The start of a viewer's session: it is connecting, and shows so.
pub fn client_begin() -> (r: (ClientPhase, Vec<ClientAction>))
    ensures
        r.0 == ClientPhase::Connecting,
        r.1@ == seq![ClientAction::EmitStatus(ConnectionStatus::Connecting)],
{
    single(ClientPhase::Connecting, ClientAction::EmitStatus(ConnectionStatus::Connecting))
}

/// One step of the viewer: the next phase and actions when `event` happens
/// in phase `phase`.
pub fn client_step(phase: ClientPhase, event: ClientEvent) -> (r: (ClientPhase, Vec<ClientAction>))
    ensures
        r.0 == client_next(phase, event).0,
        r.1@ == client_next(phase, event).1,
{
    match phase {
        ClientPhase::Connecting => match event {
            ClientEvent::Connected => single(ClientPhase::Authenticating, ClientAction::SendAuth),
            ClientEvent::ConnectFailed(m) => failure(ClientError::Io(m)),
            _ => (ClientPhase::Connecting, Vec::new()),
        },
        ClientPhase::Authenticating => match event {
            ClientEvent::AuthSendFailed(m) => failure(ClientError::Io(m)),
            ClientEvent::Message(t, _p) => match t {
                MsgType::AuthOk => single(
                    ClientPhase::Streaming,
                    ClientAction::EmitStatus(ConnectionStatus::Success),
                ),
                MsgType::AuthFail => failure(ClientError::AuthenticationFailed),
                _ => failure(ClientError::UnexpectedResponse),
            },
            ClientEvent::ReceiveEnded => failure(ClientError::UnexpectedResponse),
            _ => (ClientPhase::Authenticating, Vec::new()),
        },
        ClientPhase::Streaming => match event {
            ClientEvent::Message(t, p) => match t {
                MsgType::Frame => single(ClientPhase::Streaming, ClientAction::EmitFrame(p)),
                _ => single(ClientPhase::Finished, ClientAction::Finish(Ok(()))),
            },
            ClientEvent::ReceiveEnded => single(ClientPhase::Finished, ClientAction::Finish(Ok(()))),
            ClientEvent::Input(e) => {
                let t = msg_type_for_event(e.event_type.as_str());
                single(ClientPhase::Streaming, ClientAction::SendInput(t, e))
            },
            ClientEvent::InputSendFailed => single(
                ClientPhase::Finished,
                ClientAction::Finish(Ok(())),
            ),
            _ => (ClientPhase::Streaming, Vec::new()),
        },
        ClientPhase::Finished => (ClientPhase::Finished, Vec::new()),
    }
}

/// The bytes of the password as the viewer sends them: its UTF-8 encoding.
pub fn auth_payload(password: &str) -> (b: Vec<u8>)
    ensures
        b@ == vstd::utf8::encode_utf8(password@),
{
    password.as_bytes_vec()
}

/// The viewer's phase after `events`, from the start of a session.
pub open spec fn client_phase_after(events: Seq<ClientEvent>) -> ClientPhase
    decreases events.len(),
{
    if events.len() == 0 {
        ClientPhase::Connecting
    } else {
        client_next(client_phase_after(events.drop_last()), events.last()).0
    }
}

/// `event` is the host's `AuthOk`.
pub open spec fn is_auth_ok(event: ClientEvent) -> bool {
    event matches ClientEvent::Message(t, p) && t == MsgType::AuthOk
}

proof fn lemma_client_streaming_needs_auth_ok(events: Seq<ClientEvent>)
    ensures
        client_phase_after(events) == ClientPhase::Streaming ==> exists|j: int|
            0 <= j < events.len() && is_auth_ok(#[trigger] events[j]),
    decreases events.len(),
{
    if events.len() > 0 {
        let prev = events.drop_last();
        lemma_client_streaming_needs_auth_ok(prev);
        if client_phase_after(events) == ClientPhase::Streaming {
            if client_phase_after(prev) == ClientPhase::Streaming {
                let j = choose|j: int| 0 <= j < prev.len() && is_auth_ok(#[trigger] prev[j]);
                assert(events[j] == prev[j]);
            } else {
                assert(is_auth_ok(events[events.len() - 1]));
            }
        }
    }
}

/// Law: whatever happened before, the viewer shows frames from the host or
/// sends it input only once the host has answered `AuthOk`.
pub proof fn lemma_client_streams_only_after_auth_ok(
    events: Seq<ClientEvent>,
    event: ClientEvent,
    k: int,
)
    requires
        0 <= k < client_next(client_phase_after(events), event).1.len(),
        client_next(client_phase_after(events), event).1[k] is EmitFrame || client_next(
            client_phase_after(events),
            event,
        ).1[k] is SendInput,
    ensures
        exists|j: int| 0 <= j < events.len() && is_auth_ok(#[trigger] events[j]),
{
    lemma_client_streaming_needs_auth_ok(events);
}

/// Law: the viewer shows `Success` exactly when, waiting for the host's
/// answer, it receives `AuthOk`.
pub proof fn lemma_client_success_on_auth_ok(phase: ClientPhase, event: ClientEvent)
    ensures
        client_next(phase, event).1.contains(ClientAction::EmitStatus(ConnectionStatus::Success))
            <==> (phase == ClientPhase::Authenticating && is_auth_ok(event)),
{
    let acts = client_next(phase, event).1;
    if phase == ClientPhase::Authenticating && is_auth_ok(event) {
        assert(acts[0] == ClientAction::EmitStatus(ConnectionStatus::Success));
    }
}

/// Law: every session that ends in an error first shows `Failed`.
pub proof fn lemma_client_failure_is_shown(phase: ClientPhase, event: ClientEvent, k: int)
    requires
        0 <= k < client_next(phase, event).1.len(),
        client_next(phase, event).1[k] matches ClientAction::Finish(outcome) && outcome is Err,
    ensures
        k > 0,
        client_next(phase, event).1[k - 1] == ClientAction::EmitStatus(ConnectionStatus::Failed),
{
}

/// Law: once finished, a viewer's session stays finished and does nothing,
/// whatever happens next.
pub proof fn lemma_client_finished_is_final(events: Seq<ClientEvent>, more: Seq<ClientEvent>)
    requires
        client_phase_after(events) == ClientPhase::Finished,
    ensures
        client_phase_after(events + more) == ClientPhase::Finished,
    decreases more.len(),
{
    if more.len() > 0 {
        lemma_client_finished_is_final(events, more.drop_last());
        assert((events + more).drop_last() =~= events + more.drop_last());
    } else {
        assert(events + more =~= events);
    }
}

} // verus!

verus! {

/// The viewer's phase and every action it has taken after `events`, from the
/// start of a session (the actions of [`client_begin`] first).
pub open spec fn client_run(events: Seq<ClientEvent>) -> (ClientPhase, Seq<ClientAction>)
    decreases events.len(),
{
    if events.len() == 0 {
        (ClientPhase::Connecting, seq![ClientAction::EmitStatus(ConnectionStatus::Connecting)])
    } else {
        let (p, a) = client_run(events.drop_last());
        let (q, b) = client_next(p, events.last());
        (q, a + b)
    }
}

/// Actions of a streaming session: showing a frame or sending input.
pub open spec fn is_stream_action(a: ClientAction) -> bool {
    a is EmitFrame || a is SendInput
}

/// Every action of `acts` from `from` up to `to` is a streaming action.
pub open spec fn all_stream_actions(acts: Seq<ClientAction>, from: int, to: int) -> bool {
    forall|i: int| from <= i < to ==> is_stream_action(#[trigger] acts[i])
}

/// The actions that a viewer's session has taken, given where it stands:
/// `Connecting`, then the password, then `Success` and streaming actions,
/// or `Failed` and an error; a session that streamed ends without error.
pub open spec fn session_shape(phase: ClientPhase, acts: Seq<ClientAction>) -> bool {
    let start = ClientAction::EmitStatus(ConnectionStatus::Connecting);
    let failed = ClientAction::EmitStatus(ConnectionStatus::Failed);
    let success = ClientAction::EmitStatus(ConnectionStatus::Success);
    match phase {
        ClientPhase::Connecting => acts == seq![start],
        ClientPhase::Authenticating => acts == seq![start, ClientAction::SendAuth],
        ClientPhase::Streaming => {
            &&& acts.len() >= 3
            &&& acts[0] == start
            &&& acts[1] == ClientAction::SendAuth
            &&& acts[2] == success
            &&& all_stream_actions(acts, 3, acts.len() as int)
        },
        ClientPhase::Finished => {
            ||| {
                &&& acts.len() == 3
                &&& acts[0] == start
                &&& acts[1] == failed
                &&& acts[2] matches ClientAction::Finish(Err(_))
            }
            ||| {
                &&& acts.len() == 4
                &&& acts[0] == start
                &&& acts[1] == ClientAction::SendAuth
                &&& acts[2] == failed
                &&& acts[3] matches ClientAction::Finish(Err(_))
            }
            ||| {
                &&& acts.len() >= 4
                &&& acts[0] == start
                &&& acts[1] == ClientAction::SendAuth
                &&& acts[2] == success
                &&& all_stream_actions(acts, 3, acts.len() - 1)
                &&& acts.last() matches ClientAction::Finish(Ok(_))
            }
        },
    }
}

proof fn lemma_client_run_shape(events: Seq<ClientEvent>)
    ensures
        session_shape(client_run(events).0, client_run(events).1),
    decreases events.len(),
{
    if events.len() > 0 {
        let prev = events.drop_last();
        lemma_client_run_shape(prev);
        let (p, a) = client_run(prev);
        let (q, b) = client_next(p, events.last());
        let acts = a + b;
        assert(client_run(events) == (q, acts));
        assert(acts.len() == a.len() + b.len());
        assert(forall|i: int| 0 <= i < a.len() ==> #[trigger] acts[i] == a[i]);
        assert(forall|i: int| a.len() <= i < acts.len() ==> #[trigger] acts[i] == b[i - a.len()]);
        let start = ClientAction::EmitStatus(ConnectionStatus::Connecting);
        let failed = ClientAction::EmitStatus(ConnectionStatus::Failed);
        let success = ClientAction::EmitStatus(ConnectionStatus::Success);
        let e = events.last();
        match p {
            ClientPhase::Connecting => {
                assert(a.len() == 1 && a[0] == start);
                match e {
                    ClientEvent::Connected => {
                        assert(acts =~= seq![start, ClientAction::SendAuth]);
                    },
                    ClientEvent::ConnectFailed(m) => {
                        assert(b == failure_actions(ClientError::Io(m)));
                        assert(acts[1] == failed);
                        assert(acts[2] == ClientAction::Finish(Err(ClientError::Io(m))));
                    },
                    _ => {
                        assert(acts =~= a);
                    },
                }
            },
            ClientPhase::Authenticating => {
                assert(a.len() == 2 && a[0] == start && a[1] == ClientAction::SendAuth);
                match e {
                    ClientEvent::AuthSendFailed(m) => {
                        assert(acts[2] == failed);
                        assert(acts[3] == ClientAction::Finish(Err(ClientError::Io(m))));
                    },
                    ClientEvent::Message(t, _) => {
                        if t == MsgType::AuthOk {
                            assert(acts.len() == 3 && acts[2] == success);
                            assert(all_stream_actions(acts, 3, acts.len() as int));
                        } else if t == MsgType::AuthFail {
                            assert(acts[2] == failed);
                            assert(acts[3] == ClientAction::Finish(
                                Err(ClientError::AuthenticationFailed),
                            ));
                        } else {
                            assert(acts[2] == failed);
                            assert(acts[3] == ClientAction::Finish(
                                Err(ClientError::UnexpectedResponse),
                            ));
                        }
                    },
                    ClientEvent::ReceiveEnded => {
                        assert(acts[2] == failed);
                        assert(acts[3] == ClientAction::Finish(Err(ClientError::UnexpectedResponse)));
                    },
                    _ => {
                        assert(acts =~= a);
                    },
                }
            },
            ClientPhase::Streaming => {
                if q == ClientPhase::Streaming {
                    assert forall|i: int| 3 <= i < acts.len() implies is_stream_action(
                        #[trigger] acts[i],
                    ) by {
                        if i < a.len() {
                            assert(acts[i] == a[i]);
                        }
                    }
                } else {
                    assert(b.len() == 1);
                    assert(acts.last() == ClientAction::Finish(Ok(())));
                    assert forall|i: int| 3 <= i < acts.len() - 1 implies is_stream_action(
                        #[trigger] acts[i],
                    ) by {
                        assert(acts[i] == a[i]);
                    }
                }
            },
            ClientPhase::Finished => {
                assert(acts =~= a);
            },
        }
    }
}

/// Law: over a whole session of the viewer, whatever happens: it first shows
/// `Connecting`; it shows at most one more status, `Success` or `Failed`,
/// and exactly one once it has finished; it shows frames only after
/// `Success`; it finishes at most once, as its last action, with `Ok`
/// exactly when it showed `Success` and with an error exactly when it
/// showed `Failed`.
pub proof fn lemma_client_session(events: Seq<ClientEvent>)
    ensures
        ({
            let (phase, acts) = client_run(events);
            let success = ClientAction::EmitStatus(ConnectionStatus::Success);
            let failed = ClientAction::EmitStatus(ConnectionStatus::Failed);
            &&& acts.len() > 0
            &&& acts[0] == ClientAction::EmitStatus(ConnectionStatus::Connecting)
            &&& forall|i: int|
                0 < i < acts.len() && (#[trigger] acts[i] is EmitStatus) ==> acts[i] == success
                    || acts[i] == failed
            &&& forall|i: int, j: int|
                0 < i < j < acts.len() && (#[trigger] acts[i] is EmitStatus) ==> !(
                #[trigger] acts[j] is EmitStatus)
            &&& phase == ClientPhase::Finished ==> exists|k: int|
                0 < k < acts.len() && #[trigger] acts[k] is EmitStatus
            &&& forall|k: int|
                0 <= k < acts.len() && (#[trigger] acts[k] is EmitFrame) ==> exists|j: int|
                    0 <= j < k && acts[j] == success
            &&& forall|k: int|
                0 <= k < acts.len() && (#[trigger] acts[k] is Finish) ==> k == acts.len() - 1
            &&& (phase == ClientPhase::Finished <==> acts.last() is Finish)
            &&& (acts.last() matches ClientAction::Finish(Ok(_)) <==> phase
                == ClientPhase::Finished && acts.contains(success))
            &&& (acts.last() matches ClientAction::Finish(Err(_)) <==> acts.contains(failed))
        }),
{
    lemma_client_run_shape(events);
    let (phase, acts) = client_run(events);
    let success = ClientAction::EmitStatus(ConnectionStatus::Success);
    let failed = ClientAction::EmitStatus(ConnectionStatus::Failed);
    if acts.len() >= 3 && acts[2] == success {
        assert forall|k: int|
            0 <= k < acts.len() && (#[trigger] acts[k] is EmitFrame) implies exists|j: int|
            0 <= j < k && acts[j] == success by {
            assert(k != 2);
            assert(acts[2] == success);
        }
        assert(acts.contains(success));
        if !(phase == ClientPhase::Finished && acts.len() == 4 && acts[2] == failed) {
            assert(!acts.contains(failed)) by {
                if acts.contains(failed) {
                    let i = choose|i: int| 0 <= i < acts.len() && acts[i] == failed;
                    if i >= 3 && i < acts.len() - 1 {
                        assert(is_stream_action(acts[i]));
                    }
                    if phase == ClientPhase::Streaming && i >= 3 {
                        assert(is_stream_action(acts[i]));
                    }
                }
            }
        }
    } else {
        assert(!acts.contains(success)) by {
            if acts.contains(success) {
                let i = choose|i: int| 0 <= i < acts.len() && acts[i] == success;
                assert(i < 4);
            }
        }
    }
    if phase == ClientPhase::Finished {
        if acts.len() == 3 && acts[1] == failed {
            assert(acts.contains(failed));
        } else if acts.len() == 4 && acts[2] == failed {
            assert(acts.contains(failed));
        }
    }
}

} // verus!

verus! {

/// Law: an authenticated host sends a frame on every tick, hands mouse and
/// key messages to the mouse and key handlers with their payloads, passes
/// over every other message, and stops when the viewer goes or a frame
/// cannot be sent.
pub proof fn lemma_host_streaming(password: Seq<char>, t: MsgType, payload: Vec<u8>)
    ensures
        host_next(HostPhase::Streaming, password, HostEvent::Tick) == (
            HostPhase::Streaming,
            HostAction::SendFrame,
        ),
        t == MsgType::MouseEvent ==> host_next(
            HostPhase::Streaming,
            password,
            HostEvent::Message(t, payload),
        ) == (HostPhase::Streaming, HostAction::ApplyMouse(payload)),
        t == MsgType::KeyEvent ==> host_next(
            HostPhase::Streaming,
            password,
            HostEvent::Message(t, payload),
        ) == (HostPhase::Streaming, HostAction::ApplyKey(payload)),
        t != MsgType::MouseEvent && t != MsgType::KeyEvent ==> host_next(
            HostPhase::Streaming,
            password,
            HostEvent::Message(t, payload),
        ) == (HostPhase::Streaming, HostAction::Wait),
        host_next(HostPhase::Streaming, password, HostEvent::Disconnected) == (
            HostPhase::Closed,
            HostAction::Close,
        ),
        host_next(HostPhase::Streaming, password, HostEvent::FrameSendFailed) == (
            HostPhase::Closed,
            HostAction::Close,
        ),
{
}

/// Law: a host waiting for the password accepts an `Auth` message exactly
/// when its text is the password, refuses it otherwise, and drops a viewer
/// whose first message is anything else or who goes away.
pub proof fn lemma_host_first_message(password: Seq<char>, t: MsgType, payload: Vec<u8>)
    ensures
        t == MsgType::Auth && utf8_lossy(payload@) == password ==> host_next(
            HostPhase::AwaitingAuth,
            password,
            HostEvent::Message(t, payload),
        ) == (HostPhase::Streaming, HostAction::SendAuthOk),
        t == MsgType::Auth && utf8_lossy(payload@) != password ==> host_next(
            HostPhase::AwaitingAuth,
            password,
            HostEvent::Message(t, payload),
        ) == (HostPhase::Closed, HostAction::SendAuthFail),
        t != MsgType::Auth ==> host_next(
            HostPhase::AwaitingAuth,
            password,
            HostEvent::Message(t, payload),
        ) == (HostPhase::Closed, HostAction::Close),
        host_next(HostPhase::AwaitingAuth, password, HostEvent::Disconnected) == (
            HostPhase::Closed,
            HostAction::Close,
        ),
{
}

/// Law: waiting for the host's answer, the viewer streams after `AuthOk`,
/// reports a refused password after `AuthFail`, and an unexpected response
/// after any other message or when the host goes away; dialing or sending
/// the password failing ends it with that error's text.
pub proof fn lemma_client_answers(t: MsgType, payload: Vec<u8>, m: String)
    ensures
        t == MsgType::AuthOk ==> client_next(
            ClientPhase::Authenticating,
            ClientEvent::Message(t, payload),
        ) == (
            ClientPhase::Streaming,
            seq![ClientAction::EmitStatus(ConnectionStatus::Success)],
        ),
        t == MsgType::AuthFail ==> client_next(
            ClientPhase::Authenticating,
            ClientEvent::Message(t, payload),
        ) == (
            ClientPhase::Finished,
            seq![
                ClientAction::EmitStatus(ConnectionStatus::Failed),
                ClientAction::Finish(Err(ClientError::AuthenticationFailed)),
            ],
        ),
        t != MsgType::AuthOk && t != MsgType::AuthFail ==> client_next(
            ClientPhase::Authenticating,
            ClientEvent::Message(t, payload),
        ) == (
            ClientPhase::Finished,
            seq![
                ClientAction::EmitStatus(ConnectionStatus::Failed),
                ClientAction::Finish(Err(ClientError::UnexpectedResponse)),
            ],
        ),
        client_next(ClientPhase::Authenticating, ClientEvent::ReceiveEnded) == (
            ClientPhase::Finished,
            seq![
                ClientAction::EmitStatus(ConnectionStatus::Failed),
                ClientAction::Finish(Err(ClientError::UnexpectedResponse)),
            ],
        ),
        client_next(ClientPhase::Connecting, ClientEvent::ConnectFailed(m)) == (
            ClientPhase::Finished,
            seq![
                ClientAction::EmitStatus(ConnectionStatus::Failed),
                ClientAction::Finish(Err(ClientError::Io(m))),
            ],
        ),
        client_next(ClientPhase::Connecting, ClientEvent::Connected) == (
            ClientPhase::Authenticating,
            seq![ClientAction::SendAuth],
        ),
{
}

/// Law: a streaming viewer shows every frame it receives, and ends without
/// error when the host sends anything else, goes away, or input cannot be
/// sent.
pub proof fn lemma_client_streaming(t: MsgType, payload: Vec<u8>)
    ensures
        t == MsgType::Frame ==> client_next(ClientPhase::Streaming, ClientEvent::Message(t, payload))
            == (ClientPhase::Streaming, seq![ClientAction::EmitFrame(payload)]),
        t != MsgType::Frame ==> client_next(ClientPhase::Streaming, ClientEvent::Message(t, payload))
            == (ClientPhase::Finished, seq![ClientAction::Finish(Ok(()))]),
        client_next(ClientPhase::Streaming, ClientEvent::ReceiveEnded) == (
            ClientPhase::Finished,
            seq![ClientAction::Finish(Ok(()))],
        ),
        client_next(ClientPhase::Streaming, ClientEvent::InputSendFailed) == (
            ClientPhase::Finished,
            seq![ClientAction::Finish(Ok(()))],
        ),
{
}

} // verus!
