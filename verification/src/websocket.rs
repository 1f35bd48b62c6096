//! The session core: one logical WebSocket session as an explicit state
//! object. The transport itself lives outside; this module decides what
//! each command and each transport event does to the session, builds what
//! goes onto the wire, and names the event that each inbound envelope
//! becomes.

use vstd::prelude::*;
use vstd::string::*;
use crate::text::{opt_text, same_text, views_of};

verus! {

/// How many frames may wait for the wire before a sender has to wait.
pub const OUTBOUND_CAPACITY: usize = 100;

/// `serde_json::Value`, carried through unopened: the payload of an
/// inbound envelope.
#[verifier::external_type_specification]
#[verifier::external_body]
pub struct ExJsonValue(serde_json::Value);

/// `serde_json::Error`, carried from the encoder to its message.
#[verifier::external_type_specification]
#[verifier::external_body]
pub struct ExJsonError(serde_json::Error);

/// `Clone::clone` of `serde_json::Value`: the copy is the same JSON value.
pub assume_specification[ <serde_json::Value as Clone>::clone ](v: &serde_json::Value) -> (r:
    serde_json::Value)
    ensures
        r == *v,
;

/// The JSON text of a string: quoted and escaped, as `serde_json` writes
/// it, or `None` where `serde_json` gives an error instead.
pub uninterp spec fn json_quote(s: Seq<char>) -> Option<Seq<char>>;

/// Writes a string as JSON text with `serde_json::to_string`. Whether that
/// succeeds, and the text it gives, depend on the string's characters
/// alone. That it succeeds is not claimed here.
#[verifier::external_body]
fn quote_json(s: &str) -> (r: Result<String, serde_json::Error>)
    ensures
        (r is Ok) == (json_quote(s@) is Some),
        r is Ok ==> json_quote(s@) == Some(r->Ok_0@),
{
    serde_json::to_string(s)
}

/// The message of a `serde_json::Error`, through its `Display`.
#[verifier::external_body]
fn json_error_text(e: &serde_json::Error) -> (text: String) {
    e.to_string()
}

/// The envelope used on the wire in both directions. `data` is opaque to
/// the session core, which routes on `msg_type` alone.
#[derive(Debug, Clone)]
pub struct WSMessage {
    pub msg_type: String,
    pub data: serde_json::Value,
}

/// The payload of an outbound `dialogue` envelope.
#[derive(Debug, Clone)]
pub struct DialogueRequest {
    pub request: String,
    pub conversation_id: String,
    pub device_id: String,
}

/// The text of the outbound envelope, given the JSON text of each field.
/// A conversation id that is not there is left out altogether.
pub open spec fn dialogue_frame(
    quoted_conversation_id: Option<Seq<char>>,
    quoted_device_id: Seq<char>,
    quoted_request: Seq<char>,
) -> Seq<char> {
    "{\"type\":\"dialogue\",\"data\":{"@ + (match quoted_conversation_id {
        Some(q) => "\"conversation_id\":"@ + q + ","@,
        None => Seq::<char>::empty(),
    }) + "\"device_id\":"@ + quoted_device_id + ",\"request\":"@ + quoted_request + "}}"@
}

/// The wire text of a dialogue request, or `None` where a field that is
/// sent has no JSON text. An empty conversation id is not sent, not even
/// as an empty string, so it needs none.
pub open spec fn outbound_text(
    conversation_id: Seq<char>,
    device_id: Seq<char>,
    request: Seq<char>,
) -> Option<Seq<char>> {
    if (conversation_id.len() > 0 && json_quote(conversation_id) is None) || json_quote(
        device_id,
    ) is None || json_quote(request) is None {
        None
    } else {
        Some(
            dialogue_frame(
                if conversation_id.len() == 0 {
                    None
                } else {
                    json_quote(conversation_id)
                },
                json_quote(device_id)->0,
                json_quote(request)->0,
            ),
        )
    }
}

/// Puts the outbound envelope together from the JSON text of its fields.
/// `quoted_conversation_id` is `None` for an empty conversation id, which
/// is not sent.
pub fn frame_dialogue(
    quoted_conversation_id: Option<String>,
    quoted_device_id: &str,
    quoted_request: &str,
) -> (frame: String)
    ensures
        frame@ == dialogue_frame(
            opt_text(quoted_conversation_id),
            quoted_device_id@,
            quoted_request@,
        ),
{
    let mut frame: String = "{\"type\":\"dialogue\",\"data\":{".to_owned();
    match quoted_conversation_id {
        Some(q) => {
            let mut field: String = "\"conversation_id\":".to_owned();
            field.append(q.as_str());
            field.append(",");
            frame.append(field.as_str());
        },
        None => {
            assert(frame@ + Seq::<char>::empty() =~= frame@);
        },
    }
    frame.append("\"device_id\":");
    frame.append(quoted_device_id);
    frame.append(",\"request\":");
    frame.append(quoted_request);
    frame.append("}}");
    frame
}

impl DialogueRequest {
    /// The request as the text of one outbound frame. It succeeds exactly
    /// where the encoder gives a text for every field that is sent, and
    /// the frame is then made of those texts; otherwise the result is the
    /// message of the first refusal, in the order conversation id, device
    /// id, request.
    pub fn encode(&self) -> (r: Result<String, String>)
        ensures
            (r is Ok) == (outbound_text(
                self.conversation_id@,
                self.device_id@,
                self.request@,
            ) is Some),
            r is Ok ==> outbound_text(self.conversation_id@, self.device_id@, self.request@)
                == Some(r->Ok_0@),
    {
        let quoted_conversation_id: Option<String> = if self.conversation_id.as_str().is_empty() {
            None
        } else {
            match quote_json(self.conversation_id.as_str()) {
                Ok(q) => Some(q),
                Err(e) => {
                    return Err(json_error_text(&e));
                },
            }
        };
        let quoted_device_id: String = match quote_json(self.device_id.as_str()) {
            Ok(q) => q,
            Err(e) => {
                return Err(json_error_text(&e));
            },
        };
        let quoted_request: String = match quote_json(self.request.as_str()) {
            Ok(q) => q,
            Err(e) => {
                return Err(json_error_text(&e));
            },
        };
        Ok(
            frame_dialogue(
                quoted_conversation_id,
                quoted_device_id.as_str(),
                quoted_request.as_str(),
            ),
        )
    }
}

/// The build target, as far as the gateway wants to know it.
#[derive(Debug, Clone, Copy, PartialEq, Eq, Structural)]
pub enum Platform {
    Windows,
    Macos,
    Linux,
}

/// The name under which a platform is reported to the gateway.
pub open spec fn platform_text(p: Platform) -> Seq<char> {
    match p {
        Platform::Windows => "windows"@,
        Platform::Macos => "macos"@,
        Platform::Linux => "linux"@,
    }
}

/// The name under which a platform is reported to the gateway.
pub fn platform_name(p: Platform) -> (name: &'static str)
    ensures
        name@ == platform_text(p),
{
    match p {
        Platform::Windows => "windows",
        Platform::Macos => "macos",
        Platform::Linux => "linux",
    }
}

/// Where the gateway is reached: the WebSocket endpoint, and the origin
/// that requests to it name.
#[derive(Debug, Clone)]
pub struct Gateway {
    pub url: String,
    pub origin: String,
}

/// One header of the upgrade request.
#[derive(Debug, Clone)]
pub struct Header {
    pub name: String,
    pub value: String,
}

/// What the transport needs in order to open the session. Certificate
/// validation is switched off for this endpoint: the transport accepts any
/// certificate, and callers should know that it does.
#[derive(Debug, Clone)]
pub struct TransportRequest {
    pub url: String,
    pub headers: Vec<Header>,
    pub accept_invalid_certs: bool,
}

/// Names and values of a list of headers.
pub open spec fn header_texts(headers: Seq<Header>) -> Seq<(Seq<char>, Seq<char>)> {
    Seq::new(headers.len(), |i: int| (headers[i].name@, headers[i].value@))
}

/// The headers of the upgrade request, in the order in which they are set.
pub open spec fn upgrade_headers(
    origin: Seq<char>,
    identity: Seq<char>,
    client_version: Seq<char>,
    platform: Platform,
) -> Seq<(Seq<char>, Seq<char>)> {
    seq![
        ("Origin"@, origin),
        ("User-Agent"@, "Mozilla/5.0 (Windows NT 10.0; Win64; x64) AppleWebKit/537.36"@),
        ("X-Device-ID"@, identity),
        ("X-Client-Version"@, client_version),
        ("X-Platform"@, platform_text(platform)),
    ]
}

/// Whether `req` is the upgrade request for these values.
pub open spec fn is_upgrade_request(
    req: TransportRequest,
    gateway: Gateway,
    identity: Seq<char>,
    client_version: Seq<char>,
    platform: Platform,
) -> bool {
    &&& req.url@ == gateway.url@
    &&& header_texts(req.headers@) == upgrade_headers(
        gateway.origin@,
        identity,
        client_version,
        platform,
    )
    &&& req.accept_invalid_certs
}

/// A header with this name and value.
fn header(name: &str, value: &str) -> (h: Header)
    ensures
        h.name@ == name@,
        h.value@ == value@,
{
    Header { name: name.to_owned(), value: value.to_owned() }
}

/// The upgrade request to a gateway for a device, a client version and a
/// platform.
pub fn transport_request(
    gateway: &Gateway,
    identity: &str,
    client_version: &str,
    platform: Platform,
) -> (req: TransportRequest)
    ensures
        is_upgrade_request(req, *gateway, identity@, client_version@, platform),
{
    let mut headers: Vec<Header> = Vec::new();
    headers.push(header("Origin", gateway.origin.as_str()));
    headers.push(
        header("User-Agent", "Mozilla/5.0 (Windows NT 10.0; Win64; x64) AppleWebKit/537.36"),
    );
    headers.push(header("X-Device-ID", identity));
    headers.push(header("X-Client-Version", client_version));
    headers.push(header("X-Platform", platform_name(platform)));
    assert(header_texts(headers@) =~= upgrade_headers(
        gateway.origin@,
        identity@,
        client_version@,
        platform,
    ));
    TransportRequest { url: gateway.url.clone(), headers, accept_invalid_certs: true }
}

/// What an event carries to the presentation layer.
#[derive(Debug, Clone)]
pub enum EventPayload {
    /// A bare flag, as the transport-level events carry.
    Flag(bool),
    /// An error text.
    Text(String),
    /// The `data` of an inbound envelope, untouched.
    Data(serde_json::Value),
    /// A whole inbound envelope whose type the core does not know.
    Envelope(WSMessage),
}

/// A named event for the presentation layer.
#[derive(Debug, Clone)]
pub struct AppEvent {
    pub name: String,
    pub payload: EventPayload,
}

/// Whether the taxonomy of inbound envelope types knows `msg_type`.
pub open spec fn is_known_type(msg_type: Seq<char>) -> bool {
    ||| msg_type == "connected"@
    ||| msg_type == "version_outdated"@
    ||| msg_type == "banned"@
    ||| msg_type == "conversation_id"@
    ||| msg_type == "content"@
    ||| msg_type == "done"@
    ||| msg_type == "error"@
    ||| msg_type == "usage_blocked"@
}

/// The name of the event that an inbound envelope of type `msg_type`
/// becomes. Types outside the taxonomy go to the fallback event.
pub open spec fn event_name_for(msg_type: Seq<char>) -> Seq<char> {
    if msg_type == "connected"@ {
        "ws_connected"@
    } else if msg_type == "version_outdated"@ {
        "version_outdated"@
    } else if msg_type == "banned"@ {
        "device_banned"@
    } else if msg_type == "conversation_id"@ {
        "conversation_id"@
    } else if msg_type == "content"@ {
        "content"@
    } else if msg_type == "done"@ {
        "done"@
    } else if msg_type == "error"@ {
        "ws_error"@
    } else if msg_type == "usage_blocked"@ {
        "usage_blocked"@
    } else {
        "ws_message"@
    }
}

/// The event that an inbound envelope becomes.
pub open spec fn classified(msg: WSMessage, ev: AppEvent) -> bool {
    &&& ev.name@ == event_name_for(msg.msg_type@)
    &&& is_known_type(msg.msg_type@) ==> ev.payload == EventPayload::Data(msg.data)
    &&& !is_known_type(msg.msg_type@) ==> ev.payload == EventPayload::Envelope(msg)
}

/// The event name for a type of the taxonomy, `None` for any other type.
pub fn known_event_name(msg_type: &str) -> (name: Option<&'static str>)
    ensures
        name is Some == is_known_type(msg_type@),
        name matches Some(n) ==> n@ == event_name_for(msg_type@),
{
    if same_text(msg_type, "connected") {
        Some("ws_connected")
    } else if same_text(msg_type, "version_outdated") {
        Some("version_outdated")
    } else if same_text(msg_type, "banned") {
        Some("device_banned")
    } else if same_text(msg_type, "conversation_id") {
        Some("conversation_id")
    } else if same_text(msg_type, "content") {
        Some("content")
    } else if same_text(msg_type, "done") {
        Some("done")
    } else if same_text(msg_type, "error") {
        Some("ws_error")
    } else if same_text(msg_type, "usage_blocked") {
        Some("usage_blocked")
    } else {
        None
    }
}

/// Turns an inbound envelope into its event. An envelope of a known type
/// gives the event of that type with the envelope's `data` untouched; any
/// other envelope is forwarded whole under the fallback event, so that a
/// type added on the server side is never lost.
pub fn classify(msg: WSMessage) -> (ev: AppEvent)
    ensures
        classified(msg, ev),
{
    match known_event_name(msg.msg_type.as_str()) {
        Some(name) => AppEvent { name: name.to_owned(), payload: EventPayload::Data(msg.data) },
        None => AppEvent { name: "ws_message".to_owned(), payload: EventPayload::Envelope(msg) },
    }
}

/// Where a session stands.
#[derive(Debug, Clone, Copy, PartialEq, Eq, Structural)]
pub enum ConnectionState {
    Disconnected,
    Connecting,
    Connected,
}

/// What can happen to a session: the commands of its callers and the
/// events of its transport.
#[derive(Debug, Clone, Copy, PartialEq, Eq, Structural)]
pub enum SessionOp {
    /// A caller asks for a connection.
    Connect,
    /// The transport reports that the connection stands.
    Established,
    /// The transport reports that the connection could not be made.
    EstablishFailed,
    /// A caller tears the session down.
    Disconnect,
    /// A write to the wire failed.
    WriteFailed,
    /// The inbound side saw a close frame, the end of the stream or a read
    /// error.
    InboundEnded,
    /// Anything that leaves the session where it is: a send, a frame
    /// written, an inbound frame read.
    Traffic,
}

/// The state of a session after `op`.
pub open spec fn next_state(s: ConnectionState, op: SessionOp) -> ConnectionState {
    match op {
        SessionOp::Connect => if s == ConnectionState::Disconnected {
            ConnectionState::Connecting
        } else {
            s
        },
        SessionOp::Established => if s == ConnectionState::Connecting {
            ConnectionState::Connected
        } else {
            s
        },
        SessionOp::EstablishFailed => if s == ConnectionState::Connecting {
            ConnectionState::Disconnected
        } else {
            s
        },
        SessionOp::Disconnect => ConnectionState::Disconnected,
        SessionOp::WriteFailed => ConnectionState::Disconnected,
        SessionOp::InboundEnded => ConnectionState::Disconnected,
        SessionOp::Traffic => s,
    }
}

/// Whether `op` in state `s` asks the transport for a new connection.
pub open spec fn opens_transport(s: ConnectionState, op: SessionOp) -> bool {
    op == SessionOp::Connect && s == ConnectionState::Disconnected
}

/// What `connect` asks of its caller.
#[derive(Debug, Clone)]
pub enum ConnectStep {
    /// A session is being made or stands already: nothing to do.
    AlreadyActive,
    /// Open the transport with this request, then report back with
    /// `transport_established` or `transport_failed`.
    Establish(TransportRequest),
}

/// Why a send was not queued.
#[derive(Debug, Clone)]
pub enum SendError {
    /// There is no session to send on.
    NotConnected,
    /// The outbound queue holds as many frames as it may: wait for the
    /// wire to take one, then send again.
    QueueFull,
    /// The request could not be written as JSON; the encoder's message.
    Encode(String),
}

impl SendError {
    /// The error as text.
    pub fn message(&self) -> (text: String)
        ensures
            *self is NotConnected ==> text@ == "Not connected"@,
            *self is QueueFull ==> text@ == "Outbound queue is full"@,
            *self matches SendError::Encode(m) ==> text@ == m@,
    {
        match self {
            SendError::NotConnected => "Not connected".to_owned(),
            SendError::QueueFull => "Outbound queue is full".to_owned(),
            SendError::Encode(m) => m.clone(),
        }
    }
}

/// One thing that the inbound side of the transport saw.
#[derive(Debug, Clone)]
pub enum InboundFrame {
    /// A text frame that holds an envelope.
    Envelope(WSMessage),
    /// A text frame that holds no envelope.
    Malformed,
    /// A frame that is neither text nor close.
    Ignored,
    /// A close frame, or the end of the stream.
    Closed,
    /// A read error, with its text.
    Failed(String),
}

/// What the inbound flow does next: the events to emit, in order,
/// whether the flow is over, and whether the frame was dropped as
/// malformed, so that a dropped frame stays visible to whoever counts
/// them.
#[derive(Debug, Clone)]
pub struct InboundStep {
    pub events: Vec<AppEvent>,
    pub finished: bool,
    /// Whether the frame was dropped as malformed.
    pub dropped: bool,
}

/// Whether `ev` is the event `name` with a `true` flag.
pub open spec fn is_flag_event(ev: AppEvent, name: Seq<char>) -> bool {
    ev.name@ == name && ev.payload == EventPayload::Flag(true)
}

/// Whether `ev` is the event `name` that carries `text`.
pub open spec fn is_text_event(ev: AppEvent, name: Seq<char>, text: Seq<char>) -> bool {
    ev.name@ == name && (ev.payload matches EventPayload::Text(t) && t@ == text)
}

/// The text of the error that a failed connection attempt is reported
/// with.
pub open spec fn connect_error_text(reason: Seq<char>) -> Seq<char> {
    "\u{8fde}\u{63a5}\u{5931}\u{8d25}: "@ + reason
}

/// The session: its state, the queue of frames that wait for the wire, and
/// the device id that outbound requests are stamped with.
pub struct WebSocketManager {
    state: ConnectionState,
    sender: Option<Vec<String>>,
    device_id: String,
}

impl WebSocketManager {
    /// Where the session stands.
    pub closed spec fn state(&self) -> ConnectionState {
        self.state
    }

    /// Whether the session holds its outbound queue.
    pub closed spec fn has_channel(&self) -> bool {
        self.sender is Some
    }

    /// The frames that wait for the wire, the oldest first.
    pub closed spec fn pending(&self) -> Seq<Seq<char>> {
        match self.sender {
            Some(q) => views_of(q@),
            None => Seq::<Seq<char>>::empty(),
        }
    }

    /// The device id that the session was connected with.
    pub closed spec fn device(&self) -> Seq<char> {
        self.device_id@
    }

    /// The outbound queue is there exactly while the session is connected,
    /// and never holds more than its capacity.
    pub open spec fn wf(&self) -> bool {
        &&& self.has_channel() == (self.state() == ConnectionState::Connected)
        &&& self.pending().len() <= OUTBOUND_CAPACITY
    }

    /// Whether the session is well formed, for callers that cannot know
    /// it otherwise.
    pub fn is_well_formed(&self) -> (ok: bool)
        ensures
            ok == self.wf(),
    {
        match &self.sender {
            Some(queue) => self.state == ConnectionState::Connected && queue.len()
                <= OUTBOUND_CAPACITY,
            None => self.state != ConnectionState::Connected,
        }
    }

    /// A session that has never been connected.
    pub fn new() -> (m: Self)
        ensures
            m.wf(),
            m.state() == ConnectionState::Disconnected,
            m.pending().len() == 0,
    {
        WebSocketManager {
            state: ConnectionState::Disconnected,
            sender: None,
            device_id: String::new(),
        }
    }

    /// Whether the session is connected at this moment.
    pub fn is_connected(&self) -> (r: bool)
        ensures
            r == (self.state() == ConnectionState::Connected),
    {
        self.state == ConnectionState::Connected
    }

    /// How many frames wait for the wire.
    pub fn pending_len(&self) -> (n: usize)
        ensures
            n == self.pending().len(),
    {
        match &self.sender {
            Some(q) => q.len(),
            None => 0,
        }
    }

    /// Asks for a connection. On a session that is being made or stands
    /// already this does nothing and says so; it is no error. Otherwise
    /// the session starts connecting, remembers the device id, and hands
    /// out the request that the transport to `gateway` is to be opened
    /// with.
    pub fn connect(
        &mut self,
        gateway: &Gateway,
        identity: &str,
        client_version: &str,
        platform: Platform,
    ) -> (step: ConnectStep)
        requires
            old(self).wf(),
        ensures
            final(self).wf(),
            final(self).state() == next_state(old(self).state(), SessionOp::Connect),
            final(self).pending() == old(self).pending(),
            !opens_transport(old(self).state(), SessionOp::Connect) ==> step is AlreadyActive
                && final(self).device() == old(self).device(),
            opens_transport(old(self).state(), SessionOp::Connect) ==> final(self).device()
                == identity@ && (step matches ConnectStep::Establish(req) && is_upgrade_request(
                req,
                *gateway,
                identity@,
                client_version@,
                platform,
            )),
    {
        match self.state {
            ConnectionState::Disconnected => {
                self.state = ConnectionState::Connecting;
                self.device_id = identity.to_owned();
                ConnectStep::Establish(
                    transport_request(gateway, identity, client_version, platform),
                )
            },
            _ => ConnectStep::AlreadyActive,
        }
    }

    /// The transport stands. A session that was connecting becomes
    /// connected, gets an empty outbound queue, and the `connected` event
    /// is to be emitted. In any other state nothing changes and there is
    /// no event: the caller drops the transport it has made.
    pub fn transport_established(&mut self) -> (ev: Option<AppEvent>)
        requires
            old(self).wf(),
        ensures
            final(self).wf(),
            final(self).state() == next_state(old(self).state(), SessionOp::Established),
            final(self).device() == old(self).device(),
            old(self).state() == ConnectionState::Connecting ==> final(self).has_channel()
                && final(self).pending().len() == 0 && (ev matches Some(e) && is_flag_event(
                e,
                "connected"@,
            )),
            old(self).state() != ConnectionState::Connecting ==> ev is None
                && final(self).pending() == old(self).pending(),
    {
        match self.state {
            ConnectionState::Connecting => {
                self.state = ConnectionState::Connected;
                self.sender = Some(Vec::new());
                assert(self.pending() =~= Seq::<Seq<char>>::empty());
                Some(AppEvent { name: "connected".to_owned(), payload: EventPayload::Flag(true) })
            },
            _ => None,
        }
    }

    /// The transport could not be opened. A session that was connecting
    /// is disconnected again; nothing is retried. The result is the error
    /// to report to the caller of `connect`.
    pub fn transport_failed(&mut self, reason: &str) -> (error: String)
        requires
            old(self).wf(),
        ensures
            final(self).wf(),
            final(self).state() == next_state(old(self).state(), SessionOp::EstablishFailed),
            final(self).pending() == old(self).pending(),
            final(self).device() == old(self).device(),
            error@ == connect_error_text(reason@),
    {
        match self.state {
            ConnectionState::Connecting => {
                self.state = ConnectionState::Disconnected;
            },
            _ => {},
        }
        let mut error: String = "\u{8fde}\u{63a5}\u{5931}\u{8d25}: ".to_owned();
        error.append(reason);
        error
    }

    /// Tears the session down at once: the outbound queue goes, with
    /// whatever waited in it, and the session is disconnected.
    pub fn disconnect(&mut self)
        ensures
            final(self).wf(),
            final(self).state() == next_state(old(self).state(), SessionOp::Disconnect),
            !final(self).has_channel(),
            final(self).pending().len() == 0,
            final(self).device() == old(self).device(),
    {
        self.sender = None;
        self.state = ConnectionState::Disconnected;
    }

    /// Puts one frame at the back of the outbound queue. Without a session
    /// this fails; with a full queue it fails too, and the caller waits
    /// for room. Neither failure changes anything.
    pub fn enqueue_frame(&mut self, frame: String) -> (r: Result<(), SendError>)
        requires
            old(self).wf(),
        ensures
            final(self).wf(),
            final(self).state() == old(self).state(),
            final(self).device() == old(self).device(),
            !old(self).has_channel() ==> r == Err::<(), SendError>(SendError::NotConnected)
                && final(self).pending() == old(self).pending(),
            old(self).has_channel() && old(self).pending().len() >= OUTBOUND_CAPACITY ==> r
                == Err::<(), SendError>(SendError::QueueFull)
                && final(self).pending() == old(self).pending(),
            old(self).has_channel() && old(self).pending().len() < OUTBOUND_CAPACITY ==> r is Ok
                && final(self).pending() == queue_after_send(old(self).pending(), frame@),
    {
        match &mut self.sender {
            None => Err(SendError::NotConnected),
            Some(queue) => {
                if queue.len() >= OUTBOUND_CAPACITY {
                    Err(SendError::QueueFull)
                } else {
                    let ghost before = queue@;
                    queue.push(frame);
                    assert(views_of(before.push(frame)) =~= views_of(before).push(frame@));
                    Ok(())
                }
            },
        }
    }

    /// Sends one prompt: the request is stamped with the session's device
    /// id, written as one frame, and queued behind what waits already.
    /// Without a session this fails with `NotConnected`; with a session
    /// it fails with `Encode` where the request has no wire text, and else
    /// with `QueueFull` where the queue has no room. No failure changes
    /// anything.
    pub fn send_message(&mut self, conversation_id: &str, message: &str) -> (r: Result<
        (),
        SendError,
    >)
        requires
            old(self).wf(),
        ensures
            final(self).wf(),
            final(self).state() == old(self).state(),
            final(self).device() == old(self).device(),
            r is Err ==> final(self).pending() == old(self).pending(),
            old(self).state() != ConnectionState::Connected ==> r == Err::<(), SendError>(
                SendError::NotConnected,
            ),
            !old(self).has_channel() ==> r == Err::<(), SendError>(SendError::NotConnected),
            old(self).has_channel() && outbound_text(
                conversation_id@,
                old(self).device(),
                message@,
            ) is None ==> r matches Err(SendError::Encode(_)),
            old(self).has_channel() && outbound_text(
                conversation_id@,
                old(self).device(),
                message@,
            ) is Some && old(self).pending().len() >= OUTBOUND_CAPACITY ==> r == Err::<
                (),
                SendError,
            >(SendError::QueueFull),
            old(self).has_channel() && outbound_text(
                conversation_id@,
                old(self).device(),
                message@,
            ) is Some && old(self).pending().len() < OUTBOUND_CAPACITY ==> r is Ok
                && final(self).pending() == queue_after_send(
                old(self).pending(),
                outbound_text(conversation_id@, old(self).device(), message@)->0,
            ),
    {
        if self.sender.is_none() {
            return Err(SendError::NotConnected);
        }
        let req: DialogueRequest = DialogueRequest {
            request: message.to_owned(),
            conversation_id: conversation_id.to_owned(),
            device_id: self.device_id.clone(),
        };
        match req.encode() {
            Ok(frame) => self.enqueue_frame(frame),
            Err(text) => Err(SendError::Encode(text)),
        }
    }

    /// Takes the oldest waiting frame off the queue, for the wire. `None`
    /// where nothing waits.
    pub fn next_outbound(&mut self) -> (frame: Option<String>)
        requires
            old(self).wf(),
        ensures
            final(self).wf(),
            final(self).state() == old(self).state(),
            final(self).device() == old(self).device(),
            old(self).pending().len() == 0 ==> frame is None
                && final(self).pending() == old(self).pending(),
            old(self).pending().len() > 0 ==> (frame matches Some(f) && f@ == next_on_wire(
                old(self).pending(),
            )) && final(self).pending() == queue_after_write(old(self).pending()),
    {
        match &mut self.sender {
            None => None,
            Some(queue) => {
                if queue.len() == 0 {
                    None
                } else {
                    let ghost before = queue@;
                    let frame: String = queue.remove(0);
                    assert(views_of(before.remove(0)) =~= views_of(before).drop_first());
                    Some(frame)
                }
            },
        }
    }

    /// A write to the wire failed: the outbound flow is over. The session
    /// is disconnected and its queue goes; no event is emitted from here.
    pub fn outbound_failed(&mut self)
        ensures
            final(self).wf(),
            final(self).state() == next_state(old(self).state(), SessionOp::WriteFailed),
            !final(self).has_channel(),
            final(self).pending().len() == 0,
            final(self).device() == old(self).device(),
    {
        self.sender = None;
        self.state = ConnectionState::Disconnected;
    }

    /// One step of the inbound flow. An envelope becomes its event and the
    /// flow goes on. A malformed or ignored frame gives nothing and the
    /// flow goes on. A close ends the flow: the session is disconnected,
    /// its queue goes, and `disconnected` is emitted. A read error does
    /// the same, with `connection_error` and the error's text emitted
    /// first.
    pub fn on_inbound(&mut self, frame: InboundFrame) -> (step: InboundStep)
        requires
            old(self).wf(),
        ensures
            final(self).wf(),
            final(self).device() == old(self).device(),
            step.dropped == (frame is Malformed),
            frame matches InboundFrame::Envelope(msg) ==> !step.finished && step.events@.len() == 1
                && classified(msg, step.events@[0]),
            frame is Malformed || frame is Ignored ==> !step.finished && step.events@.len() == 0,
            frame is Closed ==> step.finished && step.events@.len() == 1 && is_flag_event(
                step.events@[0],
                "disconnected"@,
            ),
            frame matches InboundFrame::Failed(reason) ==> step.finished && step.events@.len() == 2
                && is_text_event(step.events@[0], "connection_error"@, reason@) && is_flag_event(
                step.events@[1],
                "disconnected"@,
            ),
            !step.finished ==> final(self).state() == old(self).state() && final(self).pending()
                == old(self).pending(),
            step.finished ==> final(self).state() == next_state(
                old(self).state(),
                SessionOp::InboundEnded,
            ) && !final(self).has_channel() && final(self).pending().len() == 0,
    {
        let mut events: Vec<AppEvent> = Vec::new();
        match frame {
            InboundFrame::Envelope(msg) => {
                events.push(classify(msg));
                InboundStep { events, finished: false, dropped: false }
            },
            InboundFrame::Malformed => InboundStep { events, finished: false, dropped: true },
            InboundFrame::Ignored => InboundStep { events, finished: false, dropped: false },
            InboundFrame::Closed => {
                self.state = ConnectionState::Disconnected;
                self.sender = None;
                events.push(
                    AppEvent { name: "disconnected".to_owned(), payload: EventPayload::Flag(true) },
                );
                InboundStep { events, finished: true, dropped: false }
            },
            InboundFrame::Failed(reason) => {
                self.state = ConnectionState::Disconnected;
                self.sender = None;
                events.push(
                    AppEvent {
                        name: "connection_error".to_owned(),
                        payload: EventPayload::Text(reason),
                    },
                );
                events.push(
                    AppEvent { name: "disconnected".to_owned(), payload: EventPayload::Flag(true) },
                );
                InboundStep { events, finished: true, dropped: false }
            },
        }
    }
}

/// The queue after one more frame was sent.
pub open spec fn queue_after_send(queue: Seq<Seq<char>>, frame: Seq<char>) -> Seq<Seq<char>> {
    queue.push(frame)
}

/// The frame that the outbound flow writes next.
pub open spec fn next_on_wire(queue: Seq<Seq<char>>) -> Seq<char>
    recommends
        queue.len() > 0,
{
    queue.first()
}

/// The queue after the outbound flow took a frame for the wire.
pub open spec fn queue_after_write(queue: Seq<Seq<char>>) -> Seq<Seq<char>>
    recommends
        queue.len() > 0,
{
    queue.drop_first()
}

/// The queue after `frames` were sent, one after another.
pub open spec fn queue_after_sends(queue: Seq<Seq<char>>, frames: Seq<Seq<char>>) -> Seq<
    Seq<char>,
>
    decreases frames.len(),
{
    if frames.len() == 0 {
        queue
    } else {
        queue_after_send(queue_after_sends(queue, frames.drop_last()), frames.last())
    }
}

/// What reaches the wire, in order, when the outbound flow drains `queue`.
pub open spec fn wire_trace(queue: Seq<Seq<char>>) -> Seq<Seq<char>>
    decreases queue.len(),
{
    if queue.len() == 0 {
        Seq::<Seq<char>>::empty()
    } else {
        seq![next_on_wire(queue)] + wire_trace(queue_after_write(queue))
    }
}

/// Draining a queue writes its frames from the oldest to the newest.
proof fn lemma_wire_trace_is_queue(queue: Seq<Seq<char>>)
    ensures
        wire_trace(queue) == queue,
    decreases queue.len(),
{
    if queue.len() > 0 {
        lemma_wire_trace_is_queue(queue.drop_first());
        assert(seq![queue.first()] + queue.drop_first() =~= queue);
    }
}

/// A run of sends puts the frames behind what waited, in call order.
proof fn lemma_sends_append(queue: Seq<Seq<char>>, frames: Seq<Seq<char>>)
    ensures
        queue_after_sends(queue, frames) == queue + frames,
    decreases frames.len(),
{
    if frames.len() == 0 {
        assert(queue + frames =~= queue);
    } else {
        lemma_sends_append(queue, frames.drop_last());
        assert((queue + frames.drop_last()).push(frames.last()) =~= queue + frames);
    }
}

/// Frames reach the wire in the order in which they were sent: after any
/// run of sends, draining the queue writes what waited before, then the
/// sent frames in call order, none merged, lost or moved.
pub proof fn lemma_sends_reach_wire_in_order(queue: Seq<Seq<char>>, frames: Seq<Seq<char>>)
    ensures
        wire_trace(queue_after_sends(queue, frames)) == wire_trace(queue) + frames,
        wire_trace(queue_after_sends(Seq::<Seq<char>>::empty(), frames)) == frames,
{
    lemma_sends_append(queue, frames);
    lemma_sends_append(Seq::<Seq<char>>::empty(), frames);
    lemma_wire_trace_is_queue(queue + frames);
    lemma_wire_trace_is_queue(queue);
    lemma_wire_trace_is_queue(Seq::<Seq<char>>::empty() + frames);
    assert(Seq::<Seq<char>>::empty() + frames =~= frames);
}

/// A session becomes connected by one step only: the transport standing
/// while the session was connecting. After a teardown, a failed write or
/// the end of the inbound flow it is disconnected, whatever it was.
pub proof fn lemma_connected_only_when_established(s: ConnectionState, op: SessionOp)
    ensures
        next_state(s, op) == ConnectionState::Connected && s != ConnectionState::Connected ==> op
            == SessionOp::Established && s == ConnectionState::Connecting,
        op == SessionOp::Disconnect || op == SessionOp::WriteFailed || op
            == SessionOp::InboundEnded ==> next_state(s, op) == ConnectionState::Disconnected,
        next_state(s, op) == ConnectionState::Disconnected && s != ConnectionState::Disconnected
            ==> op != SessionOp::Connect && op != SessionOp::Established && op
            != SessionOp::Traffic,
{
}

/// A second `connect` while the first is still under way, or after it
/// succeeded, opens no second transport and leaves the session where the
/// first put it.
pub proof fn lemma_second_connect_is_idle(s: ConnectionState)
    ensures
        !opens_transport(next_state(s, SessionOp::Connect), SessionOp::Connect),
        next_state(next_state(s, SessionOp::Connect), SessionOp::Connect) == next_state(
            s,
            SessionOp::Connect,
        ),
        !opens_transport(
            next_state(next_state(s, SessionOp::Connect), SessionOp::Established),
            SessionOp::Connect,
        ),
{
}

} // verus!
