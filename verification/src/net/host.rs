//! The machine that shows its screen.
//!
//! It waits for calls, serves one viewer at a time, and waits again. The screen is recorded only
//! while somebody watches.

use vstd::prelude::*;
use vstd::string::StringExecFns;

use crate::input::InputError;
use crate::net::link::{Incoming, Outgoing, Wire};
use crate::net::{Context, NetConfig, NetEvent, PeerId, PipelineInfo};
use crate::protocol::control::{
    ChatMessage, ClipboardText, Codec, FileChunkAck, FileOffer, HostEvent, InputEvent, MonitorInfo,
    QualityRequest, Real32, ViewerCommand, ONE_BITS,
};
use crate::protocol::PROTOCOL_VERSION;
use crate::session::rate::{LinkSample, Rate, RateController};
use crate::session::transfer::IdSpace;
use crate::text::push_decimal;

verus! {

/// How long a viewer may take to greet, in seconds.
pub const HANDSHAKE_TIMEOUT_SECS: u64 = 10;

/// How often the registration is kept alive, in seconds.
pub const SIGNAL_PING_SECS: u64 = 10;

/// How long to wait before the rendezvous server is tried again, in seconds.
pub const SIGNAL_RETRY_SECS: u64 = 3;

/// How long a refusal may take to leave before the connection is closed, in milliseconds.
pub const REFUSAL_DELAY_MS: u64 = 200;

/// Coded frames between the encoder and the sender: one on its way and the next.
pub const ENCODED_QUEUE: usize = 2;

/// So many failures in a row, and the chain of recording and encoding is dead.
pub const MAX_ENCODE_ERRORS: u32 = 30;

/// So many times a dead chain is made again.
pub const MAX_REBUILDS: u32 = 5;

/// After so long without a new picture the old one is sent again, in milliseconds.
pub const REPEAT_MS: u64 = 200;

/// How often the link is looked at, in milliseconds.
pub const SAMPLE_MS: u64 = 1_000;

/// So many failed events are reported in the log.
pub const REPORTED_INPUT_ERRORS: u32 = 3;

pub struct HostWire;

impl Wire for HostWire {
    type Out = HostEvent;

    type In = ViewerCommand;

    open spec fn message(meaning: Outgoing) -> Option<HostEvent> {
        match meaning {
            Outgoing::Chat(message) => Some(HostEvent::Chat(message)),
            Outgoing::Clipboard(text) => Some(HostEvent::Clipboard(ClipboardText { text })),
            Outgoing::Offer(offer) => Some(HostEvent::FileOffer(offer)),
            Outgoing::Accept(transfer_id) => Some(HostEvent::FileAccept { transfer_id }),
            Outgoing::Reject(transfer_id) => Some(HostEvent::FileReject { transfer_id }),
            Outgoing::Ack(ack) => Some(HostEvent::FileChunkAck(ack)),
            Outgoing::Pong(sent_us, host_us) => Some(HostEvent::Pong { sent_us, host_us }),
            _ => None,
        }
    }

    open spec fn meaning(message: ViewerCommand) -> Incoming {
        match message {
            ViewerCommand::Chat(message) => Incoming::Chat(message),
            ViewerCommand::Clipboard(data) => Incoming::Clipboard(data.text),
            ViewerCommand::FileOffer(offer) => Incoming::Offer(offer),
            ViewerCommand::FileAccept { transfer_id } => Incoming::Accept(transfer_id),
            ViewerCommand::FileReject { transfer_id } => Incoming::Reject(transfer_id),
            ViewerCommand::FileChunkAck(ack) => Incoming::Ack(ack),
            ViewerCommand::Input(event) => Incoming::Input(event),
            ViewerCommand::RequestKeyframe { .. } => Incoming::Keyframe,
            ViewerCommand::SetQuality(request) => Incoming::Quality(request),
            ViewerCommand::Ping { sent_us } => Incoming::Ping { sent_us },
            ViewerCommand::Disconnect => Incoming::Disconnect,
            ViewerCommand::Hello { .. }
            | ViewerCommand::SelectMonitor { .. }
            | ViewerCommand::Feedback { .. } => Incoming::Ignored,
        }
    }

    open spec fn half() -> IdSpace {
        IdSpace::Host
    }

    fn space() -> (r: IdSpace) {
        IdSpace::Host
    }

    fn chat(message: ChatMessage) -> (r: HostEvent) {
        HostEvent::Chat(message)
    }

    fn clipboard(text: String) -> (r: HostEvent) {
        HostEvent::Clipboard(ClipboardText { text })
    }

    fn offer(offer: FileOffer) -> (r: HostEvent) {
        HostEvent::FileOffer(offer)
    }

    fn accept(transfer_id: u64) -> (r: HostEvent) {
        HostEvent::FileAccept { transfer_id }
    }

    fn reject(transfer_id: u64) -> (r: HostEvent) {
        HostEvent::FileReject { transfer_id }
    }

    fn ack(ack: FileChunkAck) -> (r: HostEvent) {
        HostEvent::FileChunkAck(ack)
    }

    fn input(_event: InputEvent) -> (r: Option<HostEvent>) {
        None
    }

    fn keyframe() -> (r: Option<HostEvent>) {
        None
    }

    fn quality(_request: QualityRequest) -> (r: Option<HostEvent>) {
        None
    }

    fn ping(_sent_us: u64) -> (r: Option<HostEvent>) {
        None
    }

    fn pong(sent_us: u64, host_us: u64) -> (r: Option<HostEvent>) {
        Some(HostEvent::Pong { sent_us, host_us })
    }

    fn classify(message: ViewerCommand) -> (r: Incoming) {
        match message {
            ViewerCommand::Chat(message) => Incoming::Chat(message),
            ViewerCommand::Clipboard(data) => Incoming::Clipboard(data.text),
            ViewerCommand::FileOffer(offer) => Incoming::Offer(offer),
            ViewerCommand::FileAccept { transfer_id } => Incoming::Accept(transfer_id),
            ViewerCommand::FileReject { transfer_id } => Incoming::Reject(transfer_id),
            ViewerCommand::FileChunkAck(ack) => Incoming::Ack(ack),
            ViewerCommand::Input(event) => Incoming::Input(event),
            ViewerCommand::RequestKeyframe { .. } => Incoming::Keyframe,
            ViewerCommand::SetQuality(request) => Incoming::Quality(request),
            ViewerCommand::Ping { sent_us } => Incoming::Ping { sent_us },
            ViewerCommand::Disconnect => Incoming::Disconnect,
            ViewerCommand::Hello { .. }
            | ViewerCommand::SelectMonitor { .. }
            | ViewerCommand::Feedback { .. } => Incoming::Ignored,
        }
    }
}

/// What a viewer said of itself.
#[derive(Debug)]
pub struct Greeting {
    pub viewer_name: String,
    pub wants_10bit: bool,
    pub codecs: Vec<Codec>,
}

fn same_digest(a: &[u8; 32], b: &[u8; 32]) -> (r: bool)
    ensures
        r == (a@ == b@),
{
    let mut i: usize = 0;
    while i < 32
        invariant
            i <= 32,
            forall|j: int| 0 <= j < i ==> a@[j] == b@[j],
        decreases 32 - i,
    {
        if a[i] != b[i] {
            assert(a@[i as int] != b@[i as int]);
            return false;
        }
        i += 1;
    }
    assert(a@ =~= b@);
    true
}

/// Why a greeting is refused, in words; `None` where it is not.
pub open spec fn refusal(password: Seq<char>, hello: ViewerCommand) -> Option<Seq<char>> {
    match hello {
        ViewerCommand::Hello { version, auth, .. } => if version != PROTOCOL_VERSION {
            Some(
                "phiên bản giao thức lệch: viewer "@ + crate::text::decimal(version as nat)
                    + ", host "@ + crate::text::decimal(PROTOCOL_VERSION as nat),
            )
        } else if auth@ != crate::net::blake3_of(vstd::utf8::encode_utf8(password)) {
            Some("sai mật khẩu phiên"@)
        } else {
            None
        },
        _ => Some("viewer gửi sai thứ tự, mong đợi Hello"@),
    }
}

/// Checks a viewer's greeting against the session's password, whose digest is `auth`.
pub fn check_greeting(auth: &[u8; 32], hello: ViewerCommand) -> (r: Result<Greeting, String>)
    ensures
        match hello {
            ViewerCommand::Hello { version, viewer_name, auth: theirs, wants_10bit, codecs } =>
            match r {
                Ok(greeting) => version == PROTOCOL_VERSION && theirs@ == auth@ && greeting == (
                Greeting { viewer_name, wants_10bit, codecs }),
                Err(reason) => if version != PROTOCOL_VERSION {
                    reason@ == "phiên bản giao thức lệch: viewer "@ + crate::text::decimal(
                        version as nat,
                    ) + ", host "@ + crate::text::decimal(PROTOCOL_VERSION as nat)
                } else {
                    theirs@ != auth@ && reason@ == "sai mật khẩu phiên"@
                },
            },
            _ => r matches Err(reason) && reason@ == "viewer gửi sai thứ tự, mong đợi Hello"@,
        },
{
    match hello {
        ViewerCommand::Hello { version, viewer_name, auth: theirs, wants_10bit, codecs } => {
            if version != PROTOCOL_VERSION {
                let mut s: String = "phiên bản giao thức lệch: viewer ".to_owned();
                push_decimal(&mut s, version as u64);
                s.append(", host ");
                push_decimal(&mut s, PROTOCOL_VERSION as u64);
                return Err(s);
            }
            if !same_digest(&theirs, auth) {
                return Err("sai mật khẩu phiên".to_owned());
            }
            Ok(Greeting { viewer_name, wants_10bit, codecs })
        },
        _ => Err("viewer gửi sai thứ tự, mong đợi Hello".to_owned()),
    }
}

/// Checks a viewer's greeting.
pub fn check_hello(ctx: &Context, hello: ViewerCommand) -> (r: Result<Greeting, String>)
    ensures
        match refusal(ctx.config.password@, hello) {
            Some(words) => r matches Err(reason) && reason@ == words,
            None => r matches Ok(greeting) && hello == (ViewerCommand::Hello {
                version: PROTOCOL_VERSION,
                viewer_name: greeting.viewer_name,
                auth: hello->auth,
                wants_10bit: greeting.wants_10bit,
                codecs: greeting.codecs,
            }),
        },
{
    let auth = ctx.auth();
    check_greeting(&auth, hello)
}

/// A host that refuses says why before it closes: a wrong password must not look like a broken
/// link.
pub fn refuse(reason: &str) -> (r: HostEvent)
    ensures
        match r {
            HostEvent::Error { message } => message@ == reason@,
            _ => false,
        },
{
    HostEvent::Error { message: reason.to_owned() }
}

/// 10-bit colour only where both ends can.
pub fn allow_10bit(ctx: &Context, greeting: &Greeting) -> (r: bool)
    ensures
        r == (ctx.config.allow_10bit && greeting.wants_10bit),
{
    ctx.config.allow_10bit && greeting.wants_10bit
}

fn has_codec(list: &[Codec], codec: Codec) -> (r: bool)
    ensures
        r == list@.contains(codec),
{
    let mut i: usize = 0;
    while i < list.len()
        invariant
            i <= list@.len(),
            forall|j: int| 0 <= j < i ==> list@[j] != codec,
        decreases list@.len() - i,
    {
        if list[i] == codec {
            assert(list@[i as int] == codec);
            return true;
        }
        i += 1;
    }
    false
}

/// The codec that the two machines agree on: the first of those that the viewer can decode, in its
/// order, that this machine can encode.
pub fn choose_codec(encodable: &[Codec], wanted: &[Codec]) -> (r: Option<Codec>)
    ensures
        match r {
            Some(codec) => encodable@.contains(codec) && exists|i: int|
                0 <= i < wanted@.len() && wanted@[i] == codec && forall|j: int|
                    0 <= j < i ==> !encodable@.contains(#[trigger] wanted@[j]),
            None => forall|i: int|
                0 <= i < wanted@.len() ==> !encodable@.contains(#[trigger] wanted@[i]),
        },
{
    let mut i: usize = 0;
    while i < wanted.len()
        invariant
            i <= wanted@.len(),
            forall|j: int| 0 <= j < i ==> !encodable@.contains(#[trigger] wanted@[j]),
        decreases wanted@.len() - i,
    {
        let codec: Codec = wanted[i];
        if has_codec(encodable, codec) {
            assert(wanted@[i as int] == codec);
            return Some(codec);
        }
        i += 1;
    }
    None
}

/// The answer to a greeting: who we are and what the screen is, then what the video really is. A
/// codec that the viewer cannot decode is never announced to it: nothing comes back then.
pub fn welcome(config: &NetConfig, greeting: &Greeting, info: &PipelineInfo) -> (r: Option<
    (HostEvent, HostEvent),
>)
    ensures
        r is Some == greeting.codecs@.contains(info.codec),
        r matches Some(answer) ==> welcomes(answer, *config, *info),
{
    if !has_codec(greeting.codecs.as_slice(), info.codec) {
        return None;
    }
    let mut monitors: Vec<MonitorInfo> = Vec::new();
    monitors.push(
        MonitorInfo {
            id: 0,
            name: info.source.as_str().to_owned(),
            width: info.width,
            height: info.height,
            scale: Real32 { bits: ONE_BITS },
            refresh_hz: info.target_fps,
            is_primary: true,
        },
    );
    Some(
        (
            HostEvent::Welcome {
                version: PROTOCOL_VERSION,
                host_name: config.name.as_str().to_owned(),
                monitors,
                active_monitor: 0,
            },
            HostEvent::QualityChanged(
                QualityRequest {
                    codec: info.codec,
                    chroma: info.chroma,
                    target_bitrate_kbps: config.bitrate_kbps,
                    target_fps: info.target_fps,
                    max_dimension: None,
                },
            ),
        ),
    )
}

/// An answer says who the host is, what its screen is, and what the video is.
pub open spec fn welcomes(
    r: (HostEvent, HostEvent),
    config: NetConfig,
    info: PipelineInfo,
) -> bool {
    &&& match r.0 {
        HostEvent::Welcome { version, host_name, monitors, active_monitor } => version
            == PROTOCOL_VERSION && host_name@ == config.name@ && active_monitor == 0
            && monitors@.len() == 1 && monitors@[0].name@ == info.source@ && monitors@[0] == (
        MonitorInfo {
            id: 0,
            name: monitors@[0].name,
            width: info.width,
            height: info.height,
            scale: Real32 { bits: ONE_BITS },
            refresh_hz: info.target_fps,
            is_primary: true,
        }),
        _ => false,
    }
    &&& r.1 == HostEvent::QualityChanged(
        QualityRequest {
            codec: info.codec,
            chroma: info.chroma,
            target_bitrate_kbps: config.bitrate_kbps,
            target_fps: info.target_fps,
            max_dimension: None,
        },
    )
}

/// What happens with a viewer, step by step.
#[derive(Debug)]
pub enum Stage {
    /// Nothing came in time.
    Silent,
    /// The channel broke.
    Broken(String),
    Hello(ViewerCommand),
}

/// What comes of the first message.
#[derive(Debug)]
pub enum Served {
    /// Over, without a word to the viewer.
    Dropped(String),
    /// Told why, then closed.
    Refused { reply: HostEvent, reason: String },
    Accepted { greeting: Greeting, allow_10bit: bool },
}

/// The beginning of a session with a viewer.
pub fn serve(ctx: &Context, stage: Stage) -> (r: Served)
    ensures
        match stage {
            Stage::Silent => match r {
                Served::Dropped(reason) => reason@ == "viewer không chào trong 10s"@,
                _ => false,
            },
            Stage::Broken(cause) => r == Served::Dropped(cause),
            Stage::Hello(hello) => match refusal(ctx.config.password@, hello) {
                Some(words) => match r {
                    Served::Refused { reply: HostEvent::Error { message }, reason } => message@
                        == words && reason@ == words,
                    _ => false,
                },
                None => match r {
                    Served::Accepted { greeting, allow_10bit } => hello == (ViewerCommand::Hello {
                        version: PROTOCOL_VERSION,
                        viewer_name: greeting.viewer_name,
                        auth: hello->auth,
                        wants_10bit: greeting.wants_10bit,
                        codecs: greeting.codecs,
                    }) && allow_10bit == (ctx.config.allow_10bit && greeting.wants_10bit),
                    _ => false,
                },
            },
        },
{
    match stage {
        Stage::Silent => Served::Dropped("viewer không chào trong 10s".to_owned()),
        Stage::Broken(cause) => Served::Dropped(cause),
        Stage::Hello(hello) => match check_hello(ctx, hello) {
            Ok(greeting) => {
                let both: bool = allow_10bit(ctx, &greeting);
                Served::Accepted { greeting, allow_10bit: both }
            },
            Err(reason) => {
                let reply = refuse(reason.as_str());
                Served::Refused { reply, reason }
            },
        },
    }
}

/// A viewer is let in exactly where its greeting has the right version and the right password.
pub proof fn only_the_password_opens(password: Seq<char>, hello: ViewerCommand)
    ensures
        refusal(password, hello) is None <==> (hello matches ViewerCommand::Hello {
            version,
            auth,
            ..
        } && version == PROTOCOL_VERSION && auth@ == crate::net::blake3_of(
            vstd::utf8::encode_utf8(password),
        )),
{
}

/// The status while nobody watches.
pub fn waiting(local: &str, fingerprint: &str) -> (s: String)
    ensures
        s@ == "đang chờ ở "@ + local@ + " — vân tay "@ + fingerprint@,
{
    let mut s: String = "đang chờ ở ".to_owned();
    s.append(local);
    s.append(" — vân tay ");
    s.append(fingerprint);
    s
}

/// The status when a viewer connects.
pub fn joined(peer: &str, relayed: bool) -> (s: String)
    ensures
        s@ == "viewer "@ + peer@ + " đã nối"@ + (if relayed {
            " (qua relay)"@
        } else {
            ""@
        }),
{
    let mut s: String = "viewer ".to_owned();
    s.append(peer);
    s.append(" đã nối");
    if relayed {
        s.append(" (qua relay)");
    } else {
        s.append("");
    }
    s
}

/// The status when a session is over, and whether the host goes on waiting.
pub fn left(error: Option<String>, stopping: bool) -> (r: (Vec<NetEvent>, bool))
    ensures
        r.0@.len() == 2,
        match r.0@[0] {
            NetEvent::Status(text) => text@ == (match error {
                None => "viewer đã ngắt, quay lại chờ"@,
                Some(e) => "phiên kết thúc: "@ + e@,
            }),
            _ => false,
        },
        r.0@[1] == NetEvent::PeerLeft,
        r.1 == !stopping,
{
    let text: String = match error {
        None => "viewer đã ngắt, quay lại chờ".to_owned(),
        Some(e) => {
            let mut s: String = "phiên kết thúc: ".to_owned();
            s.append(e.as_str());
            s
        },
    };
    let mut events: Vec<NetEvent> = Vec::new();
    events.push(NetEvent::Status(text));
    events.push(NetEvent::PeerLeft);
    (events, !stopping)
}

/// How a viewer that calls through the rendezvous server is answered: what the user reads, and
/// whether the link is relayed.
pub fn answer(via_relay: bool) -> (r: (NetEvent, bool))
    ensures
        match r.0 {
            NetEvent::Status(text) => text@ == (if via_relay {
                "đục lỗ không được, hẹn gặp ở relay"@
            } else {
                "viewer đang gọi, thử đục lỗ NAT"@
            }),
            _ => false,
        },
        r.1 == via_relay,
{
    if via_relay {
        (NetEvent::Status("đục lỗ không được, hẹn gặp ở relay".to_owned()), true)
    } else {
        (NetEvent::Status("viewer đang gọi, thử đục lỗ NAT".to_owned()), false)
    }
}

/// A viewer that called could not be reached; the host goes on waiting.
pub fn unanswered(cause: &str) -> (r: NetEvent)
    ensures
        match r {
            NetEvent::Status(text) => text@ == "không nối được với viewer: "@ + cause@,
            _ => false,
        },
{
    let mut s: String = "không nối được với viewer: ".to_owned();
    s.append(cause);
    NetEvent::Status(s)
}

/// What happens on the way to and from the rendezvous server.
#[derive(Debug)]
pub enum SignalEvent {
    Registered(PeerId),
    RegisterFailed(String),
    /// A viewer called; whether somebody took the call.
    Called { taken: bool },
    Lost(String),
    /// Nobody called for a while.
    Quiet,
    Pinged,
    PingFailed(String),
    /// A pause is due; whether the program is ending.
    Paused { stopping: bool },
}

#[derive(Debug, Clone, Copy, PartialEq, Eq, Structural)]
pub enum SignalNext {
    /// Wait for a call.
    Listen,
    Ping,
    /// Pause, where the program is not ending.
    Pause,
    /// Sleep, then register again.
    Retry,
    End,
}

/// Status lines that name a cause.
fn because(words: &str, cause: &str) -> (r: Vec<NetEvent>)
    ensures
        r@.len() == 1,
        match r@[0] {
            NetEvent::Status(text) => text@ == words@ + cause@,
            _ => false,
        },
{
    let mut s: String = words.to_owned();
    s.append(cause);
    let mut events: Vec<NetEvent> = Vec::new();
    events.push(NetEvent::Status(s));
    events
}

pub open spec fn says(events: Seq<NetEvent>, words: Seq<char>) -> bool {
    events.len() == 1 && match events[0] {
        NetEvent::Status(text) => text@ == words,
        _ => false,
    }
}

/// Keeps the registration with the rendezvous server: what the user is told, and what to do next.
pub fn signal_loop(event: SignalEvent) -> (r: (Vec<NetEvent>, SignalNext))
    requires
        event matches SignalEvent::Registered(id) ==> id.wf(),
    ensures
        match event {
            SignalEvent::Registered(id) => r.1 is Listen && r.0@.len() == 2 && r.0@[0]
                == NetEvent::Code(id) && match r.0@[1] {
                NetEvent::Status(text) => text@ == "mã của máy này: "@ + id.grouped(),
                _ => false,
            },
            SignalEvent::RegisterFailed(cause) => r.1 is Pause && says(
                r.0@,
                "không đăng ký được với rendezvous: "@ + cause@,
            ),
            SignalEvent::Called { taken } => r.0@.len() == 0 && r.1 == (if taken {
                SignalNext::Listen
            } else {
                SignalNext::End
            }),
            SignalEvent::Lost(cause) => r.1 is Pause && says(
                r.0@,
                "mất kết nối tới rendezvous: "@ + cause@,
            ),
            SignalEvent::Quiet => r.0@.len() == 0 && r.1 is Ping,
            SignalEvent::Pinged => r.0@.len() == 0 && r.1 is Listen,
            SignalEvent::PingFailed(cause) => r.1 is Pause && says(
                r.0@,
                "rendezvous không đáp: "@ + cause@,
            ),
            SignalEvent::Paused { stopping } => r.0@.len() == 0 && r.1 == (if stopping {
                SignalNext::End
            } else {
                SignalNext::Retry
            }),
        },
{
    match event {
        SignalEvent::Registered(id) => {
            let mut s: String = "mã của máy này: ".to_owned();
            s.append(crate::net::pretty(id).as_str());
            let mut events: Vec<NetEvent> = Vec::new();
            events.push(NetEvent::Code(id));
            events.push(NetEvent::Status(s));
            (events, SignalNext::Listen)
        },
        SignalEvent::RegisterFailed(cause) => (
            because("không đăng ký được với rendezvous: ", cause.as_str()),
            SignalNext::Pause,
        ),
        SignalEvent::Called { taken } => (
            Vec::new(),
            if taken {
                SignalNext::Listen
            } else {
                SignalNext::End
            },
        ),
        SignalEvent::Lost(cause) => (
            because("mất kết nối tới rendezvous: ", cause.as_str()),
            SignalNext::Pause,
        ),
        SignalEvent::Quiet => (Vec::new(), SignalNext::Ping),
        SignalEvent::Pinged => (Vec::new(), SignalNext::Listen),
        SignalEvent::PingFailed(cause) => (
            because("rendezvous không đáp: ", cause.as_str()),
            SignalNext::Pause,
        ),
        SignalEvent::Paused { stopping } => (
            Vec::new(),
            if stopping {
                SignalNext::End
            } else {
                SignalNext::Retry
            },
        ),
    }
}

/// What became of a frame in the queue to the sender.
#[derive(Debug, Clone, Copy, PartialEq, Eq, Structural)]
pub enum Queued {
    Sent,
    /// No room: the frame is dropped, for waiting would make the next one old.
    Full,
    Closed,
}

/// What one round of recording and encoding came to.
#[derive(Debug)]
pub enum Round {
    Frame(Queued),
    Nothing,
    Failed(String),
    /// The chain was to be made again, and could not be.
    Dead(String),
}

impl Round {
    /// What went wrong, where something did.
    pub open spec fn cause(self) -> Option<Seq<char>> {
        match self {
            Round::Failed(cause) => Some(cause@),
            Round::Dead(cause) => Some(cause@),
            _ => None,
        }
    }
}

/// What follows a round.
#[derive(Debug, Clone, Copy, PartialEq, Eq, Structural)]
pub enum AfterRound {
    GoOn,
    /// The chain of recording and encoding is dead and has to be made again.
    Rebuild,
    Stop,
}

/// How the chain of recording and encoding is.
#[derive(Debug, Clone, Copy, PartialEq, Eq, Structural)]
pub struct Health {
    /// Failures in a row.
    pub failures: u32,
    /// How many times the chain was made again.
    pub rebuilds: u32,
}

impl Health {
    pub open spec fn wf(self) -> bool {
        self.failures < MAX_ENCODE_ERRORS && self.rebuilds <= MAX_REBUILDS
    }

    /// A dead chain is made again, but not for ever.
    pub open spec fn died(self) -> (Health, AfterRound) {
        if self.rebuilds < MAX_REBUILDS {
            (Health { failures: 0, rebuilds: (self.rebuilds + 1) as u32 }, AfterRound::Rebuild)
        } else {
            (Health { failures: 0, ..self }, AfterRound::Stop)
        }
    }

    pub open spec fn after(self, round: Round) -> (Health, AfterRound) {
        match round {
            Round::Frame(Queued::Closed) => (Health { failures: 0, ..self }, AfterRound::Stop),
            Round::Frame(_) => (Health { failures: 0, ..self }, AfterRound::GoOn),
            Round::Nothing => (self, AfterRound::GoOn),
            Round::Failed(_) => if self.failures + 1 < MAX_ENCODE_ERRORS {
                (Health { failures: (self.failures + 1) as u32, ..self }, AfterRound::GoOn)
            } else {
                self.died()
            },
            Round::Dead(_) => self.died(),
        }
    }

    /// How many of the rounds ask for the chain to be made again.
    pub open spec fn rebuilt(self, rounds: Seq<Round>) -> nat
        decreases rounds.len(),
    {
        if rounds.len() == 0 {
            0
        } else {
            let (next, what) = self.after(rounds[0]);
            next.rebuilt(rounds.drop_first()) + if what is Rebuild {
                1nat
            } else {
                0
            }
        }
    }
}

/// However long a session lasts, the chain is made again five times at most.
pub proof fn rebuilding_ends(health: Health, rounds: Seq<Round>)
    requires
        health.wf(),
    ensures
        health.rebuilds + health.rebuilt(rounds) <= MAX_REBUILDS,
    decreases rounds.len(),
{
    if rounds.len() > 0 {
        rebuilding_ends(health.after(rounds[0]).0, rounds.drop_first());
    }
}

/// A rate after what was wished for and measured, and the new one where it changed. The user's
/// number is a ceiling, 0 where there is no new one; how much of it is used, the link decides.
pub open spec fn paced(rate: Rate, ceiling_kbps: u32, sample: Option<LinkSample>) -> (
    Rate,
    Option<u32>,
) {
    let (capped, lowered) = if ceiling_kbps > 0 {
        rate.capped(ceiling_kbps)
    } else {
        (rate, None)
    };
    match sample {
        Some(sample) => {
            let (after, told) = capped.updated(sample);
            (
                after,
                if told is Some {
                    told
                } else {
                    lowered
                },
            )
        },
        None => (capped, lowered),
    }
}

/// The loop that records and encodes.
pub struct EncodeLoop {
    chain: Health,
    controller: RateController,
}

impl EncodeLoop {
    pub closed spec fn health(&self) -> Health {
        self.chain
    }

    pub closed spec fn rate(&self) -> Rate {
        self.controller@
    }

    pub open spec fn wf(&self) -> bool {
        self.health().wf() && self.rate().wf()
    }

    pub fn new(ceiling_kbps: u32) -> (r: Self)
        ensures
            r.wf(),
            r.health() == (Health { failures: 0, rebuilds: 0 }),
            r.rate() == Rate::new(ceiling_kbps),
    {
        EncodeLoop {
            chain: Health { failures: 0, rebuilds: 0 },
            controller: RateController::new(ceiling_kbps),
        }
    }

    /// The rate to encode at.
    pub fn kbps(&self) -> (r: u32)
        ensures
            r == self.rate().current,
    {
        self.controller.current()
    }

    /// What to ask the encoder before a round: a keyframe where one was wished for, and a new rate
    /// where it changed, by a new ceiling or by what the link is like.
    pub fn wishes(
        &mut self,
        keyframe: bool,
        ceiling_kbps: u32,
        sample: Option<LinkSample>,
    ) -> (r: (bool, Option<u32>))
        requires
            old(self).wf(),
        ensures
            final(self).wf(),
            final(self).health() == old(self).health(),
            r.0 == keyframe,
            (final(self).rate(), r.1) == paced(old(self).rate(), ceiling_kbps, sample),
            r.1 matches Some(kbps) ==> kbps == final(self).rate().current && kbps
                <= final(self).rate().ceiling,
    {
        let mut kbps: Option<u32> = None;
        if ceiling_kbps > 0 {
            kbps = self.controller.set_ceiling(ceiling_kbps);
        }
        if let Some(sample) = sample {
            let told: Option<u32> = self.controller.update(sample);
            if told.is_some() {
                kbps = told;
            }
        }
        (keyframe, kbps)
    }

    /// What follows a round, and what the user is told.
    pub fn after(&mut self, round: Round) -> (r: (AfterRound, Option<NetEvent>))
        requires
            old(self).wf(),
        ensures
            final(self).wf(),
            final(self).rate() == old(self).rate(),
            (final(self).health(), r.0) == old(self).health().after(round),
            match r.1 {
                Some(NetEvent::Status(text)) => r.0 is Stop && round.cause() is Some && text@
                    == "dừng chụp màn hình: "@ + round.cause()->0,
                None => !(r.0 is Stop && round.cause() is Some),
                _ => false,
            },
    {
        let cause: String = match round {
            Round::Frame(queued) => {
                self.chain.failures = 0;
                if queued == Queued::Closed {
                    return (AfterRound::Stop, None);
                }
                return (AfterRound::GoOn, None);
            },
            Round::Nothing => {
                return (AfterRound::GoOn, None);
            },
            Round::Failed(cause) => {
                if self.chain.failures + 1 < MAX_ENCODE_ERRORS {
                    self.chain.failures = self.chain.failures + 1;
                    return (AfterRound::GoOn, None);
                }
                cause
            },
            Round::Dead(cause) => cause,
        };
        self.chain.failures = 0;
        if self.chain.rebuilds < MAX_REBUILDS {
            self.chain.rebuilds = self.chain.rebuilds + 1;
            return (AfterRound::Rebuild, None);
        }
        let mut s: String = "dừng chụp màn hình: ".to_owned();
        s.append(cause.as_str());
        (AfterRound::Stop, Some(NetEvent::Status(s)))
    }
}

/// Whether the old picture is encoded once more. A screen that stands still gives no new one, and
/// the other end would wait for ever; the same picture again takes a few hundred bytes.
/// `fed_ms_ago` is when the encoder was last given a picture, where it ever was.
pub fn repeats(fed_ms_ago: Option<u64>) -> (r: bool)
    ensures
        r == (fed_ms_ago matches Some(ms) && ms >= REPEAT_MS),
{
    match fed_ms_ago {
        Some(ms) => ms >= REPEAT_MS,
        None => false,
    }
}

/// The size that positions are scaled to: the screen's own, not the frame's, which differs by the
/// scale of a Retina screen. Only where it cannot be read the frame's is taken.
pub fn host_geometry(read: Result<(i64, i64), InputError>, width: u32, height: u32) -> (r: (i64, i64))
    ensures
        r == (match read {
            Ok(size) => size,
            Err(_) => (width as i64, height as i64),
        }),
{
    match read {
        Ok(size) => size,
        Err(_) => (width as i64, height as i64),
    }
}

/// The channel for input could not be opened; the session goes on without.
pub fn no_input(error: &InputError) -> (r: NetEvent)
    ensures
        match r {
            NetEvent::Status(text) => text@ == "không bơm được input: "@ + error.text(),
            _ => false,
        },
{
    let mut s: String = "không bơm được input: ".to_owned();
    s.append(error.message().as_str());
    NetEvent::Status(s)
}

/// Counts failed input events; whether this one is reported. The session goes on either way.
pub fn note_input_error(errors: u32) -> (r: (u32, bool))
    requires
        errors < u32::MAX,
    ensures
        r.0 == errors + 1,
        r.1 == (errors < REPORTED_INPUT_ERRORS),
{
    (errors + 1, errors < REPORTED_INPUT_ERRORS)
}

/// What a greeting is refused for: that it is none, that its version is not 1, or, only then, that
/// its password is wrong.
pub proof fn refusals_name_their_reason(password: Seq<char>, hello: ViewerCommand)
    ensures
        !(hello is Hello) ==> refusal(password, hello)
            == Some("viewer gửi sai thứ tự, mong đợi Hello"@),
        hello matches ViewerCommand::Hello { version, auth, .. } ==> {
            &&& version != 1 ==> refusal(password, hello) == Some(
                "phiên bản giao thức lệch: viewer "@ + crate::text::decimal(version as nat)
                    + ", host 1"@,
            )
            &&& version == 1 && auth@ != crate::net::blake3_of(vstd::utf8::encode_utf8(password))
                ==> refusal(password, hello) == Some("sai mật khẩu phiên"@)
            &&& version == 1 && auth@ == crate::net::blake3_of(vstd::utf8::encode_utf8(password))
                ==> refusal(password, hello) is None
        },
{
    reveal_strlit(", host ");
    reveal_strlit(", host 1");
    assert(crate::text::decimal(1) =~= seq!['1']);
    if let ViewerCommand::Hello { version, .. } = hello {
        let head = "phiên bản giao thức lệch: viewer "@ + crate::text::decimal(version as nat);
        assert(head + ", host "@ + crate::text::decimal(1) =~= head + ", host 1"@);
    }
}

/// A welcome says the host's name and its one screen, of the size and rate of the video, and what
/// the video is.
pub proof fn welcomes_say_what_is_shown(
    r: (HostEvent, HostEvent),
    config: NetConfig,
    info: PipelineInfo,
)
    requires
        welcomes(r, config, info),
    ensures
        r.0 matches HostEvent::Welcome { version, host_name, monitors, active_monitor } && {
            &&& version == 1
            &&& host_name@ == config.name@
            &&& active_monitor == 0
            &&& monitors@.len() == 1
            &&& monitors@[0].id == 0
            &&& monitors@[0].name@ == info.source@
            &&& monitors@[0].width == info.width
            &&& monitors@[0].height == info.height
            &&& monitors@[0].scale.bits == 0x3f80_0000
            &&& monitors@[0].refresh_hz == info.target_fps
            &&& monitors@[0].is_primary
        },
        r.1 matches HostEvent::QualityChanged(quality) && {
            &&& quality.codec == info.codec
            &&& quality.chroma == info.chroma
            &&& quality.target_bitrate_kbps == config.bitrate_kbps
            &&& quality.target_fps == info.target_fps
            &&& quality.max_dimension is None
        },
{
}

/// A frame that went through wipes the failures away. Thirty failures in a row are the chain's end,
/// and so is its death at once; it is made again up to five times, and then it is over. Where
/// nobody takes the frames any more it is over too.
pub proof fn thirty_failures_end_a_chain(health: Health, round: Round)
    requires
        health.failures < 30,
        health.rebuilds <= 5,
    ensures
        ({
            let (next, what) = health.after(round);
            let ends = round is Dead || (round is Failed && health.failures == 29);
            &&& round is Nothing ==> what is GoOn && next == health
            &&& round matches Round::Frame(taken) ==> next.failures == 0 && (what is Stop
                <==> taken is Closed) && (what is GoOn <==> !(taken is Closed))
            &&& round is Failed && health.failures < 29 ==> what is GoOn && next.failures
                == health.failures + 1
            &&& ends ==> next.failures == 0
            &&& ends && health.rebuilds < 5 ==> what is Rebuild && next.rebuilds == health.rebuilds
                + 1
            &&& ends && health.rebuilds == 5 ==> what is Stop
            &&& !(what is Rebuild) ==> next.rebuilds == health.rebuilds
            &&& next.failures < 30
            &&& next.rebuilds <= 5
        }),
{
}

/// The state after so many failures in a row.
pub open spec fn after_failures(health: Health, n: nat, cause: String) -> Health
    decreases n,
{
    if n == 0 {
        health
    } else {
        after_failures(health, (n - 1) as nat, cause).after(Round::Failed(cause)).0
    }
}

/// After a frame, 29 failures in a row are borne, and the thirtieth makes the chain again.
pub proof fn twenty_nine_failures_are_borne(health: Health, n: nat, cause: String)
    requires
        health.failures == 0,
        health.rebuilds < 5,
        n < 30,
    ensures
        after_failures(health, n, cause).failures == n,
        after_failures(health, n, cause).rebuilds == health.rebuilds,
        n < 29 ==> after_failures(health, n, cause).after(Round::Failed(cause)).1 is GoOn,
        n == 29 ==> after_failures(health, n, cause).after(Round::Failed(cause)).1 is Rebuild,
    decreases n,
{
    if n > 0 {
        twenty_nine_failures_are_borne(health, (n - 1) as nat, cause);
    }
}

/// The user's number is a ceiling, whatever the link is like; 0 is no new one. What the encoder is
/// told is the rate that results, and it is told whenever that is another one.
pub proof fn the_user_sets_a_ceiling(rate: Rate, ceiling_kbps: u32, sample: Option<LinkSample>)
    requires
        rate.wf(),
    ensures
        ({
            let (after, told) = paced(rate, ceiling_kbps, sample);
            &&& ceiling_kbps >= 600 ==> after.ceiling == ceiling_kbps
            &&& 0 < ceiling_kbps < 600 ==> after.ceiling == 600
            &&& ceiling_kbps == 0 ==> after.ceiling == rate.ceiling
            &&& 600 <= after.current <= after.ceiling
            &&& told matches Some(kbps) ==> kbps == after.current
            &&& told is None ==> after.current == rate.current
            &&& sample is None ==> after.last == rate.last && after.rtt_min == rate.rtt_min
            &&& sample matches Some(s) ==> after.last == Some(s)
            &&& sample is None && rate.current <= after.ceiling ==> told is None
            &&& ceiling_kbps == 0 && sample is Some ==> (after, told) == rate.updated(sample->0)
        }),
{
}

/// A viewer is served as its greeting deserves: let in with the right version and password, told
/// why not in the words that end the session, or dropped where it did not greet.
pub proof fn viewers_are_served_by_their_greeting(ctx: &Context, stage: Stage, r: Served)
    requires
        call_ensures(serve, (ctx, stage), r),
    ensures
        ({
            let right = match stage {
                Stage::Hello(ViewerCommand::Hello { version, auth, .. }) => version == 1 && auth@
                    == crate::net::blake3_of(vstd::utf8::encode_utf8(ctx.config.password@)),
                _ => false,
            };
            &&& r is Accepted <==> right
            &&& r is Refused <==> stage is Hello && !right
            &&& r is Dropped <==> !(stage is Hello)
            &&& r matches Served::Refused { reply, reason } ==> (reply matches HostEvent::Error {
                message,
            } && message@ == reason@)
            &&& r matches Served::Accepted { greeting, allow_10bit } ==> (
            stage matches Stage::Hello(ViewerCommand::Hello {
                viewer_name,
                wants_10bit,
                codecs,
                ..
            }) && greeting.viewer_name == viewer_name && greeting.wants_10bit == wants_10bit
                && greeting.codecs == codecs && (allow_10bit <==> ctx.config.allow_10bit
                && wants_10bit))
            &&& stage matches Stage::Broken(cause) ==> r == Served::Dropped(cause)
        }),
{
    if let Stage::Hello(hello) = stage {
        refusals_name_their_reason(ctx.config.password@, hello);
    }
}

/// The codec is the first that the viewer wants and the host has; a host with none of them has no
/// answer.
pub proof fn the_viewer_chooses_the_codec(encodable: &[Codec], wanted: &[Codec], r: Option<Codec>)
    requires
        call_ensures(choose_codec, (encodable, wanted), r),
    ensures
        r is None <==> forall|i: int|
            0 <= i < wanted@.len() ==> !encodable@.contains(#[trigger] wanted@[i]),
        r matches Some(codec) ==> encodable@.contains(codec) && wanted@.contains(codec),
        wanted@.len() > 0 && encodable@.contains(wanted@[0]) ==> r == Some(wanted@[0]),
        wanted@.len() == 2 && !encodable@.contains(wanted@[0]) && encodable@.contains(wanted@[1])
            ==> r == Some(wanted@[1]),
{
    if let Some(codec) = r {
        let i = choose|i: int|
            0 <= i < wanted@.len() && wanted@[i] == codec && forall|j: int|
                0 <= j < i ==> !encodable@.contains(#[trigger] wanted@[j]);
        assert(wanted@[i] == codec);
        if wanted@.len() > 0 && encodable@.contains(wanted@[0]) && i > 0 {
            assert(!encodable@.contains(wanted@[0]));
        }
    } else {
        if wanted@.len() > 0 {
            assert(!encodable@.contains(wanted@[0]));
        }
        if wanted@.len() == 2 {
            assert(!encodable@.contains(wanted@[1]));
        }
    }
}

/// A viewer is welcomed where it can decode the video, and only there.
pub proof fn only_who_can_decode_is_welcomed(
    config: &NetConfig,
    greeting: &Greeting,
    info: &PipelineInfo,
    r: Option<(HostEvent, HostEvent)>,
)
    requires
        call_ensures(welcome, (config, greeting, info), r),
    ensures
        r is Some <==> greeting.codecs@.contains(info.codec),
        r matches Some(answer) ==> (answer.0 matches HostEvent::Welcome { host_name, monitors, .. }
            && host_name@ == config.name@ && monitors@.len() == 1 && monitors@[0].width
            == info.width && monitors@[0].height == info.height) && (
        answer.1 matches HostEvent::QualityChanged(quality) && quality.codec == info.codec
            && quality.target_bitrate_kbps == config.bitrate_kbps),
{
}

/// The code that the server gave is told and listened on. A lost or silent server is tried again
/// after a pause, unless the program ends; a call that nobody takes ends it.
pub proof fn the_server_is_tried_again(event: SignalEvent, r: (Vec<NetEvent>, SignalNext))
    requires
        event matches SignalEvent::Registered(id) ==> id.wf(),
        call_ensures(signal_loop, (event,), r),
    ensures
        event matches SignalEvent::Registered(id) ==> r.1 is Listen && r.0@.len() == 2 && r.0@[0]
            == NetEvent::Code(id),
        r.1 is Pause <==> event is RegisterFailed || event is Lost || event is PingFailed,
        r.1 is Pause ==> r.0@.len() == 1 && (r.0@[0] is Status),
        r.1 is Ping <==> event is Quiet,
        r.1 is Retry <==> (event matches SignalEvent::Paused { stopping } && !stopping),
        r.1 is End <==> (event matches SignalEvent::Paused { stopping } && stopping) || (
        event matches SignalEvent::Called { taken } && !taken),
        !(event is Registered) && !(r.1 is Pause) ==> r.0@.len() == 0,
{
}

/// What follows a round, in the loop: a frame is good news, thirty failures in a row make the chain
/// again, five times at most, and then it stops and says why.
pub proof fn the_loop_stops_with_a_reason(
    chain: &mut EncodeLoop,
    round: Round,
    r: (AfterRound, Option<NetEvent>),
)
    requires
        old(chain).wf(),
        call_ensures(EncodeLoop::after, (chain, round), r),
    ensures
        ({
            let health = old(chain).health();
            let ends = round is Dead || (round is Failed && health.failures == 29);
            &&& r.0 is Rebuild <==> ends && health.rebuilds < 5
            &&& r.0 is Stop <==> (ends && health.rebuilds == 5) || (
            round matches Round::Frame(taken) && taken is Closed)
            &&& ends && health.rebuilds == 5 ==> (r.1 matches Some(NetEvent::Status(_)))
            &&& r.0 is GoOn || r.0 is Rebuild ==> r.1 is None
            &&& round is Failed && !ends ==> final(chain).health().failures == health.failures + 1
            &&& round is Frame ==> final(chain).health().failures == 0
            &&& r.0 is Rebuild ==> final(chain).health().rebuilds == health.rebuilds + 1
            &&& !(r.0 is Rebuild) ==> final(chain).health().rebuilds == health.rebuilds
        }),
        final(chain).rate() == old(chain).rate(),
{
    thirty_failures_end_a_chain(old(chain).health(), round);
}

/// A wish for a keyframe is handed on as it is, and a ceiling holds from the moment it is wished
/// for.
pub proof fn wishes_are_heard(
    chain: &mut EncodeLoop,
    keyframe: bool,
    ceiling_kbps: u32,
    sample: Option<LinkSample>,
    r: (bool, Option<u32>),
)
    requires
        old(chain).wf(),
        call_ensures(EncodeLoop::wishes, (chain, keyframe, ceiling_kbps, sample), r),
    ensures
        r.0 == keyframe,
        ceiling_kbps >= 600 ==> final(chain).rate().ceiling == ceiling_kbps,
        0 < ceiling_kbps < 600 ==> final(chain).rate().ceiling == 600,
        ceiling_kbps == 0 ==> final(chain).rate().ceiling == old(chain).rate().ceiling,
        final(chain).rate().current <= final(chain).rate().ceiling,
        r.1 matches Some(kbps) ==> kbps == final(chain).rate().current,
        r.1 is None ==> final(chain).rate().current == old(chain).rate().current,
        final(chain).health() == old(chain).health(),
{
    the_user_sets_a_ceiling(old(chain).rate(), ceiling_kbps, sample);
}

/// A frame is repeated where none has gone in for 200 milliseconds; the first three failures of
/// input are reported; and a viewer that left makes room for the next, unless the program ends.
pub proof fn small_rules_of_a_host(
    fed_ms_ago: Option<u64>,
    again: bool,
    errors: u32,
    noted: (u32, bool),
    error: Option<String>,
    stopping: bool,
    gone: (Vec<NetEvent>, bool),
)
    requires
        call_ensures(repeats, (fed_ms_ago,), again),
        errors < u32::MAX,
        call_ensures(note_input_error, (errors,), noted),
        call_ensures(left, (error, stopping), gone),
    ensures
        again <==> (fed_ms_ago matches Some(ms) && ms >= 200),
        noted.0 == errors + 1,
        noted.1 <==> errors == 0 || errors == 1 || errors == 2,
        gone.1 == !stopping,
        gone.0@.len() == 2 && gone.0@[1] == NetEvent::PeerLeft,
{
}

/// A greeting is taken where it is one, has our version and our password; what it wishes is handed
/// on as it is.
pub proof fn good_greetings_are_taken(
    auth: &[u8; 32],
    hello: ViewerCommand,
    r: Result<Greeting, String>,
)
    requires
        call_ensures(check_greeting, (auth, hello), r),
    ensures
        r is Ok ==> hello is Hello,
        hello matches ViewerCommand::Hello {
            version,
            viewer_name,
            auth: theirs,
            wants_10bit,
            codecs,
        } ==> {
            &&& r is Ok <==> version == 1 && theirs@ == auth@
            &&& r matches Ok(g) ==> g.viewer_name == viewer_name && g.wants_10bit == wants_10bit
                && g.codecs == codecs
        },
{
}

/// Deep colours need both ends; what cannot be read falls back to the picture's own size; every
/// trouble is told with its cause.
pub proof fn troubles_are_told_with_their_cause(
    ctx: &Context,
    greeting: &Greeting,
    deep: bool,
    read: Result<(i64, i64), InputError>,
    width: u32,
    height: u32,
    size: (i64, i64),
    error: &InputError,
    input: NetEvent,
    cause: &str,
    unreached: NetEvent,
    reason: &str,
    refused: HostEvent,
)
    requires
        call_ensures(allow_10bit, (ctx, greeting), deep),
        call_ensures(host_geometry, (read, width, height), size),
        call_ensures(no_input, (error,), input),
        call_ensures(unanswered, (cause,), unreached),
        call_ensures(refuse, (reason,), refused),
    ensures
        deep <==> ctx.config.allow_10bit && greeting.wants_10bit,
        read matches Ok(s) ==> size == s,
        read is Err ==> size.0 == width && size.1 == height,
        input matches NetEvent::Status(text) && crate::text::says(text@, error.text()),
        unreached matches NetEvent::Status(text) && crate::text::says(text@, cause@),
        refused matches HostEvent::Error { message } && message@ == reason@,
{
    let none = Seq::<char>::empty();
    crate::text::parts_are_said("không bơm được input: "@, error.text(), none, none, none);
    crate::text::parts_are_said("không nối được với viewer: "@, cause@, none, none, none);
}

/// A caller is answered by the way it asks for, and a loop begins with no failure and the careful
/// rate of its ceiling.
pub proof fn loops_begin_afresh(
    via_relay: bool,
    reply: (NetEvent, bool),
    ceiling_kbps: u32,
    fresh: EncodeLoop,
    kbps: u32,
)
    requires
        call_ensures(answer, (via_relay,), reply),
        call_ensures(EncodeLoop::new, (ceiling_kbps,), fresh),
        call_ensures(EncodeLoop::kbps, (&fresh,), kbps),
    ensures
        reply.1 == via_relay,
        reply.0 is Status,
        fresh.health().failures == 0 && fresh.health().rebuilds == 0,
        kbps == fresh.rate().current,
        fresh.rate() == Rate::new(ceiling_kbps),
{
}

} // verus!
