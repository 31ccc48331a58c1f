//! The machine that watches.
//!
//! A stream opens lazily: the host sees nothing of it before the first byte. So the greeting goes
//! out at once; to wait for a welcome first would make both sides wait for ever.

use vstd::prelude::*;
use vstd::string::StringExecFns;

use crate::net::host::Queued;
use crate::net::link::{Incoming, Outgoing, Wire};
use crate::net::{Context, NetEvent, PeerAddress, PipelineInfo};
use crate::protocol::control::{
    ChatMessage, ClipboardText, Codec, FileChunkAck, FileOffer, HostEvent, InputEvent, MonitorInfo,
    QualityRequest, ViewerCommand,
};
use crate::protocol::PROTOCOL_VERSION;
use crate::session::transfer::IdSpace;
use crate::text::push_decimal;

verus! {

/// How long the host may take to answer, in seconds.
pub const HANDSHAKE_TIMEOUT_SECS: u64 = 15;

/// Frames before the decoder: one in it and one that waits.
pub const DECODE_QUEUE: usize = 2;

/// Frames that may be put together at a time.
pub const PENDING_FRAMES: usize = 4;

/// So many failures in a row end the decoding.
pub const MAX_DECODE_ERRORS: u32 = 60;

pub struct ViewerWire;

impl Wire for ViewerWire {
    type Out = ViewerCommand;

    type In = HostEvent;

    open spec fn message(meaning: Outgoing) -> Option<ViewerCommand> {
        match meaning {
            Outgoing::Chat(message) => Some(ViewerCommand::Chat(message)),
            Outgoing::Clipboard(text) => Some(ViewerCommand::Clipboard(ClipboardText { text })),
            Outgoing::Offer(offer) => Some(ViewerCommand::FileOffer(offer)),
            Outgoing::Accept(transfer_id) => Some(ViewerCommand::FileAccept { transfer_id }),
            Outgoing::Reject(transfer_id) => Some(ViewerCommand::FileReject { transfer_id }),
            Outgoing::Ack(ack) => Some(ViewerCommand::FileChunkAck(ack)),
            Outgoing::Input(event) => Some(ViewerCommand::Input(event)),
            Outgoing::Keyframe => Some(ViewerCommand::RequestKeyframe { monitor: 0 }),
            Outgoing::Quality(request) => Some(ViewerCommand::SetQuality(request)),
            Outgoing::Ping(sent_us) => Some(ViewerCommand::Ping { sent_us }),
            Outgoing::Pong(_, _) => None,
        }
    }

    open spec fn meaning(message: HostEvent) -> Incoming {
        match message {
            HostEvent::Chat(message) => Incoming::Chat(message),
            HostEvent::Clipboard(data) => Incoming::Clipboard(data.text),
            HostEvent::FileOffer(offer) => Incoming::Offer(offer),
            HostEvent::FileAccept { transfer_id } => Incoming::Accept(transfer_id),
            HostEvent::FileReject { transfer_id } => Incoming::Reject(transfer_id),
            HostEvent::FileChunkAck(ack) => Incoming::Ack(ack),
            HostEvent::Pong { sent_us, host_us } => Incoming::Pong { sent_us, host_us },
            HostEvent::Error { message } => Incoming::Error(message),
            HostEvent::Welcome { .. }
            | HostEvent::MonitorsChanged { .. }
            | HostEvent::QualityChanged(_) => Incoming::Ignored,
        }
    }

    open spec fn half() -> IdSpace {
        IdSpace::Viewer
    }

    fn space() -> (r: IdSpace) {
        IdSpace::Viewer
    }

    fn chat(message: ChatMessage) -> (r: ViewerCommand) {
        ViewerCommand::Chat(message)
    }

    fn clipboard(text: String) -> (r: ViewerCommand) {
        ViewerCommand::Clipboard(ClipboardText { text })
    }

    fn offer(offer: FileOffer) -> (r: ViewerCommand) {
        ViewerCommand::FileOffer(offer)
    }

    fn accept(transfer_id: u64) -> (r: ViewerCommand) {
        ViewerCommand::FileAccept { transfer_id }
    }

    fn reject(transfer_id: u64) -> (r: ViewerCommand) {
        ViewerCommand::FileReject { transfer_id }
    }

    fn ack(ack: FileChunkAck) -> (r: ViewerCommand) {
        ViewerCommand::FileChunkAck(ack)
    }

    fn input(event: InputEvent) -> (r: Option<ViewerCommand>) {
        Some(ViewerCommand::Input(event))
    }

    fn keyframe() -> (r: Option<ViewerCommand>) {
        Some(ViewerCommand::RequestKeyframe { monitor: 0 })
    }

    fn quality(request: QualityRequest) -> (r: Option<ViewerCommand>) {
        Some(ViewerCommand::SetQuality(request))
    }

    fn ping(sent_us: u64) -> (r: Option<ViewerCommand>) {
        Some(ViewerCommand::Ping { sent_us })
    }

    fn pong(_sent_us: u64, _host_us: u64) -> (r: Option<ViewerCommand>) {
        None
    }

    fn classify(message: HostEvent) -> (r: Incoming) {
        match message {
            HostEvent::Chat(message) => Incoming::Chat(message),
            HostEvent::Clipboard(data) => Incoming::Clipboard(data.text),
            HostEvent::FileOffer(offer) => Incoming::Offer(offer),
            HostEvent::FileAccept { transfer_id } => Incoming::Accept(transfer_id),
            HostEvent::FileReject { transfer_id } => Incoming::Reject(transfer_id),
            HostEvent::FileChunkAck(ack) => Incoming::Ack(ack),
            HostEvent::Pong { sent_us, host_us } => Incoming::Pong { sent_us, host_us },
            HostEvent::Error { message } => Incoming::Error(message),
            HostEvent::Welcome { .. }
            | HostEvent::MonitorsChanged { .. }
            | HostEvent::QualityChanged(_) => Incoming::Ignored,
        }
    }
}

/// Where to connect to.
pub fn destination(ctx: &Context) -> (r: Result<PeerAddress, String>)
    ensures
        match ctx.config.peer {
            Some(peer) => r == Ok::<PeerAddress, String>(peer),
            None => r matches Err(e) && e@ == "chưa cho biết nối tới đâu"@,
        },
{
    match ctx.config.peer {
        Some(peer) => Ok(peer),
        None => Err("chưa cho biết nối tới đâu".to_owned()),
    }
}

/// What the user is told once the host has welcomed us.
pub fn connected(peer: String, name: String, relayed: bool, info: PipelineInfo) -> (r: Vec<NetEvent>)
    ensures
        r@ == seq![NetEvent::Connected { peer, name, relayed }, NetEvent::Info(info)],
{
    let mut r: Vec<NetEvent> = Vec::new();
    r.push(NetEvent::Connected { peer, name, relayed });
    r.push(NetEvent::Info(info));
    r
}

/// What a viewer says first. `codecs` are those that it can decode: one too many and the session
/// ends as soon as it begins.
pub fn hello(ctx: &Context, codecs: Vec<Codec>) -> (r: ViewerCommand)
    ensures
        match r {
            ViewerCommand::Hello { version, viewer_name, auth, wants_10bit, codecs: listed } =>
            version == PROTOCOL_VERSION && viewer_name@ == ctx.config.name@ && auth@
                == crate::net::blake3_of(vstd::utf8::encode_utf8(ctx.config.password@))
                && wants_10bit == ctx.config.allow_10bit && listed == codecs,
            _ => false,
        },
{
    ViewerCommand::Hello {
        version: PROTOCOL_VERSION,
        viewer_name: ctx.config.name.as_str().to_owned(),
        auth: ctx.auth(),
        wants_10bit: ctx.config.allow_10bit,
        codecs,
    }
}

/// A viewer with the host's password is let in, with whatever name, codecs and colour.
pub proof fn the_password_opens(password: Seq<char>, hello: ViewerCommand)
    requires
        hello matches ViewerCommand::Hello { version, auth, .. } && version == PROTOCOL_VERSION
            && auth@ == crate::net::blake3_of(vstd::utf8::encode_utf8(password)),
    ensures
        crate::net::host::refusal(password, hello) is None,
{
}

/// Which of the monitors is watched: the active one, else the first.
pub open spec fn watched(monitors: Seq<MonitorInfo>, active: u8) -> Option<int> {
    if exists|i: int| 0 <= i < monitors.len() && #[trigger] monitors[i].id == active {
        Some(first_with(monitors, active, 0))
    } else if monitors.len() > 0 {
        Some(0)
    } else {
        None
    }
}

/// The first place from `from` on with the id.
pub open spec fn first_with(monitors: Seq<MonitorInfo>, id: u8, from: int) -> int
    decreases monitors.len() - from,
{
    if from >= monitors.len() || monitors[from].id == id {
        from
    } else {
        first_with(monitors, id, from + 1)
    }
}

fn find_watched(monitors: &Vec<MonitorInfo>, active: u8) -> (r: Option<usize>)
    ensures
        match r {
            Some(i) => i < monitors@.len() && watched(monitors@, active) == Some(i as int),
            None => watched(monitors@, active) is None,
        },
{
    let mut i: usize = 0;
    while i < monitors.len()
        invariant
            i <= monitors@.len(),
            forall|j: int| 0 <= j < i ==> #[trigger] monitors@[j].id != active,
            first_with(monitors@, active, 0) == first_with(monitors@, active, i as int),
        decreases monitors@.len() - i,
    {
        if monitors[i].id == active {
            assert(monitors@[i as int].id == active);
            return Some(i);
        }
        i += 1;
    }
    if monitors.len() > 0 {
        Some(0)
    } else {
        None
    }
}

/// The handshake as the viewer sees it: a welcome with the size of the screen, then what codec and
/// colour the encoder really came to. A decoder needs both.
pub struct Handshake {
    host_name: Option<String>,
    size: Option<(String, u32, u32)>,
    fps: u32,
}

impl Handshake {
    pub closed spec fn host(&self) -> Option<String> {
        self.host_name
    }

    pub closed spec fn screen(&self) -> Option<(String, u32, u32)> {
        self.size
    }

    pub closed spec fn rate(&self) -> u32 {
        self.fps
    }

    pub fn new() -> (r: Self)
        ensures
            r.host() is None,
            r.screen() is None,
            r.rate() == 60,
    {
        Handshake { host_name: None, size: None, fps: 60 }
    }

    /// Takes a message; the host's name and the video once both are known. Other messages are
    /// passed over.
    pub fn step(&mut self, message: HostEvent) -> (r: Result<
        Option<(String, PipelineInfo)>,
        String,
    >)
        ensures
            message !is Welcome || r is Err ==> *final(self) == *old(self),
            match message {
                HostEvent::Welcome { version, host_name, monitors, active_monitor } => if version
                    != PROTOCOL_VERSION {
                    r matches Err(reason) && reason@ == "phiên bản giao thức lệch: host "@
                        + crate::text::decimal(version as nat) + ", viewer "@
                        + crate::text::decimal(PROTOCOL_VERSION as nat)
                } else {
                    match watched(monitors@, active_monitor) {
                        None => r matches Err(reason) && reason@ == "host không khai màn hình nào"@,
                        Some(i) => r matches Ok(None) && final(self).host() == Some(host_name)
                            && final(self).rate() == (if monitors@[i].refresh_hz < 1 {
                            1
                        } else {
                            monitors@[i].refresh_hz
                        }) && match final(self).screen() {
                            Some((name, width, height)) => name@ == monitors@[i].name@ && width
                                == monitors@[i].width && height == monitors@[i].height,
                            None => false,
                        },
                    }
                },
                HostEvent::QualityChanged(quality) => match old(self).screen() {
                    None => r matches Err(reason) && reason@
                        == "host gửi QualityChanged trước Welcome"@,
                    Some((source, width, height)) => match r {
                        Ok(Some((name, info))) => name@ == (match old(self).host() {
                            Some(n) => n@,
                            None => ""@,
                        }) && info.source@ == source@ && info == (PipelineInfo {
                            source: info.source,
                            width,
                            height,
                            codec: quality.codec,
                            chroma: quality.chroma,
                            hardware: true,
                            target_fps: old(self).rate(),
                        }),
                        _ => false,
                    },
                },
                HostEvent::Error { message } => r == Err::<
                    Option<(String, PipelineInfo)>,
                    String,
                >(message),
                _ => r matches Ok(None),
            },
    {
        match message {
            HostEvent::Welcome { version, host_name, monitors, active_monitor } => {
                if version != PROTOCOL_VERSION {
                    let mut s: String = "phiên bản giao thức lệch: host ".to_owned();
                    push_decimal(&mut s, version as u64);
                    s.append(", viewer ");
                    push_decimal(&mut s, PROTOCOL_VERSION as u64);
                    return Err(s);
                }
                match find_watched(&monitors, active_monitor) {
                    None => {
                        return Err("host không khai màn hình nào".to_owned());
                    },
                    Some(i) => {
                        let monitor = &monitors[i];
                        self.size = Some(
                            (monitor.name.as_str().to_owned(), monitor.width, monitor.height),
                        );
                        self.fps = if monitor.refresh_hz < 1 { 1 } else { monitor.refresh_hz };
                    },
                }
                self.host_name = Some(host_name);
                Ok(None)
            },
            HostEvent::QualityChanged(quality) => match &self.size {
                None => Err("host gửi QualityChanged trước Welcome".to_owned()),
                Some((source, width, height)) => {
                    let name: String = match &self.host_name {
                        Some(n) => n.as_str().to_owned(),
                        None => "".to_owned(),
                    };
                    Ok(
                        Some(
                            (
                                name,
                                PipelineInfo {
                                    source: source.as_str().to_owned(),
                                    width: *width,
                                    height: *height,
                                    codec: quality.codec,
                                    chroma: quality.chroma,
                                    hardware: true,
                                    target_fps: self.fps,
                                },
                            ),
                        ),
                    )
                },
            },
            HostEvent::Error { message } => Err(message),
            _ => Ok(None),
        }
    }
}

/// What a viewer is told when the host does not answer.
pub fn no_answer() -> (s: String)
    ensures
        s@ == "host không trả lời trong 15s"@,
{
    "host không trả lời trong 15s".to_owned()
}

/// What is known on the way to the host.
#[derive(Debug)]
pub enum Search {
    /// The address is known.
    Direct { address: String },
    /// Only the code is known; whether there is a server to ask.
    ByCode { server: bool },
    /// The server named some addresses.
    Candidates,
    /// A hole through the routers was made, or not.
    Punched,
    TimedOut,
    Failed(String),
    /// The relay connected.
    Relayed,
}

/// What to do on the way to the host.
#[derive(Debug)]
pub enum Route {
    Connect,
    AskServer,
    Punch,
    /// Slower, but it works with every router.
    AskRelay,
    /// The session stands; whether it goes through a relay.
    Connected { relayed: bool },
    Fail(String),
}

/// One step towards the host: what the user is told, and what to do.
pub fn connect_via_rendezvous(search: Search) -> (r: (Option<NetEvent>, Route))
    ensures
        match search {
            Search::Direct { address } => r.1 is Connect && match r.0 {
                Some(NetEvent::Status(text)) => text@ == "đang nối tới "@ + address@,
                _ => false,
            },
            Search::ByCode { server } => if server {
                r.1 is AskServer && match r.0 {
                    Some(NetEvent::Status(text)) => text@ == "đang hỏi rendezvous server"@,
                    _ => false,
                }
            } else {
                r.0 is None && match r.1 {
                    Route::Fail(reason) => reason@
                        == "cần địa chỉ rendezvous server mới dùng được mã"@,
                    _ => false,
                }
            },
            Search::Candidates => r.1 is Punch && match r.0 {
                Some(NetEvent::Status(text)) => text@ == "đang đục lỗ NAT"@,
                _ => false,
            },
            Search::Punched => r.0 is None && r.1 == (Route::Connected { relayed: false }),
            Search::TimedOut => r.1 is AskRelay && match r.0 {
                Some(NetEvent::Status(text)) => text@ == "không đục được, chuyển sang relay"@,
                _ => false,
            },
            Search::Failed(cause) => r.0 is None && r.1 == Route::Fail(cause),
            Search::Relayed => r.0 is None && r.1 == (Route::Connected { relayed: true }),
        },
{
    match search {
        Search::Direct { address } => {
            let mut s: String = "đang nối tới ".to_owned();
            s.append(address.as_str());
            (Some(NetEvent::Status(s)), Route::Connect)
        },
        Search::ByCode { server } => if server {
            (
                Some(NetEvent::Status("đang hỏi rendezvous server".to_owned())),
                Route::AskServer,
            )
        } else {
            (None, Route::Fail("cần địa chỉ rendezvous server mới dùng được mã".to_owned()))
        },
        Search::Candidates => (
            Some(NetEvent::Status("đang đục lỗ NAT".to_owned())),
            Route::Punch,
        ),
        Search::Punched => (None, Route::Connected { relayed: false }),
        Search::TimedOut => (
            Some(NetEvent::Status("không đục được, chuyển sang relay".to_owned())),
            Route::AskRelay,
        ),
        Search::Failed(cause) => (None, Route::Fail(cause)),
        Search::Relayed => (None, Route::Connected { relayed: true }),
    }
}

/// Watches for gaps in the frames that reach the decoder. A gap breaks the chain of frames,
/// whether packets got lost or a frame was dropped here.
pub struct VideoGate {
    last_id: Option<u32>,
}

impl VideoGate {
    pub closed spec fn last(&self) -> Option<u32> {
        self.last_id
    }

    /// A frame does not follow the last one; numbers wrap around.
    pub open spec fn gap(&self, frame_id: u32) -> bool {
        self.last() matches Some(last) && frame_id != (last + 1) % 0x1_0000_0000
    }

    pub fn new() -> (r: Self)
        ensures
            r.last() is None,
    {
        VideoGate { last_id: None }
    }

    /// Notes a frame; whether a keyframe is to be asked for. One that is a keyframe mends the
    /// chain by itself.
    pub fn arrived(
        &mut self,
        ctx: &mut Context,
        frame_id: u32,
        keyframe: bool,
        queued: Queued,
        now_us: u64,
    ) -> (r: Result<bool, String>)
        ensures
            final(ctx).config == old(ctx).config,
            match queued {
                Queued::Sent => {
                    let wanted = old(self).gap(frame_id) && !keyframe;
                    let due = now_us - old(ctx).last_keyframe_us
                        >= crate::net::KEYFRAME_COOLDOWN_US;
                    &&& final(self).last() == Some(frame_id)
                    &&& r == Ok::<bool, String>(wanted && due)
                    &&& final(ctx).last_keyframe_us == (if wanted && due {
                        now_us
                    } else {
                        old(ctx).last_keyframe_us
                    })
                },
                Queued::Full => final(self).last() == old(self).last() && r == Ok::<bool, String>(
                    false,
                ) && final(ctx).last_keyframe_us == old(ctx).last_keyframe_us,
                Queued::Closed => final(self).last() == old(self).last() && final(
                    ctx).last_keyframe_us == old(ctx).last_keyframe_us && match r {
                    Err(reason) => reason@ == "luồng giải mã đã dừng"@,
                    Ok(_) => false,
                },
            },
    {
        match queued {
            Queued::Sent => {
                let gap: bool = match self.last_id {
                    Some(last) => frame_id != last.wrapping_add(1),
                    None => false,
                };
                self.last_id = Some(frame_id);
                if gap && !keyframe {
                    Ok(ctx.ask_keyframe(now_us))
                } else {
                    Ok(false)
                }
            },
            Queued::Full => Ok(false),
            Queued::Closed => Err("luồng giải mã đã dừng".to_owned()),
        }
    }
}

/// What decoding a frame came to.
#[derive(Debug)]
pub enum Decoded {
    Picture,
    /// No picture; whether the decoder refused the data.
    Nothing { refused: bool },
    Failed(String),
}

/// What to do about it.
#[derive(Debug)]
pub enum AfterDecode {
    Show,
    Wait,
    AskKeyframe,
    Stop(NetEvent),
}

/// The loop that decodes.
pub struct DecodeLoop {
    errors: u32,
}

impl DecodeLoop {
    /// Failures in a row, pictures apart.
    pub closed spec fn failures(&self) -> u32 {
        self.errors
    }

    pub fn new() -> (r: Self)
        ensures
            r.failures() == 0,
    {
        DecodeLoop { errors: 0 }
    }

    pub fn after(&mut self, ctx: &mut Context, decoded: Decoded, now_us: u64) -> (r: AfterDecode)
        requires
            old(self).failures() < MAX_DECODE_ERRORS,
        ensures
            final(ctx).config == old(ctx).config,
            r !is Stop ==> final(self).failures() < MAX_DECODE_ERRORS,
            match decoded {
                Decoded::Picture => r is Show && final(self).failures() == 0 && final(
                    ctx).last_keyframe_us == old(ctx).last_keyframe_us,
                Decoded::Nothing { refused } => {
                    let due = now_us - old(ctx).last_keyframe_us
                        >= crate::net::KEYFRAME_COOLDOWN_US;
                    &&& final(self).failures() == old(self).failures()
                    &&& r == (if refused && due {
                        AfterDecode::AskKeyframe
                    } else {
                        AfterDecode::Wait
                    })
                    &&& final(ctx).last_keyframe_us == (if refused && due {
                        now_us
                    } else {
                        old(ctx).last_keyframe_us
                    })
                },
                Decoded::Failed(cause) => final(self).failures() == old(self).failures() + 1
                    && final(ctx).last_keyframe_us == old(ctx).last_keyframe_us && (if final(
                    self).failures() < MAX_DECODE_ERRORS {
                    r is Wait
                } else {
                    match r {
                        AfterDecode::Stop(NetEvent::Status(text)) => text@ == "dừng giải mã: "@
                            + cause@,
                        _ => false,
                    }
                }),
            },
    {
        match decoded {
            Decoded::Picture => {
                self.errors = 0;
                AfterDecode::Show
            },
            Decoded::Nothing { refused } => {
                if refused && ctx.ask_keyframe(now_us) {
                    AfterDecode::AskKeyframe
                } else {
                    AfterDecode::Wait
                }
            },
            Decoded::Failed(cause) => {
                self.errors = self.errors + 1;
                if self.errors >= MAX_DECODE_ERRORS {
                    let mut s: String = "dừng giải mã: ".to_owned();
                    s.append(cause.as_str());
                    AfterDecode::Stop(NetEvent::Status(s))
                } else {
                    AfterDecode::Wait
                }
            },
        }
    }
}

/// The latency that is shown: the measured one, once the clocks have been compared; never below
/// 0, and kept modulo 2^32.
pub fn shown_latency(measured: Option<i64>, raw: u32) -> (r: u32)
    ensures
        r == (match measured {
            Some(us) => if us < 0 {
                0
            } else {
                us as int % 0x1_0000_0000
            },
            None => raw as int,
        }),
{
    match measured {
        Some(us) => if us < 0 {
            0
        } else {
            (us % 0x1_0000_0000) as u32
        },
        None => raw,
    }
}

/// What the other end makes of a message.
pub open spec fn heard(meaning: Outgoing) -> Incoming {
    match meaning {
        Outgoing::Chat(message) => Incoming::Chat(message),
        Outgoing::Clipboard(text) => Incoming::Clipboard(text),
        Outgoing::Offer(offer) => Incoming::Offer(offer),
        Outgoing::Accept(id) => Incoming::Accept(id),
        Outgoing::Reject(id) => Incoming::Reject(id),
        Outgoing::Ack(ack) => Incoming::Ack(ack),
        Outgoing::Input(event) => Incoming::Input(event),
        Outgoing::Keyframe => Incoming::Keyframe,
        Outgoing::Quality(request) => Incoming::Quality(request),
        Outgoing::Ping(sent_us) => Incoming::Ping { sent_us },
        Outgoing::Pong(sent_us, host_us) => Incoming::Pong { sent_us, host_us },
    }
}

/// What a viewer sends, a host understands as it was meant, and the other way round. A viewer sends
/// no answer to a ping, and a host sends neither input nor wishes nor pings.
pub proof fn both_ends_understand_each_other(meaning: Outgoing)
    ensures
        <ViewerWire as Wire>::message(meaning) matches Some(command) ==>
            <crate::net::host::HostWire as Wire>::meaning(command) == heard(meaning),
        <crate::net::host::HostWire as Wire>::message(meaning) matches Some(event) ==>
            <ViewerWire as Wire>::meaning(event) == heard(meaning),
        <ViewerWire as Wire>::message(meaning) is None <==> meaning is Pong,
        <crate::net::host::HostWire as Wire>::message(meaning) is None <==> meaning is Input
            || meaning is Keyframe || meaning is Quality || meaning is Ping,
        <ViewerWire as Wire>::half() == IdSpace::Viewer,
        <crate::net::host::HostWire as Wire>::half() == IdSpace::Host,
{
}

/// What is not said by the other end's user: it leaves, or reports an error, or greets, which is
/// settled before.
pub proof fn other_messages_have_their_meaning(command: ViewerCommand, event: HostEvent)
    ensures
        <crate::net::host::HostWire as Wire>::meaning(command) is Disconnect <==> command
            is Disconnect,
        <crate::net::host::HostWire as Wire>::meaning(command) is Ignored <==> command is Hello
            || command is SelectMonitor || command is Feedback,
        <ViewerWire as Wire>::meaning(event) is Ignored <==> event is Welcome || event
            is MonitorsChanged || event is QualityChanged,
        event matches HostEvent::Error { message } ==> <ViewerWire as Wire>::meaning(event)
            == Incoming::Error(message),
{
}

/// The active monitor is watched, the first one of that number; where none has it, the first of
/// all; and none only where there are none.
pub proof fn the_active_monitor_is_watched(monitors: Seq<MonitorInfo>, active: u8)
    ensures
        watched(monitors, active) is None <==> monitors.len() == 0,
        watched(monitors, active) matches Some(i) ==> {
            &&& 0 <= i < monitors.len()
            &&& (exists|k: int| 0 <= k < monitors.len() && #[trigger] monitors[k].id == active)
                ==> monitors[i].id == active && forall|k: int|
                0 <= k < i ==> #[trigger] monitors[k].id != active
            &&& (forall|k: int| 0 <= k < monitors.len() ==> #[trigger] monitors[k].id != active)
                ==> i == 0
        },
{
    if exists|k: int| 0 <= k < monitors.len() && #[trigger] monitors[k].id == active {
        let k = choose|k: int| 0 <= k < monitors.len() && #[trigger] monitors[k].id == active;
        the_first_is_found(monitors, active, 0, k);
    }
}

proof fn the_first_is_found(monitors: Seq<MonitorInfo>, id: u8, from: int, k: int)
    requires
        0 <= from <= k < monitors.len(),
        monitors[k].id == id,
    ensures
        from <= first_with(monitors, id, from) <= k,
        monitors[first_with(monitors, id, from)].id == id,
        forall|j: int|
            from <= j < first_with(monitors, id, from) ==> #[trigger] monitors[j].id != id,
    decreases monitors.len() - from,
{
    if monitors[from].id != id {
        the_first_is_found(monitors, id, from + 1, k);
    }
}

/// There is a gap unless the frame is the first or comes right after the last one; after the
/// largest number comes 0.
pub proof fn only_the_next_frame_follows(gate: VideoGate, frame_id: u32)
    ensures
        gate.last() is None ==> !gate.gap(frame_id),
        gate.last() matches Some(last) ==> (!gate.gap(frame_id) <==> frame_id == last + 1 || (last
            == 0xffff_ffff && frame_id == 0)),
{
}

/// A host's greeting: its name and the watched screen are remembered, and what the video is ends
/// the handshake with both. A wrong version, no screen, and video before the greeting are refused;
/// what the host says is wrong is told in its words.
pub proof fn handshakes_end_with_the_video(
    first: &mut Handshake,
    second: &mut Handshake,
    hello: HostEvent,
    quality: QualityRequest,
    one: Result<Option<(String, PipelineInfo)>, String>,
    two: Result<Option<(String, PipelineInfo)>, String>,
)
    requires
        hello is Welcome,
        call_ensures(Handshake::step, (first, hello), one),
        *old(second) == *final(first),
        call_ensures(Handshake::step, (second, HostEvent::QualityChanged(quality)), two),
    ensures
        hello matches HostEvent::Welcome { version, host_name, monitors, active_monitor } ==> {
            let good = version == 1 && monitors@.len() > 0;
            &&& good ==> (one matches Ok(None))
            &&& !good ==> one is Err && *final(first) == *old(first)
            &&& good ==> {
                let i = watched(monitors@, active_monitor)->0;
                &&& two matches Ok(Some(end))
                &&& end.0@ == host_name@
                &&& end.1.source@ == monitors@[i].name@
                &&& end.1.width == monitors@[i].width
                &&& end.1.height == monitors@[i].height
                &&& monitors@[i].refresh_hz > 0 ==> end.1.target_fps == monitors@[i].refresh_hz
                &&& end.1.codec == quality.codec
                &&& end.1.chroma == quality.chroma
            }
        },
{
    if let HostEvent::Welcome { monitors, active_monitor, .. } = hello {
        the_active_monitor_is_watched(monitors@, active_monitor);
    }
}

/// Video before the greeting is refused; an error ends the handshake in the host's words; and what
/// has nothing to do with it is passed over.
pub proof fn handshakes_pass_over_the_rest(
    handshake: &mut Handshake,
    message: HostEvent,
    r: Result<Option<(String, PipelineInfo)>, String>,
)
    requires
        call_ensures(Handshake::step, (handshake, message), r),
        !(message is Welcome),
    ensures
        message matches HostEvent::Error { message: words } ==> r == Err::<
            Option<(String, PipelineInfo)>,
            String,
        >(words),
        message is QualityChanged && old(handshake).screen() is None ==> r is Err,
        message is QualityChanged && old(handshake).screen() is Some ==> (r matches Ok(Some(_))),
        !(message is QualityChanged) && !(message is Error) ==> (r matches Ok(None)),
        *final(handshake) == *old(handshake),
{
}

/// A frame that does not follow the last one asks for a keyframe, unless it is one itself or the
/// last request is less than a quarter of a second ago. Only a frame that went on counts as the
/// last one, and a closed queue is the end.
pub proof fn gaps_ask_for_a_keyframe(
    gate: &mut VideoGate,
    ctx: &mut Context,
    frame_id: u32,
    keyframe: bool,
    queued: Queued,
    now_us: u64,
    r: Result<bool, String>,
)
    requires
        call_ensures(VideoGate::arrived, (gate, ctx, frame_id, keyframe, queued, now_us), r),
    ensures
        ({
            let follows = match old(gate).last() {
                None => true,
                Some(last) => frame_id == last + 1 || (last == 0xffff_ffff && frame_id == 0),
            };
            let due = now_us >= old(ctx).last_keyframe_us + 250_000;
            let asks = !follows && !keyframe && due;
            &&& queued is Sent ==> r == Ok::<bool, String>(asks)
            &&& queued is Sent ==> final(gate).last() == Some(frame_id)
            &&& queued is Sent && asks ==> final(ctx).last_keyframe_us == now_us
            &&& !(queued is Sent) || !asks ==> final(ctx).last_keyframe_us == old(ctx).last_keyframe_us
            &&& queued is Full ==> r == Ok::<bool, String>(false)
            &&& queued is Closed ==> r is Err
            &&& !(queued is Sent) ==> final(gate).last() == old(gate).last()
        }),
        final(ctx).config == old(ctx).config,
{
    only_the_next_frame_follows(*old(gate), frame_id);
}

/// A picture is shown and wipes the failures away. Refused data asks for a keyframe, four times a
/// second at most. The sixtieth failure in a row is the end, and says why.
pub proof fn sixty_failures_end_the_decoding(
    decoding: &mut DecodeLoop,
    ctx: &mut Context,
    decoded: Decoded,
    now_us: u64,
    r: AfterDecode,
)
    requires
        old(decoding).failures() < 60,
        call_ensures(DecodeLoop::after, (decoding, ctx, decoded, now_us), r),
    ensures
        ({
            let due = now_us >= old(ctx).last_keyframe_us + 250_000;
            &&& r is Show <==> decoded is Picture
            &&& decoded is Picture ==> final(decoding).failures() == 0
            &&& r is AskKeyframe <==> (decoded matches Decoded::Nothing { refused } && refused)
                && due
            &&& r is AskKeyframe ==> final(ctx).last_keyframe_us == now_us
            &&& !(r is AskKeyframe) ==> final(ctx).last_keyframe_us == old(ctx).last_keyframe_us
            &&& decoded is Failed ==> final(decoding).failures() == old(decoding).failures() + 1
            &&& decoded is Nothing ==> final(decoding).failures() == old(decoding).failures()
            &&& r is Stop <==> decoded is Failed && old(decoding).failures() == 59
        }),
{
}

/// A viewer greets with its name, its password and what it can decode.
pub proof fn viewers_greet_with_their_password(
    ctx: &Context,
    codecs: Vec<Codec>,
    r: ViewerCommand,
)
    requires
        call_ensures(hello, (ctx, codecs), r),
    ensures
        r matches ViewerCommand::Hello { version, viewer_name, auth, wants_10bit, codecs: listed } && {
            &&& version == 1
            &&& viewer_name@ == ctx.config.name@
            &&& auth@ == crate::net::blake3_of(vstd::utf8::encode_utf8(ctx.config.password@))
            &&& wants_10bit == ctx.config.allow_10bit
            &&& listed == codecs
        },
        crate::net::host::refusal(ctx.config.password@, r) is None,
{
}

/// The way to the other machine: an address is called at once; a code is asked for at the server,
/// which there must be, then the way is punched through, and only where that takes too long it goes
/// over the relay.
pub proof fn codes_lead_over_the_server(search: Search, r: (Option<NetEvent>, Route))
    requires
        call_ensures(connect_via_rendezvous, (search,), r),
    ensures
        r.1 is Connect <==> search is Direct,
        r.1 is AskServer <==> (search matches Search::ByCode { server } && server),
        r.1 is Punch <==> search is Candidates,
        r.1 is AskRelay <==> search is TimedOut,
        r.1 is Fail <==> search is Failed || (search matches Search::ByCode { server } && !server),
        r.1 matches Route::Connected { relayed } ==> (relayed <==> search is Relayed) && (!relayed
            <==> search is Punched),
        search matches Search::Failed(cause) ==> r.1 == Route::Fail(cause),
        r.0 is Some <==> r.1 is Connect || r.1 is AskServer || r.1 is Punch || r.1 is AskRelay,
{
}

/// A latency that was measured is shown, none below nothing; without one it is that of the packet.
pub proof fn latencies_are_shown_as_measured(measured: Option<i64>, raw: u32, r: u32)
    requires
        call_ensures(shown_latency, (measured, raw), r),
    ensures
        measured is None ==> r == raw,
        measured matches Some(us) ==> (us < 0 ==> r == 0) && (0 <= us < 0x1_0000_0000 ==> r == us),
{
}

/// A viewer goes where it was told to, and says so where it was not told; a connection is told of
/// before what it shows. A handshake begins with nothing heard and sixty pictures a second.
pub proof fn viewers_go_where_they_are_told(
    ctx: &Context,
    r: Result<PeerAddress, String>,
    peer: String,
    name: String,
    relayed: bool,
    info: PipelineInfo,
    events: Vec<NetEvent>,
    fresh: Handshake,
    gate: VideoGate,
    decoding: DecodeLoop,
)
    requires
        call_ensures(destination, (ctx,), r),
        call_ensures(connected, (peer, name, relayed, info), events),
        call_ensures(Handshake::new, (), fresh),
        call_ensures(VideoGate::new, (), gate),
        call_ensures(DecodeLoop::new, (), decoding),
    ensures
        ctx.config.peer matches Some(to) ==> r == Ok::<PeerAddress, String>(to),
        ctx.config.peer is None ==> r is Err,
        events@.len() == 2,
        events@[0] == (NetEvent::Connected { peer, name, relayed }),
        events@[1] == NetEvent::Info(info),
        fresh.host() is None && fresh.screen() is None && fresh.rate() == 60,
        gate.last() is None,
        decoding.failures() == 0,
{
}

} // verus!
