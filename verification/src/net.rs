//! What the network part and the screens tell each other.

use vstd::prelude::*;

use crate::protocol::control::{
    ChatMessage, ChromaSubsampling, Codec, FileOffer, InputEvent, Real32,
};
use crate::text::{push_decimal, push_padded};

pub mod host;
pub mod link;
pub mod viewer;

verus! {

/// The name that both ends use in the TLS handshake. The certificates are self-signed, so it only
/// has to be the same on both sides.
pub const SERVER_NAME: &'static str = "rd-host";

#[derive(Debug, Clone, Copy, PartialEq, Eq, Structural)]
pub enum Role {
    /// Shows its screen and takes commands.
    Host,
    /// Watches and commands the other machine.
    Viewer,
}

#[derive(Debug, Clone, Copy, PartialEq, Eq)]
pub enum Ip {
    V4([u8; 4]),
    V6([u8; 16]),
}

#[derive(Debug, Clone, Copy, PartialEq, Eq)]
pub struct Address {
    pub ip: Ip,
    pub port: u16,
}

/// A machine's code of nine digits at the rendezvous server.
#[derive(Debug, Clone, Copy, PartialEq, Eq, Structural)]
pub struct PeerId {
    pub number: u32,
}

impl PeerId {
    pub open spec fn wf(self) -> bool {
        100_000_000 <= self.number <= 999_999_999
    }

    /// The code in three groups, which can be read out over the telephone.
    pub open spec fn grouped(self) -> Seq<char> {
        crate::text::decimal(self.number as nat / 1_000_000) + " "@ + crate::text::padded(
            self.number as nat / 1000 % 1000,
            3,
        ) + " "@ + crate::text::padded(self.number as nat % 1000, 3)
    }
}

pub fn pretty(id: PeerId) -> (s: String)
    requires
        id.wf(),
    ensures
        s@ == id.grouped(),
{
    let mut s: String = String::new();
    push_decimal(&mut s, (id.number / 1_000_000) as u64);
    s.push(' ');
    push_padded(&mut s, (id.number / 1000 % 1000) as u64, 3);
    s.push(' ');
    push_padded(&mut s, (id.number % 1000) as u64, 3);
    proof {
        reveal_strlit(" ");
    }
    assert(s@ =~= id.grouped());
    s
}

/// The groups hold the code's own digits.
pub proof fn groups_spell_the_code(id: PeerId)
    requires
        id.wf(),
    ensures
        crate::text::decimal(id.number as nat / 1_000_000) + crate::text::padded(
            id.number as nat / 1000 % 1000,
            3,
        ) + crate::text::padded(id.number as nat % 1000, 3) == crate::text::decimal(
            id.number as nat,
        ),
{
    let n = id.number as nat;
    three_more(n / 1000);
    three_more(n);
    assert(n / 1000 / 1000 == n / 1_000_000);
    let high = crate::text::decimal(n / 1_000_000);
    let middle = crate::text::padded(n / 1000 % 1000, 3);
    let low = crate::text::padded(n % 1000, 3);
    assert(high + middle + low =~= (high + middle) + low);
}

proof fn three_more(n: nat)
    requires
        n >= 1000,
    ensures
        crate::text::decimal(n) == crate::text::decimal(n / 1000) + crate::text::padded(
            n % 1000,
            3,
        ),
{
    reveal_with_fuel(crate::text::decimal, 4);
    reveal_with_fuel(crate::text::padded, 4);
    assert(n / 10 / 10 / 10 == n / 1000);
    assert(n % 1000 / 10 == n / 10 % 100);
    assert(n % 1000 / 10 / 10 == n / 100 % 10);
    assert(n / 10 % 10 == n / 10 % 100 % 10);
    assert(crate::text::decimal(n) =~= crate::text::decimal(n / 1000) + crate::text::padded(
        n % 1000,
        3,
    ));
}

/// How a viewer finds the host.
#[derive(Debug, Clone, Copy, PartialEq, Eq)]
pub enum PeerAddress {
    /// The address is known: at home, or with a public address.
    Direct(Address),
    /// Only the code is known; the rendezvous server must be asked.
    Code(PeerId),
}

#[derive(Debug, Clone)]
pub struct NetConfig {
    pub role: Role,
    pub bind: Address,
    /// Without one only direct connections are possible.
    pub rendezvous: Option<Address>,
    /// `None` accepts any certificate of the server.
    pub rendezvous_fingerprint: Option<[u8; 32]>,
    /// `None` accepts any certificate of the host: only the password is left against someone in
    /// the middle.
    pub peer_fingerprint: Option<[u8; 32]>,
    /// For a viewer.
    pub peer: Option<PeerAddress>,
    pub name: String,
    pub password: String,
    pub target_fps: u32,
    pub bitrate_kbps: u32,
    /// Whether the machine that watches can show 10-bit colour.
    pub allow_10bit: bool,
    pub download_dir: String,
}

/// What the video is like.
#[derive(Debug, Clone)]
pub struct PipelineInfo {
    pub source: String,
    pub width: u32,
    pub height: u32,
    pub codec: Codec,
    pub chroma: ChromaSubsampling,
    pub hardware: bool,
    pub target_fps: u32,
}

#[derive(Debug, Clone, Copy, PartialEq, Eq, Structural)]
pub struct LinkStats {
    pub rtt_us: u64,
    pub loss_ratio: Real32,
    pub current_mtu: u16,
    pub bytes_sent: u64,
    pub bytes_received: u64,
}

/// What happens in the network part.
#[derive(Debug)]
pub enum NetEvent {
    /// A sentence for the user.
    Status(String),
    /// This machine's code.
    Code(PeerId),
    Connected { peer: String, name: String, relayed: bool },
    Info(PipelineInfo),
    OutgoingOffer(FileOffer),
    IncomingOffer(FileOffer),
    TransferAccepted(u64),
    TransferRejected(u64),
    TransferProgress { id: u64, done: u64 },
    TransferDone { id: u64, path: String },
    TransferFailed { id: u64, reason: String },
    Chat(ChatMessage),
    Clipboard(String),
    Link(LinkStats),
    /// One way, in microseconds.
    Latency(u64),
    /// The other end left; the host waits for the next one.
    PeerLeft,
    Disconnected(String),
}

/// What the user asks of the network part.
#[derive(Debug)]
pub enum UiCommand {
    Input(Vec<InputEvent>),
    Chat(ChatMessage),
    Clipboard(String),
    SendFile(String),
    AcceptFile(u64),
    RejectFile(u64),
    RequestKeyframe,
    SetBitrate(u32),
}

/// The least time between two requests for a keyframe. One is heavy, and an answer takes a round
/// trip: to ask in a row would choke the link when it is weakest.
pub const KEYFRAME_COOLDOWN_US: u64 = 250_000;

/// BLAKE3 of some bytes.
pub uninterp spec fn blake3_of(data: Seq<u8>) -> Seq<u8>;

/// `blake3::hash`: 32 bytes that depend on the input alone.
#[verifier::external_body]
fn blake3_hash(data: &[u8]) -> (r: [u8; 32])
    ensures
        r@ == blake3_of(data@),
{
    *blake3::hash(data).as_bytes()
}

/// What is shared by everything in the network part.
pub struct Context {
    pub config: NetConfig,
    /// When a keyframe was last asked for.
    pub last_keyframe_us: u64,
}

impl Context {
    pub fn new(config: NetConfig) -> (r: Self)
        ensures
            r.config == config,
            r.last_keyframe_us == 0,
    {
        Context { config, last_keyframe_us: 0 }
    }

    /// What stands for the password on the wire.
    pub fn auth(&self) -> (r: [u8; 32])
        ensures
            r@ == blake3_of(vstd::utf8::encode_utf8(self.config.password@)),
    {
        blake3_hash(self.config.password.as_str().as_bytes())
    }

    /// Whether a request for a keyframe is to be sent: the chain of frames broke, and the last
    /// request is long enough ago.
    pub fn ask_keyframe(&mut self, now_us: u64) -> (r: bool)
        ensures
            r == (now_us - old(self).last_keyframe_us >= KEYFRAME_COOLDOWN_US),
            final(self).last_keyframe_us == (if r {
                now_us
            } else {
                old(self).last_keyframe_us
            }),
            final(self).config == old(self).config,
    {
        if now_us < self.last_keyframe_us || now_us - self.last_keyframe_us
            < KEYFRAME_COOLDOWN_US {
            return false;
        }
        self.last_keyframe_us = now_us;
        true
    }
}

/// What the user is told when the network part is over.
pub fn ending(error: Option<String>) -> (r: NetEvent)
    ensures
        match r {
            NetEvent::Disconnected(reason) => reason@ == (match error {
                Some(e) => e@,
                None => "kết thúc"@,
            }),
            _ => false,
        },
{
    match error {
        Some(e) => NetEvent::Disconnected(e),
        None => NetEvent::Disconnected("kết thúc".to_owned()),
    }
}

/// The code is shown as three groups of three digits with a space between them.
pub proof fn codes_are_three_groups_of_three(id: PeerId)
    requires
        id.wf(),
    ensures
        ({
            let s = id.grouped();
            &&& s.len() == 11
            &&& s[3] == ' '
            &&& s[7] == ' '
            &&& s.subrange(0, 3) + s.subrange(4, 7) + s.subrange(8, 11) == crate::text::decimal(
                id.number as nat,
            )
        }),
{
    let n = id.number as nat;
    let a = crate::text::decimal(n / 1_000_000);
    let b = crate::text::padded(n / 1000 % 1000, 3);
    let c = crate::text::padded(n % 1000, 3);
    let s = id.grouped();
    groups_spell_the_code(id);
    crate::text::padded_numbers_read_back(n / 1000 % 1000, 3);
    crate::text::padded_numbers_read_back(n % 1000, 3);
    reveal_strlit(" ");
    reveal_with_fuel(crate::text::decimal, 4);
    assert(a.len() == 3);
    assert(s.subrange(0, 3) =~= a);
    assert(s.subrange(4, 7) =~= b);
    assert(s.subrange(8, 11) =~= c);
}

/// A keyframe is asked for at most once in 250 milliseconds, and the wait begins with the asking.
pub proof fn keyframes_are_asked_for_with_a_pause(context: &mut Context, now_us: u64, r: bool)
    requires
        call_ensures(Context::ask_keyframe, (context, now_us), r),
    ensures
        r <==> now_us >= old(context).last_keyframe_us + 250_000,
        r ==> final(context).last_keyframe_us == now_us,
        !r ==> final(context).last_keyframe_us == old(context).last_keyframe_us,
        final(context).config == old(context).config,
{
}

/// A session ends with the error that ended it, if there was one.
pub proof fn endings_name_their_error(error: Option<String>, r: NetEvent)
    requires
        call_ensures(ending, (error,), r),
    ensures
        error matches Some(e) ==> (r matches NetEvent::Disconnected(reason) && reason@ == e@),
        r is Disconnected,
{
}

} // verus!
