//! The part of the control channel that is the same at both ends: chat, clipboard, files, clock.
//!
//! The messages differ from one direction to the other, the rules do not. What differs is pressed
//! into a [`Wire`]; the rest is written once.

use std::collections::HashMap;

use vstd::prelude::*;
use vstd::string::StringExecFns;

use crate::net::{LinkStats, NetEvent, UiCommand};
use crate::protocol::control::{
    ChatMessage, FileChunkAck, FileOffer, InputEvent, QualityRequest,
};
use crate::session::transfer::{IdSpace, MAX_PENDING_INCOMING};

verus! {

broadcast use vstd::std_specs::hash::group_hash_axioms;

/// After so many bytes the sender is told how far a file has been written. Its own count runs
/// ahead by what is on the way, and its progress bar would stop at the end and wait.
pub const ACK_EVERY: u64 = 1_048_576;

/// Time between two pings, in milliseconds.
pub const PING_INTERVAL_MS: u64 = 1000;

/// A message that came in, in the sense that both directions share.
#[derive(Debug)]
pub enum Incoming {
    Chat(ChatMessage),
    Clipboard(String),
    Offer(FileOffer),
    Accept(u64),
    Reject(u64),
    Ack(FileChunkAck),
    /// At the host only.
    Input(InputEvent),
    /// At the host only.
    Keyframe,
    /// At the host only.
    Quality(QualityRequest),
    /// At the host only.
    Ping { sent_us: u64 },
    /// At the viewer only.
    Pong { sent_us: u64, host_us: u64 },
    /// The other end reports an error and will close.
    Error(String),
    /// The other end leaves.
    Disconnect,
    /// Valid, but nothing for this layer.
    Ignored,
}

/// A message to go out, in the same sense.
pub ghost enum Outgoing {
    Chat(ChatMessage),
    Clipboard(String),
    Offer(FileOffer),
    Accept(u64),
    Reject(u64),
    Ack(FileChunkAck),
    Input(InputEvent),
    Keyframe,
    Quality(QualityRequest),
    Ping(u64),
    Pong(u64, u64),
}

/// How one direction writes and reads messages. `None` means that the direction has no such
/// message: a host sends no input.
pub trait Wire: Sized {
    type Out;

    type In;

    /// The message of this direction for a meaning.
    spec fn message(meaning: Outgoing) -> Option<Self::Out>;

    /// The meaning of a message of the other direction.
    spec fn meaning(message: Self::In) -> Incoming;

    /// The half of the file numbers that this end gives out.
    spec fn half() -> IdSpace;

    fn space() -> (r: IdSpace)
        ensures
            r == Self::half(),
    ;

    fn chat(message: ChatMessage) -> (r: Self::Out)
        ensures
            Some(r) == Self::message(Outgoing::Chat(message)),
    ;

    fn clipboard(text: String) -> (r: Self::Out)
        ensures
            Some(r) == Self::message(Outgoing::Clipboard(text)),
    ;

    fn offer(offer: FileOffer) -> (r: Self::Out)
        ensures
            Some(r) == Self::message(Outgoing::Offer(offer)),
    ;

    fn accept(transfer_id: u64) -> (r: Self::Out)
        ensures
            Some(r) == Self::message(Outgoing::Accept(transfer_id)),
    ;

    fn reject(transfer_id: u64) -> (r: Self::Out)
        ensures
            Some(r) == Self::message(Outgoing::Reject(transfer_id)),
    ;

    fn ack(ack: FileChunkAck) -> (r: Self::Out)
        ensures
            Some(r) == Self::message(Outgoing::Ack(ack)),
    ;

    fn input(event: InputEvent) -> (r: Option<Self::Out>)
        ensures
            r == Self::message(Outgoing::Input(event)),
    ;

    fn keyframe() -> (r: Option<Self::Out>)
        ensures
            r == Self::message(Outgoing::Keyframe),
    ;

    fn quality(request: QualityRequest) -> (r: Option<Self::Out>)
        ensures
            r == Self::message(Outgoing::Quality(request)),
    ;

    fn ping(sent_us: u64) -> (r: Option<Self::Out>)
        ensures
            r == Self::message(Outgoing::Ping(sent_us)),
    ;

    fn pong(sent_us: u64, host_us: u64) -> (r: Option<Self::Out>)
        ensures
            r == Self::message(Outgoing::Pong(sent_us, host_us)),
    ;

    fn classify(message: Self::In) -> (r: Incoming)
        ensures
            r == Self::meaning(message),
    ;
}

/// What only one of the two ends has.
#[derive(Debug, Clone, Copy, PartialEq, Eq, Structural)]
pub struct Hooks {
    /// Host: input goes to the operating system.
    pub input: bool,
    /// Host: keyframes can be asked for.
    pub keyframe: bool,
    /// Host: the ceiling of the bit rate can be set.
    pub bitrate: bool,
    /// Viewer: the host's clock is followed.
    pub clock: bool,
}

/// What is to be done.
#[derive(Debug)]
pub enum Action<O> {
    Emit(NetEvent),
    Send(O),
    /// Sends the file's bytes on a stream of their own.
    SendFile { offer: FileOffer, path: String },
    Inject(InputEvent),
    Keyframe,
    /// A new ceiling for the bit rate.
    Bitrate(u32),
    /// A measurement for the clock.
    Clock { sent_us: u64, host_us: u64, now_us: u64 },
    /// Ends the session with an error.
    Fail(String),
    /// Ends the session.
    Close,
}

fn copy_offer(offer: &FileOffer) -> (r: FileOffer)
    ensures
        r == *offer,
{
    FileOffer {
        transfer_id: offer.transfer_id,
        name: offer.name.clone(),
        size: offer.size,
        hash: offer.hash,
    }
}

/// The offers that are open.
#[verifier::ext_equal]
pub ghost struct Open {
    /// Ours, waiting for the other end.
    pub pending: Map<u64, (FileOffer, String)>,
    /// The other end's, waiting for the user.
    pub offered: Map<u64, FileOffer>,
    /// The other end's, taken, waiting for the bytes.
    pub accepted: Map<u64, FileOffer>,
    /// How many numbers were given out.
    pub counter: u64,
}

/// What comes of it: the offers left open, and what is to be done.
#[verifier::ext_equal]
pub ghost struct Step<O> {
    pub open: Open,
    pub actions: Seq<Action<O>>,
}

/// A message is sent where the direction has one.
pub open spec fn sent<O>(message: Option<O>) -> Seq<Action<O>> {
    match message {
        Some(m) => seq![Action::Send(m)],
        None => seq![],
    }
}

impl Open {
    /// Our own offers have numbers of our half, the other end's of theirs.
    pub open spec fn halves_kept<W: Wire>(self) -> bool {
        &&& forall|id: u64| #[trigger] self.pending.dom().contains(id) ==> W::half().has(id)
        &&& forall|id: u64| #[trigger]
            self.offered.dom().contains(id) ==> W::half().other().has(id)
        &&& forall|id: u64| #[trigger]
            self.accepted.dom().contains(id) ==> W::half().other().has(id)
    }

    pub open spec fn stays<O>(self, actions: Seq<Action<O>>) -> Step<O> {
        Step { open: self, actions }
    }

    /// A number must be of the other end's half, else two files could have the same. Too many open
    /// offers are refused, not dropped: the other end must stop waiting.
    pub open spec fn on_offer<W: Wire>(self, offer: FileOffer) -> Step<W::Out> {
        if !W::half().other().has(offer.transfer_id) {
            self.stays(seq![])
        } else if self.offered.dom().len() >= MAX_PENDING_INCOMING {
            self.stays(sent(W::message(Outgoing::Reject(offer.transfer_id))))
        } else {
            Step {
                open: Open {
                    offered: self.offered.insert(offer.transfer_id, offer),
                    ..self
                },
                actions: seq![Action::Emit(NetEvent::IncomingOffer(offer))],
            }
        }
    }

    pub open spec fn on_accept<W: Wire>(self, id: u64) -> Step<W::Out> {
        if self.pending.dom().contains(id) {
            let (offer, path) = self.pending[id];
            Step {
                open: Open { pending: self.pending.remove(id), ..self },
                actions: seq![
                    Action::Emit(NetEvent::TransferAccepted(id)),
                    Action::SendFile { offer, path },
                ],
            }
        } else {
            self.stays(seq![])
        }
    }

    pub open spec fn read<W: Wire>(
        self,
        hooks: Hooks,
        incoming: Incoming,
        now_us: u64,
    ) -> Step<W::Out> {
        match incoming {
            Incoming::Chat(message) => self.stays(seq![Action::Emit(NetEvent::Chat(message))]),
            Incoming::Clipboard(text) => self.stays(seq![Action::Emit(NetEvent::Clipboard(text))]),
            Incoming::Offer(offer) => self.on_offer::<W>(offer),
            Incoming::Accept(id) => self.on_accept::<W>(id),
            Incoming::Reject(id) => Step {
                open: Open { pending: self.pending.remove(id), ..self },
                actions: seq![Action::Emit(NetEvent::TransferRejected(id))],
            },
            Incoming::Ack(ack) => self.stays(
                seq![
                    Action::Emit(
                        NetEvent::TransferProgress {
                            id: ack.transfer_id,
                            done: ack.received_bytes,
                        },
                    ),
                ],
            ),
            Incoming::Input(event) => self.stays(
                if hooks.input {
                    seq![Action::Inject(event)]
                } else {
                    seq![]
                },
            ),
            Incoming::Keyframe => self.stays(
                if hooks.keyframe {
                    seq![Action::Keyframe]
                } else {
                    seq![]
                },
            ),
            Incoming::Quality(request) => self.stays(
                if hooks.bitrate {
                    seq![Action::Bitrate(request.target_bitrate_kbps)]
                } else {
                    seq![]
                },
            ),
            Incoming::Ping { sent_us } => self.stays(
                sent(W::message(Outgoing::Pong(sent_us, now_us))),
            ),
            Incoming::Pong { sent_us, host_us } => self.stays(
                if hooks.clock {
                    seq![Action::Clock { sent_us, host_us, now_us }]
                } else {
                    seq![]
                },
            ),
            Incoming::Error(message) => self.stays(seq![Action::Fail(message)]),
            Incoming::Disconnect => self.stays(seq![Action::Close]),
            Incoming::Ignored => self.stays(seq![]),
        }
    }

    pub open spec fn command<W: Wire>(self, command: UiCommand) -> Step<W::Out> {
        match command {
            UiCommand::Input(events) => self.stays(inputs::<W>(events@)),
            UiCommand::Chat(message) => self.stays(sent(W::message(Outgoing::Chat(message)))),
            UiCommand::Clipboard(text) => self.stays(sent(W::message(Outgoing::Clipboard(text)))),
            UiCommand::SendFile(_) => Step {
                open: Open {
                    counter: crate::number::counted(self.counter, 1),
                    ..self
                },
                actions: seq![],
            },
            UiCommand::AcceptFile(id) => if self.offered.dom().contains(id) {
                Step {
                    open: Open {
                        offered: self.offered.remove(id),
                        accepted: self.accepted.insert(id, self.offered[id]),
                        ..self
                    },
                    actions: sent(W::message(Outgoing::Accept(id))),
                }
            } else {
                self.stays(seq![])
            },
            UiCommand::RejectFile(id) => Step {
                open: Open { offered: self.offered.remove(id), ..self },
                actions: sent(W::message(Outgoing::Reject(id))),
            },
            UiCommand::RequestKeyframe => self.stays(sent(W::message(Outgoing::Keyframe))),
            UiCommand::SetBitrate(kbps) => self.stays(
                sent(
                    W::message(
                        Outgoing::Quality(
                            QualityRequest {
                                codec: crate::protocol::control::Codec::Hevc,
                                chroma: crate::protocol::control::ChromaSubsampling::Yuv444,
                                target_bitrate_kbps: kbps,
                                target_fps: 60,
                                max_dimension: None,
                            },
                        ),
                    ),
                ),
            ),
        }
    }
}

/// The messages for a list of input events, in their order.
pub open spec fn inputs<W: Wire>(events: Seq<InputEvent>) -> Seq<Action<W::Out>>
    decreases events.len(),
{
    if events.len() == 0 {
        seq![]
    } else {
        inputs::<W>(events.drop_last()) + sent(W::message(Outgoing::Input(events.last())))
    }
}

/// The file that the user asked to send gets a number; its offer has to be prepared from disk.
#[derive(Debug)]
pub struct Preparation {
    pub id: u64,
    pub path: String,
}

pub struct Link<W: Wire> {
    hooks: Hooks,
    pending_out: HashMap<u64, (FileOffer, String)>,
    offered_in: HashMap<u64, FileOffer>,
    accepted_in: HashMap<u64, FileOffer>,
    counter: u64,
    wire: core::marker::PhantomData<W>,
}

impl<W: Wire> Link<W> {
    pub closed spec fn has(&self) -> Hooks {
        self.hooks
    }

    pub closed spec fn open(&self) -> Open {
        Open {
            pending: self.pending_out@,
            offered: self.offered_in@,
            accepted: self.accepted_in@,
            counter: self.counter,
        }
    }

    /// Never more offers wait for the user than may, and every number is of the half that its end
    /// gives out.
    pub open spec fn wf(&self) -> bool {
        &&& self.open().offered.dom().len() <= MAX_PENDING_INCOMING
        &&& self.open().halves_kept::<W>()
    }

    pub fn new(hooks: Hooks) -> (r: Self)
        ensures
            r.wf(),
            r.has() == hooks,
            r.open() == (Open {
                pending: Map::empty(),
                offered: Map::empty(),
                accepted: Map::empty(),
                counter: 0,
            }),
    {
        let r = Link {
            hooks,
            pending_out: HashMap::new(),
            offered_in: HashMap::new(),
            accepted_in: HashMap::new(),
            counter: 0,
            wire: core::marker::PhantomData,
        };
        assert(r.open().pending =~= Map::empty());
        assert(r.open().offered =~= Map::empty());
        assert(r.open().accepted =~= Map::empty());
        r
    }

    fn on_offer(&mut self, offer: FileOffer) -> (r: Vec<Action<W::Out>>)
        requires
            old(self).wf(),
        ensures
            final(self).wf(),
            final(self).has() == old(self).has(),
            (Step { open: final(self).open(), actions: r@ }) == old(self).open().on_offer::<W>(
                offer,
            ),
    {
        let mut actions: Vec<Action<W::Out>> = Vec::new();
        let ghost step = self.open().on_offer::<W>(offer);
        if !W::space().peer().owns(offer.transfer_id) {
            assert(actions@ =~= step.actions);
            return actions;
        }
        if self.offered_in.len() >= MAX_PENDING_INCOMING {
            actions.push(Action::Send(W::reject(offer.transfer_id)));
            assert(actions@ =~= step.actions);
            return actions;
        }
        self.offered_in.insert(offer.transfer_id, copy_offer(&offer));
        actions.push(Action::Emit(NetEvent::IncomingOffer(offer)));
        assert(actions@ =~= step.actions);
        assert(self.open() =~= step.open);
        proof {
            let before = old(self).open().offered;
            assert(before.insert(offer.transfer_id, offer).dom() =~= before.dom().insert(
                offer.transfer_id,
            ));
        }
        actions
    }

    fn on_accept(&mut self, id: u64) -> (r: Vec<Action<W::Out>>)
        requires
            old(self).wf(),
        ensures
            final(self).wf(),
            final(self).has() == old(self).has(),
            (Step { open: final(self).open(), actions: r@ }) == old(self).open().on_accept::<W>(id),
    {
        let mut actions: Vec<Action<W::Out>> = Vec::new();
        let ghost step = self.open().on_accept::<W>(id);
        match self.pending_out.remove(&id) {
            Some((offer, path)) => {
                actions.push(Action::Emit(NetEvent::TransferAccepted(id)));
                actions.push(Action::SendFile { offer, path });
            },
            None => {},
        }
        assert(actions@ =~= step.actions);
        assert(self.open().pending =~= step.open.pending);
        actions
    }

    /// What a message from the other end asks for.
    pub fn read(&mut self, message: W::In, now_us: u64) -> (r: Vec<Action<W::Out>>)
        requires
            old(self).wf(),
        ensures
            final(self).wf(),
            final(self).has() == old(self).has(),
            (Step { open: final(self).open(), actions: r@ }) == old(self).open().read::<W>(
                old(self).has(),
                W::meaning(message),
                now_us,
            ),
    {
        let mut actions: Vec<Action<W::Out>> = Vec::new();
        let incoming = W::classify(message);
        let ghost step = self.open().read::<W>(self.has(), incoming, now_us);
        match incoming {
            Incoming::Chat(message) => {
                actions.push(Action::Emit(NetEvent::Chat(message)));
            },
            Incoming::Clipboard(text) => {
                actions.push(Action::Emit(NetEvent::Clipboard(text)));
            },
            Incoming::Offer(offer) => {
                return self.on_offer(offer);
            },
            Incoming::Accept(id) => {
                return self.on_accept(id);
            },
            Incoming::Reject(id) => {
                self.pending_out.remove(&id);
                actions.push(Action::Emit(NetEvent::TransferRejected(id)));
            },
            Incoming::Ack(ack) => {
                actions.push(
                    Action::Emit(
                        NetEvent::TransferProgress {
                            id: ack.transfer_id,
                            done: ack.received_bytes,
                        },
                    ),
                );
            },
            Incoming::Input(event) => {
                if self.hooks.input {
                    actions.push(Action::Inject(event));
                }
            },
            Incoming::Keyframe => {
                if self.hooks.keyframe {
                    actions.push(Action::Keyframe);
                }
            },
            Incoming::Quality(request) => {
                if self.hooks.bitrate {
                    actions.push(Action::Bitrate(request.target_bitrate_kbps));
                }
            },
            Incoming::Ping { sent_us } => {
                match W::pong(sent_us, now_us) {
                    Some(message) => {
                        actions.push(Action::Send(message));
                    },
                    None => {},
                }
            },
            Incoming::Pong { sent_us, host_us } => {
                if self.hooks.clock {
                    actions.push(Action::Clock { sent_us, host_us, now_us });
                }
            },
            Incoming::Error(message) => {
                actions.push(Action::Fail(message));
            },
            Incoming::Disconnect => {
                actions.push(Action::Close);
            },
            Incoming::Ignored => {},
        }
        assert(actions@ =~= step.actions);
        assert(self.open() =~= step.open);
        actions
    }

    /// What a command of the user asks for. A file to send is named in the second part.
    pub fn command(&mut self, command: UiCommand) -> (r: (
        Vec<Action<W::Out>>,
        Option<Preparation>,
    ))
        requires
            old(self).wf(),
        ensures
            final(self).wf(),
            final(self).has() == old(self).has(),
            (Step { open: final(self).open(), actions: r.0@ }) == old(self).open().command::<W>(
                command,
            ),
            r.1 matches Some(preparation) ==> W::half().has(preparation.id),
            r.1 == (match command {
                UiCommand::SendFile(path) => Some(
                    Preparation {
                        id: W::half().id(
                            crate::number::counted(old(self).open().counter, 1) as nat,
                        ),
                        path,
                    },
                ),
                _ => None,
            }),
    {
        let mut actions: Vec<Action<W::Out>> = Vec::new();
        let ghost step = self.open().command::<W>(command);
        let mut preparation: Option<Preparation> = None;
        match command {
            UiCommand::Input(events) => {
                let list: Vec<InputEvent> = events;
                let ghost all = list@;
                for event in iter: list
                    invariant
                        iter.seq() == all,
                        actions@ == inputs::<W>(all.take(iter.index())),
                {
                    let ghost had = actions@;
                    proof {
                        let n = iter.index() + 1;
                        assert(all.take(n).drop_last() =~= all.take(n - 1));
                        assert(all.take(n).last() == event);
                    }
                    match W::input(event) {
                        Some(message) => {
                            actions.push(Action::Send(message));
                        },
                        None => {},
                    }
                    assert(actions@ =~= had + sent(W::message(Outgoing::Input(event))));
                }
                assert(all.take(all.len() as int) =~= all);
            },
            UiCommand::Chat(message) => {
                actions.push(Action::Send(W::chat(message)));
            },
            UiCommand::Clipboard(text) => {
                actions.push(Action::Send(W::clipboard(text)));
            },
            UiCommand::SendFile(path) => {
                self.counter = crate::number::count(self.counter, 1);
                preparation = Some(Preparation { id: W::space().make_id(self.counter), path });
            },
            UiCommand::AcceptFile(id) => {
                match self.offered_in.remove(&id) {
                    Some(offer) => {
                        self.accepted_in.insert(id, offer);
                        actions.push(Action::Send(W::accept(id)));
                    },
                    None => {},
                }
                proof {
                    fewer(old(self).open().offered, id);
                }
            },
            UiCommand::RejectFile(id) => {
                self.offered_in.remove(&id);
                actions.push(Action::Send(W::reject(id)));
                proof {
                    fewer(old(self).open().offered, id);
                }
            },
            UiCommand::RequestKeyframe => {
                match W::keyframe() {
                    Some(message) => {
                        actions.push(Action::Send(message));
                    },
                    None => {},
                }
            },
            UiCommand::SetBitrate(kbps) => {
                let mut request = QualityRequest::default();
                request.target_bitrate_kbps = kbps;
                match W::quality(request) {
                    Some(message) => {
                        actions.push(Action::Send(message));
                    },
                    None => {},
                }
            },
        }
        assert(actions@ =~= step.actions);
        assert(self.open() =~= step.open);
        (actions, preparation)
    }

    /// The offer for a file was prepared, or could not be.
    pub fn prepared(&mut self, preparation: Preparation, offer: Result<FileOffer, String>) -> (r:
        Vec<Action<W::Out>>)
        requires
            old(self).wf(),
            W::half().has(preparation.id),
        ensures
            final(self).wf(),
            final(self).has() == old(self).has(),
            match offer {
                Ok(offer) => final(self).open() == (Open {
                    pending: old(self).open().pending.insert(
                        preparation.id,
                        (offer, preparation.path),
                    ),
                    ..old(self).open()
                }) && r@ == seq![Action::<W::Out>::Emit(NetEvent::OutgoingOffer(offer))] + sent(
                    W::message(Outgoing::Offer(offer)),
                ),
                Err(reason) => final(self).open() == old(self).open() && r@.len() == 1
                    && match r@[0] {
                    Action::Emit(NetEvent::TransferFailed { id, reason: words }) => id
                        == preparation.id && words@ == "không đọc được file: "@ + reason@,
                    _ => false,
                },
            },
    {
        let mut actions: Vec<Action<W::Out>> = Vec::new();
        match offer {
            Ok(offer) => {
                self.pending_out.insert(preparation.id, (copy_offer(&offer), preparation.path));
                actions.push(Action::Emit(NetEvent::OutgoingOffer(copy_offer(&offer))));
                actions.push(Action::Send(W::offer(offer)));
                assert(self.open().pending =~= old(self).open().pending.insert(
                    preparation.id,
                    (offer, preparation.path),
                ));
                assert(actions@ =~= seq![Action::<W::Out>::Emit(NetEvent::OutgoingOffer(offer))]
                    + sent(W::message(Outgoing::Offer(offer))));
            },
            Err(reason) => {
                let mut words: String = "không đọc được file: ".to_owned();
                words.append(reason.as_str());
                actions.push(
                    Action::Emit(NetEvent::TransferFailed { id: preparation.id, reason: words }),
                );
            },
        }
        actions
    }

    /// A stream of bytes for a file begins. Without an offer that was taken it is to be stopped,
    /// so that nobody pushes a gigabyte to where no one reads.
    pub fn stream(&mut self, id: u64) -> (r: Option<FileOffer>)
        requires
            old(self).wf(),
        ensures
            final(self).wf(),
            final(self).has() == old(self).has(),
            final(self).open() == (Open {
                accepted: old(self).open().accepted.remove(id),
                ..old(self).open()
            }),
            r == (if old(self).open().accepted.dom().contains(id) {
                Some(old(self).open().accepted[id])
            } else {
                None
            }),
    {
        let r = self.accepted_in.remove(&id);
        assert(self.open().accepted =~= old(self).open().accepted.remove(id));
        r
    }

    /// Every second: how the link is, and a ping. Only the end that shows the latency measures it.
    pub fn heartbeat(&self, stats: LinkStats, now_us: u64) -> (r: Vec<Action<W::Out>>)
        ensures
            r@ == seq![Action::<W::Out>::Emit(NetEvent::Link(stats))] + (if self.has().clock {
                sent(W::message(Outgoing::Ping(now_us)))
            } else {
                seq![]
            }),
    {
        let mut actions: Vec<Action<W::Out>> = Vec::new();
        actions.push(Action::Emit(NetEvent::Link(stats)));
        if self.hooks.clock {
            match W::ping(now_us) {
                Some(message) => {
                    actions.push(Action::Send(message));
                },
                None => {},
            }
        }
        assert(actions@ =~= seq![Action::<W::Out>::Emit(NetEvent::Link(stats))] + (
        if self.has().clock {
            sent(W::message(Outgoing::Ping(now_us)))
        } else {
            seq![]
        }));
        actions
    }
}

proof fn fewer(offered: Map<u64, FileOffer>, id: u64)
    requires
        offered.dom().finite(),
    ensures
        offered.remove(id).dom().len() <= offered.dom().len(),
{
    assert(offered.remove(id).dom() =~= offered.dom().remove(id));
}

/// A file that is sent and one that is received never have the same number.
pub proof fn numbers_never_clash<W: Wire>(open: Open, sent: u64, received: u64)
    requires
        open.halves_kept::<W>(),
        open.pending.dom().contains(sent),
        open.accepted.dom().contains(received) || open.offered.dom().contains(received),
    ensures
        sent != received,
{
}

/// No file leaves before the other end has taken it: its bytes are sent when the answer to its own
/// offer comes, and only once.
pub proof fn files_leave_when_taken<W: Wire>(
    open: Open,
    hooks: Hooks,
    incoming: Incoming,
    now_us: u64,
    i: int,
)
    requires
        0 <= i < open.read::<W>(hooks, incoming, now_us).actions.len(),
        open.read::<W>(hooks, incoming, now_us).actions[i] is SendFile,
    ensures
        match incoming {
            Incoming::Accept(id) => {
                let step = open.read::<W>(hooks, incoming, now_us);
                &&& open.pending.dom().contains(id)
                &&& step.actions[i]->SendFile_offer == open.pending[id].0
                &&& step.actions[i]->path == open.pending[id].1
                &&& !step.open.pending.dom().contains(id)
            },
            _ => false,
        },
{
}

/// Nothing that the user asks for sends a file by itself.
pub proof fn commands_send_no_file<W: Wire>(open: Open, command: UiCommand, i: int)
    requires
        0 <= i < open.command::<W>(command).actions.len(),
    ensures
        !(open.command::<W>(command).actions[i] is SendFile),
{
    if let UiCommand::Input(events) = command {
        inputs_are_messages::<W>(events@, i);
    }
}

proof fn inputs_are_messages<W: Wire>(events: Seq<InputEvent>, i: int)
    requires
        0 <= i < inputs::<W>(events).len(),
    ensures
        inputs::<W>(events)[i] is Send,
    decreases events.len(),
{
    if events.len() > 0 && i < inputs::<W>(events.drop_last()).len() {
        inputs_are_messages::<W>(events.drop_last(), i);
    }
}

/// No file is let in before the user has taken it: whatever the other end says, the files that are
/// let in stay the same, and of the commands only the one to take an offer adds that one.
pub proof fn files_enter_when_taken<W: Wire>(
    open: Open,
    hooks: Hooks,
    incoming: Incoming,
    now_us: u64,
    command: UiCommand,
    id: u64,
)
    ensures
        open.read::<W>(hooks, incoming, now_us).open.accepted == open.accepted,
        open.command::<W>(command).open.accepted.dom().contains(id) ==> {
            ||| open.accepted.dom().contains(id)
            ||| command == UiCommand::AcceptFile(id) && open.offered.dom().contains(id)
        },
{
}

/// The latency one way, once the clock knows the round trip.
pub fn latency(rtt_us: Option<u64>) -> (r: Option<NetEvent>)
    ensures
        r == (match rtt_us {
            Some(rtt) => Some(NetEvent::Latency(rtt / 2)),
            None => None,
        }),
{
    match rtt_us {
        Some(rtt) => Some(NetEvent::Latency(rtt / 2)),
        None => None,
    }
}

/// A file on its way in.
#[derive(Debug, Clone, Copy, PartialEq, Eq, Structural)]
pub struct Reception {
    pub id: u64,
    pub size: u64,
    /// What the sender was last told.
    pub acked: u64,
}

impl Reception {
    pub open spec fn owed(self, done: u64) -> bool {
        done - self.acked >= ACK_EVERY || done == self.size
    }

    /// So much is written. The user is told every time, the sender now and then and at the end.
    pub fn progress<W: Wire>(&mut self, done: u64) -> (r: Vec<Action<W::Out>>)
        requires
            old(self).acked <= done,
        ensures
            r@ == seq![
                Action::<W::Out>::Emit(NetEvent::TransferProgress { id: old(self).id, done }),
            ] + (if old(self).owed(done) {
                sent(
                    W::message(
                        Outgoing::Ack(
                            FileChunkAck { transfer_id: old(self).id, received_bytes: done },
                        ),
                    ),
                )
            } else {
                seq![]
            }),
            *final(self) == (Reception {
                acked: if old(self).owed(done) {
                    done
                } else {
                    old(self).acked
                },
                ..*old(self)
            }),
    {
        let mut actions: Vec<Action<W::Out>> = Vec::new();
        actions.push(Action::Emit(NetEvent::TransferProgress { id: self.id, done }));
        let ghost first = actions@;
        if done - self.acked >= ACK_EVERY || done == self.size {
            self.acked = done;
            let ack = FileChunkAck { transfer_id: self.id, received_bytes: done };
            actions.push(Action::Send(W::ack(ack)));
            assert(actions@ =~= first + sent(W::message(Outgoing::Ack(ack))));
        } else {
            assert(actions@ =~= first + Seq::<Action<W::Out>>::empty());
        }
        actions
    }
}

/// What the user is told at the end of a file.
pub fn finished(id: u64, result: Result<String, String>) -> (r: NetEvent)
    ensures
        r == (match result {
            Ok(path) => NetEvent::TransferDone { id, path },
            Err(reason) => NetEvent::TransferFailed { id, reason },
        }),
{
    match result {
        Ok(path) => NetEvent::TransferDone { id, path },
        Err(reason) => NetEvent::TransferFailed { id, reason },
    }
}

/// An offer of the other end reaches the user and stays open, where its number is of the other
/// end's half and fewer than 8 are open. Beyond 8 it is answered with a refusal, and one with a
/// number of our own half with silence. No other offer is touched.
pub proof fn offers_reach_the_user<W: Wire>(
    open: Open,
    hooks: Hooks,
    offer: FileOffer,
    now_us: u64,
)
    ensures
        ({
            let step = open.read::<W>(hooks, Incoming::Offer(offer), now_us);
            let theirs = (offer.transfer_id >= 0x8000_0000_0000_0000) == (W::half()
                == IdSpace::Host);
            &&& theirs && open.offered.dom().len() < 8 ==> {
                &&& step.open.offered.dom().contains(offer.transfer_id)
                &&& step.open.offered[offer.transfer_id] == offer
                &&& step.actions == seq![Action::<W::Out>::Emit(NetEvent::IncomingOffer(offer))]
            }
            &&& theirs && open.offered.dom().len() >= 8 ==> step.open.offered == open.offered
                && match W::message(Outgoing::Reject(offer.transfer_id)) {
                Some(no) => step.actions == seq![Action::<W::Out>::Send(no)],
                None => step.actions.len() == 0,
            }
            &&& !theirs ==> step.open.offered == open.offered && step.actions.len() == 0
            &&& forall|id: u64|
                id != offer.transfer_id ==> (#[trigger] step.open.offered.dom().contains(id)
                    == open.offered.dom().contains(id)) && step.open.offered[id]
                    == open.offered[id]
            &&& step.open.pending == open.pending
            &&& step.open.accepted == open.accepted
            &&& step.open.counter == open.counter
        }),
{
}

/// The answer to our own offer: where it is taken, the user hears of it and the file that was
/// offered leaves, from where it lies, and the offer is no longer open; where it is turned down,
/// the user hears of it, and the offer is no longer open. An answer to what we never offered
/// sends nothing. No other offer is touched.
pub proof fn answers_close_our_offer<W: Wire>(open: Open, hooks: Hooks, id: u64, now_us: u64)
    ensures
        ({
            let yes = open.read::<W>(hooks, Incoming::Accept(id), now_us);
            let no = open.read::<W>(hooks, Incoming::Reject(id), now_us);
            &&& open.pending.dom().contains(id) ==> yes.actions.len() == 2 && yes.actions[0]
                == Action::<W::Out>::Emit(NetEvent::TransferAccepted(id)) && (
            yes.actions[1] matches Action::SendFile { offer, path } && offer == open.pending[id].0
                && path == open.pending[id].1)
            &&& !open.pending.dom().contains(id) ==> yes.actions.len() == 0
            &&& no.actions == seq![Action::<W::Out>::Emit(NetEvent::TransferRejected(id))]
            &&& !yes.open.pending.dom().contains(id)
            &&& !no.open.pending.dom().contains(id)
            &&& forall|k: u64|
                k != id ==> (#[trigger] yes.open.pending.dom().contains(k)
                    == open.pending.dom().contains(k)) && yes.open.pending[k] == open.pending[k]
            &&& forall|k: u64|
                k != id ==> (#[trigger] no.open.pending.dom().contains(k)
                    == open.pending.dom().contains(k)) && no.open.pending[k] == open.pending[k]
            &&& yes.open.offered == open.offered && no.open.offered == open.offered
            &&& yes.open.accepted == open.accepted && no.open.accepted == open.accepted
            &&& yes.open.counter == open.counter && no.open.counter == open.counter
        }),
{
}

/// Everything else that the other end says leaves the offers as they are, and is handed on as it
/// was said to the one part that it is for: the user, the system, the encoder, or the clock.
pub proof fn messages_are_handed_on<W: Wire>(
    open: Open,
    hooks: Hooks,
    incoming: Incoming,
    now_us: u64,
)
    requires
        !(incoming is Offer || incoming is Accept || incoming is Reject),
    ensures
        ({
            let step = open.read::<W>(hooks, incoming, now_us);
            let act = step.actions;
            &&& step.open == open
            &&& act.len() <= 1
            &&& incoming matches Incoming::Chat(m) ==> act.len() == 1 && act[0]
                == Action::<W::Out>::Emit(NetEvent::Chat(m))
            &&& incoming matches Incoming::Clipboard(t) ==> act.len() == 1 && act[0]
                == Action::<W::Out>::Emit(NetEvent::Clipboard(t))
            &&& incoming matches Incoming::Ack(ack) ==> act.len() == 1 && (
            act[0] matches Action::Emit(NetEvent::TransferProgress { id, done }) && id
                == ack.transfer_id && done == ack.received_bytes)
            &&& incoming matches Incoming::Input(event) ==> (act.len() == 1 <==> hooks.input) && (
            hooks.input ==> act[0] == Action::<W::Out>::Inject(event))
            &&& incoming is Keyframe ==> (act.len() == 1 <==> hooks.keyframe) && (hooks.keyframe
                ==> act[0] is Keyframe)
            &&& incoming matches Incoming::Quality(wish) ==> (act.len() == 1 <==> hooks.bitrate) && (
            hooks.bitrate ==> act[0] == Action::<W::Out>::Bitrate(wish.target_bitrate_kbps))
            &&& incoming matches Incoming::Ping { sent_us } ==> match W::message(
                Outgoing::Pong(sent_us, now_us),
            ) {
                Some(answer) => act.len() == 1 && act[0] == Action::<W::Out>::Send(answer),
                None => act.len() == 0,
            }
            &&& incoming matches Incoming::Pong { sent_us, host_us } ==> (act.len() == 1
                <==> hooks.clock) && (hooks.clock ==> (act[0] matches Action::Clock {
                sent_us: sent,
                host_us: there,
                now_us: now,
            } && sent == sent_us && there == host_us && now == now_us))
            &&& incoming matches Incoming::Error(words) ==> act.len() == 1 && act[0]
                == Action::<W::Out>::Fail(words)
            &&& incoming is Disconnect ==> act.len() == 1 && act[0] is Close
            &&& incoming is Ignored ==> act.len() == 0
        }),
{
}

/// Whether a list of actions is just this message, where the direction has it.
pub open spec fn just<O>(actions: Seq<Action<O>>, message: Option<O>) -> bool {
    match message {
        Some(m) => actions.len() == 1 && actions[0] == Action::Send(m),
        None => actions.len() == 0,
    }
}

/// What the user asks for goes out as one message that says just that, where the direction has it.
/// A new bit rate changes nothing else in the quality that is asked for.
pub proof fn commands_go_out_as_they_are<W: Wire>(
    open: Open,
    message: ChatMessage,
    text: String,
    kbps: u32,
)
    ensures
        just(
            open.command::<W>(UiCommand::Chat(message)).actions,
            W::message(Outgoing::Chat(message)),
        ),
        just(
            open.command::<W>(UiCommand::Clipboard(text)).actions,
            W::message(Outgoing::Clipboard(text)),
        ),
        just(
            open.command::<W>(UiCommand::RequestKeyframe).actions,
            W::message(Outgoing::Keyframe),
        ),
        just(
            open.command::<W>(UiCommand::SetBitrate(kbps)).actions,
            W::message(
                Outgoing::Quality(
                    QualityRequest {
                        codec: crate::protocol::control::Codec::Hevc,
                        chroma: crate::protocol::control::ChromaSubsampling::Yuv444,
                        target_bitrate_kbps: kbps,
                        target_fps: 60,
                        max_dimension: None,
                    },
                ),
            ),
        ),
        open.command::<W>(UiCommand::Chat(message)).open == open,
        open.command::<W>(UiCommand::Clipboard(text)).open == open,
        open.command::<W>(UiCommand::RequestKeyframe).open == open,
        open.command::<W>(UiCommand::SetBitrate(kbps)).open == open,
{
}

/// The user's answer to an offer: taken, it is open no longer and its file is let in, and the other
/// end is told; turned down, it is open no longer, and the other end is told. What was never
/// offered cannot be taken. No other offer is touched.
pub proof fn the_user_answers_offers<W: Wire>(open: Open, id: u64)
    ensures
        ({
            let yes = open.command::<W>(UiCommand::AcceptFile(id));
            let no = open.command::<W>(UiCommand::RejectFile(id));
            &&& open.offered.dom().contains(id) ==> {
                &&& !yes.open.offered.dom().contains(id)
                &&& yes.open.accepted.dom().contains(id)
                &&& yes.open.accepted[id] == open.offered[id]
                &&& just(yes.actions, W::message(Outgoing::Accept(id)))
            }
            &&& !open.offered.dom().contains(id) ==> yes.open == open && yes.actions.len() == 0
            &&& !no.open.offered.dom().contains(id)
            &&& just(no.actions, W::message(Outgoing::Reject(id)))
            &&& no.open.accepted == open.accepted
            &&& forall|k: u64|
                k != id ==> (#[trigger] yes.open.offered.dom().contains(k)
                    == open.offered.dom().contains(k)) && yes.open.offered[k] == open.offered[k]
            &&& forall|k: u64|
                k != id ==> (#[trigger] yes.open.accepted.dom().contains(k)
                    == open.accepted.dom().contains(k)) && yes.open.accepted[k]
                    == open.accepted[k]
            &&& forall|k: u64|
                k != id ==> (#[trigger] no.open.offered.dom().contains(k)
                    == open.offered.dom().contains(k)) && no.open.offered[k] == open.offered[k]
            &&& yes.open.pending == open.pending && no.open.pending == open.pending
            &&& yes.open.counter == open.counter && no.open.counter == open.counter
        }),
{
}

/// Input goes out event by event, in its order, and nothing else does.
pub proof fn input_goes_out_in_order<W: Wire>(open: Open, events: Vec<InputEvent>, i: int)
    requires
        0 <= i < events@.len(),
        forall|k: int|
            0 <= k < events@.len() ==> (#[trigger] W::message(Outgoing::Input(events@[k]))) is Some,
    ensures
        ({
            let step = open.command::<W>(UiCommand::Input(events));
            &&& step.open == open
            &&& step.actions.len() == events@.len()
            &&& step.actions[i] == Action::<W::Out>::Send(
                W::message(Outgoing::Input(events@[i]))->0,
            )
        }),
{
    each_input_once::<W>(events@, i);
}

proof fn each_input_once<W: Wire>(events: Seq<InputEvent>, i: int)
    requires
        0 <= i < events.len(),
        forall|k: int|
            0 <= k < events.len() ==> (#[trigger] W::message(Outgoing::Input(events[k]))) is Some,
    ensures
        inputs::<W>(events).len() == events.len(),
        inputs::<W>(events)[i] == Action::<W::Out>::Send(W::message(Outgoing::Input(events[i]))->0),
    decreases events.len(),
{
    let front = events.drop_last();
    assert(W::message(Outgoing::Input(events[events.len() - 1])) is Some);
    assert forall|k: int| 0 <= k < front.len() implies (#[trigger] W::message(
        Outgoing::Input(front[k]),
    )) is Some by {
        assert(W::message(Outgoing::Input(events[k])) is Some);
    }
    if front.len() > 0 {
        each_input_once::<W>(
            front,
            if i < front.len() {
                i
            } else {
                0
            },
        );
    } else {
        assert(inputs::<W>(front).len() == 0);
    }
}

/// A file to send only takes the next number; nothing goes out before it is prepared.
pub proof fn files_to_send_take_a_number<W: Wire>(open: Open, path: String)
    ensures
        ({
            let step = open.command::<W>(UiCommand::SendFile(path));
            &&& step.actions.len() == 0
            &&& open.counter < 0xffff_ffff_ffff_ffff ==> step.open.counter == open.counter + 1
            &&& step.open.pending == open.pending
            &&& step.open.offered == open.offered
            &&& step.open.accepted == open.accepted
        }),
{
    crate::number::counters_grow(open.counter, 1);
}

/// The sender hears of every mebibyte, and of the end.
pub proof fn the_sender_hears_of_mebibytes(reception: Reception, done: u64)
    requires
        reception.acked <= done,
    ensures
        reception.owed(done) <==> done == reception.size || done >= reception.acked + 1024 * 1024,
{
}

/// An offer that was prepared goes to the user and to the other end, and stays open with where its
/// file lies; one that could not be is told as a failure, and nothing stays open.
pub proof fn prepared_offers_go_out<W: Wire>(
    link: &mut Link<W>,
    preparation: Preparation,
    offer: Result<FileOffer, String>,
    r: Vec<Action<W::Out>>,
)
    requires
        old(link).wf(),
        W::half().has(preparation.id),
        call_ensures(Link::<W>::prepared, (link, preparation, offer), r),
    ensures
        offer matches Ok(told) ==> {
            &&& final(link).open().pending.dom().contains(preparation.id)
            &&& final(link).open().pending[preparation.id].0 == told
            &&& final(link).open().pending[preparation.id].1 == preparation.path
            &&& r@.len() >= 1
            &&& r@[0] == Action::<W::Out>::Emit(NetEvent::OutgoingOffer(told))
            &&& W::message(Outgoing::Offer(told)) matches Some(m) ==> r@.len() == 2 && r@[1]
                == Action::<W::Out>::Send(m)
        },
        offer matches Err(why) ==> {
            &&& final(link).open() == old(link).open()
            &&& r@.len() == 1
            &&& r@[0] matches Action::Emit(NetEvent::TransferFailed { id, reason })
            &&& id == preparation.id
            &&& reason@ == "không đọc được file: "@ + why@
        },
        final(link).open().offered == old(link).open().offered,
        final(link).open().accepted == old(link).open().accepted,
        forall|id: u64|
            id != preparation.id ==> (#[trigger] final(link).open().pending.dom().contains(id)
                == old(link).open().pending.dom().contains(id)),
{
}

/// The bytes of a file are let in once, and only of one that the user took.
pub proof fn bytes_are_let_in_once<W: Wire>(
    first: &mut Link<W>,
    second: &mut Link<W>,
    id: u64,
    one: Option<FileOffer>,
    two: Option<FileOffer>,
)
    requires
        old(first).wf(),
        call_ensures(Link::<W>::stream, (first, id), one),
        *old(second) == *final(first),
        call_ensures(Link::<W>::stream, (second, id), two),
    ensures
        one is Some <==> old(first).open().accepted.dom().contains(id),
        one matches Some(offer) ==> offer == old(first).open().accepted[id],
        two is None,
        final(first).open().offered == old(first).open().offered,
        final(first).open().pending == old(first).open().pending,
{
}

/// How far a file has come is told to the user every time, and to the sender every mebibyte and at
/// the end.
pub proof fn progress_is_told<W: Wire>(
    reception: &mut Reception,
    done: u64,
    r: Vec<Action<W::Out>>,
)
    requires
        old(reception).acked <= done,
        call_ensures(Reception::progress::<W>, (reception, done), r),
    ensures
        r@.len() >= 1,
        r@[0] matches Action::Emit(NetEvent::TransferProgress { id, done: so_far }) && id == old(reception).id && so_far == done,
        ({
            let due = done == old(reception).size || done >= old(reception).acked + 1_048_576;
            &&& due ==> final(reception).acked == done
            &&& !due ==> final(reception).acked == old(reception).acked && r@.len() == 1
            &&& due ==> (W::message(
                Outgoing::Ack(
                    FileChunkAck { transfer_id: old(reception).id, received_bytes: done },
                ),
            ) matches Some(m) ==> r@.len() == 2 && r@[1] == Action::<W::Out>::Send(m))
        }),
        final(reception).id == old(reception).id,
        final(reception).size == old(reception).size,
{
}

/// What a message asks for is what its meaning asks for, whichever end reads it; input, keyframes
/// and rates only where this end has them.
pub proof fn messages_are_read_by_their_meaning<W: Wire>(
    link: &mut Link<W>,
    message: W::In,
    now_us: u64,
    r: Vec<Action<W::Out>>,
)
    requires
        old(link).wf(),
        call_ensures(Link::<W>::read, (link, message, now_us), r),
    ensures
        W::meaning(message) matches Incoming::Chat(said) ==> r@ == seq![
            Action::<W::Out>::Emit(NetEvent::Chat(said)),
        ] && final(link).open() == old(link).open(),
        W::meaning(message) matches Incoming::Clipboard(text) ==> r@ == seq![
            Action::<W::Out>::Emit(NetEvent::Clipboard(text)),
        ] && final(link).open() == old(link).open(),
        W::meaning(message) matches Incoming::Input(event) ==> r@ == (if old(link).has().input {
            seq![Action::<W::Out>::Inject(event)]
        } else {
            seq![]
        }),
        W::meaning(message) matches Incoming::Quality(wish) ==> r@ == (if old(link).has().bitrate {
            seq![Action::<W::Out>::Bitrate(wish.target_bitrate_kbps)]
        } else {
            seq![]
        }),
        W::meaning(message) is Keyframe && old(link).has().keyframe ==> r@ == seq![
            Action::<W::Out>::Keyframe,
        ],
        W::meaning(message) is Disconnect ==> r@ == seq![Action::<W::Out>::Close],
        W::meaning(message) matches Incoming::Error(words) ==> r@ == seq![
            Action::<W::Out>::Fail(words),
        ],
        final(link).open().accepted == old(link).open().accepted,
        final(link).has() == old(link).has(),
{
}

/// The user's answer to an offer: taken, the other end is told and its bytes are let in; turned
/// down, the other end is told. Either way it is open no more.
pub proof fn answers_are_sent<W: Wire>(
    yes: &mut Link<W>,
    no: &mut Link<W>,
    id: u64,
    took: (Vec<Action<W::Out>>, Option<Preparation>),
    turned_down: (Vec<Action<W::Out>>, Option<Preparation>),
)
    requires
        old(yes).wf(),
        old(no).wf(),
        old(yes).open().offered.dom().contains(id),
        call_ensures(Link::<W>::command, (yes, UiCommand::AcceptFile(id)), took),
        call_ensures(Link::<W>::command, (no, UiCommand::RejectFile(id)), turned_down),
    ensures
        final(yes).open().accepted.dom().contains(id),
        final(yes).open().accepted[id] == old(yes).open().offered[id],
        !final(yes).open().offered.dom().contains(id),
        !final(no).open().offered.dom().contains(id),
        final(no).open().accepted == old(no).open().accepted,
        W::message(Outgoing::Accept(id)) matches Some(m) ==> took.0@ == seq![
            Action::<W::Out>::Send(m),
        ],
        W::message(Outgoing::Reject(id)) matches Some(m) ==> turned_down.0@ == seq![
            Action::<W::Out>::Send(m),
        ],
{
}

/// The delay one way is half of the round trip; an ending says which file it was and what became of
/// it.
pub proof fn one_way_is_half(
    rtt_us: Option<u64>,
    told: Option<NetEvent>,
    id: u64,
    result: Result<String, String>,
    end: NetEvent,
)
    requires
        call_ensures(latency, (rtt_us,), told),
        call_ensures(finished, (id, result), end),
    ensures
        told is Some <==> rtt_us is Some,
        rtt_us matches Some(rtt) ==> (told matches Some(NetEvent::Latency(way)) && 2 * way <= rtt
            <= 2 * way + 1),
        result matches Ok(path) ==> end == (NetEvent::TransferDone { id, path }),
        result matches Err(reason) ==> end == (NetEvent::TransferFailed { id, reason }),
{
}

/// A link begins with nothing offered, nothing accepted and no number given out. Each beat tells how
/// the link is, and asks for the time where there is a clock.
pub proof fn links_begin_empty<W: Wire>(
    hooks: Hooks,
    link: Link<W>,
    stats: LinkStats,
    now_us: u64,
    r: Vec<Action<W::Out>>,
)
    requires
        call_ensures(Link::<W>::new, (hooks,), link),
        call_ensures(Link::<W>::heartbeat, (&link, stats, now_us), r),
    ensures
        link.has() == hooks,
        link.open().counter == 0,
        forall|id: u64| !#[trigger] link.open().pending.contains_key(id),
        forall|id: u64| !#[trigger] link.open().offered.contains_key(id),
        forall|id: u64| !#[trigger] link.open().accepted.contains_key(id),
        r@.len() >= 1 && r@[0] == Action::<W::Out>::Emit(NetEvent::Link(stats)),
        !hooks.clock ==> r@.len() == 1,
        hooks.clock ==> r@.skip(1) == sent(W::message(Outgoing::Ping(now_us))),
{
    if hooks.clock {
        assert(r@.skip(1) =~= sent(W::message(Outgoing::Ping(now_us))));
    }
}

} // verus!
