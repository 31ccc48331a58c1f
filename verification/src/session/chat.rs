//! The chat: its history, what is unread, and cleaning what the other end wrote.
//!
//! A message that comes in was written by somebody else and is drawn on the screen. So it is cut
//! to a length and loses its control characters first.

use vstd::prelude::*;
use vstd::string::StringExecFns;

use crate::clock::now_ms;
use crate::protocol::control::ChatMessage;
use crate::text::{
    byte_len, chars_of, control, fit, fitting, fitting_is_longest, is_control, trim, trimmed,
};

verus! {

/// Longest message, in bytes of UTF-8.
pub const MAX_CHAT_BODY: usize = 4000;

/// Messages kept; older ones fall out.
pub const HISTORY_LIMIT: usize = 500;

/// Longest name of a sender, in bytes of UTF-8.
pub const MAX_NAME: usize = 64;

#[derive(Debug)]
pub struct ChatLog {
    entries: Vec<ChatMessage>,
    unread: usize,
}

/// A text without its control characters; line breaks stay where `lines` says so.
pub open spec fn without_control(s: Seq<char>, lines: bool) -> Seq<char>
    decreases s.len(),
{
    if s.len() == 0 {
        s
    } else {
        let front = without_control(s.drop_last(), lines);
        if control(s.last()) && !(lines && s.last() == '\n') {
            front
        } else {
            front.push(s.last())
        }
    }
}

/// A message as it is kept; `None` where nothing is left of it.
pub open spec fn cleaned(body: Seq<char>) -> Option<Seq<char>> {
    let trimmed_body = trimmed(body);
    let out = fitting(without_control(trimmed_body, true), MAX_CHAT_BODY as int);
    if trimmed_body.len() == 0 || trimmed(out).len() == 0 {
        None
    } else {
        Some(out)
    }
}

/// A sender's name as it is kept.
pub open spec fn cleaned_name(from: Seq<char>) -> Seq<char> {
    let name = fitting(without_control(trimmed(from), false), MAX_NAME as int);
    if name.len() == 0 {
        seq!['?']
    } else {
        name
    }
}

fn strip_control(s: &str, lines: bool) -> (v: Vec<char>)
    ensures
        v@ == without_control(s@, lines),
{
    let chars: Vec<char> = chars_of(s);
    let mut v: Vec<char> = Vec::new();
    let mut i: usize = 0;
    while i < chars.len()
        invariant
            i <= chars@.len(),
            v@ == without_control(chars@.take(i as int), lines),
        decreases chars@.len() - i,
    {
        let c: char = chars[i];
        assert(chars@.take(i as int + 1).drop_last() =~= chars@.take(i as int));
        if !is_control(c) || (lines && c == '\n') {
            v.push(c);
        }
        i += 1;
    }
    assert(chars@.take(i as int) =~= chars@);
    v
}

fn clean(body: &str) -> (r: Option<String>)
    ensures
        match r {
            Some(s) => cleaned(body@) == Some(s@),
            None => cleaned(body@) is None,
        },
{
    let trimmed_body: String = trim(body);
    if trimmed_body.as_str().is_empty() {
        return None;
    }
    let chars: Vec<char> = strip_control(trimmed_body.as_str(), true);
    let out: String = fit(&chars, MAX_CHAT_BODY);
    if trim(out.as_str()).as_str().is_empty() {
        None
    } else {
        Some(out)
    }
}

fn clean_name(from: &str) -> (r: String)
    ensures
        r@ == cleaned_name(from@),
{
    let chars: Vec<char> = strip_control(trim(from).as_str(), false);
    let name: String = fit(&chars, MAX_NAME);
    if name.as_str().is_empty() {
        let mut unknown: String = String::new();
        unknown.push('?');
        assert(unknown@ =~= seq!['?']);
        unknown
    } else {
        name
    }
}

/// One more entry; the oldest falls out where the history is full.
pub open spec fn appended(entries: Seq<ChatMessage>, message: ChatMessage) -> Seq<ChatMessage> {
    if entries.len() == HISTORY_LIMIT {
        entries.drop_first().push(message)
    } else {
        entries.push(message)
    }
}

/// What happens to a log.
pub ghost enum Call {
    /// A message of our own was composed.
    Composed(ChatMessage),
    /// A message of the other end was taken in, as it was kept.
    Received(ChatMessage),
    /// A message of either end of which nothing was left.
    Refused,
    MarkedRead,
}

/// What a log holds.
#[verifier::ext_equal]
pub ghost struct Log {
    pub entries: Seq<ChatMessage>,
    pub unread: nat,
}

impl Log {
    pub open spec fn empty() -> Log {
        Log { entries: seq![], unread: 0 }
    }

    pub open spec fn after(self, call: Call) -> Log {
        match call {
            Call::Composed(m) => Log { entries: appended(self.entries, m), ..self },
            Call::Received(m) => Log {
                entries: appended(self.entries, m),
                unread: self.unread + 1,
            },
            Call::Refused => self,
            Call::MarkedRead => Log { unread: 0, ..self },
        }
    }

    /// A new log after some calls.
    pub open spec fn after_all(calls: Seq<Call>) -> Log
        decreases calls.len(),
    {
        if calls.len() == 0 {
            Log::empty()
        } else {
            Log::after_all(calls.drop_last()).after(calls.last())
        }
    }
}

/// The messages of the calls that were accepted, in their order.
pub open spec fn accepted(calls: Seq<Call>) -> Seq<ChatMessage>
    decreases calls.len(),
{
    if calls.len() == 0 {
        seq![]
    } else {
        match calls.last() {
            Call::Composed(m) => accepted(calls.drop_last()).push(m),
            Call::Received(m) => accepted(calls.drop_last()).push(m),
            _ => accepted(calls.drop_last()),
        }
    }
}

/// Whatever is done to a log, it holds the last messages that were accepted, oldest first: all of
/// them up to the limit, and then that many.
pub proof fn history_is_the_last_messages(calls: Seq<Call>)
    ensures
        ({
            let all = accepted(calls);
            let kept = if all.len() < HISTORY_LIMIT {
                all.len()
            } else {
                HISTORY_LIMIT as nat
            };
            &&& Log::after_all(calls).entries.len() == kept
            &&& Log::after_all(calls).entries == all.skip(all.len() - kept)
        }),
    decreases calls.len(),
{
    if calls.len() == 0 {
        assert(accepted(calls).skip(0) =~= Log::after_all(calls).entries);
    } else {
        let front = calls.drop_last();
        history_is_the_last_messages(front);
        let before = accepted(front);
        let all = accepted(calls);
        let held = Log::after_all(front).entries;
        let holds = Log::after_all(calls).entries;
        if all.len() > before.len() {
            assert(holds == appended(held, all.last()));
            if held.len() == HISTORY_LIMIT {
                assert(holds =~= all.skip(all.len() - HISTORY_LIMIT));
            } else {
                assert(holds =~= all.skip(0));
            }
        }
    }
}

/// How many of the calls took in a message of the other end.
pub open spec fn received(calls: Seq<Call>) -> nat {
    calls.filter(|c: Call| c is Received).len()
}

/// What is unread are the messages of the other end that came since the log was last read, at call
/// `read - 1`, or since it was new; our own messages and refused ones do not count.
pub proof fn unread_is_what_came_since(calls: Seq<Call>, read: int)
    requires
        0 <= read <= calls.len(),
        read > 0 ==> calls[read - 1] is MarkedRead,
        forall|i: int| read <= i < calls.len() ==> !(#[trigger] calls[i] is MarkedRead),
    ensures
        Log::after_all(calls).unread == received(calls.skip(read)),
    decreases calls.len(),
{
    let came = |c: Call| c is Received;
    let since = calls.skip(read);
    reveal(Seq::filter);
    if read == calls.len() {
        assert(since =~= seq![]);
    } else {
        let front = calls.drop_last();
        assert forall|i: int| read <= i < front.len() implies !(#[trigger] front[i]
            is MarkedRead) by {
            assert(front[i] == calls[i]);
        }
        unread_is_what_came_since(front, read);
        assert(since.drop_last() =~= front.skip(read));
        assert(since.last() == calls.last());
        assert(since.filter(came) == if came(since.last()) {
            since.drop_last().filter(came).push(since.last())
        } else {
            since.drop_last().filter(came)
        });
    }
}

impl Default for ChatLog {
    fn default() -> (r: Self)
        ensures
            r.wf(),
            r.log() == Seq::<ChatMessage>::empty(),
            r.unread_count() == 0,
    {
        Self::new()
    }
}

impl ChatLog {
    pub closed spec fn log(&self) -> Seq<ChatMessage> {
        self.entries@
    }

    pub closed spec fn unread_count(&self) -> nat {
        self.unread as nat
    }

    pub open spec fn state(&self) -> Log {
        Log { entries: self.log(), unread: self.unread_count() }
    }

    /// The history never grows over its limit.
    pub open spec fn wf(&self) -> bool {
        self.log().len() <= HISTORY_LIMIT
    }

    pub fn new() -> (r: Self)
        ensures
            r.wf(),
            r.log() == Seq::<ChatMessage>::empty(),
            r.unread_count() == 0,
            r.state() == Log::empty(),
    {
        ChatLog { entries: Vec::new(), unread: 0 }
    }

    /// The messages, the oldest first.
    pub fn entries(&self) -> (r: &[ChatMessage])
        ensures
            r@ == self.log(),
    {
        self.entries.as_slice()
    }

    pub fn len(&self) -> (r: usize)
        ensures
            r == self.log().len(),
    {
        self.entries.len()
    }

    pub fn is_empty(&self) -> (r: bool)
        ensures
            r == (self.log().len() == 0),
    {
        self.entries.len() == 0
    }

    pub fn unread(&self) -> (r: usize)
        ensures
            r == self.unread_count(),
    {
        self.unread
    }

    pub fn mark_read(&mut self)
        ensures
            final(self).log() == old(self).log(),
            final(self).unread_count() == 0,
            final(self).state() == old(self).state().after(Call::MarkedRead),
    {
        self.unread = 0;
    }

    /// Makes a message of our own out of what was typed, dated now. `None` where nothing is left
    /// of it: Enter pressed by mistake sends no empty line. Our own messages are never unread.
    pub fn compose(&mut self, from: &str, body: &str) -> (r: Option<ChatMessage>)
        requires
            old(self).wf(),
        ensures
            final(self).wf(),
            final(self).unread_count() == old(self).unread_count(),
            match cleaned(body@) {
                None => r is None && final(self).log() == old(self).log(),
                Some(text) => {
                    &&& r matches Some(m)
                    &&& m.from@ == from@
                    &&& m.body@ == text
                    &&& final(self).log() == appended(old(self).log(), m)
                },
            },
            final(self).state() == old(self).state().after(
                match r {
                    Some(m) => Call::Composed(m),
                    None => Call::Refused,
                },
            ),
    {
        let body: String = match clean(body) {
            Some(body) => body,
            None => return None,
        };
        let sent_at_ms: u64 = now_ms();
        let from: String = from.to_owned();
        let kept: ChatMessage = ChatMessage { from: from.clone(), body: body.clone(), sent_at_ms };
        self.push(kept);
        Some(ChatMessage { from, body, sent_at_ms })
    }

    /// Takes in a message of the other end. `false` where nothing was left of it.
    pub fn receive(&mut self, message: ChatMessage) -> (r: bool)
        requires
            old(self).wf(),
            old(self).unread_count() < usize::MAX,
        ensures
            final(self).wf(),
            r == cleaned(message.body@) is Some,
            !r ==> final(self).log() == old(self).log() && final(self).unread_count() == old(self).unread_count(),
            r ==> ({
                let kept = final(self).log().last();
                &&& final(self).log() == appended(old(self).log(), kept)
                &&& cleaned(message.body@) == Some(kept.body@)
                &&& kept.from@ == cleaned_name(message.from@)
                &&& kept.sent_at_ms == message.sent_at_ms
                &&& final(self).unread_count() == old(self).unread_count() + 1
            }),
            final(self).state() == old(self).state().after(
                if r {
                    Call::Received(final(self).log().last())
                } else {
                    Call::Refused
                },
            ),
    {
        let body: String = match clean(message.body.as_str()) {
            Some(body) => body,
            None => return false,
        };
        let from: String = clean_name(message.from.as_str());
        self.push(ChatMessage { from, body, sent_at_ms: message.sent_at_ms });
        self.unread = self.unread + 1;
        true
    }

    fn push(&mut self, message: ChatMessage)
        requires
            old(self).wf(),
        ensures
            final(self).wf(),
            final(self).log() == appended(old(self).log(), message),
            final(self).log().last() == message,
            final(self).unread_count() == old(self).unread_count(),
    {
        if self.entries.len() == HISTORY_LIMIT {
            let _ = self.entries.remove(0);
            assert(self.entries@ =~= old(self).entries@.drop_first());
        }
        self.entries.push(message);
    }
}

proof fn without_control_has_none(s: Seq<char>, lines: bool)
    ensures
        forall|i: int|
            0 <= i < without_control(s, lines).len() ==> !control(
                #[trigger] without_control(s, lines)[i],
            ) || (lines && without_control(s, lines)[i] == '\n'),
    decreases s.len(),
{
    if s.len() > 0 {
        without_control_has_none(s.drop_last(), lines);
        let front = without_control(s.drop_last(), lines);
        let all = without_control(s, lines);
        assert forall|i: int| 0 <= i < all.len() implies !control(#[trigger] all[i]) || (lines
            && all[i] == '\n') by {
            if i < front.len() {
                assert(all[i] == front[i]);
            }
        }
    }
}

/// What is kept of a message fits the limit, holds no control character but line breaks, and is
/// not blank.
pub proof fn messages_are_harmless(body: Seq<char>)
    ensures
        cleaned(body) matches Some(text) ==> {
            &&& byte_len(text) <= MAX_CHAT_BODY
            &&& forall|i: int|
                0 <= i < text.len() ==> !control(#[trigger] text[i]) || text[i] == '\n'
            &&& trimmed(text).len() > 0
        },
{
    let s = without_control(trimmed(body), true);
    without_control_has_none(trimmed(body), true);
    fitting_is_longest(s, MAX_CHAT_BODY as int);
    let text = fitting(s, MAX_CHAT_BODY as int);
    assert forall|i: int| 0 <= i < text.len() implies !control(#[trigger] text[i]) || text[i]
        == '\n' by {
        assert(text[i] == s[i]);
    }
}

/// What is kept of a name fits the limit, holds no control character, and is never empty.
pub proof fn names_are_harmless(from: Seq<char>)
    ensures
        0 < cleaned_name(from).len(),
        byte_len(cleaned_name(from)) <= MAX_NAME,
        forall|i: int|
            0 <= i < cleaned_name(from).len() ==> !control(#[trigger] cleaned_name(from)[i]),
{
    let s = without_control(trimmed(from), false);
    without_control_has_none(trimmed(from), false);
    fitting_is_longest(s, MAX_NAME as int);
    let name = fitting(s, MAX_NAME as int);
    assert forall|i: int| 0 <= i < name.len() implies !control(#[trigger] name[i]) by {
        assert(name[i] == s[i]);
    }
    if name.len() == 0 {
        reveal_with_fuel(vstd::utf8::encode_utf8, 2);
    }
}

/// Of a message's characters only control characters go, and of those line breaks stay; the order
/// stays.
pub proof fn messages_keep_their_lines(s: Seq<char>)
    ensures
        without_control(s, true) == s.filter(|c: char| !control(c) || c == '\n'),
    decreases s.len(),
{
    reveal(Seq::filter);
    if s.len() > 0 {
        messages_keep_their_lines(s.drop_last());
    }
}

/// Of a name's characters only control characters go; the order stays.
pub proof fn names_keep_one_line(s: Seq<char>)
    ensures
        without_control(s, false) == s.filter(|c: char| !control(c)),
    decreases s.len(),
{
    reveal(Seq::filter);
    if s.len() > 0 {
        names_keep_one_line(s.drop_last());
    }
}

proof fn clean_texts_stay(s: Seq<char>, lines: bool)
    requires
        forall|i: int| 0 <= i < s.len() ==> !control(#[trigger] s[i]) || (lines && s[i] == '\n'),
    ensures
        without_control(s, lines) == s,
    decreases s.len(),
{
    if s.len() > 0 {
        assert(!control(s[s.len() - 1]) || (lines && s[s.len() - 1] == '\n'));
        let front = s.drop_last();
        assert forall|i: int| 0 <= i < front.len() implies !control(#[trigger] front[i]) || (lines
            && front[i] == '\n') by {
            assert(front[i] == s[i]);
        }
        clean_texts_stay(front, lines);
        assert(front.push(s.last()) =~= s);
    }
}

/// A message without control characters other than line breaks, without white space around it and
/// of at most 4000 bytes is kept to the letter.
pub proof fn good_messages_are_kept_to_the_letter(body: Seq<char>)
    requires
        body.len() > 0,
        !crate::text::white(body[0]),
        !crate::text::white(body.last()),
        forall|i: int| 0 <= i < body.len() ==> !control(#[trigger] body[i]) || body[i] == '\n',
        byte_len(body) <= 4000,
    ensures
        cleaned(body) == Some(body),
{
    crate::text::only_the_ends_are_trimmed(body);
    clean_texts_stay(body, true);
    fitting_is_longest(body, 4000);
}

/// A name without control characters, without white space around it and of at most 64 bytes is kept
/// to the letter.
pub proof fn good_names_are_kept_to_the_letter(from: Seq<char>)
    requires
        from.len() > 0,
        !crate::text::white(from[0]),
        !crate::text::white(from.last()),
        forall|i: int| 0 <= i < from.len() ==> !control(#[trigger] from[i]),
        byte_len(from) <= 64,
    ensures
        cleaned_name(from) == from,
{
    crate::text::only_the_ends_are_trimmed(from);
    clean_texts_stay(from, false);
    fitting_is_longest(from, 64);
}

/// What is kept of any message is a beginning of what is left without the ends and the control
/// characters, and all of it that 4000 bytes hold. Nothing is kept where that is blank.
pub proof fn messages_are_cut_at_4000_bytes(body: Seq<char>)
    ensures
        ({
            let left = trimmed(body).filter(|c: char| !control(c) || c == '\n');
            let held = fitting(left, 4000);
            &&& cleaned(body) is None <==> forall|i: int|
                0 <= i < held.len() ==> crate::text::white(#[trigger] held[i])
            &&& cleaned(body) matches Some(text) ==> {
                &&& text.is_prefix_of(left)
                &&& byte_len(text) <= 4000
                &&& text.len() < left.len() ==> byte_len(left.take(text.len() as int + 1)) > 4000
            }
        }),
{
    messages_keep_their_lines(trimmed(body));
    let left = without_control(trimmed(body), true);
    fitting_is_longest(left, 4000);
    crate::text::only_the_ends_are_trimmed(fitting(left, 4000));
    if trimmed(body).len() == 0 {
        assert(without_control(trimmed(body), true).len() == 0);
        assert(fitting(left, 4000).len() == 0);
    }
}

/// What is kept of any name is a beginning of what is left without the ends and the control
/// characters, and all of it that 64 bytes hold; a question mark stands for nothing.
pub proof fn names_are_cut_at_64_bytes(from: Seq<char>)
    ensures
        ({
            let left = trimmed(from).filter(|c: char| !control(c));
            let name = cleaned_name(from);
            &&& left.len() == 0 ==> name == seq!['?']
            &&& left.len() > 0 ==> name.is_prefix_of(left) && byte_len(name) <= 64 && (name.len()
                < left.len() ==> byte_len(left.take(name.len() as int + 1)) > 64)
        }),
{
    names_keep_one_line(trimmed(from));
    let left = without_control(trimmed(from), false);
    fitting_is_longest(left, 64);
    if left.len() > 0 {
        assert(crate::text::width(left[0]) <= 4);
        assert(fitting(left, 64).len() > 0);
    }
}

/// Up to 500 messages all are kept; from then on each new one drives out the oldest.
pub proof fn five_hundred_are_kept(entries: Seq<ChatMessage>, message: ChatMessage)
    ensures
        entries.len() < 500 ==> appended(entries, message) == entries.push(message),
        entries.len() == 500 ==> appended(entries, message) == entries.skip(1).push(message),
{
    if entries.len() == 500 {
        assert(entries.skip(1) =~= entries.drop_first());
    }
}

/// What is composed goes out under the given name and stands last in the log, and does not count as
/// unread; where nothing is left of it, nothing changes.
pub proof fn own_messages_are_read(
    log: &mut ChatLog,
    from: &str,
    body: &str,
    r: Option<ChatMessage>,
)
    requires
        old(log).wf(),
        call_ensures(ChatLog::compose, (log, from, body), r),
    ensures
        final(log).unread_count() == old(log).unread_count(),
        r is None ==> final(log).log() == old(log).log(),
        r matches Some(message) ==> message.from@ == from@ && cleaned(body@) == Some(message.body@)
            && final(log).log().len() > 0 && final(log).log().last() == message,
        r is Some <==> cleaned(body@) is Some,
        r is Some && old(log).log().len() < 500 ==> final(log).log().drop_last() == old(log).log(),
        r is Some && old(log).log().len() == 500 ==> final(log).log().len() == 500 && final(log).log().drop_last() == old(log).log().drop_first(),
{
}

/// What is received stands last in the log with its name and body cleaned and its time kept, and
/// counts as unread until the log is read; where nothing is left of it, nothing changes.
pub proof fn received_messages_are_unread(
    log: &mut ChatLog,
    reading: &mut ChatLog,
    message: ChatMessage,
    r: bool,
)
    requires
        old(log).wf(),
        old(log).unread_count() < usize::MAX,
        call_ensures(ChatLog::receive, (log, message), r),
        *old(reading) == *final(log),
        call_ensures(ChatLog::mark_read, (reading,), ()),
    ensures
        r <==> cleaned(message.body@) is Some,
        !r ==> final(log).log() == old(log).log() && final(log).unread_count() == old(log).unread_count(),
        r ==> final(log).unread_count() == old(log).unread_count() + 1 && final(log).log().len() > 0
            && cleaned(message.body@) == Some(final(log).log().last().body@) && final(log).log().last().from@ == cleaned_name(message.from@) && final(log).log().last().sent_at_ms
            == message.sent_at_ms,
        r && old(log).log().len() < 500 ==> final(log).log().drop_last() == old(log).log(),
        final(reading).unread_count() == 0,
        final(reading).log() == final(log).log(),
{
}

/// A log begins empty and read; what it hands out are its messages, and it is empty exactly while it
/// has none.
pub proof fn logs_begin_empty(
    fresh: ChatLog,
    log: &ChatLog,
    all: &[ChatMessage],
    n: usize,
    empty: bool,
    unread: usize,
)
    requires
        call_ensures(ChatLog::new, (), fresh),
        call_ensures(ChatLog::entries, (log,), all),
        call_ensures(ChatLog::len, (log,), n),
        call_ensures(ChatLog::is_empty, (log,), empty),
        call_ensures(ChatLog::unread, (log,), unread),
    ensures
        fresh.log().len() == 0 && fresh.unread_count() == 0,
        all@ == log.log(),
        n == all@.len(),
        empty <==> all@.len() == 0,
        unread == log.unread_count(),
{
}

} // verus!
