//! Tailscale as the way between two machines.
//!
//! Every machine of an account has a fixed address `100.x.y.z` and sees the others through any
//! router, so no rendezvous server is needed. The program `tailscale` is called and its answers
//! are read; that is left to the caller.

use vstd::prelude::*;
use vstd::string::StringExecFns;

use crate::text::{is_in_order, push_decimal, same, view_of};

verus! {

#[derive(Debug, Clone, PartialEq, Eq)]
pub enum State {
    NotInstalled,
    /// Installed, but the service does not run or was switched off.
    Stopped,
    NeedsLogin,
    Running,
    /// It answered something that we do not understand.
    Broken(String),
}

/// Another machine of the account.
#[derive(Debug, Clone, PartialEq, Eq)]
pub struct Peer {
    pub name: String,
    pub ip: String,
    pub os: String,
    pub online: bool,
}

#[derive(Debug, Clone)]
pub struct Status {
    /// `None` until the first answer.
    pub state: Option<State>,
    /// This machine's address, to be read out to the other end.
    pub self_ip: Option<String>,
    pub self_name: String,
    pub peers: Vec<Peer>,
    /// Where to log in, when Tailscale waits for that.
    pub auth_url: Option<String>,
}

impl Status {
    /// Nothing known but the state.
    pub open spec fn only(self, state: Option<State>) -> bool {
        self.state == state && self.self_ip is None && self.self_name@ == ""@ && self.peers@.len()
            == 0 && self.auth_url is None
    }

    fn with_state(state: Option<State>) -> (r: Self)
        ensures
            r.only(state),
    {
        Status {
            state,
            self_ip: None,
            self_name: "".to_owned(),
            peers: Vec::new(),
            auth_url: None,
        }
    }

    pub fn running(&self) -> (r: bool)
        ensures
            r == (self.state == Some(State::Running)),
    {
        match &self.state {
            Some(State::Running) => true,
            _ => false,
        }
    }
}

impl Default for Status {
    fn default() -> (r: Self)
        ensures
            r.only(None),
    {
        Status::with_state(None)
    }
}

/// What we need of `tailscale status --json`. The peers come in the order of their keys.
#[derive(Debug)]
pub struct RawStatus {
    pub backend_state: Option<String>,
    pub auth_url: Option<String>,
    pub self_node: Option<RawNode>,
    pub peer: Vec<RawNode>,
}

#[derive(Debug)]
pub struct RawNode {
    pub host_name: Option<String>,
    pub dns_name: Option<String>,
    pub ips: Option<Vec<String>>,
    pub os: Option<String>,
    pub online: Option<bool>,
}

/// Everything before the first dot.
pub open spec fn first_label(s: Seq<char>) -> Seq<char>
    decreases s.len(),
{
    if s.len() == 0 || s[0] == '.' {
        Seq::empty()
    } else {
        seq![s[0]] + first_label(s.drop_first())
    }
}

fn label_of(s: &str) -> (r: String)
    ensures
        r@ == first_label(s@),
{
    let chars = crate::text::chars_of(s);
    let mut r: String = String::new();
    let mut i: usize = 0;
    assert(s@.skip(0) =~= s@);
    assert(r@ + first_label(s@) =~= first_label(s@));
    while i < chars.len() && chars[i] != '.'
        invariant
            i <= chars@.len(),
            chars@ == s@,
            first_label(s@) == r@ + first_label(s@.skip(i as int)),
        decreases chars@.len() - i,
    {
        let ghost had = r@;
        r.push(chars[i]);
        proof {
            let rest = s@.skip(i as int);
            assert(rest.drop_first() =~= s@.skip(i + 1));
            assert(had + (seq![rest[0]] + first_label(rest.drop_first())) =~= r@ + first_label(
                s@.skip(i + 1),
            ));
        }
        i += 1;
    }
    assert(first_label(s@.skip(i as int)) =~= Seq::<char>::empty());
    assert(r@ + first_label(s@.skip(i as int)) =~= r@);
    r
}

/// Whether `s` begins with `head`.
pub open spec fn opens(s: Seq<char>, head: Seq<char>) -> bool {
    s.len() >= head.len() && s.take(head.len() as int) == head
}

/// `k` numbers up to 255 in decimal, with dots between them.
pub open spec fn dotted(s: Seq<char>, k: nat) -> bool
    decreases k,
{
    k > 0 && exists|a: nat|
        a <= 255 && #[trigger] opens(s, crate::text::decimal(a)) && {
            let n = crate::text::decimal(a).len() as int;
            if k == 1 {
                s.len() == n
            } else {
                s.len() > n && s[n] == '.' && dotted(s.skip(n + 1), (k - 1) as nat)
            }
        }
}

/// An IPv4 address: four numbers without leading zeros.
pub open spec fn is_ipv4(s: Seq<char>) -> bool {
    dotted(s, 4)
}

fn dotted_from(chars: &Vec<char>, pos: usize, k: u32) -> (r: bool)
    requires
        pos <= chars@.len(),
    ensures
        r == dotted(chars@.skip(pos as int), k as nat),
    decreases k,
{
    if k == 0 {
        return false;
    }
    let ghost rest = chars@.skip(pos as int);
    let mut a: u64 = 0;
    while a <= 255
        invariant
            a <= 256,
            k > 0,
            pos <= chars@.len(),
            rest == chars@.skip(pos as int),
            forall|b: nat|
                b < a && #[trigger] opens(rest, crate::text::decimal(b)) ==> !({
                    let n = crate::text::decimal(b).len() as int;
                    if k == 1 {
                        rest.len() == n
                    } else {
                        rest.len() > n && rest[n] == '.' && dotted(rest.skip(n + 1), (k - 1) as nat)
                    }
                }),
        decreases 256 - a,
    {
        let mut text: String = String::new();
        push_decimal(&mut text, a);
        let digits = crate::text::chars_of(text.as_str());
        assert(digits@ =~= crate::text::decimal(a as nat));
        let n: usize = digits.len();
        if chars.len() - pos >= n {
            let mut i: usize = 0;
            while i < n && chars[pos + i] == digits[i]
                invariant
                    i <= n,
                    n == digits@.len(),
                    pos + n <= chars.len(),
                    forall|j: int| 0 <= j < i ==> chars@[pos + j] == digits@[j],
                decreases n - i,
            {
                i += 1;
            }
            if i == n {
                assert(rest.take(n as int) =~= digits@);
                assert(opens(rest, crate::text::decimal(a as nat)));
                if k == 1 {
                    if chars.len() - pos == n {
                        return true;
                    }
                } else if chars.len() - pos > n && chars[pos + n] == '.' {
                    assert(rest.skip(n + 1) =~= chars@.skip(pos + n + 1));
                    if dotted_from(chars, pos + n + 1, k - 1) {
                        return true;
                    }
                }
            } else {
                assert(rest.take(n as int)[i as int] == chars@[pos + i]);
                assert(!opens(rest, crate::text::decimal(a as nat)));
            }
        }
        a += 1;
    }
    false
}

pub fn looks_like_ipv4(s: &str) -> (r: bool)
    ensures
        r == is_ipv4(s@),
{
    let chars = crate::text::chars_of(s);
    assert(chars@.skip(0) =~= s@);
    dotted_from(&chars, 0, 4)
}

impl RawNode {
    /// The name on the screen: the first label of the full name, for the rest is the same with
    /// every machine.
    pub open spec fn short(self) -> Seq<char> {
        match self.dns_name {
            Some(dns) if first_label(dns@).len() > 0 => first_label(dns@),
            _ => match self.host_name {
                Some(name) => name@,
                None => "?"@,
            },
        }
    }

    pub fn short_name(&self) -> (r: String)
        ensures
            r@ == self.short(),
    {
        match &self.dns_name {
            Some(dns) => {
                let label = label_of(dns.as_str());
                if !label.as_str().is_empty() {
                    return label;
                }
            },
            None => {},
        }
        match &self.host_name {
            Some(name) => name.as_str().to_owned(),
            None => "?".to_owned(),
        }
    }

    /// The first address that is IPv4. One of IPv6 would have to be written in brackets.
    pub open spec fn has_ipv4(self, r: Option<Seq<char>>) -> bool {
        match r {
            Some(ip) => self.ips is Some && exists|i: int|
                0 <= i < self.ips->0@.len() && #[trigger] self.ips->0@[i]@ == ip && is_ipv4(ip)
                    && forall|j: int| 0 <= j < i ==> !is_ipv4(#[trigger] self.ips->0@[j]@),
            None => self.ips is None || forall|j: int|
                0 <= j < self.ips->0@.len() ==> !is_ipv4(#[trigger] self.ips->0@[j]@),
        }
    }

    pub fn ipv4(&self) -> (r: Option<String>)
        ensures
            self.has_ipv4(view_of(r)),
    {
        match &self.ips {
            None => None,
            Some(list) => {
                let mut i: usize = 0;
                while i < list.len()
                    invariant
                        self.ips == Some(*list),
                        i <= list@.len(),
                        forall|j: int| 0 <= j < i ==> !is_ipv4(#[trigger] list@[j]@),
                    decreases list@.len() - i,
                {
                    if looks_like_ipv4(list[i].as_str()) {
                        let found = list[i].as_str().to_owned();
                        assert(self.ips->0@[i as int]@ == found@);
                        return Some(found);
                    }
                    i += 1;
                }
                None
            },
        }
    }
}

/// Whether `a` may stand before `b`: machines that are on come first, then the names decide.
pub open spec fn ranked(a: Peer, b: Peer) -> bool {
    (a.online && !b.online) || (a.online == b.online && crate::text::in_order(a.name@, b.name@))
}

fn is_ranked(a: &Peer, b: &Peer) -> (r: bool)
    ensures
        r == ranked(*a, *b),
{
    if a.online != b.online {
        return a.online;
    }
    is_in_order(a.name.as_str(), b.name.as_str())
}

/// `after` is `before` in the order `places`: every machine once.
pub open spec fn rearranged(before: Seq<Peer>, after: Seq<Peer>, places: Seq<int>) -> bool {
    &&& after.len() == before.len()
    &&& places.len() == before.len()
    &&& places.no_duplicates()
    &&& forall|i: int|
        0 <= i < places.len() ==> 0 <= #[trigger] places[i] < before.len() && after[i]
            == before[places[i]]
}

/// In order, and machines that rank alike as they stood before.
pub open spec fn in_rank(list: Seq<Peer>, places: Seq<int>, n: int) -> bool {
    forall|i: int, j: int|
        0 <= i < j < n ==> ranked(#[trigger] list[i], #[trigger] list[j]) && (ranked(
            list[j],
            list[i],
        ) ==> places[i] < places[j])
}

proof fn rank_is_total(a: Peer, b: Peer)
    ensures
        ranked(a, b) || ranked(b, a),
{
    crate::text::order_is_total(a.name@, b.name@);
}

proof fn rank_is_transitive(a: Peer, b: Peer, c: Peer)
    requires
        ranked(a, b),
        ranked(b, c),
    ensures
        ranked(a, c),
{
    if a.online == b.online && b.online == c.online {
        crate::text::order_is_transitive(a.name@, b.name@, c.name@);
    }
}

/// Machines that are on come first, then by name: the list is there to click on, and a machine
/// that is off cannot be reached.
pub fn sort_peers(peers: &mut Vec<Peer>)
    ensures
        exists|places: Seq<int>|
            rearranged(old(peers)@, final(peers)@, places) && #[trigger] in_rank(
                final(peers)@,
                places,
                final(peers)@.len() as int,
            ),
{
    let ghost before = peers@;
    let ghost mut places: Seq<int> = Seq::new(peers@.len(), |i: int| i);
    let n: usize = peers.len();
    let mut i: usize = 0;
    assert(in_rank(peers@, places, 0));
    while i < n
        invariant
            i <= n,
            n == peers@.len(),
            n == before.len(),
            rearranged(before, peers@, places),
            in_rank(peers@, places, i as int),
            forall|j: int| i <= j < n ==> #[trigger] places[j] == j,
            forall|j: int| 0 <= j < i ==> #[trigger] places[j] < i,
        decreases n - i,
    {
        let mut at: usize = i;
        while at > 0 && !is_ranked(&peers[at - 1], &peers[i])
            invariant
                at <= i < n,
                n == peers@.len(),
                forall|j: int| at <= j < i ==> !ranked(#[trigger] peers@[j], peers@[i as int]),
            decreases at,
        {
            at -= 1;
        }
        let ghost list = peers@;
        let ghost old_places = places;
        let peer = peers.remove(i);
        peers.insert(at, peer);
        proof {
            places = places.remove(i as int).insert(at as int, i as int);
            let moved = list.remove(i as int).insert(at as int, peer);
            assert(peers@ =~= moved);
            assert forall|j: int| 0 <= j < places.len() implies 0 <= #[trigger] places[j]
                < before.len() && peers@[j] == before[places[j]] by {
                if j < at {
                    assert(places[j] == old_places[j]);
                } else if j == at {
                    assert(old_places[i as int] == i);
                } else if j <= i {
                    assert(places[j] == old_places[j - 1]);
                } else {
                    assert(places[j] == old_places[j]);
                }
            }
            assert(places.no_duplicates()) by {
                assert forall|x: int, y: int|
                    0 <= x < places.len() && 0 <= y < places.len() && x != y implies places[x]
                    != places[y] by {
                    let u = if x < at {
                        x
                    } else if x == at {
                        i as int
                    } else if x <= i {
                        x - 1
                    } else {
                        x
                    };
                    let v = if y < at {
                        y
                    } else if y == at {
                        i as int
                    } else if y <= i {
                        y - 1
                    } else {
                        y
                    };
                    assert(places[x] == old_places[u]);
                    assert(places[y] == old_places[v]);
                    assert(u != v);
                }
            }
            assert forall|x: int, y: int| 0 <= x < y < i + 1 implies ranked(
                #[trigger] peers@[x],
                #[trigger] peers@[y],
            ) && (ranked(peers@[y], peers@[x]) ==> places[x] < places[y]) by {
                let u = if x < at {
                    x
                } else {
                    x - 1
                };
                let v = if y < at {
                    y
                } else {
                    y - 1
                };
                if x == at {
                    // The new one before some that it was found to go before.
                    assert(peers@[y] == list[v]);
                    assert(!ranked(list[v], peer));
                    rank_is_total(list[v], peer);
                } else if y == at {
                    assert(peers@[x] == list[x]);
                    assert(ranked(list[at - 1], peer));
                    if x < at - 1 {
                        assert(ranked(list[x], list[at - 1]));
                        rank_is_transitive(list[x], list[at - 1], peer);
                    }
                    assert(places[x] == old_places[x]);
                } else {
                    assert(peers@[x] == list[u]);
                    assert(peers@[y] == list[v]);
                    assert(places[x] == old_places[u]);
                    assert(places[y] == old_places[v]);
                }
            }
            assert forall|j: int| 0 <= j < i + 1 implies #[trigger] places[j] < i + 1 by {
                if j < at {
                    assert(places[j] == old_places[j]);
                } else if j > at {
                    assert(places[j] == old_places[j - 1]);
                }
            }
        }
        i += 1;
    }
    assert(in_rank(peers@, places, peers@.len() as int));
}

/// What the program `tailscale` answered.
#[derive(Debug)]
pub enum Reading {
    /// It could not be called, or failed.
    Failed { installed: bool },
    /// It answered, but not in JSON that we know; the parser's words.
    Unreadable(String),
    Parsed(RawStatus),
}

/// The state that a name stands for.
pub open spec fn state_named(name: Option<String>, state: State) -> bool {
    match name {
        None => match state {
            State::Broken(reason) => reason@ == "tailscale không cho biết trạng thái"@,
            _ => false,
        },
        Some(s) => if s@ == "Running"@ {
            state is Running
        } else if s@ == "NeedsLogin"@ || s@ == "NeedsMachineAuth"@ {
            state is NeedsLogin
        } else if s@ == "Stopped"@ || s@ == "NoState"@ || s@ == "Starting"@ {
            state is Stopped
        } else {
            match state {
                State::Broken(reason) => reason@ == "trạng thái lạ: "@ + s@,
                _ => false,
            }
        },
    }
}

fn state_of(name: &Option<String>) -> (r: State)
    ensures
        state_named(*name, r),
{
    match name {
        None => State::Broken("tailscale không cho biết trạng thái".to_owned()),
        Some(s) => {
            let s: &str = s.as_str();
            if same(s, "Running") {
                State::Running
            } else if same(s, "NeedsLogin") || same(s, "NeedsMachineAuth") {
                State::NeedsLogin
            } else if same(s, "Stopped") || same(s, "NoState") || same(s, "Starting") {
                State::Stopped
            } else {
                let mut reason: String = "trạng thái lạ: ".to_owned();
                reason.append(s);
                State::Broken(reason)
            }
        },
    }
}

/// The entry for a machine; one without an IPv4 address has none.
pub open spec fn entry(node: RawNode, peer: Option<Peer>) -> bool {
    match peer {
        Some(p) => p.name@ == node.short() && node.has_ipv4(Some(p.ip@)) && p.os@ == (
        match node.os {
            Some(os) => os@,
            None => ""@,
        }) && p.online == (node.online == Some(true)),
        None => node.has_ipv4(None),
    }
}

fn entry_of(node: &RawNode) -> (r: Option<Peer>)
    ensures
        entry(*node, r),
{
    match node.ipv4() {
        None => None,
        Some(ip) => Some(
            Peer {
                name: node.short_name(),
                ip,
                os: match &node.os {
                    Some(os) => os.as_str().to_owned(),
                    None => "".to_owned(),
                },
                online: match node.online {
                    Some(online) => online,
                    None => false,
                },
            },
        ),
    }
}

/// The machines of a list that have an entry, in the list's order.
pub open spec fn entries(nodes: Seq<RawNode>, peers: Seq<Peer>) -> bool
    decreases nodes.len(),
{
    if nodes.len() == 0 {
        peers.len() == 0
    } else if peers.len() > 0 && entry(nodes.last(), Some(peers.last())) {
        entries(nodes.drop_last(), peers.drop_last())
    } else {
        entry(nodes.last(), None) && entries(nodes.drop_last(), peers)
    }
}

proof fn entry_is_one_way(node: RawNode, peer: Peer)
    requires
        entry(node, None),
    ensures
        !entry(node, Some(peer)),
{
}

/// The machines, sorted, that a list of nodes stands for.
pub open spec fn listed(nodes: Seq<RawNode>, peers: Seq<Peer>) -> bool {
    exists|plain: Seq<Peer>, places: Seq<int>|
        entries(nodes, plain) && #[trigger] rearranged(plain, peers, places) && in_rank(
            peers,
            places,
            peers.len() as int,
        )
}

fn peers_of(nodes: &Vec<RawNode>) -> (r: Vec<Peer>)
    ensures
        listed(nodes@, r@),
{
    let mut r: Vec<Peer> = Vec::new();
    let mut i: usize = 0;
    while i < nodes.len()
        invariant
            i <= nodes@.len(),
            entries(nodes@.take(i as int), r@),
        decreases nodes@.len() - i,
    {
        let ghost had = r@;
        assert(nodes@.take(i + 1).drop_last() =~= nodes@.take(i as int));
        assert(nodes@.take(i + 1).last() == nodes@[i as int]);
        match entry_of(&nodes[i]) {
            Some(peer) => {
                r.push(peer);
                assert(r@.drop_last() =~= had);
            },
            None => {
                proof {
                    if r@.len() > 0 {
                        entry_is_one_way(nodes@[i as int], r@.last());
                    }
                }
            },
        }
        i += 1;
    }
    assert(nodes@.take(i as int) =~= nodes@);
    let ghost plain = r@;
    sort_peers(&mut r);
    proof {
        let places = choose|places: Seq<int>|
            rearranged(plain, r@, places) && #[trigger] in_rank(r@, places, r@.len() as int);
        assert(rearranged(plain, r@, places));
    }
    r
}

/// What an answer comes to.
pub open spec fn understood(reading: Reading, status: Status) -> bool {
    match reading {
        Reading::Failed { installed } => status.only(
            Some(
                if installed {
                    State::Stopped
                } else {
                    State::NotInstalled
                },
            ),
        ),
        Reading::Unreadable(cause) => match status.state {
            Some(State::Broken(reason)) => reason@ == "không hiểu JSON của tailscale: "@ + cause@
                && status.only(status.state),
            _ => false,
        },
        Reading::Parsed(raw) => {
            &&& status.state is Some
            &&& state_named(raw.backend_state, status.state->0)
            &&& match raw.self_node {
                Some(node) => node.has_ipv4(view_of(status.self_ip)) && status.self_name@
                    == node.short(),
                None => status.self_ip is None && status.self_name@ == ""@,
            }
            &&& listed(raw.peer@, status.peers@)
            &&& view_of(status.auth_url) == (match raw.auth_url {
                Some(url) if url@.len() > 0 => Some(url@),
                _ => None,
            })
        },
    }
}

/// The state of Tailscale. A service that does not run and one that was switched off are the same
/// to the user.
pub fn status(reading: Reading) -> (r: Status)
    ensures
        understood(reading, r),
{
    match reading {
        Reading::Failed { installed } => Status::with_state(
            Some(
                if installed {
                    State::Stopped
                } else {
                    State::NotInstalled
                },
            ),
        ),
        Reading::Unreadable(cause) => {
            let mut reason: String = "không hiểu JSON của tailscale: ".to_owned();
            reason.append(cause.as_str());
            Status::with_state(Some(State::Broken(reason)))
        },
        Reading::Parsed(raw) => {
            let state = state_of(&raw.backend_state);
            let peers = peers_of(&raw.peer);
            let self_ip: Option<String> = match &raw.self_node {
                Some(node) => node.ipv4(),
                None => None,
            };
            let self_name: String = match &raw.self_node {
                Some(node) => node.short_name(),
                None => "".to_owned(),
            };
            let auth_url: Option<String> = match raw.auth_url {
                Some(url) => if url.as_str().is_empty() {
                    None
                } else {
                    Some(url)
                },
                None => None,
            };
            Status { state: Some(state), self_ip, self_name, peers, auth_url }
        },
    }
}

/// The words for a call that failed: what the program said, or that it said nothing.
pub fn failure(stderr: &str, args: &str) -> (s: String)
    ensures
        s@ == (if crate::text::trimmed(stderr@).len() > 0 {
            crate::text::trimmed(stderr@)
        } else {
            "tailscale "@ + args@ + " thoát với mã lỗi"@
        }),
{
    let said = crate::text::trim(stderr);
    if !said.as_str().is_empty() {
        return said;
    }
    let mut s: String = "tailscale ".to_owned();
    s.append(args);
    s.append(" thoát với mã lỗi");
    s
}

/// How often the state is asked for during a login.
pub const LOGIN_POLLS: u32 = 10;

/// What a login does next.
#[derive(Debug)]
pub enum LoginStep {
    /// Start `tailscale login`, which opens the browser by itself.
    Spawn,
    /// Wait half a second and ask for the state.
    Poll,
    /// Open the page, if there is one; the login is as far as it goes.
    Done { open: bool, result: Result<String, String> },
}

/// A login. The program prints the page to open and then waits for ever, so its state is asked for
/// instead: it holds the page too.
pub struct Login {
    polls: u32,
}

impl Login {
    pub closed spec fn asked(&self) -> u32 {
        self.polls
    }

    /// Begins with the state as it is.
    pub fn begin(status: &Status, installed: bool) -> (r: (Self, LoginStep))
        ensures
            r.0.asked() == 0,
            match status.auth_url {
                Some(url) => match r.1 {
                    LoginStep::Done { open, result: Ok(page) } => open && page@ == url@,
                    _ => false,
                },
                None => if installed {
                    r.1 is Spawn
                } else {
                    match r.1 {
                        LoginStep::Done { open, result: Err(reason) } => !open && reason@
                            == "chưa cài Tailscale"@,
                        _ => false,
                    }
                },
            },
    {
        let login = Login { polls: 0 };
        match &status.auth_url {
            Some(url) => (
                login,
                LoginStep::Done { open: true, result: Ok(url.as_str().to_owned()) },
            ),
            None => if installed {
                (login, LoginStep::Spawn)
            } else {
                (
                    login,
                    LoginStep::Done { open: false, result: Err("chưa cài Tailscale".to_owned()) },
                )
            },
        }
    }

    /// The program was started, or could not be.
    pub fn spawned(&self, failure: Option<String>) -> (r: LoginStep)
        ensures
            match failure {
                None => r is Poll,
                Some(cause) => match r {
                    LoginStep::Done { open, result: Err(reason) } => !open && reason@
                        == "không chạy được `tailscale login`: "@ + cause@,
                    _ => false,
                },
            },
    {
        match failure {
            None => LoginStep::Poll,
            Some(cause) => {
                let mut reason: String = "không chạy được `tailscale login`: ".to_owned();
                reason.append(cause.as_str());
                LoginStep::Done { open: false, result: Err(reason) }
            },
        }
    }

    /// The state after a while. No page and yet running means that nothing has to be done.
    pub fn polled(&mut self, status: &Status) -> (r: LoginStep)
        requires
            old(self).asked() < LOGIN_POLLS,
        ensures
            final(self).asked() == old(self).asked() + 1,
            match status.auth_url {
                Some(url) => match r {
                    LoginStep::Done { open, result: Ok(page) } => open && page@ == url@,
                    _ => false,
                },
                None => if status.state == Some(State::Running) {
                    match r {
                        LoginStep::Done { open, result: Ok(page) } => !open && page@ == ""@,
                        _ => false,
                    }
                } else if final(self).asked() < LOGIN_POLLS {
                    r is Poll
                } else {
                    match r {
                        LoginStep::Done { open, result: Err(reason) } => !open && reason@
                            == "Tailscale chưa đưa ra đường dẫn đăng nhập; mở ứng dụng Tailscale để đăng nhập"@,
                        _ => false,
                    }
                },
            },
    {
        self.polls = self.polls + 1;
        match &status.auth_url {
            Some(url) => LoginStep::Done { open: true, result: Ok(url.as_str().to_owned()) },
            None => if status.running() {
                LoginStep::Done { open: false, result: Ok("".to_owned()) }
            } else if self.polls < LOGIN_POLLS {
                LoginStep::Poll
            } else {
                LoginStep::Done {
                    open: false,
                    result: Err(
                        "Tailscale chưa đưa ra đường dẫn đăng nhập; mở ứng dụng Tailscale để đăng nhập".to_owned(),
                    ),
                }
            },
        }
    }
}

/// A few lines on Tailscale for `--probe`.
pub open spec fn description(binary: Option<Seq<char>>, status: Status) -> Seq<char> {
    match binary {
        None => "chưa cài (có thì dùng được địa chỉ 100.x.y.z thay cho rendezvous server)"@,
        Some(path) => "chương trình: "@ + path + "\n"@ + (match status.state {
            Some(State::Running) => "đang chạy — máy này là "@ + status.self_name@ + " ("@ + (
            match status.self_ip {
                Some(ip) => ip@,
                None => "?"@,
            }) + ")\n"@ + "thấy "@ + crate::text::decimal(status.peers@.len())
                + " máy khác trong tailnet"@,
            Some(State::NeedsLogin) => "chưa đăng nhập"@,
            Some(State::Stopped) | None => "dịch vụ nền chưa chạy"@,
            Some(State::NotInstalled) => "chưa cài"@,
            Some(State::Broken(reason)) => reason@,
        }),
    }
}

pub fn describe(binary: &Option<String>, status: &Status) -> (s: String)
    ensures
        s@ == description(view_of(*binary), *status),
{
    let mut s: String = String::new();
    match binary {
        None => {
            s.append("chưa cài (có thì dùng được địa chỉ 100.x.y.z thay cho rendezvous server)");
        },
        Some(path) => {
            s.append("chương trình: ");
            s.append(path.as_str());
            s.append("\n");
            match &status.state {
                Some(State::Running) => {
                    s.append("đang chạy — máy này là ");
                    s.append(status.self_name.as_str());
                    s.append(" (");
                    match &status.self_ip {
                        Some(ip) => {
                            s.append(ip.as_str());
                        },
                        None => {
                            s.append("?");
                        },
                    }
                    s.append(")\n");
                    s.append("thấy ");
                    push_decimal(&mut s, status.peers.len() as u64);
                    s.append(" máy khác trong tailnet");
                },
                Some(State::NeedsLogin) => {
                    s.append("chưa đăng nhập");
                },
                Some(State::Stopped) | None => {
                    s.append("dịch vụ nền chưa chạy");
                },
                Some(State::NotInstalled) => {
                    s.append("chưa cài");
                },
                Some(State::Broken(reason)) => {
                    s.append(reason.as_str());
                },
            }
        },
    }
    assert(s@ =~= description(view_of(*binary), *status));
    s
}

/// What runs on a thread of its own.
#[derive(Debug)]
pub enum Job {
    /// Ask for the state. The note on the screen stays: a page to log in at must not vanish before
    /// it was read.
    Refresh { keep: Option<String> },
    Login,
    Up,
}

/// The note that a job leaves on the screen.
pub open spec fn note_of(job: Job, result: Result<String, String>, note: Option<Seq<char>>) -> bool {
    match job {
        Job::Refresh { keep } => note == view_of(keep),
        Job::Login => match result {
            Ok(url) => note == Some(
                if url@.len() == 0 {
                    "đã đăng nhập"@
                } else {
                    "mở trang này để đăng nhập: "@ + url@
                },
            ),
            Err(reason) => note == Some(reason@),
        },
        Job::Up => match result {
            Ok(_) => note is None,
            Err(reason) => note == Some("không bật được: "@ + reason@),
        },
    }
}

pub fn note(job: Job, result: Result<String, String>) -> (r: Option<String>)
    ensures
        note_of(job, result, view_of(r)),
{
    match job {
        Job::Refresh { keep } => keep,
        Job::Login => match result {
            Ok(url) => if url.as_str().is_empty() {
                Some("đã đăng nhập".to_owned())
            } else {
                let mut s: String = "mở trang này để đăng nhập: ".to_owned();
                s.append(url.as_str());
                Some(s)
            },
            Err(reason) => Some(reason),
        },
        Job::Up => match result {
            Ok(_) => None,
            Err(reason) => {
                let mut s: String = "không bật được: ".to_owned();
                s.append(reason.as_str());
                Some(s)
            },
        },
    }
}

fn copy_note(note: &Option<String>) -> (r: Option<String>)
    ensures
        view_of(r) == view_of(*note),
{
    match note {
        Some(s) => Some(s.as_str().to_owned()),
        None => None,
    }
}

/// The state of Tailscale, asked for in the background. One job at a time: however often the user
/// clicks, there is no crowd of processes.
pub struct Watcher {
    status: Status,
    busy: bool,
    message: Option<String>,
    last_poll_ms: u64,
}

impl Watcher {
    pub closed spec fn latest(&self) -> Status {
        self.status
    }

    pub closed spec fn working(&self) -> bool {
        self.busy
    }

    pub closed spec fn note(&self) -> Option<Seq<char>> {
        view_of(self.message)
    }

    pub closed spec fn asked_ms(&self) -> u64 {
        self.last_poll_ms
    }

    /// Begins by asking.
    pub fn new(now_ms: u64) -> (r: (Self, Job))
        ensures
            r.0.latest().only(None),
            r.0.working(),
            r.0.note() is None,
            r.0.asked_ms() == now_ms,
            r.1 == (Job::Refresh { keep: None }),
    {
        (
            Watcher { status: Status::default(), busy: true, message: None, last_poll_ms: now_ms },
            Job::Refresh { keep: None },
        )
    }

    /// Asks again once `every_ms` have passed: things change behind our back.
    pub fn tick(&mut self, now_ms: u64, every_ms: u64) -> (r: Option<Job>)
        ensures
            ({
                let due = (if now_ms < old(self).asked_ms() {
                    0int
                } else {
                    now_ms - old(self).asked_ms()
                }) >= every_ms;
                &&& final(self).asked_ms() == (if due {
                    now_ms
                } else {
                    old(self).asked_ms()
                })
                &&& final(self).working() == (due || old(self).working())
                &&& match r {
                    Some(Job::Refresh { keep }) => due && !old(self).working() && view_of(keep)
                        == old(self).note(),
                    None => !due || old(self).working(),
                    _ => false,
                }
            }),
            final(self).latest() == old(self).latest(),
            final(self).note() == old(self).note(),
    {
        let passed: u64 = if now_ms < self.last_poll_ms { 0 } else { now_ms - self.last_poll_ms };
        if passed < every_ms {
            return None;
        }
        self.last_poll_ms = now_ms;
        self.refresh()
    }

    /// The latest state.
    pub fn snapshot(&self) -> (r: &Status)
        ensures
            *r == self.latest(),
    {
        &self.status
    }

    pub fn busy(&self) -> (r: bool)
        ensures
            r == self.working(),
    {
        self.busy
    }

    /// The last note for the user.
    pub fn message(&self) -> (r: Option<String>)
        ensures
            view_of(r) == self.note(),
    {
        copy_note(&self.message)
    }

    fn spawn(&mut self, job: Job) -> (r: Option<Job>)
        ensures
            r == (if old(self).working() {
                None
            } else {
                Some(job)
            }),
            final(self).working(),
            final(self).latest() == old(self).latest(),
            final(self).note() == old(self).note(),
            final(self).asked_ms() == old(self).asked_ms(),
    {
        if self.busy {
            return None;
        }
        self.busy = true;
        Some(job)
    }

    pub fn refresh(&mut self) -> (r: Option<Job>)
        ensures
            match r {
                Some(Job::Refresh { keep }) => !old(self).working() && view_of(keep) == old(
                    self).note(),
                None => old(self).working(),
                _ => false,
            },
            final(self).working(),
            final(self).latest() == old(self).latest(),
            final(self).note() == old(self).note(),
            final(self).asked_ms() == old(self).asked_ms(),
    {
        let keep = self.message();
        self.spawn(Job::Refresh { keep })
    }

    pub fn login(&mut self) -> (r: Option<Job>)
        ensures
            r == (if old(self).working() {
                None
            } else {
                Some(Job::Login)
            }),
            final(self).working(),
            final(self).latest() == old(self).latest(),
            final(self).note() == old(self).note(),
            final(self).asked_ms() == old(self).asked_ms(),
    {
        self.spawn(Job::Login)
    }

    /// Switches the connection on.
    pub fn up(&mut self) -> (r: Option<Job>)
        ensures
            r == (if old(self).working() {
                None
            } else {
                Some(Job::Up)
            }),
            final(self).working(),
            final(self).latest() == old(self).latest(),
            final(self).note() == old(self).note(),
            final(self).asked_ms() == old(self).asked_ms(),
    {
        self.spawn(Job::Up)
    }

    /// A job is done, and the state was asked for behind it.
    pub fn done(&mut self, note: Option<String>, status: Status)
        ensures
            !final(self).working(),
            final(self).note() == view_of(note),
            final(self).latest() == status,
            final(self).asked_ms() == old(self).asked_ms(),
    {
        self.message = note;
        self.status = status;
        self.busy = false;
    }

    /// No thread could be made for a job.
    pub fn not_started(&mut self)
        ensures
            !final(self).working(),
            final(self).note() == old(self).note(),
            final(self).latest() == old(self).latest(),
            final(self).asked_ms() == old(self).asked_ms(),
    {
        self.busy = false;
    }
}

/// A short name is what stands before the first dot: it has no dot, and either it is all of the
/// name or a dot follows it.
pub proof fn short_names_end_at_the_first_dot(s: Seq<char>)
    ensures
        first_label(s).is_prefix_of(s),
        !first_label(s).contains('.'),
        first_label(s).len() < s.len() ==> s[first_label(s).len() as int] == '.',
    decreases s.len(),
{
    if s.len() > 0 && s[0] != '.' {
        let rest = s.drop_first();
        short_names_end_at_the_first_dot(rest);
        let label = first_label(s);
        let tail = first_label(rest);
        assert(label =~= s.take(label.len() as int)) by {
            assert forall|i: int| 0 <= i < label.len() implies label[i] == s[i] by {
                if i > 0 {
                    assert(label[i] == tail[i - 1]);
                    assert(tail[i - 1] == rest[i - 1]);
                }
            }
        }
        if label.contains('.') {
            let i = choose|i: int| 0 <= i < label.len() && label[i] == '.';
            assert(tail[i - 1] == '.');
        }
    }
}

/// Four numbers in decimal with dots between them.
pub open spec fn quad(a: nat, b: nat, c: nat, d: nat) -> Seq<char> {
    crate::text::decimal(a) + seq!['.'] + crate::text::decimal(b) + seq!['.']
        + crate::text::decimal(c) + seq!['.'] + crate::text::decimal(d)
}

/// Four numbers up to 255 with dots between them are an IPv4 address.
pub proof fn quads_are_ipv4(a: nat, b: nat, c: nat, d: nat)
    requires
        a <= 255,
        b <= 255,
        c <= 255,
        d <= 255,
    ensures
        is_ipv4(quad(a, b, c, d)),
{
    let one = crate::text::decimal(d);
    assert(one.take(one.len() as int) =~= one);
    assert(opens(one, crate::text::decimal(d)));
    assert(dotted(one, 1));
    let two = crate::text::decimal(c) + seq!['.'] + one;
    one_more_number(c, one, 1);
    let three = crate::text::decimal(b) + seq!['.'] + two;
    one_more_number(b, two, 2);
    let four = crate::text::decimal(a) + seq!['.'] + three;
    one_more_number(a, three, 3);
    assert(four =~= quad(a, b, c, d));
}

proof fn one_more_number(a: nat, rest: Seq<char>, k: nat)
    requires
        a <= 255,
        dotted(rest, k),
        k > 0,
    ensures
        dotted(crate::text::decimal(a) + seq!['.'] + rest, k + 1),
{
    let head = crate::text::decimal(a);
    let s = head + seq!['.'] + rest;
    assert(s.take(head.len() as int) =~= head);
    assert(opens(s, head));
    assert(s.skip(head.len() as int + 1) =~= rest);
}

/// Every IPv4 address is four numbers up to 255 with dots between them.
pub proof fn ipv4_is_a_quad(s: Seq<char>) -> (q: (nat, nat, nat, nat))
    requires
        is_ipv4(s),
    ensures
        q.0 <= 255,
        q.1 <= 255,
        q.2 <= 255,
        q.3 <= 255,
        s == quad(q.0, q.1, q.2, q.3),
{
    let (a, three) = first_number(s, 4);
    let (b, two) = first_number(three, 3);
    let (c, one) = first_number(two, 2);
    let d = choose|d: nat|
        d <= 255 && #[trigger] opens(one, crate::text::decimal(d)) && one.len()
            == crate::text::decimal(d).len();
    assert(one =~= crate::text::decimal(d));
    assert(s =~= quad(a, b, c, d));
    (a, b, c, d)
}

proof fn first_number(s: Seq<char>, k: nat) -> (r: (nat, Seq<char>))
    requires
        dotted(s, k),
        k > 1,
    ensures
        r.0 <= 255,
        s == crate::text::decimal(r.0) + seq!['.'] + r.1,
        dotted(r.1, (k - 1) as nat),
{
    let a = choose|a: nat|
        a <= 255 && #[trigger] opens(s, crate::text::decimal(a)) && {
            let n = crate::text::decimal(a).len() as int;
            s.len() > n && s[n] == '.' && dotted(s.skip(n + 1), (k - 1) as nat)
        };
    let head = crate::text::decimal(a);
    let n = head.len() as int;
    assert(s.take(n) == head);
    assert(s =~= head + seq!['.'] + s.skip(n + 1)) by {
        assert forall|i: int| 0 <= i < n implies s[i] == head[i] by {
            assert(s.take(n)[i] == s[i]);
        }
    }
    (a, s.skip(n + 1))
}

/// Machines that are on come before those that are off; among alike the names decide, by the first
/// character that differs.
pub proof fn machines_that_are_on_come_first(a: Peer, b: Peer)
    ensures
        a.online && !b.online ==> ranked(a, b) && !ranked(b, a),
        a.online == b.online ==> (ranked(a, b) <==> crate::text::in_order(a.name@, b.name@)),
{
}

proof fn entries_come_from_nodes(nodes: Seq<RawNode>, peers: Seq<Peer>)
    requires
        entries(nodes, peers),
    ensures
        peers.len() == nodes.filter(|node: RawNode| !node.has_ipv4(None)).len(),
        forall|i: int|
            0 <= i < peers.len() ==> exists|k: int|
                0 <= k < nodes.len() && entry(#[trigger] nodes[k], Some(#[trigger] peers[i])),
    decreases nodes.len(),
{
    reveal(Seq::filter);
    if nodes.len() > 0 {
        let front = nodes.drop_last();
        if peers.len() > 0 && entry(nodes.last(), Some(peers.last())) {
            if nodes.last().has_ipv4(None) {
                entry_is_one_way(nodes.last(), peers.last());
            }
            entries_come_from_nodes(front, peers.drop_last());
            assert forall|i: int| 0 <= i < peers.len() implies exists|k: int|
                0 <= k < nodes.len() && entry(#[trigger] nodes[k], Some(#[trigger] peers[i])) by {
                if i < peers.len() - 1 {
                    assert(peers.drop_last()[i] == peers[i]);
                    let k = choose|k: int|
                        0 <= k < front.len() && entry(
                            #[trigger] front[k],
                            Some(peers.drop_last()[i]),
                        );
                    assert(nodes[k] == front[k]);
                } else {
                    assert(entry(nodes[nodes.len() - 1], Some(peers[i])));
                }
            }
        } else {
            entries_come_from_nodes(front, peers);
            assert forall|i: int| 0 <= i < peers.len() implies exists|k: int|
                0 <= k < nodes.len() && entry(#[trigger] nodes[k], Some(#[trigger] peers[i])) by {
                let k = choose|k: int|
                    0 <= k < front.len() && entry(#[trigger] front[k], Some(peers[i]));
                assert(nodes[k] == front[k]);
            }
        }
    }
}

/// The list has a machine for every node with an IPv4 address, each with what its node says, those
/// that are on first and otherwise by name.
pub proof fn the_list_is_complete_and_sorted(nodes: Seq<RawNode>, peers: Seq<Peer>)
    requires
        listed(nodes, peers),
    ensures
        peers.len() == nodes.filter(|node: RawNode| !node.has_ipv4(None)).len(),
        forall|i: int|
            0 <= i < peers.len() ==> exists|k: int|
                0 <= k < nodes.len() && entry(#[trigger] nodes[k], Some(#[trigger] peers[i])),
        forall|i: int, j: int|
            0 <= i < j < peers.len() ==> !(!(#[trigger] peers[i]).online
                && (#[trigger] peers[j]).online),
        forall|i: int, j: int|
            0 <= i < j < peers.len() && (#[trigger] peers[i]).online == (
            #[trigger] peers[j]).online ==> crate::text::in_order(peers[i].name@, peers[j].name@),
{
    let (plain, places) = choose|plain: Seq<Peer>, places: Seq<int>|
        entries(nodes, plain) && #[trigger] rearranged(plain, peers, places) && in_rank(
            peers,
            places,
            peers.len() as int,
        );
    entries_come_from_nodes(nodes, plain);
    assert forall|i: int| 0 <= i < peers.len() implies exists|k: int|
        0 <= k < nodes.len() && entry(#[trigger] nodes[k], Some(#[trigger] peers[i])) by {
        let from = places[i];
        assert(peers[i] == plain[from]);
        let k = choose|k: int| 0 <= k < nodes.len() && entry(#[trigger] nodes[k], Some(plain[from]));
        assert(entry(nodes[k], Some(peers[i])));
    }
    assert forall|i: int, j: int| 0 <= i < j < peers.len() implies ranked(
        #[trigger] peers[i],
        #[trigger] peers[j],
    ) by {}
}

/// What an entry says is what its node says: the first label of its full name, else its host name,
/// else a question mark; its first IPv4 address; its system; and whether it is on, which is so only
/// where that is said.
pub proof fn entries_say_what_their_node_says(node: RawNode, peer: Peer)
    requires
        entry(node, Some(peer)),
    ensures
        is_ipv4(peer.ip@),
        node.ips is Some && exists|i: int|
            0 <= i < node.ips->0@.len() && (#[trigger] node.ips->0@[i])@ == peer.ip@ && forall|
                j: int,
            |
                0 <= j < i ==> !is_ipv4((#[trigger] node.ips->0@[j])@),
        node.online == Some(true) <==> peer.online,
        node.os matches Some(os) ==> peer.os@ == os@,
        node.os is None ==> peer.os@ == ""@,
        node.dns_name matches Some(dns) ==> (first_label(dns@).len() > 0 ==> peer.name@
            == first_label(dns@)),
        node.dns_name is None ==> peer.name@ == (match node.host_name {
            Some(name) => name@,
            None => "?"@,
        }),
{
}

/// Of what Tailscale says of itself only `Running` means that it runs.
pub proof fn only_running_runs(name: Option<String>, state: State)
    requires
        state_named(name, state),
    ensures
        state is Running <==> (name matches Some(s) && s@ == "Running"@),
        state is NeedsLogin <==> (name matches Some(s) && (s@ == "NeedsLogin"@ || s@
            == "NeedsMachineAuth"@)),
        state is Stopped <==> (name matches Some(s) && (s@ == "Stopped"@ || s@ == "NoState"@ || s@
            == "Starting"@)),
        !(state is NotInstalled),
        name is None ==> state is Broken,
{
    reveal_strlit("Running");
    reveal_strlit("NeedsLogin");
    reveal_strlit("NeedsMachineAuth");
    reveal_strlit("Stopped");
    reveal_strlit("NoState");
    reveal_strlit("Starting");
    assert("Running"@.len() != "NeedsLogin"@.len());
    assert("Running"@.len() != "NeedsMachineAuth"@.len());
    assert("Running"@[0] != "Stopped"@[0]);
    assert("Running"@[0] != "NoState"@[0]);
    assert("Running"@.len() != "Starting"@.len());
    assert("NeedsLogin"@.len() != "Stopped"@.len());
    assert("NeedsLogin"@.len() != "NoState"@.len());
    assert("NeedsLogin"@.len() != "Starting"@.len());
    assert("NeedsMachineAuth"@.len() != "Stopped"@.len());
    assert("NeedsMachineAuth"@.len() != "NoState"@.len());
    assert("NeedsMachineAuth"@.len() != "Starting"@.len());
}

/// An answer that did not come means that Tailscale is off, or not there at all; one that cannot be
/// read means that it is broken, and one that can says who this machine is and which others there
/// are. Of an answer that was not understood nothing is kept but its state.
pub proof fn answers_are_understood(reading: Reading, status: Status)
    requires
        understood(reading, status),
    ensures
        reading matches Reading::Failed { installed } ==> (status.state == Some(State::Stopped)
            <==> installed) && (status.state == Some(State::NotInstalled) <==> !installed),
        reading is Unreadable ==> (status.state matches Some(State::Broken(_))),
        !(reading is Parsed) ==> status.self_ip is None && status.peers@.len() == 0
            && status.auth_url is None && status.self_name@ == ""@,
        reading matches Reading::Parsed(raw) ==> {
            &&& raw.self_node is None ==> status.self_ip is None && status.self_name@ == ""@
            &&& raw.self_node matches Some(node) ==> status.self_name@ == node.short()
            &&& raw.auth_url is None ==> status.auth_url is None
            &&& raw.auth_url matches Some(url) ==> (status.auth_url is Some <==> url@.len() > 0)
        },
{
}

/// What a job leaves on the screen: a refresh what it was told to keep, logging in where to go or
/// that it is done, switching on nothing, and a failure its reason.
pub proof fn jobs_leave_their_note(
    job: Job,
    result: Result<String, String>,
    note: Option<Seq<char>>,
)
    requires
        note_of(job, result, note),
    ensures
        job matches Job::Refresh { keep } ==> (note is Some <==> keep is Some) && (
        keep matches Some(text) ==> note == Some(text@)),
        job is Up ==> (note is None <==> result is Ok),
        job is Login ==> note is Some,
        job is Login ==> (result matches Err(reason) ==> note == Some(reason@)),
        job is Login ==> (result matches Ok(url) ==> (url@.len() > 0 ==> note == Some(
            "mở trang này để đăng nhập: "@ + url@,
        ))),
{
}

/// Signing in opens the page that is known at once; else it is asked for, where there is a program
/// to ask.
pub proof fn known_pages_are_opened(status: &Status, installed: bool, r: (Login, LoginStep))
    requires
        call_ensures(Login::begin, (status, installed), r),
    ensures
        r.0.asked() == 0,
        r.1 is Spawn <==> status.auth_url is None && installed,
        status.auth_url matches Some(url) ==> (r.1 matches LoginStep::Done {
            open,
            result: Ok(page),
        } && open && page@ == url@),
        status.auth_url is None && !installed ==> (r.1 matches LoginStep::Done {
            open,
            result: Err(_),
        } && !open),
{
}

/// The page is asked for until it is there or none is needed, at most ten times.
pub proof fn pages_are_asked_for_ten_times(login: &mut Login, status: &Status, r: LoginStep)
    requires
        old(login).asked() < 10,
        call_ensures(Login::polled, (login, status), r),
    ensures
        final(login).asked() == old(login).asked() + 1,
        r is Poll <==> status.auth_url is None && status.state != Some(State::Running) && old(login).asked() < 9,
        !(r is Poll) ==> r is Done,
        status.auth_url matches Some(url) ==> (r matches LoginStep::Done {
            open,
            result: Ok(page),
        } && open && page@ == url@),
        status.auth_url is None && status.state == Some(State::Running) ==> (
        r matches LoginStep::Done { open, result: Ok(_) } && !open),
        status.auth_url is None && status.state != Some(State::Running) && old(login).asked() == 9
            ==> (r matches LoginStep::Done { open, result: Err(_) } && !open),
{
}

/// The state is asked for when the time is over and nothing is under way; the time begins anew when
/// it is over, and what was noted and known stays.
pub proof fn states_are_asked_for_in_time(
    watcher: &mut Watcher,
    now_ms: u64,
    every_ms: u64,
    r: Option<Job>,
)
    requires
        every_ms > 0,
        call_ensures(Watcher::tick, (watcher, now_ms, every_ms), r),
    ensures
        ({
            let over = now_ms >= old(watcher).asked_ms() + every_ms;
            &&& r is Some <==> over && !old(watcher).working()
            &&& r matches Some(job) ==> (job matches Job::Refresh { keep } && view_of(keep) == old(watcher).note())
            &&& final(watcher).working() <==> over || old(watcher).working()
            &&& over ==> final(watcher).asked_ms() == now_ms
            &&& !over ==> final(watcher).asked_ms() == old(watcher).asked_ms()
            &&& final(watcher).latest() == old(watcher).latest()
            &&& final(watcher).note() == old(watcher).note()
        }),
{
}

/// One job runs at a time: while one does, neither of the three is begun, and when it is done the
/// next may begin.
pub proof fn one_job_at_a_time(
    first: &mut Watcher,
    second: &mut Watcher,
    ending: &mut Watcher,
    third: &mut Watcher,
    one: Option<Job>,
    two: Option<Job>,
    note: Option<String>,
    status: Status,
    three: Option<Job>,
)
    requires
        call_ensures(Watcher::login, (first,), one),
        *old(second) == *final(first),
        call_ensures(Watcher::up, (second,), two),
        *old(ending) == *final(second),
        call_ensures(Watcher::done, (ending, note, status), ()),
        *old(third) == *final(ending),
        call_ensures(Watcher::refresh, (third,), three),
    ensures
        one == (if old(first).working() {
            None
        } else {
            Some(Job::Login)
        }),
        two is None,
        final(ending).latest() == status,
        final(ending).note() == view_of(note),
        three matches Some(Job::Refresh { keep }) && view_of(keep) == view_of(note),
        final(third).working(),
{
}

/// A job that could not be begun leaves all as it was, and the next may begin.
pub proof fn failed_jobs_leave_the_rest(
    failing: &mut Watcher,
    next: &mut Watcher,
    r: Option<Job>,
)
    requires
        call_ensures(Watcher::not_started, (failing,), ()),
        *old(next) == *final(failing),
        call_ensures(Watcher::up, (next,), r),
    ensures
        r == Some(Job::Up),
        final(failing).latest() == old(failing).latest(),
        final(failing).note() == old(failing).note(),
        final(failing).asked_ms() == old(failing).asked_ms(),
{
}

/// A command that failed says what it wrote, without the white space around it, where it wrote
/// something.
pub proof fn commands_say_why_they_failed(stderr: &str, args: &str, s: String)
    requires
        call_ensures(failure, (stderr, args), s),
    ensures
        crate::text::trimmed(stderr@).len() > 0 ==> s@ == crate::text::trimmed(stderr@),
        s@.len() > 0,
{
    reveal_strlit("tailscale ");
}

/// A watcher begins by asking, with nothing known and nothing noted, and tells what it holds.
pub proof fn watchers_begin_by_asking(
    now_ms: u64,
    r: (Watcher, Job),
    watcher: &Watcher,
    latest: &Status,
    busy: bool,
    note: Option<String>,
)
    requires
        call_ensures(Watcher::new, (now_ms,), r),
        call_ensures(Watcher::snapshot, (watcher,), latest),
        call_ensures(Watcher::busy, (watcher,), busy),
        call_ensures(Watcher::message, (watcher,), note),
    ensures
        r.0.working() && r.0.note() is None && r.0.asked_ms() == now_ms,
        r.1 matches Job::Refresh { keep } && keep is None,
        *latest == watcher.latest(),
        busy == watcher.working(),
        view_of(note) == watcher.note(),
{
}

/// A program that could be begun is asked; one that could not is told with the cause.
pub proof fn begun_programs_are_asked(login: &Login, failure: Option<String>, r: LoginStep)
    requires
        call_ensures(Login::spawned, (login, failure), r),
    ensures
        r is Poll <==> failure is None,
        failure matches Some(cause) ==> (r matches LoginStep::Done { open, result: Err(reason) }
            && !open && crate::text::says(reason@, cause@)),
{
    if failure is Some {
        let none = Seq::<char>::empty();
        crate::text::parts_are_said(
            "không chạy được `tailscale login`: "@,
            failure->0@,
            none,
            none,
            none,
        );
    }
}

} // verus!
