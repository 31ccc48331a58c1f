//! What the user fills in before a session.

use rand::RngExt;
use vstd::prelude::*;
use vstd::string::StringExecFns;

use crate::app::args::{Args, DEFAULT_PORT};
use crate::net::{Address, Ip, NetConfig, PeerAddress, PeerId, Role};
use crate::text::{holds, push_decimal, push_padded, trim};

verus! {

/// How many passwords there are.
pub const PASSWORDS: u32 = 1_000_000;

/// `rand::rng().random_range(0..limit)`: some number below the limit; which one is left to chance.
/// Where the system has no source of chance the call panics.
#[verifier::external_body]
fn random_below(limit: u32) -> (r: u32)
    requires
        limit > 0,
    ensures
        r < limit,
{
    rand::rng().random_range(0..limit)
}

/// Six digits.
pub fn password_of(n: u32) -> (s: String)
    ensures
        s@ == crate::text::padded(n as nat, 6),
{
    let mut s: String = String::new();
    push_padded(&mut s, n as u64, 6);
    assert(s@ =~= crate::text::padded(n as nat, 6));
    s
}

pub open spec fn is_password(s: Seq<char>) -> bool {
    exists|n: nat| n < PASSWORDS && s == #[trigger] crate::text::padded(n, 6)
}

/// Six digits by chance: short enough to be read out over the telephone, and another each time, so
/// that there is no password to try first.
pub fn random_password() -> (s: String)
    ensures
        is_password(s@),
{
    let n: u32 = random_below(PASSWORDS);
    assert((n as nat) < PASSWORDS);
    password_of(n)
}

/// The name that the other end sees: the first of two that the system gives.
pub fn machine_name(hostname: Option<String>, computer: Option<String>) -> (s: String)
    ensures
        s@ == (match (hostname, computer) {
            (Some(a), _) => a@,
            (None, Some(b)) => b@,
            (None, None) => "máy không tên"@,
        }),
{
    match hostname {
        Some(a) => a,
        None => match computer {
            Some(b) => b,
            None => "máy không tên".to_owned(),
        },
    }
}

/// What asking for the addresses of a machine gave.
#[derive(Debug)]
pub enum Lookup {
    /// The first of them.
    Found(Address),
    Nothing,
    Failed(String),
}

/// What is looked up for a text: without a port the usual one is meant.
pub open spec fn with_port(text: Seq<char>) -> Seq<char> {
    if text.contains(':') {
        text
    } else {
        text + ":"@ + crate::text::decimal(DEFAULT_PORT as nat)
    }
}

pub fn looked_up(text: &str) -> (s: String)
    ensures
        s@ == with_port(text@),
{
    let mut s: String = text.to_owned();
    if !holds(text, ':') {
        s.append(":");
        push_decimal(&mut s, DEFAULT_PORT as u64);
    }
    s
}

/// An address, or why there is none.
pub open spec fn resolved(text: Seq<char>, found: Lookup) -> Result<Address, Seq<char>> {
    match found {
        Lookup::Found(address) => Ok(address),
        Lookup::Nothing => Err(text + " không phân giải ra địa chỉ nào"@),
        Lookup::Failed(reason) => Err("không hiểu địa chỉ "@ + text + ": "@ + reason@),
    }
}

pub fn resolve(text: &str, found: Lookup) -> (r: Result<Address, String>)
    ensures
        match resolved(text@, found) {
            Ok(address) => r == Ok::<Address, String>(address),
            Err(wrong) => r matches Err(e) && e@ == wrong,
        },
{
    match found {
        Lookup::Found(address) => Ok(address),
        Lookup::Nothing => {
            let mut s: String = text.to_owned();
            s.append(" không phân giải ra địa chỉ nào");
            Err(s)
        },
        Lookup::Failed(reason) => {
            let mut s: String = "không hiểu địa chỉ ".to_owned();
            s.append(text);
            s.append(": ");
            s.append(reason.as_str());
            Err(s)
        },
    }
}

/// The other machine: a code before an address, since a code is a host name by its form.
pub open spec fn named_peer(text: Seq<char>, code: Option<PeerId>, found: Lookup) -> Result<
    PeerAddress,
    Seq<char>,
> {
    if text.len() == 0 {
        Err("chưa nhập mã hoặc địa chỉ của máy kia"@)
    } else {
        match code {
            Some(id) => Ok(PeerAddress::Code(id)),
            None => match resolved(text, found) {
                Ok(address) => Ok(PeerAddress::Direct(address)),
                Err(wrong) => Err(wrong),
            },
        }
    }
}

/// Understands both ways to name the other machine. `code` is the text as a code, where it is one,
/// and `found` what its address was looked up to.
pub fn parse_peer(text: &str, code: Option<PeerId>, found: Lookup) -> (r: Result<
    PeerAddress,
    String,
>)
    ensures
        match named_peer(text@, code, found) {
            Ok(peer) => r == Ok::<PeerAddress, String>(peer),
            Err(wrong) => r matches Err(e) && e@ == wrong,
        },
{
    if text.is_empty() {
        return Err("chưa nhập mã hoặc địa chỉ của máy kia".to_owned());
    }
    match code {
        Some(id) => Ok(PeerAddress::Code(id)),
        None => match resolve(text, found) {
            Ok(address) => Ok(PeerAddress::Direct(address)),
            Err(e) => Err(e),
        },
    }
}

/// A text, or nothing.
pub open spec fn given(text: Option<String>) -> Seq<char> {
    match text {
        Some(t) => t@,
        None => ""@,
    }
}

fn given_or(text: &Option<String>, other: &str) -> (s: String)
    ensures
        s@ == (match *text {
            Some(t) => t@,
            None => other@,
        }),
{
    match text {
        Some(t) => t.as_str().to_owned(),
        None => other.to_owned(),
    }
}

/// Wished-for frames per second within what is possible.
pub open spec fn frame_rate(fps: u32) -> u32 {
    if fps < 1 {
        1
    } else if fps > 240 {
        240
    } else {
        fps
    }
}

/// A wished-for bitrate within what is possible.
pub open spec fn bit_rate(kbps: u32) -> u32 {
    if kbps < 500 {
        500
    } else if kbps > 500_000 {
        500_000
    } else {
        kbps
    }
}

#[derive(Debug)]
pub struct Form {
    pub target: String,
    pub password: String,
    pub rendezvous: String,
    pub name: String,
    pub fps: u32,
    pub bitrate: u32,
    pub downloads: String,
    pub port: u16,
}

impl Form {
    /// Filled in from the command line. Without a name there the machine's own is taken, without a
    /// directory the user's, and without a password a new one.
    pub fn from_args(args: &Args, machine: &str, downloads: &str) -> (r: Self)
        ensures
            r.target@ == given(args.connect),
            match args.password {
                Some(p) => r.password@ == p@,
                None => is_password(r.password@),
            },
            r.rendezvous@ == given(args.rendezvous),
            r.name@ == (match args.name {
                Some(n) => n@,
                None => machine@,
            }),
            r.fps == args.fps,
            r.bitrate == args.bitrate,
            r.downloads@ == (match args.downloads {
                Some(d) => d@,
                None => downloads@,
            }),
            r.port == args.port,
    {
        let password: String = match &args.password {
            Some(p) => p.as_str().to_owned(),
            None => random_password(),
        };
        Form {
            target: given_or(&args.connect, ""),
            password,
            rendezvous: given_or(&args.rendezvous, ""),
            name: given_or(&args.name, machine),
            fps: args.fps,
            bitrate: args.bitrate,
            downloads: given_or(&args.downloads, downloads),
            port: args.port,
        }
    }

    /// The rendezvous server that is to be looked up, where one is named.
    pub fn server(&self) -> (r: Option<String>)
        ensures
            ({
                let text = crate::text::trimmed(self.rendezvous@);
                match r {
                    Some(s) => text.len() > 0 && s@ == with_port(text),
                    None => text.len() == 0,
                }
            }),
    {
        let text: String = trim(self.rendezvous.as_str());
        if text.as_str().is_empty() {
            None
        } else {
            Some(looked_up(text.as_str()))
        }
    }

    /// The machine that is to be looked up; the text without its port may be a code.
    pub fn other(&self) -> (r: (String, String))
        ensures
            r.0@ == crate::text::trimmed(self.target@),
            r.1@ == with_port(r.0@),
    {
        let text: String = trim(self.target.as_str());
        let query: String = looked_up(text.as_str());
        (text, query)
    }

    /// What is wrong with the form, the server before the other machine.
    pub open spec fn fault(
        self,
        role: Role,
        server: Lookup,
        code: Option<PeerId>,
        other: Lookup,
    ) -> Option<Seq<char>> {
        let text = crate::text::trimmed(self.rendezvous@);
        let peer = named_peer(crate::text::trimmed(self.target@), code, other);
        if text.len() > 0 && resolved(text, server) is Err {
            Some(resolved(text, server)->Err_0)
        } else if role is Viewer && peer is Err {
            Some(peer->Err_0)
        } else {
            None
        }
    }

    /// The session that the form asks for. `server` and `other` are what the two machines were
    /// looked up to, as far as they are named; `code` is the other one as a code.
    pub fn config(
        &self,
        role: Role,
        allow_10bit: bool,
        server: Lookup,
        code: Option<PeerId>,
        other: Lookup,
    ) -> (r: Result<NetConfig, String>)
        ensures
            match self.fault(role, server, code, other) {
                Some(wrong) => r matches Err(e) && e@ == wrong,
                None => r matches Ok(c) && self.asks_for(c, role, allow_10bit, server, code, other),
            },
    {
        let text: String = trim(self.rendezvous.as_str());
        let rendezvous: Option<Address> = if text.as_str().is_empty() {
            None
        } else {
            match resolve(text.as_str(), server) {
                Ok(address) => Some(address),
                Err(e) => {
                    return Err(e);
                },
            }
        };
        let peer: Option<PeerAddress> = match role {
            Role::Host => None,
            Role::Viewer => match parse_peer(trim(self.target.as_str()).as_str(), code, other) {
                Ok(peer) => Some(peer),
                Err(e) => {
                    return Err(e);
                },
            },
        };
        // A host listens where it was agreed. For a viewer any port will do, and a fixed one would
        // be in the way of a second viewer on the same machine.
        let port: u16 = match role {
            Role::Host => self.port,
            Role::Viewer => 0,
        };
        let fps: u32 = if self.fps < 1 {
            1
        } else if self.fps > 240 {
            240
        } else {
            self.fps
        };
        let kbps: u32 = if self.bitrate < 500 {
            500
        } else if self.bitrate > 500_000 {
            500_000
        } else {
            self.bitrate
        };
        let any: [u8; 4] = [0, 0, 0, 0];
        assert(any@ =~= seq![0u8, 0, 0, 0]);
        Ok(
            NetConfig {
                role,
                bind: Address { ip: Ip::V4(any), port },
                rendezvous,
                rendezvous_fingerprint: None,
                peer_fingerprint: None,
                peer,
                name: trim(self.name.as_str()),
                password: trim(self.password.as_str()),
                target_fps: fps,
                bitrate_kbps: kbps,
                allow_10bit,
                download_dir: trim(self.downloads.as_str()),
            },
        )
    }

    /// What a session is like that the form asks for.
    pub open spec fn asks_for(
        self,
        c: NetConfig,
        role: Role,
        allow_10bit: bool,
        server: Lookup,
        code: Option<PeerId>,
        other: Lookup,
    ) -> bool {
        let text = crate::text::trimmed(self.rendezvous@);
        let peer = named_peer(crate::text::trimmed(self.target@), code, other);
        &&& c.role == role
        &&& c.bind.ip is V4
        &&& c.bind.ip->V4_0@ == seq![0u8, 0, 0, 0]
        &&& c.bind.port == (if role is Host {
            self.port
        } else {
            0
        })
        &&& c.rendezvous == (if text.len() == 0 {
            None
        } else {
            Some(resolved(text, server)->Ok_0)
        })
        &&& c.rendezvous_fingerprint is None
        &&& c.peer_fingerprint is None
        &&& c.peer == (if role is Host {
            None
        } else {
            Some(peer->Ok_0)
        })
        &&& c.name@ == crate::text::trimmed(self.name@)
        &&& c.password@ == crate::text::trimmed(self.password@)
        &&& c.target_fps == frame_rate(self.fps)
        &&& c.bitrate_kbps == bit_rate(self.bitrate)
        &&& c.allow_10bit == allow_10bit
        &&& c.download_dir@ == crate::text::trimmed(self.downloads@)
    }
}

/// A text with a port is looked up as it stands; one without gets the usual port, 47823.
pub proof fn the_usual_port_is_added(text: Seq<char>)
    ensures
        with_port(text).contains(':'),
        text.contains(':') ==> with_port(text) == text,
        !text.contains(':') ==> with_port(text) == text + ":47823"@,
{
    reveal_strlit(":");
    reveal_strlit(":47823");
    if !text.contains(':') {
        reveal_with_fuel(crate::text::decimal, 6);
        assert(":"@ + crate::text::decimal(47823) =~= ":47823"@);
        assert(with_port(text) =~= text + ":47823"@);
        assert(with_port(text)[text.len() as int] == ':');
    }
}

/// A code names the other machine before any address does; without one it is the address that was
/// found. Nothing typed, nothing found and a failed search are told apart.
pub proof fn codes_come_before_addresses(text: Seq<char>, code: Option<PeerId>, found: Lookup)
    ensures
        text.len() == 0 ==> named_peer(text, code, found) == Err::<PeerAddress, Seq<char>>(
            "chưa nhập mã hoặc địa chỉ của máy kia"@,
        ),
        text.len() > 0 ==> (code matches Some(id) ==> named_peer(text, code, found) == Ok::<
            PeerAddress,
            Seq<char>,
        >(PeerAddress::Code(id))),
        text.len() > 0 && code is None ==> match found {
            Lookup::Found(address) => named_peer(text, code, found) == Ok::<
                PeerAddress,
                Seq<char>,
            >(PeerAddress::Direct(address)),
            Lookup::Nothing => named_peer(text, code, found) == Err::<PeerAddress, Seq<char>>(
                text + " không phân giải ra địa chỉ nào"@,
            ),
            Lookup::Failed(reason) => named_peer(text, code, found) == Err::<
                PeerAddress,
                Seq<char>,
            >("không hiểu địa chỉ "@ + text + ": "@ + reason@),
        },
        resolved(text, found) matches Ok(address) ==> found == Lookup::Found(address),
        found is Found ==> resolved(text, found) is Ok,
{
}

/// Rates are held within what is possible, and stay as they are where they are.
pub proof fn wishes_are_held_within(fps: u32, kbps: u32)
    ensures
        1 <= frame_rate(fps) <= 240,
        1 <= fps <= 240 ==> frame_rate(fps) == fps,
        fps == 0 ==> frame_rate(fps) == 1,
        fps > 240 ==> frame_rate(fps) == 240,
        500 <= bit_rate(kbps) <= 500_000,
        500 <= kbps <= 500_000 ==> bit_rate(kbps) == kbps,
        kbps < 500 ==> bit_rate(kbps) == 500,
        kbps > 500_000 ==> bit_rate(kbps) == 500_000,
{
}

/// A password that is made up is six digits.
pub proof fn passwords_are_six_digits(s: Seq<char>)
    requires
        is_password(s),
    ensures
        s.len() == 6,
        crate::text::digits_value(s) matches Some(n) && n < 1_000_000,
{
    let n = choose|n: nat| n < PASSWORDS && s == #[trigger] crate::text::padded(n, 6);
    crate::text::padded_numbers_read_back(n, 6);
    reveal_with_fuel(vstd::arithmetic::power::pow, 7);
    assert(vstd::arithmetic::power::pow(10, 6) == 1_000_000);
}

/// A form is at fault for a server that cannot be found, or for a machine to watch that is not
/// named. To share needs no other machine, and an empty line needs no server.
pub proof fn forms_need_a_server_and_a_peer(
    form: Form,
    role: Role,
    server: Lookup,
    code: Option<PeerId>,
    other: Lookup,
)
    ensures
        ({
            let address = crate::text::trimmed(form.rendezvous@);
            let target = crate::text::trimmed(form.target@);
            let lost = address.len() > 0 && !(server is Found);
            let nameless = target.len() == 0 || (code is None && !(other is Found));
            &&& form.fault(role, server, code, other) is None <==> !lost && (role is Host
                || !nameless)
            &&& lost && server is Nothing ==> form.fault(role, server, code, other) == Some(
                address + " không phân giải ra địa chỉ nào"@,
            )
            &&& !lost && role is Viewer && target.len() == 0 ==> form.fault(
                role,
                server,
                code,
                other,
            ) == Some("chưa nhập mã hoặc địa chỉ của máy kia"@)
        }),
{
}

/// A session has what the form says: to share waits on the form's port and names nobody, to watch
/// takes any port and names the machine that was typed; names, passwords and folders without the
/// white space around them.
pub proof fn sessions_are_what_the_form_says(
    form: Form,
    c: NetConfig,
    role: Role,
    allow_10bit: bool,
    server: Lookup,
    code: Option<PeerId>,
    other: Lookup,
)
    requires
        form.asks_for(c, role, allow_10bit, server, code, other),
        form.fault(role, server, code, other) is None,
    ensures
        c.role == role,
        role is Host ==> c.bind.port == form.port && c.peer is None,
        role is Viewer ==> c.bind.port == 0 && c.peer is Some,
        role is Viewer ==> (code matches Some(id) ==> c.peer == Some(PeerAddress::Code(id))),
        role is Viewer && code is None ==> (other matches Lookup::Found(at) ==> c.peer == Some(
            PeerAddress::Direct(at),
        )),
        crate::text::trimmed(form.rendezvous@).len() == 0 ==> c.rendezvous is None,
        crate::text::trimmed(form.rendezvous@).len() > 0 ==> (server matches Lookup::Found(at)
            ==> c.rendezvous == Some(at)),
        c.bind.ip matches Ip::V4(bytes) && bytes@ == seq![0u8, 0, 0, 0],
        c.name@ == crate::text::trimmed(form.name@),
        c.password@ == crate::text::trimmed(form.password@),
        c.download_dir@ == crate::text::trimmed(form.downloads@),
        1 <= form.fps <= 240 ==> c.target_fps == form.fps,
        500 <= form.bitrate <= 500_000 ==> c.bitrate_kbps == form.bitrate,
        c.allow_10bit == allow_10bit,
{
}

/// The form begins with what the arguments say, and with the machine's own where they say nothing.
pub proof fn forms_begin_with_the_arguments(
    args: &Args,
    machine: &str,
    downloads: &str,
    r: Form,
)
    requires
        call_ensures(Form::from_args, (args, machine, downloads), r),
    ensures
        args.connect matches Some(target) ==> r.target@ == target@,
        args.connect is None ==> r.target@.len() == 0,
        args.rendezvous matches Some(server) ==> r.rendezvous@ == server@,
        args.rendezvous is None ==> r.rendezvous@.len() == 0,
        args.password matches Some(word) ==> r.password@ == word@,
        args.password is None ==> r.password@.len() == 6,
        args.name matches Some(name) ==> r.name@ == name@,
        args.name is None ==> r.name@ == machine@,
        args.downloads matches Some(place) ==> r.downloads@ == place@,
        args.downloads is None ==> r.downloads@ == downloads@,
        r.fps == args.fps && r.bitrate == args.bitrate && r.port == args.port,
{
    reveal_strlit("");
    if args.password is None {
        passwords_are_six_digits(r.password@);
    }
}

/// A server is looked up where one is named, and the other machine as it is typed, both without the
/// white space around them and with a port.
pub proof fn names_are_looked_up_with_a_port(
    form: &Form,
    server: Option<String>,
    other: (String, String),
)
    requires
        call_ensures(Form::server, (form,), server),
        call_ensures(Form::other, (form,), other),
    ensures
        server is Some <==> crate::text::trimmed(form.rendezvous@).len() > 0,
        server matches Some(s) ==> s@ == with_port(crate::text::trimmed(form.rendezvous@)),
        other.0@ == crate::text::trimmed(form.target@),
        other.1@ == with_port(crate::text::trimmed(form.target@)),
{
}

/// The machine's name is the first one of the two that is there.
pub proof fn the_first_name_counts(
    hostname: Option<String>,
    computer: Option<String>,
    s: String,
)
    requires
        call_ensures(machine_name, (hostname, computer), s),
    ensures
        hostname matches Some(name) ==> s@ == name@,
        hostname is None ==> (computer matches Some(name) ==> s@ == name@),
        hostname is None && computer is None ==> s@.len() > 0,
{
    reveal_strlit("máy không tên");
}

} // verus!
