//! The first screen, and which screen is shown.

use vstd::prelude::*;
use vstd::string::StringExecFns;

use crate::app::args::Args;
use crate::app::form::{random_password, Form, Lookup};
use crate::app::local::LocalState;
use crate::app::session::{Outcome, SessionState};
use crate::app::tailscale::{Job, Peer, State, Status, Watcher};
use crate::app::ui::Tone;
use crate::net::{NetConfig, PeerId, Role};
use crate::text::{push_decimal, view_of};

verus! {

/// A field of the form.
#[derive(Debug, Clone, Copy, PartialEq, Eq, Structural)]
pub enum Field {
    Name,
    Password,
    Rendezvous,
    Downloads,
    Target,
    Fps,
    Bitrate,
    Port,
}

/// What a button does.
#[derive(Debug, Clone, Copy, PartialEq, Eq, Structural)]
pub enum Act {
    NewPassword,
    Refresh,
    Up,
    Login,
    CopyAddress,
    /// A machine in the list.
    Pick(usize),
    Start(Role),
    StartLocal,
}

/// A piece of the first screen.
#[derive(Debug)]
pub enum Widget {
    Text { text: String, tone: Tone },
    Button { text: String, act: Act, enabled: bool },
    Edit { text: String, field: Field, hint: String },
    Number { field: Field, low: u32, high: u32, unit: String },
    Link { text: String, url: String },
    Spinner,
    Rule,
}

/// A piece by its content.
pub ghost enum Drawn {
    Text(Seq<char>, Tone),
    Button(Seq<char>, Act, bool),
    Edit(Seq<char>, Field, Seq<char>),
    Number(Field, u32, u32, Seq<char>),
    Link(Seq<char>, Seq<char>),
    Spinner,
    Rule,
}

impl Widget {
    pub open spec fn drawn(self) -> Drawn {
        match self {
            Widget::Text { text, tone } => Drawn::Text(text@, tone),
            Widget::Button { text, act, enabled } => Drawn::Button(text@, act, enabled),
            Widget::Edit { text, field, hint } => Drawn::Edit(text@, field, hint@),
            Widget::Number { field, low, high, unit } => Drawn::Number(field, low, high, unit@),
            Widget::Link { text, url } => Drawn::Link(text@, url@),
            Widget::Spinner => Drawn::Spinner,
            Widget::Rule => Drawn::Rule,
        }
    }
}

pub open spec fn drawn(list: Seq<Widget>) -> Seq<Drawn> {
    Seq::new(list.len(), |i: int| list[i].drawn())
}

fn place(out: &mut Vec<Widget>, widget: Widget)
    ensures
        drawn(final(out)@) == drawn(old(out)@).push(widget.drawn()),
{
    out.push(widget);
    assert(drawn(out@) =~= drawn(old(out)@).push(widget.drawn()));
}

fn text(out: &mut Vec<Widget>, s: &str, tone: Tone)
    ensures
        drawn(final(out)@) == drawn(old(out)@).push(Drawn::Text(s@, tone)),
{
    place(out, Widget::Text { text: s.to_owned(), tone });
}

fn button(out: &mut Vec<Widget>, s: &str, act: Act)
    ensures
        drawn(final(out)@) == drawn(old(out)@).push(Drawn::Button(s@, act, true)),
{
    place(out, Widget::Button { text: s.to_owned(), act, enabled: true });
}

fn edit(out: &mut Vec<Widget>, s: &str, field: Field, hint: &str)
    ensures
        drawn(final(out)@) == drawn(old(out)@).push(Drawn::Edit(s@, field, hint@)),
{
    place(out, Widget::Edit { text: s.to_owned(), field, hint: hint.to_owned() });
}

fn number(out: &mut Vec<Widget>, field: Field, low: u32, high: u32, unit: &str)
    ensures
        drawn(final(out)@) == drawn(old(out)@).push(Drawn::Number(field, low, high, unit@)),
{
    place(out, Widget::Number { field, low, high, unit: unit.to_owned() });
}

/// A machine with a port.
pub open spec fn address_text(ip: Seq<char>, port: u16) -> Seq<char> {
    ip + ":"@ + crate::text::decimal(port as nat)
}

fn address_of(ip: &str, port: u16) -> (s: String)
    ensures
        s@ == address_text(ip@, port),
{
    let mut s: String = ip.to_owned();
    s.append(":");
    push_decimal(&mut s, port as u64);
    s
}

/// An address that was filled in by a click has its port, so it is looked up as it stands.
pub proof fn picked_addresses_are_whole(ip: Seq<char>, port: u16)
    ensures
        crate::app::form::with_port(address_text(ip, port)) == address_text(ip, port),
{
    reveal_strlit(":");
    assert(address_text(ip, port)[ip.len() as int] == ':');
}

/// A machine in the list: one that is off is shown too, but cannot be picked.
pub open spec fn peer_widgets(peer: Peer, i: int) -> Seq<Drawn> {
    seq![
        Drawn::Button(
            if peer.os@.len() == 0 {
                peer.name@
            } else {
                peer.name@ + " ("@ + peer.os@ + ")"@
            },
            Act::Pick(i as usize),
            peer.online,
        ),
        if peer.online {
            Drawn::Text("đang bật"@, Tone::Good)
        } else {
            Drawn::Text("đang tắt"@, Tone::Warn)
        },
    ]
}

pub open spec fn peers_widgets(peers: Seq<Peer>) -> Seq<Drawn>
    decreases peers.len(),
{
    if peers.len() == 0 {
        seq![]
    } else {
        peers_widgets(peers.drop_last()) + peer_widgets(peers.last(), peers.len() - 1)
    }
}

fn put_peer(out: &mut Vec<Widget>, peer: &Peer, i: usize)
    ensures
        drawn(final(out)@) == drawn(old(out)@) + peer_widgets(*peer, i as int),
{
    let mut label: String = peer.name.as_str().to_owned();
    if !peer.os.as_str().is_empty() {
        label.append(" (");
        label.append(peer.os.as_str());
        label.append(")");
    }
    place(out, Widget::Button { text: label, act: Act::Pick(i), enabled: peer.online });
    if peer.online {
        text(out, "đang bật", Tone::Good);
    } else {
        text(out, "đang tắt", Tone::Warn);
    }
    assert(drawn(out@) =~= drawn(old(out)@) + peer_widgets(*peer, i as int));
}

/// This machine and the others, once Tailscale runs.
pub open spec fn tailnet(status: Status, port: u16) -> Seq<Drawn> {
    seq![
        Drawn::Text("Đã kết nối tailnet"@, Tone::Good),
        Drawn::Text("máy này: "@ + status.self_name@, Tone::Small),
    ] + (match status.self_ip {
        Some(ip) => seq![
            Drawn::Text("Địa chỉ để máy kia gõ:"@, Tone::Plain),
            Drawn::Text(address_text(ip@, port), Tone::Plain),
            Drawn::Button("Chép"@, Act::CopyAddress, true),
        ],
        None => seq![],
    }) + (if status.peers@.len() == 0 {
        seq![
            Drawn::Text(
                "Chưa thấy máy nào khác. Đăng nhập cùng tài khoản Tailscale ở máy kia."@,
                Tone::Small,
            ),
        ]
    } else {
        seq![Drawn::Text("Bấm một máy để điền sẵn địa chỉ:"@, Tone::Small)] + peers_widgets(
            status.peers@,
        )
    })
}

pub fn draw_tailnet(out: &mut Vec<Widget>, status: &Status, port: u16)
    ensures
        drawn(final(out)@) == drawn(old(out)@) + tailnet(*status, port),
{
    text(out, "Đã kết nối tailnet", Tone::Good);
    let mut own: String = "máy này: ".to_owned();
    own.append(status.self_name.as_str());
    place(out, Widget::Text { text: own, tone: Tone::Small });
    match &status.self_ip {
        Some(ip) => {
            text(out, "Địa chỉ để máy kia gõ:", Tone::Plain);
            place(out, Widget::Text { text: address_of(ip.as_str(), port), tone: Tone::Plain });
            button(out, "Chép", Act::CopyAddress);
        },
        None => {},
    }
    if status.peers.len() == 0 {
        text(
            out,
            "Chưa thấy máy nào khác. Đăng nhập cùng tài khoản Tailscale ở máy kia.",
            Tone::Small,
        );
        assert(drawn(out@) =~= drawn(old(out)@) + tailnet(*status, port));
        return ;
    }
    text(out, "Bấm một máy để điền sẵn địa chỉ:", Tone::Small);
    let ghost head = drawn(out@);
    let mut i: usize = 0;
    assert(head + peers_widgets(status.peers@.take(0)) =~= head);
    while i < status.peers.len()
        invariant
            i <= status.peers@.len(),
            drawn(out@) == head + peers_widgets(status.peers@.take(i as int)),
        decreases status.peers@.len() - i,
    {
        put_peer(out, &status.peers[i], i);
        proof {
            let next = status.peers@.take(i + 1);
            assert(next.drop_last() =~= status.peers@.take(i as int));
            assert(drawn(out@) =~= head + peers_widgets(next));
        }
        i += 1;
    }
    assert(status.peers@.take(i as int) =~= status.peers@);
    assert(drawn(out@) =~= drawn(old(out)@) + tailnet(*status, port));
}

/// What is said of Tailscale by its state.
pub open spec fn state_widgets(status: Status, state: State, port: u16) -> Seq<Drawn> {
    match state {
        State::NotInstalled => seq![
            Drawn::Text(
                "Chưa cài. Cài Tailscale trên cả hai máy rồi đăng nhập cùng một tài khoản là nối được qua internet mà không cần rendezvous server và không phải mở cổng trên router."@,
                Tone::Small,
            ),
            Drawn::Link("Tải Tailscale"@, "https://tailscale.com/download"@),
        ],
        State::Stopped => seq![
            Drawn::Text("Đã cài nhưng chưa bật."@, Tone::Warn),
            Drawn::Button("Bật kết nối"@, Act::Up, true),
        ],
        State::NeedsLogin => seq![
            Drawn::Text("Chưa đăng nhập."@, Tone::Warn),
            Drawn::Button("Đăng nhập Tailscale"@, Act::Login, true),
        ],
        State::Broken(reason) => seq![Drawn::Text(reason@, Tone::Bad)],
        State::Running => tailnet(status, port),
    }
}

/// The box on Tailscale.
pub open spec fn tailscale_widgets(
    busy: bool,
    status: Status,
    message: Option<Seq<char>>,
    port: u16,
) -> Seq<Drawn> {
    seq![
        Drawn::Text("Tailscale"@, Tone::Strong),
        if busy {
            Drawn::Spinner
        } else {
            Drawn::Button("Làm mới"@, Act::Refresh, true)
        },
    ] + (match status.state {
        None => seq![Drawn::Text("đang kiểm tra…"@, Tone::Small)],
        Some(state) => state_widgets(status, state, port) + (match message {
            Some(m) => seq![Drawn::Text(m, Tone::Small)],
            None => seq![],
        }),
    })
}

fn put_state(out: &mut Vec<Widget>, status: &Status, state: &State, port: u16)
    ensures
        drawn(final(out)@) == drawn(old(out)@) + state_widgets(*status, *state, port),
{
    match state {
        State::NotInstalled => {
            text(
                out,
                "Chưa cài. Cài Tailscale trên cả hai máy rồi đăng nhập cùng một tài khoản là nối được qua internet mà không cần rendezvous server và không phải mở cổng trên router.",
                Tone::Small,
            );
            place(
                out,
                Widget::Link {
                    text: "Tải Tailscale".to_owned(),
                    url: "https://tailscale.com/download".to_owned(),
                },
            );
        },
        State::Stopped => {
            text(out, "Đã cài nhưng chưa bật.", Tone::Warn);
            button(out, "Bật kết nối", Act::Up);
        },
        State::NeedsLogin => {
            text(out, "Chưa đăng nhập.", Tone::Warn);
            button(out, "Đăng nhập Tailscale", Act::Login);
        },
        State::Broken(reason) => {
            text(out, reason.as_str(), Tone::Bad);
        },
        State::Running => {
            draw_tailnet(out, status, port);
        },
    }
    assert(drawn(out@) =~= drawn(old(out)@) + state_widgets(*status, *state, port));
}

pub fn draw_tailscale(out: &mut Vec<Widget>, watcher: &Watcher, port: u16)
    ensures
        drawn(final(out)@) == drawn(old(out)@) + tailscale_widgets(
            watcher.working(),
            watcher.latest(),
            watcher.note(),
            port,
        ),
{
    text(out, "Tailscale", Tone::Strong);
    if watcher.busy() {
        place(out, Widget::Spinner);
    } else {
        button(out, "Làm mới", Act::Refresh);
    }
    let status: &Status = watcher.snapshot();
    match &status.state {
        None => {
            text(out, "đang kiểm tra…", Tone::Small);
        },
        Some(state) => {
            put_state(out, status, state, port);
            match watcher.message() {
                Some(m) => {
                    place(out, Widget::Text { text: m, tone: Tone::Small });
                },
                None => {},
            }
        },
    }
    assert(drawn(out@) =~= drawn(old(out)@) + tailscale_widgets(
        watcher.working(),
        watcher.latest(),
        watcher.note(),
        port,
    ));
}

/// The form.
pub open spec fn form_widgets(can_10bit: bool) -> Seq<Drawn> {
    seq![
        Drawn::Text("Điều khiển máy tính từ xa"@, Tone::Strong),
        Drawn::Text(
            if can_10bit {
                "card đồ hoạ hiển thị được 10-bit"@
            } else {
                "card đồ hoạ chỉ hiển thị 8-bit"@
            },
            Tone::Small,
        ),
        Drawn::Edit("Tên hiện cho máy kia"@, Field::Name, ""@),
        Drawn::Edit("Mật khẩu phiên"@, Field::Password, ""@),
        Drawn::Button("Đổi"@, Act::NewPassword, true),
        Drawn::Edit(
            "Rendezvous server"@,
            Field::Rendezvous,
            "bỏ trống nếu nối thẳng trong mạng nhà hoặc qua Tailscale"@,
        ),
        Drawn::Edit("Thư mục nhận tệp"@, Field::Downloads, ""@),
        Drawn::Text("Chất lượng"@, Tone::Plain),
        Drawn::Number(Field::Fps, 15, 240, "fps"@),
        Drawn::Number(Field::Bitrate, 1_000, 200_000, "kbps"@),
        Drawn::Text("Cổng chờ (khi chia sẻ)"@, Tone::Plain),
        Drawn::Number(Field::Port, 1024, 65535, ""@),
    ]
}

fn put_form(out: &mut Vec<Widget>, can_10bit: bool)
    ensures
        drawn(final(out)@) == drawn(old(out)@) + form_widgets(can_10bit),
{
    text(out, "Điều khiển máy tính từ xa", Tone::Strong);
    text(
        out,
        if can_10bit {
            "card đồ hoạ hiển thị được 10-bit"
        } else {
            "card đồ hoạ chỉ hiển thị 8-bit"
        },
        Tone::Small,
    );
    edit(out, "Tên hiện cho máy kia", Field::Name, "");
    edit(out, "Mật khẩu phiên", Field::Password, "");
    button(out, "Đổi", Act::NewPassword);
    edit(
        out,
        "Rendezvous server",
        Field::Rendezvous,
        "bỏ trống nếu nối thẳng trong mạng nhà hoặc qua Tailscale",
    );
    edit(out, "Thư mục nhận tệp", Field::Downloads, "");
    text(out, "Chất lượng", Tone::Plain);
    number(out, Field::Fps, 15, 240, "fps");
    number(out, Field::Bitrate, 1_000, 200_000, "kbps");
    text(out, "Cổng chờ (khi chia sẻ)", Tone::Plain);
    number(out, Field::Port, 1024, 65535, "");
    assert(drawn(out@) =~= drawn(old(out)@) + form_widgets(can_10bit));
}

/// The two ways on, the trial, and what went wrong last.
pub open spec fn way_widgets(error: Option<Seq<char>>) -> Seq<Drawn> {
    seq![
        Drawn::Rule,
        Drawn::Text("Cho điều khiển máy này"@, Tone::Strong),
        Drawn::Text(
            "Máy này hiện màn hình cho người kia xem và nhận chuột phím của họ. Sau khi bấm sẽ có mã và mật khẩu để đọc cho người kia."@,
            Tone::Small,
        ),
        Drawn::Button("Bắt đầu chia sẻ"@, Act::Start(Role::Host), true),
        Drawn::Text("Điều khiển máy khác"@, Tone::Strong),
        Drawn::Text(
            "Gõ mã 9 chữ số của máy kia, hoặc địa chỉ IP:cổng nếu hai máy cùng mạng. Mật khẩu phải khớp với mật khẩu máy kia đang hiện."@,
            Tone::Small,
        ),
        Drawn::Edit(""@, Field::Target, "123 456 789 hoặc 192.168.1.10:47823"@),
        Drawn::Button("Kết nối"@, Act::Start(Role::Viewer), true),
        Drawn::Button("Thử tại chỗ (đo độ trễ không qua mạng)"@, Act::StartLocal, true),
        Drawn::Text(
            "chụp rồi giải mã ngay trong máy — con số nó cho ra là sàn mà chạy hai máy không thể vượt qua"@,
            Tone::Small,
        ),
    ] + (match error {
        Some(e) => seq![Drawn::Text(e, Tone::Bad)],
        None => seq![],
    })
}

fn put_ways(out: &mut Vec<Widget>, error: &Option<String>)
    ensures
        drawn(final(out)@) == drawn(old(out)@) + way_widgets(view_of(*error)),
{
    place(out, Widget::Rule);
    text(out, "Cho điều khiển máy này", Tone::Strong);
    text(
        out,
        "Máy này hiện màn hình cho người kia xem và nhận chuột phím của họ. Sau khi bấm sẽ có mã và mật khẩu để đọc cho người kia.",
        Tone::Small,
    );
    button(out, "Bắt đầu chia sẻ", Act::Start(Role::Host));
    text(out, "Điều khiển máy khác", Tone::Strong);
    text(
        out,
        "Gõ mã 9 chữ số của máy kia, hoặc địa chỉ IP:cổng nếu hai máy cùng mạng. Mật khẩu phải khớp với mật khẩu máy kia đang hiện.",
        Tone::Small,
    );
    edit(out, "", Field::Target, "123 456 789 hoặc 192.168.1.10:47823");
    button(out, "Kết nối", Act::Start(Role::Viewer));
    button(out, "Thử tại chỗ (đo độ trễ không qua mạng)", Act::StartLocal);
    text(
        out,
        "chụp rồi giải mã ngay trong máy — con số nó cho ra là sàn mà chạy hai máy không thể vượt qua",
        Tone::Small,
    );
    match error {
        Some(e) => {
            text(out, e.as_str(), Tone::Bad);
        },
        None => {},
    }
    assert(drawn(out@) =~= drawn(old(out)@) + way_widgets(view_of(*error)));
}

/// Which screen is shown.
pub enum Screen {
    Start,
    Session(Box<SessionState>),
    Local(Box<LocalState>),
}

/// How often Tailscale is asked while the first screen is shown.
pub const TAILSCALE_POLL_MS: u64 = 5000;

/// What a button asks to be done outside.
#[derive(Debug)]
pub enum Wish {
    Nothing,
    Tailscale(Job),
    Copy(String),
    /// Begin a session in that role.
    Begin(Role),
    BeginLocal,
}

pub struct RdApp {
    pub screen: Screen,
    pub form: Form,
    /// Whether the graphics card can show 10-bit video, which is then asked of the other machine.
    pub can_10bit: bool,
    pub tailscale: Watcher,
    pub error: Option<String>,
}

impl RdApp {
    /// The first screen. The command line may ask to go straight on, be it as a host or to another
    /// machine.
    pub fn new(form: Form, args: &Args, can_10bit: bool, tailscale: Watcher) -> (r: (
        Self,
        Option<Role>,
    ))
        ensures
            r.0.screen is Start,
            r.0.form == form,
            r.0.can_10bit == can_10bit,
            r.0.tailscale == tailscale,
            r.0.error is None,
            r.1 == (if args.host {
                Some(Role::Host)
            } else if args.connect is Some {
                Some(Role::Viewer)
            } else {
                None
            }),
    {
        let go: Option<Role> = if args.host {
            Some(Role::Host)
        } else if args.connect.is_some() {
            Some(Role::Viewer)
        } else {
            None
        };
        (RdApp { screen: Screen::Start, form, can_10bit, tailscale, error: None }, go)
    }

    /// Nothing but the error is another.
    pub open spec fn only_error(self, before: RdApp) -> bool {
        self.screen == before.screen && self.form == before.form && self.can_10bit
            == before.can_10bit && self.tailscale == before.tailscale
    }

    /// Turns the form into a session's settings, or shows what is wrong with it.
    pub fn start(
        &mut self,
        role: Role,
        server: Lookup,
        code: Option<PeerId>,
        other: Lookup,
    ) -> (r: Option<NetConfig>)
        ensures
            match old(self).form.fault(role, server, code, other) {
                Some(wrong) => r is None && view_of(final(self).error) == Some(wrong)
                    && final(self).only_error(*old(self)),
                None => r is Some && *final(self) == *old(self) && old(self).form.asks_for(
                    r->0,
                    role,
                    old(self).can_10bit,
                    server,
                    code,
                    other,
                ),
            },
    {
        match self.form.config(role, self.can_10bit, server, code, other) {
            Ok(config) => Some(config),
            Err(e) => {
                self.error = Some(e);
                None
            },
        }
    }

    /// The directory for files could not be made.
    pub fn no_directory(&mut self, reason: &str)
        ensures
            view_of(final(self).error) == Some("không tạo được thư mục nhận tệp: "@ + reason@),
            final(self).only_error(*old(self)),
    {
        let mut s: String = "không tạo được thư mục nhận tệp: ".to_owned();
        s.append(reason);
        self.error = Some(s);
    }

    /// This machine's address for the other end; it means something only while Tailscale runs.
    pub open spec fn own_ip(self) -> Option<Seq<char>> {
        if self.tailscale.latest().state == Some(State::Running) {
            view_of(self.tailscale.latest().self_ip)
        } else {
            None
        }
    }

    pub fn tailscale_ip(&self) -> (r: Option<String>)
        ensures
            view_of(r) == self.own_ip(),
    {
        let status: &Status = self.tailscale.snapshot();
        if !status.running() {
            return None;
        }
        match &status.self_ip {
            Some(ip) => Some(ip.as_str().to_owned()),
            None => None,
        }
    }

    /// The network part was started, or failed to.
    pub fn joined(
        &mut self,
        config: &NetConfig,
        lan_ip: &Option<String>,
        failure: Option<String>,
    )
        ensures
            match failure {
                Some(reason) => view_of(final(self).error) == Some(reason@) && final(self).only_error(*old(self)),
                None => {
                    &&& final(self).error is None
                    &&& final(self).screen is Session
                    &&& final(self).screen->Session_0.page() == crate::app::session::opening(
                        *config,
                        view_of(*lan_ip),
                        old(self).own_ip(),
                    )
                    &&& final(self).form == old(self).form
                    &&& final(self).can_10bit == old(self).can_10bit
                    &&& final(self).tailscale == old(self).tailscale
                },
            },
    {
        match failure {
            Some(reason) => {
                self.error = Some(reason);
            },
            None => {
                let tailscale_ip: Option<String> = self.tailscale_ip();
                self.error = None;
                self.screen = Screen::Session(Box::new(SessionState::start(config, lan_ip, &tailscale_ip)));
            },
        }
    }

    /// The trial was started, or failed to.
    pub fn start_local(&mut self, failure: Option<String>)
        ensures
            match failure {
                Some(reason) => view_of(final(self).error) == Some(reason@) && final(self).only_error(*old(self)),
                None => {
                    &&& final(self).error is None
                    &&& final(self).screen is Local
                    &&& final(self).screen->Local_0.hud()
                    &&& !final(self).screen->Local_0.has_picture()
                    &&& final(self).form == old(self).form
                    &&& final(self).can_10bit == old(self).can_10bit
                    &&& final(self).tailscale == old(self).tailscale
                },
            },
    {
        match failure {
            Some(reason) => {
                self.error = Some(reason);
            },
            None => {
                self.error = None;
                self.screen = Screen::Local(Box::new(LocalState::start()));
            },
        }
    }

    /// After a turn: whoever leaves comes back to the first screen.
    pub fn turned(&mut self, outcome: Outcome)
        ensures
            final(self).screen == (if outcome == Outcome::Leave {
                Screen::Start
            } else {
                old(self).screen
            }),
            final(self).form == old(self).form,
            final(self).can_10bit == old(self).can_10bit,
            final(self).tailscale == old(self).tailscale,
            final(self).error == old(self).error,
    {
        match outcome {
            Outcome::Leave => {
                self.screen = Screen::Start;
            },
            Outcome::Continue => {},
        }
    }

    /// The whole first screen.
    pub open spec fn start_page(self) -> Seq<Drawn> {
        form_widgets(self.can_10bit) + tailscale_widgets(
            self.tailscale.working(),
            self.tailscale.latest(),
            self.tailscale.note(),
            self.form.port,
        ) + way_widgets(view_of(self.error))
    }

    pub fn draw_start(&self) -> (r: Vec<Widget>)
        ensures
            drawn(r@) == self.start_page(),
    {
        let mut r: Vec<Widget> = Vec::new();
        assert(drawn(r@) =~= seq![]);
        put_form(&mut r, self.can_10bit);
        draw_tailscale(&mut r, &self.tailscale, self.form.port);
        put_ways(&mut r, &self.error);
        assert(drawn(r@) =~= self.start_page());
        r
    }

    /// What a button does to the page itself; the rest is for the caller. A button that is not on
    /// the page, such as that of a machine which has gone, does nothing.
    pub fn press(&mut self, act: Act) -> (r: Wish)
        ensures
            final(self).screen == old(self).screen,
            final(self).can_10bit == old(self).can_10bit,
            act is NewPassword ==> {
                &&& r is Nothing
                &&& crate::app::form::is_password(final(self).form.password@)
                &&& final(self).form == (Form {
                    password: final(self).form.password,
                    ..old(self).form
                })
                &&& final(self).error == old(self).error
                &&& final(self).tailscale == old(self).tailscale
            },
            match act {
                Act::Pick(i) => {
                    let peers = old(self).tailscale.latest().peers@;
                    if i < peers.len() && peers[i as int].online {
                        &&& r is Nothing
                        &&& final(self).form.target@ == address_text(
                            peers[i as int].ip@,
                            old(self).form.port,
                        )
                        &&& final(self).form == (Form {
                            target: final(self).form.target,
                            ..old(self).form
                        })
                        &&& final(self).error is None
                        &&& final(self).tailscale == old(self).tailscale
                    } else {
                        r is Nothing && *final(self) == *old(self)
                    }
                },
                Act::CopyAddress => *final(self) == *old(self) && match old(self).tailscale.latest().self_ip {
                    Some(ip) => r matches Wish::Copy(s) && s@ == address_text(
                        ip@,
                        old(self).form.port,
                    ),
                    None => r is Nothing,
                },
                Act::Start(role) => *final(self) == *old(self) && r == Wish::Begin(role),
                Act::StartLocal => *final(self) == *old(self) && r == Wish::BeginLocal,
                Act::Refresh | Act::Up | Act::Login => {
                    &&& final(self).form == old(self).form
                    &&& final(self).error == old(self).error
                    &&& match r {
                        Wish::Nothing => old(self).tailscale.working(),
                        Wish::Tailscale(job) => !old(self).tailscale.working() && match job {
                            Job::Refresh { keep } => act is Refresh && view_of(keep) == old(
                                self).tailscale.note(),
                            Job::Up => act is Up,
                            Job::Login => act is Login,
                        },
                        _ => false,
                    }
                    &&& final(self).tailscale.note() == old(self).tailscale.note()
                    &&& final(self).tailscale.asked_ms() == old(self).tailscale.asked_ms()
                    &&& final(self).tailscale.latest() == old(self).tailscale.latest()
                    &&& final(self).tailscale.working()
                },
                Act::NewPassword => true,
            },
    {
        match act {
            Act::NewPassword => {
                self.form.password = random_password();
                Wish::Nothing
            },
            Act::Refresh => match self.tailscale.refresh() {
                Some(job) => Wish::Tailscale(job),
                None => Wish::Nothing,
            },
            Act::Up => match self.tailscale.up() {
                Some(job) => Wish::Tailscale(job),
                None => Wish::Nothing,
            },
            Act::Login => match self.tailscale.login() {
                Some(job) => Wish::Tailscale(job),
                None => Wish::Nothing,
            },
            Act::CopyAddress => match &self.tailscale.snapshot().self_ip {
                Some(ip) => Wish::Copy(address_of(ip.as_str(), self.form.port)),
                None => Wish::Nothing,
            },
            Act::Pick(i) => {
                let peers: &Vec<Peer> = &self.tailscale.snapshot().peers;
                if i < peers.len() && peers[i].online {
                    let target: String = address_of(peers[i].ip.as_str(), self.form.port);
                    self.form.target = target;
                    self.error = None;
                }
                Wish::Nothing
            },
            Act::Start(role) => Wish::Begin(role),
            Act::StartLocal => Wish::BeginLocal,
        }
    }
}

/// Every machine of the list has a button with its name that picks it, which works only while it is
/// on, and a word that says whether it is.
pub proof fn every_machine_can_be_picked(peers: Seq<Peer>, i: int)
    requires
        0 <= i < peers.len() <= usize::MAX,
    ensures
        ({
            let all = peers_widgets(peers);
            let peer = peers[i];
            &&& all.len() == 2 * peers.len()
            &&& all[2 * i] matches Drawn::Button(text, act, enabled)
            &&& act == Act::Pick(i as usize)
            &&& enabled == peer.online
            &&& peer.os@.len() == 0 ==> text == peer.name@
            &&& peer.os@.len() > 0 ==> text == peer.name@ + " ("@ + peer.os@ + ")"@
            &&& peer.online ==> all[2 * i + 1] == Drawn::Text("đang bật"@, Tone::Good)
            &&& !peer.online ==> all[2 * i + 1] == Drawn::Text("đang tắt"@, Tone::Warn)
        }),
    decreases peers.len(),
{
    let front = peers.drop_last();
    if front.len() > 0 {
        every_machine_can_be_picked(
            front,
            if i < front.len() {
                i
            } else {
                0
            },
        );
    } else {
        assert(peers_widgets(front).len() == 0);
    }
}

/// What can be done about Tailscale goes by its state: to get it where it is missing, to switch it
/// on where it is off, to log in where that is wanted, and to pick a machine once it runs. The
/// address of this machine is shown, and can be copied, only where it has one.
pub proof fn each_state_offers_its_way_on(status: Status, state: State, port: u16)
    ensures
        ({
            let all = state_widgets(status, state, port);
            &&& state is NotInstalled ==> all.len() == 2 && (all[1] matches Drawn::Link(_, url)
                && url == "https://tailscale.com/download"@)
            &&& state is Stopped ==> all.len() == 2 && (all[1] matches Drawn::Button(_, act, enabled)
                && act == Act::Up && enabled)
            &&& state is NeedsLogin ==> all.len() == 2 && (
            all[1] matches Drawn::Button(_, act, enabled) && act == Act::Login && enabled)
            &&& state matches State::Broken(reason) ==> all == seq![
                Drawn::Text(reason@, Tone::Bad),
            ]
            &&& state is Running ==> all[1] == Drawn::Text("máy này: "@ + status.self_name@,
                Tone::Small)
            &&& state is Running && status.self_ip is Some ==> all.len() > 4 && all[3]
                == Drawn::Text(
                status.self_ip->0@ + ":"@ + crate::text::decimal(port as nat),
                Tone::Plain,
            ) && (all[4] matches Drawn::Button(_, act, enabled) && act == Act::CopyAddress
                && enabled)
            &&& state is Running && status.self_ip is Some ==> all.len() == 6 + 2
                * status.peers@.len()
            &&& state is Running && status.self_ip is None ==> all.len() == 3 + 2
                * status.peers@.len()
        }),
{
    peers_take_two(status.peers@);
}

proof fn peers_take_two(peers: Seq<Peer>)
    ensures
        peers_widgets(peers).len() == 2 * peers.len(),
    decreases peers.len(),
{
    if peers.len() > 0 {
        peers_take_two(peers.drop_last());
    }
}

/// While something is under way the box turns instead of offering to look again; before the first
/// answer it says so, and what a job left to say comes last.
pub proof fn the_box_shows_what_is_under_way(
    busy: bool,
    status: Status,
    message: Option<Seq<char>>,
    port: u16,
)
    ensures
        ({
            let all = tailscale_widgets(busy, status, message, port);
            &&& all.len() >= 3
            &&& busy ==> all[1] == Drawn::Spinner
            &&& !busy ==> (all[1] matches Drawn::Button(_, act, enabled) && act == Act::Refresh
                && enabled)
            &&& status.state is None ==> all.len() == 3
            &&& status.state is Some && message is Some ==> all.last() == Drawn::Text(
                message->0,
                Tone::Small,
            )
            &&& status.state matches Some(state) ==> all.subrange(
                2,
                2 + state_widgets(status, state, port).len() as int,
            ) == state_widgets(status, state, port)
        }),
{
    let all = tailscale_widgets(busy, status, message, port);
    if let Some(state) = status.state {
        let inner = state_widgets(status, state, port);
        peers_take_two(status.peers@);
        assert(inner.len() >= 1);
        assert(all.subrange(2, 2 + inner.len() as int) =~= inner);
    }
}

/// The first screen ends with what went wrong last, where something did, and has its buttons to
/// share, to watch and to try.
pub proof fn errors_come_last(error: Option<Seq<char>>)
    ensures
        ({
            let all = way_widgets(error);
            &&& all.len() == 10 + if error is Some {
                1int
            } else {
                0
            }
            &&& error matches Some(words) ==> all.last() == Drawn::Text(words, Tone::Bad)
            &&& all[3] matches Drawn::Button(_, share, on) && share == Act::Start(Role::Host) && on
            &&& all[6] matches Drawn::Edit(_, field, _) && field == Field::Target
            &&& all[7] matches Drawn::Button(_, watch, able) && watch == Act::Start(Role::Viewer)
                && able
            &&& all[8] matches Drawn::Button(_, local, ready) && local == Act::StartLocal && ready
        }),
{
}

/// The program begins on the first page with what it was given, and goes on by itself where its
/// arguments say how: to host comes before to connect.
pub proof fn arguments_begin_a_session(
    form: Form,
    args: &Args,
    can_10bit: bool,
    tailscale: Watcher,
    r: (RdApp, Option<Role>),
)
    requires
        call_ensures(RdApp::new, (form, args, can_10bit, tailscale), r),
    ensures
        r.0.screen is Start && r.0.error is None,
        r.0.form == form && r.0.can_10bit == can_10bit && r.0.tailscale == tailscale,
        args.host ==> r.1 == Some(Role::Host),
        !args.host && args.connect is Some ==> r.1 == Some(Role::Viewer),
        !args.host && args.connect is None ==> r.1 is None,
{
}

/// A session begins where the form has no fault, and nothing changes by it; a fault is shown and
/// begins nothing.
pub proof fn faults_are_shown(
    app: &mut RdApp,
    role: Role,
    server: Lookup,
    code: Option<PeerId>,
    other: Lookup,
    r: Option<NetConfig>,
)
    requires
        call_ensures(RdApp::start, (app, role, server, code, other), r),
    ensures
        r is Some <==> old(app).form.fault(role, server, code, other) is None,
        r is Some ==> *final(app) == *old(app),
        r is None ==> view_of(final(app).error) == old(app).form.fault(role, server, code, other),
        final(app).form == old(app).form && final(app).screen == old(app).screen,
{
}

/// Leaving leads back to the first page, everything else stays where it is; what was filled in
/// stays.
pub proof fn leaving_leads_back(app: &mut RdApp, outcome: Outcome)
    requires
        call_ensures(RdApp::turned, (app, outcome), ()),
    ensures
        outcome == Outcome::Leave ==> final(app).screen is Start,
        outcome != Outcome::Leave ==> final(app).screen == old(app).screen,
        final(app).form == old(app).form,
        final(app).error == old(app).error,
{
}

/// A session that began leads to its page and clears the error; one that did not leaves the page and
/// shows why.
pub proof fn beginnings_lead_to_their_page(
    joining: &mut RdApp,
    local: &mut RdApp,
    config: &NetConfig,
    lan_ip: &Option<String>,
    failure: Option<String>,
)
    requires
        call_ensures(RdApp::joined, (joining, config, lan_ip, failure), ()),
        call_ensures(RdApp::start_local, (local, failure), ()),
    ensures
        failure is None ==> final(joining).screen is Session && final(joining).error is None,
        failure is None ==> final(local).screen is Local && final(local).error is None,
        failure matches Some(reason) ==> final(joining).screen == old(joining).screen && view_of(
            final(joining).error,
        ) == Some(reason@),
        failure matches Some(reason) ==> final(local).screen == old(local).screen && view_of(
            final(local).error,
        ) == Some(reason@),
        final(joining).form == old(joining).form,
        final(local).form == old(local).form,
{
}

/// A machine that is on and picked stands in the form with the form's port, and nothing else of the
/// form changes; one that is off cannot be picked.
pub proof fn picked_machines_stand_in_the_form(app: &mut RdApp, i: usize, r: Wish)
    requires
        call_ensures(RdApp::press, (app, Act::Pick(i)), r),
    ensures
        ({
            let peers = old(app).tailscale.latest().peers@;
            let on = i < peers.len() && peers[i as int].online;
            &&& r is Nothing
            &&& !on ==> *final(app) == *old(app)
            &&& on ==> final(app).form.target@ == peers[i as int].ip@ + seq![':']
                + crate::text::decimal(old(app).form.port as nat)
            &&& on ==> final(app).error is None
            &&& final(app).form.password == old(app).form.password
            &&& final(app).form.rendezvous == old(app).form.rendezvous
            &&& final(app).form.name == old(app).form.name
            &&& final(app).form.port == old(app).form.port
        }),
{
    reveal_strlit(":");
    let peers = old(app).tailscale.latest().peers@;
    if i < peers.len() && peers[i as int].online {
        assert(final(app).form.target@ =~= peers[i as int].ip@ + seq![':'] + crate::text::decimal(
            old(app).form.port as nat,
        ));
    }
}

/// Each button wishes for its own: a role begins, the address is copied where there is one, a
/// password of six digits is made, and a job of Tailscale begins where none runs.
pub proof fn each_button_has_its_wish(app: &mut RdApp, act: Act, r: Wish)
    requires
        call_ensures(RdApp::press, (app, act), r),
    ensures
        act matches Act::Start(role) ==> r == Wish::Begin(role) && *final(app) == *old(app),
        act is StartLocal ==> r == Wish::BeginLocal && *final(app) == *old(app),
        r is Begin ==> act is Start,
        r is BeginLocal ==> act is StartLocal,
        r is Copy <==> act is CopyAddress && old(app).tailscale.latest().self_ip is Some,
        r is Tailscale <==> (act is Refresh || act is Up || act is Login) && !old(app).tailscale.working(),
        act is Up && r is Tailscale ==> r->Tailscale_0 is Up,
        act is Login && r is Tailscale ==> r->Tailscale_0 is Login,
        act is Refresh && r is Tailscale ==> r->Tailscale_0 is Refresh,
        act is NewPassword ==> final(app).form.password@.len() == 6 && final(app).form.target
            == old(app).form.target,
        final(app).screen == old(app).screen,
{
    if act is NewPassword {
        crate::app::form::passwords_are_six_digits(final(app).form.password@);
    }
}

} // verus!
