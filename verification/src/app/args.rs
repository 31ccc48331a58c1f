//! The command line. Everything on it is optional: it only fills in the first screen.

use vstd::prelude::*;
use vstd::string::StringExecFns;

use crate::text::{parse_number, same, view_of};

verus! {

/// The port that a host waits on.
///
/// It is fixed, so that who connects by address can type it without asking, and so that it can be
/// opened on a router.
pub const DEFAULT_PORT: u16 = 47823;

pub const USAGE: &'static str = "\
Điều khiển máy tính từ xa

    remote-desktop [TUỲ CHỌN]

Không tham số nào là bắt buộc; chúng chỉ điền sẵn màn hình đầu.

    --host                 vào thẳng chế độ chia sẻ máy này
    --connect ĐỊA_CHỈ|MÃ   vào thẳng chế độ điều khiển máy khác
    --password MK          mật khẩu phiên (mặc định: sinh ngẫu nhiên)
    --rendezvous ĐỊA_CHỈ   server hẹn gặp, để nối qua internet
    --name TÊN             tên hiện cho máy kia
    --fps N                số hình mỗi giây (mặc định 60)
    --bitrate KBPS         băng thông video (mặc định 30000)
    --port CỔNG            cổng chờ khi chia sẻ (mặc định 47823)
    --downloads THƯ_MỤC    nơi lưu tệp nhận được
    --probe                in khả năng của máy này rồi thoát
    -h, --help             in bảng này
";

#[derive(Debug, Clone)]
pub struct Args {
    /// Only the usage is wanted; no window.
    pub help: bool,
    /// Only what this machine can do is wanted; no window.
    pub probe: bool,
    pub host: bool,
    pub connect: Option<String>,
    pub password: Option<String>,
    pub rendezvous: Option<String>,
    pub name: Option<String>,
    pub fps: u32,
    pub bitrate: u32,
    pub downloads: Option<String>,
    pub port: u16,
}

/// The settings by their content.
#[verifier::ext_equal]
pub ghost struct Settings {
    pub help: bool,
    pub probe: bool,
    pub host: bool,
    pub connect: Option<Seq<char>>,
    pub password: Option<Seq<char>>,
    pub rendezvous: Option<Seq<char>>,
    pub name: Option<Seq<char>>,
    pub fps: u32,
    pub bitrate: u32,
    pub downloads: Option<Seq<char>>,
    pub port: u16,
}

/// What the program does without any argument.
pub open spec fn unset() -> Settings {
    Settings {
        help: false,
        probe: false,
        host: false,
        connect: None,
        password: None,
        rendezvous: None,
        name: None,
        fps: 60,
        bitrate: 30_000,
        downloads: None,
        port: DEFAULT_PORT,
    }
}

/// A flag that stands alone.
pub open spec fn alone(s: Settings, flag: Seq<char>) -> Option<Settings> {
    if flag == "-h"@ || flag == "--help"@ {
        Some(Settings { help: true, ..s })
    } else if flag == "--probe"@ {
        Some(Settings { probe: true, ..s })
    } else if flag == "--host"@ {
        Some(Settings { host: true, ..s })
    } else {
        None
    }
}

/// Whether the flag takes a value.
pub open spec fn takes_value(flag: Seq<char>) -> bool {
    flag == "--connect"@ || flag == "--password"@ || flag == "--rendezvous"@ || flag == "--name"@
        || flag == "--fps"@ || flag == "--bitrate"@ || flag == "--port"@ || flag == "--downloads"@
}

/// A flag with its value: the settings, or what is wrong with the value.
pub open spec fn set(s: Settings, flag: Seq<char>, value: Seq<char>) -> Result<
    Settings,
    Seq<char>,
> {
    let number = crate::text::number(value);
    if flag == "--connect"@ {
        Ok(Settings { connect: Some(value), ..s })
    } else if flag == "--password"@ {
        Ok(Settings { password: Some(value), ..s })
    } else if flag == "--rendezvous"@ {
        Ok(Settings { rendezvous: Some(value), ..s })
    } else if flag == "--name"@ {
        Ok(Settings { name: Some(value), ..s })
    } else if flag == "--fps"@ {
        match number {
            Some(n) if n <= u32::MAX => Ok(Settings { fps: n as u32, ..s }),
            _ => Err("--fps phải là số"@),
        }
    } else if flag == "--bitrate"@ {
        match number {
            Some(n) if n <= u32::MAX => Ok(Settings { bitrate: n as u32, ..s }),
            _ => Err("--bitrate phải là số kbps"@),
        }
    } else if flag == "--port"@ {
        match number {
            Some(n) if n <= u16::MAX => Ok(Settings { port: n as u16, ..s }),
            _ => Err("--port phải là số cổng"@),
        }
    } else {
        Ok(Settings { downloads: Some(value), ..s })
    }
}

/// The arguments from `from` on, taken in from left to right up to the first that is wrong.
pub open spec fn parsed(args: Seq<String>, from: int, s: Settings) -> Result<Settings, Seq<char>>
    decreases args.len() - from,
{
    if from >= args.len() {
        Ok(s)
    } else {
        let flag = args[from]@;
        match alone(s, flag) {
            Some(next) => parsed(args, from + 1, next),
            None => if !takes_value(flag) {
                Err("không hiểu tham số "@ + flag)
            } else if from + 1 >= args.len() {
                Err(flag + " cần một giá trị đi kèm"@)
            } else {
                match set(s, flag, args[from + 1]@) {
                    Ok(next) => parsed(args, from + 2, next),
                    Err(wrong) => Err(wrong),
                }
            },
        }
    }
}

impl Default for Args {
    fn default() -> (r: Self)
        ensures
            r.settings() == unset(),
    {
        Args {
            help: false,
            probe: false,
            host: false,
            connect: None,
            password: None,
            rendezvous: None,
            name: None,
            // More than most screens can show would only cost bandwidth.
            fps: 60,
            bitrate: 30_000,
            downloads: None,
            port: DEFAULT_PORT,
        }
    }
}

impl Args {
    pub open spec fn settings(self) -> Settings {
        Settings {
            help: self.help,
            probe: self.probe,
            host: self.host,
            connect: view_of(self.connect),
            password: view_of(self.password),
            rendezvous: view_of(self.rendezvous),
            name: view_of(self.name),
            fps: self.fps,
            bitrate: self.bitrate,
            downloads: view_of(self.downloads),
            port: self.port,
        }
    }

    fn set_alone(&mut self, flag: &str) -> (r: bool)
        ensures
            match alone(old(self).settings(), flag@) {
                Some(next) => r && final(self).settings() == next,
                None => !r && *final(self) == *old(self),
            },
    {
        if same(flag, "-h") || same(flag, "--help") {
            self.help = true;
        } else if same(flag, "--probe") {
            self.probe = true;
        } else if same(flag, "--host") {
            self.host = true;
        } else {
            return false;
        }
        true
    }

    fn set_value(&mut self, flag: &str, value: &str) -> (r: Result<(), String>)
        requires
            takes_value(flag@),
        ensures
            match set(old(self).settings(), flag@, value@) {
                Ok(next) => r is Ok && final(self).settings() == next,
                Err(wrong) => r matches Err(e) && e@ == wrong,
            },
    {
        if same(flag, "--connect") {
            self.connect = Some(value.to_owned());
        } else if same(flag, "--password") {
            self.password = Some(value.to_owned());
        } else if same(flag, "--rendezvous") {
            self.rendezvous = Some(value.to_owned());
        } else if same(flag, "--name") {
            self.name = Some(value.to_owned());
        } else if same(flag, "--fps") {
            match parse_number(value, u32::MAX as u64) {
                Some(n) => {
                    self.fps = n as u32;
                },
                None => {
                    return Err("--fps phải là số".to_owned());
                },
            }
        } else if same(flag, "--bitrate") {
            match parse_number(value, u32::MAX as u64) {
                Some(n) => {
                    self.bitrate = n as u32;
                },
                None => {
                    return Err("--bitrate phải là số kbps".to_owned());
                },
            }
        } else if same(flag, "--port") {
            match parse_number(value, u16::MAX as u64) {
                Some(n) => {
                    self.port = n as u16;
                },
                None => {
                    return Err("--port phải là số cổng".to_owned());
                },
            }
        } else {
            self.downloads = Some(value.to_owned());
        }
        Ok(())
    }

    pub fn parse(args: Vec<String>) -> (r: Result<Self, String>)
        ensures
            match parsed(args@, 0, unset()) {
                Ok(s) => r matches Ok(out) && out.settings() == s,
                Err(wrong) => r matches Err(e) && e@ == wrong,
            },
    {
        let mut out = Args::default();
        let mut i: usize = 0;
        while i < args.len()
            invariant
                i <= args@.len(),
                parsed(args@, 0, unset()) == parsed(args@, i as int, out.settings()),
            decreases args@.len() - i,
        {
            let flag: &str = args[i].as_str();
            if out.set_alone(flag) {
                i += 1;
                continue;
            }
            if !is_known(flag) {
                let mut s: String = "không hiểu tham số ".to_owned();
                s.append(flag);
                return Err(s);
            }
            if args.len() - i < 2 {
                let mut s: String = flag.to_owned();
                s.append(" cần một giá trị đi kèm");
                return Err(s);
            }
            match out.set_value(flag, args[i + 1].as_str()) {
                Ok(()) => {},
                Err(e) => {
                    return Err(e);
                },
            }
            i += 2;
        }
        Ok(out)
    }
}

fn is_known(flag: &str) -> (r: bool)
    ensures
        r == takes_value(flag@),
{
    same(flag, "--connect") || same(flag, "--password") || same(flag, "--rendezvous") || same(
        flag,
        "--name",
    ) || same(flag, "--fps") || same(flag, "--bitrate") || same(flag, "--port") || same(
        flag,
        "--downloads",
    )
}

/// What the user reads when the arguments cannot be understood.
pub fn refused(wrong: &str) -> (s: String)
    ensures
        s@ == "Tham số không hợp lệ: "@ + wrong@ + "\n\n"@ + USAGE@,
{
    let mut s: String = "Tham số không hợp lệ: ".to_owned();
    s.append(wrong);
    s.append("\n\n");
    s.append(USAGE);
    s
}

/// No two flags are the same.
proof fn flags_differ()
    ensures
        "-h"@ != "--help"@,
        "-h"@ != "--probe"@,
        "-h"@ != "--host"@,
        "-h"@ != "--connect"@,
        "-h"@ != "--password"@,
        "-h"@ != "--rendezvous"@,
        "-h"@ != "--name"@,
        "-h"@ != "--fps"@,
        "-h"@ != "--bitrate"@,
        "-h"@ != "--port"@,
        "-h"@ != "--downloads"@,
        "--help"@ != "--probe"@,
        "--help"@ != "--host"@,
        "--help"@ != "--connect"@,
        "--help"@ != "--password"@,
        "--help"@ != "--rendezvous"@,
        "--help"@ != "--name"@,
        "--help"@ != "--fps"@,
        "--help"@ != "--bitrate"@,
        "--help"@ != "--port"@,
        "--help"@ != "--downloads"@,
        "--probe"@ != "--host"@,
        "--probe"@ != "--connect"@,
        "--probe"@ != "--password"@,
        "--probe"@ != "--rendezvous"@,
        "--probe"@ != "--name"@,
        "--probe"@ != "--fps"@,
        "--probe"@ != "--bitrate"@,
        "--probe"@ != "--port"@,
        "--probe"@ != "--downloads"@,
        "--host"@ != "--connect"@,
        "--host"@ != "--password"@,
        "--host"@ != "--rendezvous"@,
        "--host"@ != "--name"@,
        "--host"@ != "--fps"@,
        "--host"@ != "--bitrate"@,
        "--host"@ != "--port"@,
        "--host"@ != "--downloads"@,
        "--connect"@ != "--password"@,
        "--connect"@ != "--rendezvous"@,
        "--connect"@ != "--name"@,
        "--connect"@ != "--fps"@,
        "--connect"@ != "--bitrate"@,
        "--connect"@ != "--port"@,
        "--connect"@ != "--downloads"@,
        "--password"@ != "--rendezvous"@,
        "--password"@ != "--name"@,
        "--password"@ != "--fps"@,
        "--password"@ != "--bitrate"@,
        "--password"@ != "--port"@,
        "--password"@ != "--downloads"@,
        "--rendezvous"@ != "--name"@,
        "--rendezvous"@ != "--fps"@,
        "--rendezvous"@ != "--bitrate"@,
        "--rendezvous"@ != "--port"@,
        "--rendezvous"@ != "--downloads"@,
        "--name"@ != "--fps"@,
        "--name"@ != "--bitrate"@,
        "--name"@ != "--port"@,
        "--name"@ != "--downloads"@,
        "--fps"@ != "--bitrate"@,
        "--fps"@ != "--port"@,
        "--fps"@ != "--downloads"@,
        "--bitrate"@ != "--port"@,
        "--bitrate"@ != "--downloads"@,
        "--port"@ != "--downloads"@,
{
    reveal_strlit("-h");
    reveal_strlit("--help");
    reveal_strlit("--probe");
    reveal_strlit("--host");
    reveal_strlit("--connect");
    reveal_strlit("--password");
    reveal_strlit("--rendezvous");
    reveal_strlit("--name");
    reveal_strlit("--fps");
    reveal_strlit("--bitrate");
    reveal_strlit("--port");
    reveal_strlit("--downloads");
    assert("-h"@.len() != "--help"@.len());
    assert("-h"@.len() != "--probe"@.len());
    assert("-h"@.len() != "--host"@.len());
    assert("-h"@.len() != "--connect"@.len());
    assert("-h"@.len() != "--password"@.len());
    assert("-h"@.len() != "--rendezvous"@.len());
    assert("-h"@.len() != "--name"@.len());
    assert("-h"@.len() != "--fps"@.len());
    assert("-h"@.len() != "--bitrate"@.len());
    assert("-h"@.len() != "--port"@.len());
    assert("-h"@.len() != "--downloads"@.len());
    assert("--help"@.len() != "--probe"@.len());
    assert("--help"@[3] != "--host"@[3]);
    assert("--help"@.len() != "--connect"@.len());
    assert("--help"@.len() != "--password"@.len());
    assert("--help"@.len() != "--rendezvous"@.len());
    assert("--help"@[2] != "--name"@[2]);
    assert("--help"@.len() != "--fps"@.len());
    assert("--help"@.len() != "--bitrate"@.len());
    assert("--help"@[2] != "--port"@[2]);
    assert("--help"@.len() != "--downloads"@.len());
    assert("--probe"@.len() != "--host"@.len());
    assert("--probe"@.len() != "--connect"@.len());
    assert("--probe"@.len() != "--password"@.len());
    assert("--probe"@.len() != "--rendezvous"@.len());
    assert("--probe"@.len() != "--name"@.len());
    assert("--probe"@.len() != "--fps"@.len());
    assert("--probe"@.len() != "--bitrate"@.len());
    assert("--probe"@.len() != "--port"@.len());
    assert("--probe"@.len() != "--downloads"@.len());
    assert("--host"@.len() != "--connect"@.len());
    assert("--host"@.len() != "--password"@.len());
    assert("--host"@.len() != "--rendezvous"@.len());
    assert("--host"@[2] != "--name"@[2]);
    assert("--host"@.len() != "--fps"@.len());
    assert("--host"@.len() != "--bitrate"@.len());
    assert("--host"@[2] != "--port"@[2]);
    assert("--host"@.len() != "--downloads"@.len());
    assert("--connect"@.len() != "--password"@.len());
    assert("--connect"@.len() != "--rendezvous"@.len());
    assert("--connect"@.len() != "--name"@.len());
    assert("--connect"@.len() != "--fps"@.len());
    assert("--connect"@[2] != "--bitrate"@[2]);
    assert("--connect"@.len() != "--port"@.len());
    assert("--connect"@.len() != "--downloads"@.len());
    assert("--password"@.len() != "--rendezvous"@.len());
    assert("--password"@.len() != "--name"@.len());
    assert("--password"@.len() != "--fps"@.len());
    assert("--password"@.len() != "--bitrate"@.len());
    assert("--password"@.len() != "--port"@.len());
    assert("--password"@.len() != "--downloads"@.len());
    assert("--rendezvous"@.len() != "--name"@.len());
    assert("--rendezvous"@.len() != "--fps"@.len());
    assert("--rendezvous"@.len() != "--bitrate"@.len());
    assert("--rendezvous"@.len() != "--port"@.len());
    assert("--rendezvous"@.len() != "--downloads"@.len());
    assert("--name"@.len() != "--fps"@.len());
    assert("--name"@.len() != "--bitrate"@.len());
    assert("--name"@[2] != "--port"@[2]);
    assert("--name"@.len() != "--downloads"@.len());
    assert("--fps"@.len() != "--bitrate"@.len());
    assert("--fps"@.len() != "--port"@.len());
    assert("--fps"@.len() != "--downloads"@.len());
    assert("--bitrate"@.len() != "--port"@.len());
    assert("--bitrate"@.len() != "--downloads"@.len());
    assert("--port"@.len() != "--downloads"@.len());
}

/// Each flag that takes a value sets its own setting to it and leaves the others as they are.
pub proof fn flags_set_their_own(s: Settings, value: Seq<char>)
    ensures
        set(s, "--connect"@, value) == Ok::<Settings, Seq<char>>(
            Settings { connect: Some(value), ..s },
        ),
        set(s, "--password"@, value) == Ok::<Settings, Seq<char>>(
            Settings { password: Some(value), ..s },
        ),
        set(s, "--rendezvous"@, value) == Ok::<Settings, Seq<char>>(
            Settings { rendezvous: Some(value), ..s },
        ),
        set(s, "--name"@, value) == Ok::<Settings, Seq<char>>(
            Settings { name: Some(value), ..s },
        ),
        set(s, "--downloads"@, value) == Ok::<Settings, Seq<char>>(
            Settings { downloads: Some(value), ..s },
        ),
{
    flags_differ();
}

/// A flag for a number takes a number that fits, and says what it wants where it gets something
/// else.
pub proof fn number_flags_take_numbers(s: Settings, n: nat, value: Seq<char>)
    ensures
        n <= 0xffff_ffff ==> set(s, "--fps"@, crate::text::decimal(n)) == Ok::<
            Settings,
            Seq<char>,
        >(Settings { fps: n as u32, ..s }),
        n <= 0xffff_ffff ==> set(s, "--bitrate"@, crate::text::decimal(n)) == Ok::<
            Settings,
            Seq<char>,
        >(Settings { bitrate: n as u32, ..s }),
        n <= 0xffff ==> set(s, "--port"@, crate::text::decimal(n)) == Ok::<
            Settings,
            Seq<char>,
        >(Settings { port: n as u16, ..s }),
        n > 0xffff_ffff ==> set(s, "--fps"@, crate::text::decimal(n)) is Err,
        n > 0xffff_ffff ==> set(s, "--bitrate"@, crate::text::decimal(n)) is Err,
        n > 0xffff ==> set(s, "--port"@, crate::text::decimal(n)) is Err,
        crate::text::number(value) is None ==> set(s, "--fps"@, value) == Err::<
            Settings,
            Seq<char>,
        >("--fps phải là số"@),
        crate::text::number(value) is None ==> set(s, "--bitrate"@, value) == Err::<
            Settings,
            Seq<char>,
        >("--bitrate phải là số kbps"@),
        crate::text::number(value) is None ==> set(s, "--port"@, value) == Err::<
            Settings,
            Seq<char>,
        >("--port phải là số cổng"@),
{
    flags_differ();
    crate::text::decimals_read_back(n);
}

/// Four flags stand alone and set their own setting; no other flag does.
pub proof fn four_flags_stand_alone(s: Settings, flag: Seq<char>)
    ensures
        alone(s, "-h"@) == Some(Settings { help: true, ..s }),
        alone(s, "--help"@) == Some(Settings { help: true, ..s }),
        alone(s, "--probe"@) == Some(Settings { probe: true, ..s }),
        alone(s, "--host"@) == Some(Settings { host: true, ..s }),
        alone(s, flag) is Some ==> flag == "-h"@ || flag == "--help"@ || flag == "--probe"@ || flag
            == "--host"@,
        alone(s, flag) is Some ==> !takes_value(flag),
        takes_value("--connect"@) && takes_value("--password"@) && takes_value("--rendezvous"@)
            && takes_value("--name"@) && takes_value("--fps"@) && takes_value("--bitrate"@)
            && takes_value("--port"@) && takes_value("--downloads"@),
        takes_value(flag) ==> flag == "--connect"@ || flag == "--password"@ || flag
            == "--rendezvous"@ || flag == "--name"@ || flag == "--fps"@ || flag == "--bitrate"@
            || flag == "--port"@ || flag == "--downloads"@,
{
    flags_differ();
}

/// Without arguments: no window is spared, nobody is named, 60 frames at 30000 kilobits, and the
/// usual port.
pub proof fn nothing_set_is_the_usual()
    ensures
        ({
            let s = unset();
            &&& !s.help && !s.probe && !s.host
            &&& s.connect is None && s.password is None && s.rendezvous is None && s.name is None
            &&& s.downloads is None
            &&& s.fps == 60
            &&& s.bitrate == 30_000
            &&& s.port == 47823
        }),
{
}

/// Arguments are taken in one after the other: a flag that stands alone is one, a flag with its
/// value two, and the rest is taken in with what they set. One that is not known, one whose value
/// is missing and one whose value is wrong are told, and nothing behind them counts.
pub proof fn arguments_are_taken_in_order(args: Seq<String>, from: int, s: Settings)
    requires
        0 <= from < args.len(),
    ensures
        parsed(args, args.len() as int, s) == Ok::<Settings, Seq<char>>(s),
        args[from]@ == "--host"@ ==> parsed(args, from, s) == parsed(
            args,
            from + 1,
            Settings { host: true, ..s },
        ),
        args[from]@ == "--probe"@ ==> parsed(args, from, s) == parsed(
            args,
            from + 1,
            Settings { probe: true, ..s },
        ),
        args[from]@ == "--help"@ || args[from]@ == "-h"@ ==> parsed(args, from, s) == parsed(
            args,
            from + 1,
            Settings { help: true, ..s },
        ),
        takes_value(args[from]@) && from + 1 < args.len() ==> match set(
            s,
            args[from]@,
            args[from + 1]@,
        ) {
            Ok(next) => parsed(args, from, s) == parsed(args, from + 2, next),
            Err(wrong) => parsed(args, from, s) == Err::<Settings, Seq<char>>(wrong),
        },
        takes_value(args[from]@) && from + 1 == args.len() ==> parsed(args, from, s) == Err::<
            Settings,
            Seq<char>,
        >(args[from]@ + " cần một giá trị đi kèm"@),
        !takes_value(args[from]@) && args[from]@ != "-h"@ && args[from]@ != "--help"@
            && args[from]@ != "--probe"@ && args[from]@ != "--host"@ ==> parsed(args, from, s)
            == Err::<Settings, Seq<char>>("không hiểu tham số "@ + args[from]@),
{
    flags_differ();
    four_flags_stand_alone(s, args[from]@);
}

} // verus!
