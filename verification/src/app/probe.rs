//! What this machine can do, for `--probe`.
//!
//! One frame is captured for it, not only the screens listed: where the system names a screen but
//! opening it fails, a synthetic picture is sent, and nobody at this machine would notice.

use vstd::prelude::*;
use vstd::string::StringExecFns;

use crate::app::args::DEFAULT_PORT;
use crate::capture::{CaptureError, DisplayInfo};
use crate::protocol::control::Codec;
use crate::text::{chars_of, push_decimal, text_of};

verus! {

/// How the capture of one frame went.
#[derive(Debug)]
pub enum Trial {
    Frame { width: u32, height: u32 },
    /// The stream opened, but no frame came.
    NoFrame(CaptureError),
    /// The stream did not open.
    Refused(CaptureError),
}

/// What was found out.
#[derive(Debug)]
pub struct Findings {
    pub version: String,
    pub os: String,
    pub arch: String,
    pub displays: Result<Vec<DisplayInfo>, CaptureError>,
    pub trial: Trial,
    pub encodable: Vec<Codec>,
    pub decodable: Vec<Codec>,
    pub lan_ip: Option<String>,
    /// Lines on Tailscale.
    pub tailscale: String,
}

pub open spec fn display_line(d: DisplayInfo) -> Seq<char> {
    "  ["@ + crate::text::decimal(d.id as nat) + "] "@ + d.name@ + " — "@ + crate::text::decimal(
        d.width as nat,
    ) + "x"@ + crate::text::decimal(d.height as nat) + " @ "@ + crate::text::decimal(
        d.refresh_hz as nat,
    ) + "Hz"@ + (if d.is_primary {
        " (chính)"@
    } else {
        ""@
    }) + "\n"@
}

fn push_display(out: &mut String, d: &DisplayInfo)
    ensures
        final(out)@ == old(out)@ + display_line(*d),
{
    out.append("  [");
    push_decimal(out, d.id as u64);
    out.append("] ");
    out.append(d.name.as_str());
    out.append(" — ");
    push_decimal(out, d.width as u64);
    out.append("x");
    push_decimal(out, d.height as u64);
    out.append(" @ ");
    push_decimal(out, d.refresh_hz as u64);
    out.append("Hz");
    if d.is_primary {
        out.append(" (chính)");
    } else {
        out.append("");
    }
    out.append("\n");
    assert(out@ =~= old(out)@ + display_line(*d));
}

pub open spec fn display_lines(list: Seq<DisplayInfo>) -> Seq<char>
    decreases list.len(),
{
    if list.len() == 0 {
        Seq::empty()
    } else {
        display_lines(list.drop_last()) + display_line(list.last())
    }
}

pub open spec fn screens(displays: Result<Vec<DisplayInfo>, CaptureError>) -> Seq<char> {
    "\nMàn hình:\n"@ + (match displays {
        Ok(list) => if list@.len() == 0 {
            "  (hệ điều hành không khai màn hình nào)\n"@
        } else {
            display_lines(list@)
        },
        Err(e) => "  không liệt kê được: "@ + e.text() + "\n"@,
    })
}

fn push_screens(out: &mut String, displays: &Result<Vec<DisplayInfo>, CaptureError>)
    ensures
        final(out)@ == old(out)@ + screens(*displays),
{
    out.append("\nMàn hình:\n");
    let ghost head = out@;
    match displays {
        Ok(list) => {
            if list.len() == 0 {
                out.append("  (hệ điều hành không khai màn hình nào)\n");
            } else {
                let mut i: usize = 0;
                assert(head + display_lines(list@.take(0)) =~= head);
                while i < list.len()
                    invariant
                        i <= list@.len(),
                        out@ == head + display_lines(list@.take(i as int)),
                    decreases list@.len() - i,
                {
                    push_display(out, &list[i]);
                    proof {
                        assert(list@.take(i + 1).drop_last() =~= list@.take(i as int));
                        assert(out@ =~= head + display_lines(list@.take(i + 1)));
                    }
                    i += 1;
                }
                assert(list@.take(i as int) =~= list@);
            }
        },
        Err(e) => {
            out.append("  không liệt kê được: ");
            out.append(e.message().as_str());
            out.append("\n");
        },
    }
    assert(out@ =~= old(out)@ + screens(*displays));
}

pub open spec fn trial_text(trial: Trial) -> Seq<char> {
    "\nChụp thử màn hình chính:\n"@ + (match trial {
        Trial::Frame { width, height } => "  được — frame "@ + crate::text::decimal(width as nat)
            + "x"@ + crate::text::decimal(height as nat) + "\n"@,
        Trial::NoFrame(e) => "  mở được luồng nhưng không có frame nào: "@ + e.text() + "\n"@,
        Trial::Refused(e) => "  KHÔNG được: "@ + e.text() + "\n"@
            + "  → khi chia sẻ, người kia sẽ thấy hình tổng hợp chứ không phải màn hình này\n"@,
    })
}

fn push_trial(out: &mut String, trial: &Trial)
    ensures
        final(out)@ == old(out)@ + trial_text(*trial),
{
    out.append("\nChụp thử màn hình chính:\n");
    match trial {
        Trial::Frame { width, height } => {
            out.append("  được — frame ");
            push_decimal(out, *width as u64);
            out.append("x");
            push_decimal(out, *height as u64);
            out.append("\n");
        },
        Trial::NoFrame(e) => {
            out.append("  mở được luồng nhưng không có frame nào: ");
            out.append(e.message().as_str());
            out.append("\n");
        },
        Trial::Refused(e) => {
            out.append("  KHÔNG được: ");
            out.append(e.message().as_str());
            out.append("\n");
            out.append(
                "  → khi chia sẻ, người kia sẽ thấy hình tổng hợp chứ không phải màn hình này\n",
            );
        },
    }
    assert(out@ =~= old(out)@ + trial_text(*trial));
}

/// Names with commas between them.
pub open spec fn names(list: Seq<Codec>) -> Seq<char>
    decreases list.len(),
{
    if list.len() == 0 {
        Seq::empty()
    } else if list.len() == 1 {
        list[0].label()
    } else {
        names(list.drop_last()) + ", "@ + list.last().label()
    }
}

fn push_names(out: &mut String, list: &Vec<Codec>)
    ensures
        final(out)@ == old(out)@ + ("["@ + names(list@) + "]"@),
{
    out.append("[");
    let ghost head = out@;
    let mut i: usize = 0;
    assert(head + names(list@.take(0)) =~= head);
    while i < list.len()
        invariant
            i <= list@.len(),
            out@ == head + names(list@.take(i as int)),
        decreases list@.len() - i,
    {
        let ghost had = out@;
        if i > 0 {
            out.append(", ");
        }
        out.append(list[i].name());
        proof {
            let next = list@.take(i + 1);
            assert(next.drop_last() =~= list@.take(i as int));
            assert(out@ =~= head + names(next));
        }
        i += 1;
    }
    assert(list@.take(i as int) =~= list@);
    out.append("]");
    assert(out@ =~= old(out)@ + ("["@ + names(list@) + "]"@));
}

pub open spec fn video_text(encodable: Seq<Codec>, decodable: Seq<Codec>) -> Seq<char> {
    "\nVideo:\n"@ + "  mã hoá được:  "@ + ("["@ + names(encodable) + "]"@) + "\n"@
        + "  giải mã được: "@ + ("["@ + names(decodable) + "]"@) + "\n"@ + (if decodable.contains(
        Codec::Hevc,
    ) {
        ""@
    } else {
        "  → thiếu bộ giải mã HEVC; phiên sẽ tự lùi về H.264 (tốn băng thông hơn ~30%).\n    Cài \"HEVC Video Extensions\" trong Microsoft Store để dùng HEVC.\n"@
    })
}

fn holds_hevc(list: &Vec<Codec>) -> (r: bool)
    ensures
        r == list@.contains(Codec::Hevc),
{
    let mut i: usize = 0;
    while i < list.len()
        invariant
            i <= list@.len(),
            forall|j: int| 0 <= j < i ==> list@[j] != Codec::Hevc,
        decreases list@.len() - i,
    {
        if list[i] == Codec::Hevc {
            assert(list@[i as int] == Codec::Hevc);
            return true;
        }
        i += 1;
    }
    false
}

fn push_video(out: &mut String, encodable: &Vec<Codec>, decodable: &Vec<Codec>)
    ensures
        final(out)@ == old(out)@ + video_text(encodable@, decodable@),
{
    out.append("\nVideo:\n");
    out.append("  mã hoá được:  ");
    push_names(out, encodable);
    out.append("\n");
    out.append("  giải mã được: ");
    push_names(out, decodable);
    out.append("\n");
    if holds_hevc(decodable) {
        out.append("");
    } else {
        out.append(
            "  → thiếu bộ giải mã HEVC; phiên sẽ tự lùi về H.264 (tốn băng thông hơn ~30%).\n    Cài \"HEVC Video Extensions\" trong Microsoft Store để dùng HEVC.\n",
        );
    }
    assert(out@ =~= old(out)@ + video_text(encodable@, decodable@));
}

pub open spec fn network_text(lan_ip: Option<String>) -> Seq<char> {
    "\nMạng:\n"@ + (match lan_ip {
        Some(ip) => "  địa chỉ trong mạng nhà: "@ + ip@ + ":"@ + crate::text::decimal(
            DEFAULT_PORT as nat,
        ) + "\n"@,
        None => "  không xác định được địa chỉ trong mạng nhà\n"@,
    })
}

fn push_network(out: &mut String, lan_ip: &Option<String>)
    ensures
        final(out)@ == old(out)@ + network_text(*lan_ip),
{
    out.append("\nMạng:\n");
    match lan_ip {
        Some(ip) => {
            out.append("  địa chỉ trong mạng nhà: ");
            out.append(ip.as_str());
            out.append(":");
            push_decimal(out, DEFAULT_PORT as u64);
            out.append("\n");
        },
        None => {
            out.append("  không xác định được địa chỉ trong mạng nhà\n");
        },
    }
    assert(out@ =~= old(out)@ + network_text(*lan_ip));
}

/// Where the first line ends, from `from` on.
pub open spec fn line_end(s: Seq<char>, from: int) -> int
    decreases s.len() - from,
{
    if from >= s.len() || s[from] == '\n' {
        from
    } else {
        line_end(s, from + 1)
    }
}

/// Each line behind two blanks. A line ends with a line feed, before which a carriage return may
/// stand; the last one need not end so.
pub open spec fn indented(s: Seq<char>, from: int) -> Seq<char>
    decreases s.len() - from + 1,
{
    if from >= s.len() {
        Seq::empty()
    } else {
        proof {
            line_end_is_ahead(s, from);
        }
        let end = line_end(s, from);
        let stop = if end < s.len() && end > from && s[end - 1] == '\r' {
            end - 1
        } else {
            end
        };
        "  "@ + s.subrange(from, stop) + "\n"@ + indented(s, end + 1)
    }
}

/// A line ends at or behind where it starts, within the text.
pub proof fn line_end_is_ahead(s: Seq<char>, from: int)
    requires
        from <= s.len(),
    ensures
        from <= line_end(s, from) <= s.len(),
    decreases s.len() - from,
{
    if from < s.len() && s[from] != '\n' {
        line_end_is_ahead(s, from + 1);
    }
}

fn push_indented(out: &mut String, text: &str)
    ensures
        final(out)@ == old(out)@ + indented(text@, 0),
{
    let v: Vec<char> = chars_of(text);
    let ghost whole = out@ + indented(text@, 0);
    let mut from: usize = 0;
    while from < v.len()
        invariant
            v@ == text@,
            from <= v@.len(),
            out@ + indented(text@, from as int) == whole,
        decreases v@.len() - from,
    {
        let ghost had = out@;
        let mut end: usize = from;
        while end < v.len() && v[end] != '\n'
            invariant
                v@ == text@,
                from <= end <= v@.len(),
                line_end(text@, from as int) == line_end(text@, end as int),
            decreases v@.len() - end,
        {
            end += 1;
        }
        assert(line_end(text@, from as int) == end);
        let stop: usize = if end < v.len() && end > from && v[end - 1] == '\r' {
            end - 1
        } else {
            end
        };
        out.append("  ");
        out.append(text_of(&v, from, stop).as_str());
        out.append("\n");
        proof {
            let line = "  "@ + text@.subrange(from as int, stop as int) + "\n"@;
            assert(out@ =~= had + line);
            assert(had + (line + indented(text@, end + 1)) =~= out@ + indented(text@, end + 1));
        }
        from = if end < v.len() {
            end + 1
        } else {
            end
        };
        proof {
            if end == v@.len() {
                assert(indented(text@, end + 1) =~= indented(text@, end as int));
            }
        }
    }
    assert(out@ =~= whole);
}

/// The whole report.
pub open spec fn report(f: Findings) -> Seq<char> {
    "remote-desktop "@ + f.version@ + " trên "@ + f.os@ + " "@ + f.arch@ + "\n"@ + screens(
        f.displays,
    ) + trial_text(f.trial) + video_text(f.encodable@, f.decodable@) + network_text(f.lan_ip)
        + "\nTailscale:\n"@ + indented(f.tailscale@, 0)
}

pub fn probe(f: &Findings) -> (s: String)
    ensures
        s@ == report(*f),
{
    let mut s: String = "remote-desktop ".to_owned();
    s.append(f.version.as_str());
    s.append(" trên ");
    s.append(f.os.as_str());
    s.append(" ");
    s.append(f.arch.as_str());
    s.append("\n");
    push_screens(&mut s, &f.displays);
    push_trial(&mut s, &f.trial);
    push_video(&mut s, &f.encodable, &f.decodable);
    push_network(&mut s, &f.lan_ip);
    s.append("\nTailscale:\n");
    push_indented(&mut s, f.tailscale.as_str());
    assert(s@ =~= report(*f));
    s
}

/// A line that ends with a line feed, with or without a carriage return before it, and one at the
/// end of the text, are each set in by two blanks and end with a line feed.
pub proof fn every_line_is_set_in(line: Seq<char>, rest: Seq<char>)
    requires
        !line.contains('\n'),
        line.len() > 0 ==> line.last() != '\r',
    ensures
        indented(line + seq!['\n'] + rest, 0) == "  "@ + line + "\n"@ + indented(rest, 0),
        line.len() > 0 ==> indented(line + seq!['\r', '\n'] + rest, 0) == "  "@ + line + "\n"@
            + indented(rest, 0),
        line.len() > 0 ==> indented(line, 0) == "  "@ + line + "\n"@,
        indented(Seq::<char>::empty(), 0) == Seq::<char>::empty(),
{
    let plain = line + seq!['\n'] + rest;
    assert(plain.take(line.len() as int) =~= line);
    line_ends_there(plain, line, 0);
    assert(plain.subrange(0, line.len() as int) =~= line);
    assert(plain.skip(line.len() as int + 1) =~= rest);
    indented_from(plain, rest, line.len() as int + 1, 0);
    if line.len() > 0 {
        assert(plain[line.len() - 1] == line.last());
        let wide = line + seq!['\r', '\n'] + rest;
        let more = line.push('\r');
        assert(!more.contains('\n')) by {
            assert forall|i: int| 0 <= i < more.len() implies more[i] != '\n' by {
                if i < line.len() {
                    assert(line.contains(line[i]));
                }
            }
        }
        assert(wide =~= more + seq!['\n'] + rest);
        assert(wide.take(more.len() as int) =~= more);
        line_ends_there(wide, more, 0);
        assert(wide[line.len() as int] == '\r');
        assert(wide.subrange(0, line.len() as int) =~= line);
        assert(wide.skip(line.len() as int + 2) =~= rest);
        indented_from(wide, rest, line.len() as int + 2, 0);
        no_line_end(line, 0);
        assert(line.subrange(0, line.len() as int) =~= line);
        assert(indented(line, line.len() as int + 1) =~= Seq::<char>::empty());
        assert(indented(line, 0) =~= "  "@ + line + "\n"@);
    }
}

proof fn line_ends_there(s: Seq<char>, line: Seq<char>, from: int)
    requires
        0 <= from <= line.len() < s.len(),
        s.take(line.len() as int) == line,
        s[line.len() as int] == '\n',
        !line.contains('\n'),
    ensures
        line_end(s, from) == line.len(),
    decreases line.len() - from,
{
    if from < line.len() {
        assert(s[from] == s.take(line.len() as int)[from]);
        assert(line.contains(line[from]));
        line_ends_there(s, line, from + 1);
    }
}

proof fn no_line_end(line: Seq<char>, from: int)
    requires
        0 <= from <= line.len(),
        !line.contains('\n'),
    ensures
        line_end(line, from) == line.len(),
    decreases line.len() - from,
{
    if from < line.len() {
        assert(line.contains(line[from]));
        no_line_end(line, from + 1);
    }
}

proof fn line_end_shifts(s: Seq<char>, rest: Seq<char>, shift: int, from: int)
    requires
        0 <= shift <= s.len(),
        s.skip(shift) == rest,
        0 <= from,
    ensures
        line_end(s, shift + from) == shift + line_end(rest, from),
    decreases rest.len() - from,
{
    if from < rest.len() {
        assert(s.skip(shift)[from] == s[shift + from]);
        line_end_shifts(s, rest, shift, from + 1);
    }
}

proof fn indented_from(s: Seq<char>, rest: Seq<char>, shift: int, from: int)
    requires
        0 <= shift <= s.len(),
        s.skip(shift) == rest,
        0 <= from,
    ensures
        indented(s, shift + from) == indented(rest, from),
    decreases rest.len() - from + 1,
{
    if from < rest.len() {
        line_end_shifts(s, rest, shift, from);
        line_end_is_ahead(rest, from);
        let end = line_end(rest, from);
        indented_from(s, rest, shift, end + 1);
        if end > from {
            assert(s.skip(shift)[end - 1] == s[shift + end - 1]);
        }
        let stop = if end < rest.len() && end > from && rest[end - 1] == '\r' {
            end - 1
        } else {
            end
        };
        assert(s.subrange(shift + from, shift + stop) =~= rest.subrange(from, stop));
    }
}

/// Names are joined by commas, in their order.
pub proof fn names_are_joined_by_commas(list: Seq<Codec>, codec: Codec)
    ensures
        names(Seq::<Codec>::empty()).len() == 0,
        names(seq![codec]) == codec.label(),
        list.len() > 0 ==> names(list.push(codec)) == names(list) + ", "@ + codec.label(),
{
    if list.len() > 0 {
        assert(list.push(codec).drop_last() =~= list);
    }
}

/// Every display has its line, in the list's order.
pub proof fn every_display_has_its_line(list: Seq<DisplayInfo>, display: DisplayInfo)
    ensures
        display_lines(Seq::<DisplayInfo>::empty()).len() == 0,
        display_lines(list.push(display)) == display_lines(list) + display_line(display),
{
    assert(list.push(display).drop_last() =~= list);
}

/// Every display that is there has its line in the report; an error is told in its words, and that
/// there is none is told where there is none.
pub proof fn displays_are_reported(
    displays: Result<Vec<DisplayInfo>, CaptureError>,
    display: DisplayInfo,
    list: Seq<DisplayInfo>,
)
    requires
        displays matches Ok(all) ==> all@ == list.push(display),
    ensures
        displays is Ok ==> crate::text::says(screens(displays), display_line(display)),
        displays is Ok ==> crate::text::says(screens(displays), display_lines(list)),
        displays matches Err(e) ==> crate::text::says(screens(displays), e.text()),
{
    let none = Seq::<char>::empty();
    match displays {
        Ok(all) => {
            every_display_has_its_line(list, display);
            let head = "\nMàn hình:\n"@;
            assert(screens(displays) =~= (head + display_lines(list)) + display_line(display));
            assert(screens(displays) =~= head + display_lines(list) + display_line(display));
            crate::text::parts_are_said(
                head + display_lines(list),
                display_line(display),
                none,
                none,
                none,
            );
            crate::text::parts_are_said(
                head,
                display_lines(list),
                none,
                none,
                display_line(display),
            );
        },
        Err(e) => {
            let head = "\nMàn hình:\n"@ + "  không liệt kê được: "@;
            assert(screens(displays) =~= head + e.text() + "\n"@);
            crate::text::parts_are_said(head, e.text(), none, none, "\n"@);
        },
    }
}

/// What is reported names the version, the system and the machine, and then holds what was found of
/// the displays and of Tailscale, the latter whole and last.
pub proof fn reports_say_what_was_found(f: &Findings, s: String)
    requires
        call_ensures(probe, (f,), s),
    ensures
        crate::text::says_both(s@, f.version@, f.os@),
        crate::text::says_both(s@, f.os@, f.arch@),
        crate::text::says_both(s@, screens(f.displays), indented(f.tailscale@, 0)),
        s@.len() >= indented(f.tailscale@, 0).len(),
        s@.skip(s@.len() - indented(f.tailscale@, 0).len()) == indented(f.tailscale@, 0),
{
    let none = Seq::<char>::empty();
    let last = indented(f.tailscale@, 0);
    let middle = trial_text(f.trial) + video_text(f.encodable@, f.decodable@) + network_text(
        f.lan_ip,
    ) + "\nTailscale:\n"@;
    let rest = "\n"@ + screens(f.displays) + middle + last;
    let head = "remote-desktop "@ + f.version@ + " trên "@ + f.os@ + " "@ + f.arch@ + "\n"@;
    assert(s@ =~= "remote-desktop "@ + f.version@ + " trên "@ + f.os@ + (" "@ + f.arch@ + rest));
    crate::text::parts_are_said(
        "remote-desktop "@,
        f.version@,
        " trên "@,
        f.os@,
        " "@ + f.arch@ + rest,
    );
    assert(s@ =~= ("remote-desktop "@ + f.version@ + " trên "@) + f.os@ + " "@ + f.arch@ + rest);
    crate::text::parts_are_said(
        "remote-desktop "@ + f.version@ + " trên "@,
        f.os@,
        " "@,
        f.arch@,
        rest,
    );
    assert(s@ =~= head + screens(f.displays) + middle + last);
    crate::text::parts_are_said(head, screens(f.displays), middle, last, none);
    assert(s@.skip(s@.len() - last.len()) =~= last);
}

} // verus!
