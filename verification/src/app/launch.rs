//! How the program comes up: its log, its graphics card, and what is said when it fails.

use vstd::prelude::*;
use vstd::string::StringExecFns;

use crate::text::push_decimal;

verus! {

/// What the user reads when the window does not open.
pub fn no_window(reason: &str) -> (s: String)
    ensures
        s@ == "Không mở được cửa sổ chương trình.\n\n"@ + reason@
            + "\n\nThường là do trình điều khiển card màn hình. Thử cập nhật driver, hoặc chạy lại bằng dòng lệnh để xem chi tiết."@,
{
    let mut s: String = "Không mở được cửa sổ chương trình.\n\n".to_owned();
    s.append(reason);
    s.append(
        "\n\nThường là do trình điều khiển card màn hình. Thử cập nhật driver, hoặc chạy lại bằng dòng lệnh để xem chi tiết.",
    );
    s
}

/// A message with the place of the log, where there is one.
pub fn fatal(message: &str, log: &Option<String>) -> (s: String)
    ensures
        s@ == (match *log {
            Some(path) => message@ + "\n\nNhật ký: "@ + path@,
            None => message@,
        }),
{
    let mut s: String = message.to_owned();
    match log {
        Some(path) => {
            s.append("\n\nNhật ký: ");
            s.append(path.as_str());
        },
        None => {},
    }
    s
}

/// The largest log that is kept; a larger one starts anew.
pub const MAX_LOG_BYTES: u64 = 0x40_0000;

/// Whether the log of an earlier run is dropped, by its size where there is one.
pub fn drops_log(size: Option<u64>) -> (r: bool)
    ensures
        r == (size matches Some(n) && n > MAX_LOG_BYTES),
{
    match size {
        Some(n) => n > MAX_LOG_BYTES,
        None => false,
    }
}

/// What a graphics card is.
#[derive(Debug, Clone, Copy, PartialEq, Eq, Structural)]
pub enum DeviceType {
    Discrete,
    Integrated,
    Virtual,
    Cpu,
    Other,
}

impl DeviceType {
    /// The smaller, the better.
    pub open spec fn rank(self) -> u8 {
        match self {
            DeviceType::Discrete => 0,
            DeviceType::Integrated => 1,
            DeviceType::Virtual => 2,
            DeviceType::Cpu => 3,
            DeviceType::Other => 4,
        }
    }

    pub fn thu_tu_uu_tien(self) -> (r: u8)
        ensures
            r == self.rank(),
    {
        match self {
            DeviceType::Discrete => 0,
            DeviceType::Integrated => 1,
            DeviceType::Virtual => 2,
            DeviceType::Cpu => 3,
            DeviceType::Other => 4,
        }
    }
}

/// A card, and whether it can draw on our window.
#[derive(Debug, Clone, Copy, PartialEq, Eq, Structural)]
pub struct Card {
    pub device_type: DeviceType,
    pub usable: bool,
    /// Whether the way of drawing that leads to it took the program down last time.
    pub crashed: bool,
}

impl Card {
    /// The smaller, the better: a way of drawing that crashed is the last resort.
    pub open spec fn place(self) -> int {
        self.device_type.rank() + if self.crashed {
            8int
        } else {
            0
        }
    }

    fn order(&self) -> (r: u8)
        ensures
            r == self.place(),
    {
        let rank: u8 = self.device_type.thu_tu_uu_tien();
        if self.crashed {
            rank + 8
        } else {
            rank
        }
    }
}

/// Picks a card: among those that can draw on the window the best kind, the first of several. One
/// whose way of drawing crashed last time is taken only where there is no other. As long as there
/// is one, the window opens, be it slow.
pub fn chon_card(cards: &[Card]) -> (r: Result<usize, String>)
    ensures
        match r {
            Ok(i) => i < cards@.len() && cards@[i as int].usable && forall|j: int|
                0 <= j < cards@.len() && #[trigger] cards@[j].usable
                    ==> cards@[i as int].place() < cards@[j].place()
                    || cards@[i as int].place() == cards@[j].place() && i
                    <= j,
            Err(e) => (forall|j: int| 0 <= j < cards@.len() ==> !(#[trigger] cards@[j]).usable)
                && e@ == "không có card màn hình nào dùng được (máy báo có "@
                + crate::text::decimal(cards@.len()) + " card)"@,
        },
        r matches Ok(i) && cards@[i as int].crashed ==> forall|j: int|
            0 <= j < cards@.len() && #[trigger] cards@[j].usable ==> cards@[j].crashed,
{
    let mut best: Option<usize> = None;
    let mut i: usize = 0;
    while i < cards.len()
        invariant
            i <= cards@.len(),
            match best {
                Some(b) => b < i && cards@[b as int].usable && forall|j: int|
                    0 <= j < i && #[trigger] cards@[j].usable
                        ==> cards@[b as int].place() < cards@[j].place()
                        || cards@[b as int].place() == cards@[j].place() && b
                        <= j,
                None => forall|j: int| 0 <= j < i ==> !(#[trigger] cards@[j]).usable,
            },
        decreases cards@.len() - i,
    {
        if cards[i].usable {
            let better: bool = match best {
                Some(b) => cards[i].order() < cards[b].order(),
                None => true,
            };
            if better {
                best = Some(i);
            }
        }
        i += 1;
    }
    match best {
        Some(b) => Ok(b),
        None => {
            let mut s: String = "không có card màn hình nào dùng được (máy báo có ".to_owned();
            push_decimal(&mut s, cards.len() as u64);
            s.append(" card)");
            Err(s)
        },
    }
}

/// A card of its own is better than one in the processor, that better than a virtual one, and that
/// better than none at all. One whose way of drawing crashed comes behind every one that did not.
pub proof fn real_cards_come_first(a: Card, b: Card)
    ensures
        a.crashed && !b.crashed ==> b.place() < a.place(),
        a.crashed == b.crashed ==> (a.place() == b.place() <==> a.device_type == b.device_type),
        a.crashed == b.crashed && a.device_type is Discrete && !(b.device_type is Discrete)
            ==> a.place() < b.place(),
        a.crashed == b.crashed && a.device_type is Integrated && (b.device_type is Virtual
            || b.device_type is Cpu || b.device_type is Other) ==> a.place() < b.place(),
        a.crashed == b.crashed && a.device_type is Virtual && (b.device_type is Cpu
            || b.device_type is Other) ==> a.place() < b.place(),
        a.crashed == b.crashed && a.device_type is Cpu && b.device_type is Other ==> a.place()
            < b.place(),
        a.device_type.rank() <= 4,
{
}

/// A log is dropped when it is longer than four mebibytes.
pub proof fn long_logs_are_dropped(size: Option<u64>, r: bool)
    requires
        call_ensures(drops_log, (size,), r),
    ensures
        r <==> size is Some && size->0 > 4_194_304,
{
}

/// The card that is taken can be used, and none that can be used is better; a card that failed is
/// taken only where all have. There is none to take exactly where none can be used.
pub proof fn the_best_card_is_taken(cards: &[Card], r: Result<usize, String>, other: int)
    requires
        call_ensures(chon_card, (cards,), r),
        0 <= other < cards@.len(),
        cards@[other].usable,
    ensures
        r is Ok,
        r matches Ok(i) && i < cards@.len() && cards@[i as int].usable && (cards@[i as int].crashed
            ==> cards@[other].crashed),
        r matches Ok(i) && cards@[i as int].place() <= cards@[other].place(),
        r matches Ok(i) && (cards@[i as int].place() == cards@[other].place() ==> i <= other),
{
}

/// A failure that ends the program says where the log is, where there is one.
pub proof fn failures_name_the_log(message: &str, log: &Option<String>, s: String)
    requires
        call_ensures(fatal, (message, log), s),
    ensures
        *log is None ==> s@ == message@,
        *log matches Some(path) ==> s@.len() > message@.len() + path@.len() && s@.take(
            message@.len() as int,
        ) == message@ && s@.skip(s@.len() - path@.len()) == path@,
{
    reveal_strlit("\n\nNhật ký: ");
    match *log {
        Some(path) => {
            assert(s@.take(message@.len() as int) =~= message@);
            assert(s@.skip(s@.len() - path@.len()) =~= path@);
        },
        None => {},
    }
}

} // verus!
