//! Text by its characters: trimming, splitting, numbers in and out.

use vstd::prelude::*;
use vstd::string::StringExecFns;
use vstd::utf8::encode_utf8;

verus! {

/// `String::push`: the character is appended and nothing else changes.
pub assume_specification[ String::push ](s: &mut String, c: char)
    ensures
        final(s)@ == old(s)@.push(c),
;

/// Characters with the Unicode property White_Space.
pub open spec fn white(c: char) -> bool {
    ||| 0x09 <= c as u32 <= 0x0d
    ||| c as u32 == 0x20
    ||| c as u32 == 0x85
    ||| c as u32 == 0xa0
    ||| c as u32 == 0x1680
    ||| 0x2000 <= c as u32 <= 0x200a
    ||| c as u32 == 0x2028
    ||| c as u32 == 0x2029
    ||| c as u32 == 0x202f
    ||| c as u32 == 0x205f
    ||| c as u32 == 0x3000
}

pub fn is_white(c: char) -> (r: bool)
    ensures
        r == white(c),
{
    let n: u32 = c as u32;
    (0x09 <= n && n <= 0x0d) || n == 0x20 || n == 0x85 || n == 0xa0 || n == 0x1680 || (0x2000 <= n
        && n <= 0x200a) || n == 0x2028 || n == 0x2029 || n == 0x202f || n == 0x205f || n == 0x3000
}

/// Characters of the Unicode category Cc.
pub open spec fn control(c: char) -> bool {
    c as u32 <= 0x1f || 0x7f <= c as u32 <= 0x9f
}

pub fn is_control(c: char) -> (r: bool)
    ensures
        r == control(c),
{
    let n: u32 = c as u32;
    n <= 0x1f || (0x7f <= n && n <= 0x9f)
}

/// The characters of a text, one by one.
pub fn chars_of(s: &str) -> (v: Vec<char>)
    ensures
        v@ == s@,
{
    broadcast use vstd::string::group_string_axioms;

    let mut v: Vec<char> = Vec::new();
    for c in it: s.chars()
        invariant
            v@ == it.seq().take(it.index() as int),
    {
        v.push(c);
        assert(it.seq().take(it.index() as int + 1) =~= it.seq().take(it.index() as int).push(c));
    }
    v
}

/// The text made of `chars[from..to]`.
pub fn text_of(chars: &Vec<char>, from: usize, to: usize) -> (s: String)
    requires
        from <= to <= chars@.len(),
    ensures
        s@ == chars@.subrange(from as int, to as int),
{
    let mut s: String = String::new();
    let mut i: usize = from;
    while i < to
        invariant
            from <= i <= to <= chars@.len(),
            s@ == chars@.subrange(from as int, i as int),
        decreases to - i,
    {
        s.push(chars[i]);
        assert(chars@.subrange(from as int, i as int + 1) =~= chars@.subrange(
            from as int,
            i as int,
        ).push(chars@[i as int]));
        i += 1;
    }
    s
}

/// A text that may be missing, by its characters.
pub open spec fn view_of(s: Option<String>) -> Option<Seq<char>> {
    match s {
        Some(t) => Some(t@),
        None => None,
    }
}

/// Whether two texts hold the same characters.
pub fn same(a: &str, b: &str) -> (r: bool)
    ensures
        r == (a@ == b@),
{
    let x: Vec<char> = chars_of(a);
    let y: Vec<char> = chars_of(b);
    if x.len() != y.len() {
        return false;
    }
    let mut i: usize = 0;
    while i < x.len()
        invariant
            i <= x@.len() == y@.len(),
            x@ == a@,
            y@ == b@,
            forall|j: int| 0 <= j < i ==> x@[j] == y@[j],
        decreases x@.len() - i,
    {
        if x[i] != y[i] {
            assert(a@[i as int] != b@[i as int]);
            return false;
        }
        i += 1;
    }
    assert(a@ =~= b@);
    true
}

/// Whether the text holds `c`.
pub fn holds(s: &str, c: char) -> (r: bool)
    ensures
        r == s@.contains(c),
{
    let v: Vec<char> = chars_of(s);
    let mut i: usize = 0;
    while i < v.len()
        invariant
            i <= v@.len(),
            v@ == s@,
            forall|j: int| 0 <= j < i ==> v@[j] != c,
        decreases v@.len() - i,
    {
        if v[i] == c {
            assert(s@[i as int] == c);
            return true;
        }
        i += 1;
    }
    false
}

/// A text without the white space that it begins with.
pub open spec fn trimmed_front(s: Seq<char>) -> Seq<char>
    decreases s.len(),
{
    if s.len() > 0 && white(s[0]) {
        trimmed_front(s.drop_first())
    } else {
        s
    }
}

pub open spec fn trimmed_back(s: Seq<char>) -> Seq<char>
    decreases s.len(),
{
    if s.len() > 0 && white(s.last()) {
        trimmed_back(s.drop_last())
    } else {
        s
    }
}

/// A text without the white space around it.
pub open spec fn trimmed(s: Seq<char>) -> Seq<char> {
    trimmed_back(trimmed_front(s))
}

pub fn trim(s: &str) -> (r: String)
    ensures
        r@ == trimmed(s@),
{
    let v: Vec<char> = chars_of(s);
    trim_chars(&v)
}

pub fn trim_chars(v: &Vec<char>) -> (r: String)
    ensures
        r@ == trimmed(v@),
{
    let n: usize = v.len();
    let mut from: usize = 0;
    assert(v@.skip(0) =~= v@);
    while from < n && is_white(v[from])
        invariant
            from <= n == v@.len(),
            trimmed_front(v@) == trimmed_front(v@.skip(from as int)),
        decreases n - from,
    {
        assert(v@.skip(from as int).drop_first() =~= v@.skip(from as int + 1));
        from += 1;
    }
    let ghost front = v@.skip(from as int);
    assert(trimmed_front(v@) == front);
    let mut to: usize = n;
    assert(v@.subrange(from as int, n as int) =~= front);
    while to > from && is_white(v[to - 1])
        invariant
            from <= to <= n == v@.len(),
            trimmed_back(front) == trimmed_back(v@.subrange(from as int, to as int)),
        decreases to,
    {
        assert(v@.subrange(from as int, to as int).drop_last() =~= v@.subrange(
            from as int,
            to as int - 1,
        ));
        to -= 1;
    }
    text_of(v, from, to)
}

/// Bytes that a character takes in UTF-8.
pub open spec fn width(c: char) -> nat {
    if c as u32 <= 0x7f {
        1
    } else if c as u32 <= 0x7ff {
        2
    } else if c as u32 <= 0xffff {
        3
    } else {
        4
    }
}

pub fn width_of(c: char) -> (r: usize)
    ensures
        r == width(c),
{
    let n: u32 = c as u32;
    if n <= 0x7f {
        1
    } else if n <= 0x7ff {
        2
    } else if n <= 0xffff {
        3
    } else {
        4
    }
}

proof fn width_is_utf8(c: char)
    ensures
        vstd::utf8::encode_scalar(c as u32).len() == width(c),
{
}

/// The longest beginning of `s` whose UTF-8 form takes at most `limit` bytes.
pub open spec fn fitting(s: Seq<char>, limit: int) -> Seq<char>
    decreases s.len(),
{
    if s.len() == 0 || width(s[0]) > limit {
        Seq::empty()
    } else {
        seq![s[0]] + fitting(s.drop_first(), limit - width(s[0]))
    }
}

/// `fitting` gives a beginning of the text, within the limit, and as long as the limit allows.
pub proof fn fitting_is_longest(s: Seq<char>, limit: int)
    requires
        0 <= limit,
    ensures
        fitting(s, limit).is_prefix_of(s),
        encode_utf8(fitting(s, limit)).len() <= limit,
        fitting(s, limit).len() < s.len() ==> encode_utf8(
            s.take(fitting(s, limit).len() as int + 1),
        ).len() > limit,
        encode_utf8(s).len() <= limit ==> fitting(s, limit) == s,
    decreases s.len(),
{
    reveal_with_fuel(encode_utf8, 2);
    if s.len() == 0 {
    } else if width(s[0]) > limit {
        assert(s.take(1).drop_first() =~= Seq::<char>::empty());
        assert(s.take(1)[0] == s[0]);
    } else {
        let rest = s.drop_first();
        let tail = fitting(rest, limit - width(s[0]));
        fitting_is_longest(rest, limit - width(s[0]));
        let whole = fitting(s, limit);
        width_is_utf8(s[0]);
        assert(whole.drop_first() =~= tail);
        assert(encode_utf8(whole).len() == width(s[0]) + encode_utf8(tail).len());
        assert(whole =~= s.take(whole.len() as int));
        if whole.len() < s.len() {
            let more = s.take(whole.len() as int + 1);
            assert(more.drop_first() =~= rest.take(tail.len() as int + 1));
        }
    }
}

/// Keeps the longest beginning that fits in `limit` bytes.
pub fn fit(v: &Vec<char>, limit: usize) -> (r: String)
    ensures
        r@ == fitting(v@, limit as int),
{
    let n: usize = v.len();
    let mut i: usize = 0;
    let mut left: usize = limit;
    assert(v@.skip(0) =~= v@);
    assert(v@.take(0) + fitting(v@, limit as int) =~= fitting(v@, limit as int));
    while i < n && width_of(v[i]) <= left
        invariant
            i <= n == v@.len(),
            fitting(v@, limit as int) == v@.take(i as int) + fitting(
                v@.skip(i as int),
                left as int,
            ),
        decreases n - i,
    {
        proof {
            let rest = v@.skip(i as int);
            assert(rest.drop_first() =~= v@.skip(i as int + 1));
            assert(v@.take(i as int) + (seq![rest[0]] + fitting(
                v@.skip(i as int + 1),
                left - width(rest[0]),
            )) =~= v@.take(i as int + 1) + fitting(v@.skip(i as int + 1), left - width(rest[0])));
        }
        left -= width_of(v[i]);
        i += 1;
    }
    assert(fitting(v@.skip(i as int), left as int) =~= Seq::empty());
    assert(v@.take(i as int) + Seq::<char>::empty() =~= v@.subrange(0, i as int));
    text_of(v, 0, i)
}

/// Bytes that the UTF-8 form of a text takes.
pub open spec fn byte_len(s: Seq<char>) -> nat {
    encode_utf8(s).len()
}

pub open spec fn digit(d: int) -> char {
    if d == 0 {
        '0'
    } else if d == 1 {
        '1'
    } else if d == 2 {
        '2'
    } else if d == 3 {
        '3'
    } else if d == 4 {
        '4'
    } else if d == 5 {
        '5'
    } else if d == 6 {
        '6'
    } else if d == 7 {
        '7'
    } else if d == 8 {
        '8'
    } else {
        '9'
    }
}

fn digit_of(d: u64) -> (c: char)
    requires
        d < 10,
    ensures
        c == digit(d as int),
{
    match d {
        0 => '0',
        1 => '1',
        2 => '2',
        3 => '3',
        4 => '4',
        5 => '5',
        6 => '6',
        7 => '7',
        8 => '8',
        _ => '9',
    }
}

/// A number in decimal notation.
pub open spec fn decimal(n: nat) -> Seq<char>
    decreases n,
{
    if n < 10 {
        seq![digit(n as int)]
    } else {
        decimal(n / 10).push(digit((n % 10) as int))
    }
}

pub fn push_decimal(out: &mut String, n: u64)
    ensures
        final(out)@ == old(out)@ + decimal(n as nat),
    decreases n,
{
    if n < 10 {
        out.push(digit_of(n));
        assert(out@ =~= old(out)@ + decimal(n as nat));
    } else {
        push_decimal(out, n / 10);
        out.push(digit_of(n % 10));
        assert(out@ =~= old(out)@ + decimal(n as nat));
    }
}

/// A whole number in decimal notation, with a minus sign where it is negative.
pub open spec fn signed(n: int) -> Seq<char> {
    if n < 0 {
        seq!['-'] + decimal((-n) as nat)
    } else {
        decimal(n as nat)
    }
}

pub fn push_signed(out: &mut String, n: i64)
    ensures
        final(out)@ == old(out)@ + signed(n as int),
{
    if n < 0 {
        out.push('-');
        let low: i64 = -(n + 1);
        push_decimal(out, low as u64 + 1);
    } else {
        push_decimal(out, n as u64);
    }
    assert(out@ =~= old(out)@ + signed(n as int));
}

/// A number in decimal notation, filled up with zeros to `places` digits.
pub open spec fn padded(n: nat, places: nat) -> Seq<char>
    decreases places,
{
    if places == 0 {
        Seq::empty()
    } else {
        padded(n / 10, (places - 1) as nat).push(digit((n % 10) as int))
    }
}

pub fn push_padded(out: &mut String, n: u64, places: u32)
    ensures
        final(out)@ == old(out)@ + padded(n as nat, places as nat),
    decreases places,
{
    if places > 0 {
        push_padded(out, n / 10, places - 1);
        out.push(digit_of(n % 10));
    }
    assert(out@ =~= old(out)@ + padded(n as nat, places as nat));
}

/// The value of a decimal digit, or `None` for any other character.
pub open spec fn digit_value(c: char) -> Option<nat> {
    if 0x30 <= c as u32 <= 0x39 {
        Some((c as u32 - 0x30) as nat)
    } else {
        None
    }
}

/// The value of a row of decimal digits; `None` where anything else stands in it.
pub open spec fn digits_value(s: Seq<char>) -> Option<nat>
    decreases s.len(),
{
    if s.len() == 0 {
        Some(0)
    } else {
        match (digits_value(s.drop_last()), digit_value(s.last())) {
            (Some(v), Some(d)) => Some(10 * v + d),
            _ => None,
        }
    }
}

/// An unsigned number as text: digits, at least one, after an optional plus sign.
pub open spec fn number(s: Seq<char>) -> Option<nat> {
    let body = if s.len() > 0 && s[0] == '+' {
        s.skip(1)
    } else {
        s
    };
    if body.len() == 0 {
        None
    } else {
        digits_value(body)
    }
}

proof fn digits_value_grows(s: Seq<char>, i: int)
    requires
        0 <= i <= s.len(),
    ensures
        digits_value(s.take(i)) is None ==> digits_value(s) is None,
        digits_value(s) is Some ==> digits_value(s)->0 >= digits_value(s.take(i))->0,
    decreases s.len() - i,
{
    if i < s.len() {
        digits_value_grows(s, i + 1);
        assert(s.take(i + 1).drop_last() =~= s.take(i));
    } else {
        assert(s.take(i) =~= s);
    }
}

/// Reads an unsigned number that is at most `max`.
pub fn parse_number(s: &str, max: u64) -> (r: Option<u64>)
    ensures
        r == (match number(s@) {
            Some(v) if v <= max => Some(v as u64),
            _ => None,
        }),
{
    let v: Vec<char> = chars_of(s);
    let n: usize = v.len();
    let from: usize = if n > 0 && v[0] == '+' {
        1
    } else {
        0
    };
    let ghost body = v@.skip(from as int);
    assert(v@.skip(0) =~= v@);
    if from == n {
        return None;
    }
    let mut i: usize = from;
    let mut acc: u64 = 0;
    assert(body.take(0) =~= Seq::empty());
    while i < n
        invariant
            from <= i <= n == v@.len(),
            from < n,
            body == v@.skip(from as int),
            number(s@) == digits_value(body),
            acc <= max,
            digits_value(body.take(i - from)) == Some(acc as nat),
        decreases n - i,
    {
        let c: u32 = v[i] as u32;
        proof {
            assert(body.take(i - from + 1).drop_last() =~= body.take(i - from));
            assert(body.take(i - from + 1).last() == v@[i as int]);
            digits_value_grows(body, i - from + 1);
        }
        if c < 0x30 || c > 0x39 {
            return None;
        }
        let d: u64 = (c - 0x30) as u64;
        if d > max || acc > (max - d) / 10 {
            assert(10 * acc + d > max);
            return None;
        }
        acc = acc * 10 + d;
        i += 1;
    }
    assert(body.take(n - from) =~= body);
    Some(acc)
}

/// Whether `a` stands before `b` or equals it, character by character.
pub open spec fn in_order(a: Seq<char>, b: Seq<char>) -> bool
    decreases a.len(),
{
    if a.len() == 0 {
        true
    } else if b.len() == 0 {
        false
    } else if a[0] != b[0] {
        a[0] < b[0]
    } else {
        in_order(a.drop_first(), b.drop_first())
    }
}

pub fn is_in_order(a: &str, b: &str) -> (r: bool)
    ensures
        r == in_order(a@, b@),
{
    let x: Vec<char> = chars_of(a);
    let y: Vec<char> = chars_of(b);
    let mut i: usize = 0;
    assert(x@.skip(0) =~= x@);
    assert(y@.skip(0) =~= y@);
    while i < x.len() && i < y.len() && x[i] == y[i]
        invariant
            i <= x@.len(),
            i <= y@.len(),
            in_order(a@, b@) == in_order(x@.skip(i as int), y@.skip(i as int)),
        decreases x@.len() - i,
    {
        assert(x@.skip(i as int).drop_first() =~= x@.skip(i as int + 1));
        assert(y@.skip(i as int).drop_first() =~= y@.skip(i as int + 1));
        i += 1;
    }
    if i == x.len() {
        true
    } else if i == y.len() {
        false
    } else {
        x[i] < y[i]
    }
}

/// Texts are ordered totally.
pub proof fn order_is_total(a: Seq<char>, b: Seq<char>)
    ensures
        in_order(a, b) || in_order(b, a),
        in_order(a, b) && in_order(b, a) ==> a == b,
    decreases a.len(),
{
    if a.len() > 0 && b.len() > 0 && a[0] == b[0] {
        order_is_total(a.drop_first(), b.drop_first());
        if in_order(a, b) && in_order(b, a) {
            assert(a =~= seq![a[0]] + a.drop_first());
            assert(b =~= seq![b[0]] + b.drop_first());
        }
    } else if a.len() == 0 && b.len() == 0 {
        assert(a =~= b);
    }
}

pub proof fn order_is_transitive(a: Seq<char>, b: Seq<char>, c: Seq<char>)
    requires
        in_order(a, b),
        in_order(b, c),
    ensures
        in_order(a, c),
    decreases a.len(),
{
    if a.len() > 0 && b.len() > 0 && c.len() > 0 && a[0] == b[0] && b[0] == c[0] {
        order_is_transitive(a.drop_first(), b.drop_first(), c.drop_first());
    }
}

/// A character in UTF-16: one unit, or two where it lies beyond the first plane.
pub open spec fn units(c: char) -> Seq<u16> {
    if (c as u32) < 0x1_0000 {
        seq![c as u16]
    } else {
        seq![
            (0xd800 + (c as u32 - 0x1_0000) / 1024) as u16,
            (0xdc00 + (c as u32 - 0x1_0000) % 1024) as u16,
        ]
    }
}

/// A text in UTF-16.
pub open spec fn utf16(s: Seq<char>) -> Seq<u16>
    decreases s.len(),
{
    if s.len() == 0 {
        seq![]
    } else {
        utf16(s.drop_last()) + units(s.last())
    }
}

/// Only the empty text is empty in UTF-16.
pub proof fn utf16_is_empty(s: Seq<char>)
    ensures
        (utf16(s).len() == 0) == (s.len() == 0),
{
}

fn push_units(out: &mut Vec<u16>, c: char)
    ensures
        final(out)@ == old(out)@ + units(c),
{
    let n: u32 = c as u32;
    if n < 0x1_0000 {
        out.push(n as u16);
    } else {
        assert(n <= 0x10_ffff);
        out.push((0xd800 + (n - 0x1_0000) / 1024) as u16);
        out.push((0xdc00 + (n - 0x1_0000) % 1024) as u16);
    }
    assert(out@ =~= old(out)@ + units(c));
}

pub fn utf16_of(s: &str) -> (r: Vec<u16>)
    ensures
        r@ == utf16(s@),
{
    let chars = chars_of(s);
    let mut r: Vec<u16> = Vec::new();
    let mut i: usize = 0;
    while i < chars.len()
        invariant
            i <= chars@.len(),
            chars@ == s@,
            r@ == utf16(s@.take(i as int)),
        decreases chars@.len() - i,
    {
        push_units(&mut r, chars[i]);
        proof {
            assert(s@.take(i + 1).drop_last() =~= s@.take(i as int));
            assert(s@.take(i + 1).last() == chars@[i as int]);
        }
        i += 1;
    }
    assert(s@.take(i as int) =~= s@);
    r
}

/// A text is its trimmed form with nothing but white space before and behind it, and the trimmed
/// form neither begins nor ends with any.
pub proof fn trimming_takes_the_white_ends(s: Seq<char>) -> (at: (int, int))
    ensures
        0 <= at.0 <= at.1 <= s.len(),
        trimmed(s) == s.subrange(at.0, at.1),
        forall|i: int| 0 <= i < at.0 ==> white(#[trigger] s[i]),
        forall|i: int| at.1 <= i < s.len() ==> white(#[trigger] s[i]),
        at.0 < at.1 ==> !white(s[at.0]) && !white(s[at.1 - 1]),
{
    let from = front_is_white(s);
    let rest = s.skip(from);
    let len = back_is_white(rest);
    let to = from + len;
    assert(s.subrange(from, to) =~= rest.take(len));
    assert forall|i: int| to <= i < s.len() implies white(#[trigger] s[i]) by {
        assert(white(rest[i - from]));
    }
    if from < to {
        assert(rest[0] == s[from]);
        assert(rest[len - 1] == s[to - 1]);
    }
    (from, to)
}

proof fn front_is_white(s: Seq<char>) -> (from: int)
    ensures
        0 <= from <= s.len(),
        trimmed_front(s) == s.skip(from),
        forall|i: int| 0 <= i < from ==> white(#[trigger] s[i]),
        from < s.len() ==> !white(s[from]),
    decreases s.len(),
{
    if s.len() > 0 && white(s[0]) {
        let rest = s.drop_first();
        let k = front_is_white(rest);
        assert(s.skip(k + 1) =~= rest.skip(k));
        assert forall|i: int| 0 <= i < k + 1 implies white(#[trigger] s[i]) by {
            if i > 0 {
                assert(white(rest[i - 1]));
            }
        }
        if k < rest.len() {
            assert(rest[k] == s[k + 1]);
        }
        k + 1
    } else {
        assert(s.skip(0) =~= s);
        0
    }
}

proof fn back_is_white(s: Seq<char>) -> (len: int)
    ensures
        0 <= len <= s.len(),
        trimmed_back(s) == s.take(len),
        forall|i: int| len <= i < s.len() ==> white(#[trigger] s[i]),
        len > 0 ==> !white(s[len - 1]),
    decreases s.len(),
{
    if s.len() > 0 && white(s.last()) {
        let rest = s.drop_last();
        let k = back_is_white(rest);
        assert(s.take(k) =~= rest.take(k));
        assert forall|i: int| k <= i < s.len() implies white(#[trigger] s[i]) by {
            if i < rest.len() {
                assert(white(rest[i]));
            }
        }
        if k > 0 {
            assert(rest[k - 1] == s[k - 1]);
        }
        k
    } else {
        assert(s.take(s.len() as int) =~= s);
        s.len() as int
    }
}

/// What neither begins nor ends with white space stays as it is; what is all white space becomes
/// empty.
pub proof fn only_the_ends_are_trimmed(s: Seq<char>)
    ensures
        s.len() > 0 && !white(s[0]) && !white(s.last()) ==> trimmed(s) == s,
        trimmed(s).len() == 0 <==> forall|i: int| 0 <= i < s.len() ==> white(#[trigger] s[i]),
{
    let at = trimming_takes_the_white_ends(s);
    if s.len() > 0 && !white(s[0]) && !white(s.last()) {
        assert(at.0 == 0);
        assert(at.1 == s.len()) by {
            if at.1 < s.len() {
                assert(white(s[s.len() - 1]));
            }
        }
        assert(trimmed(s) =~= s);
    }
    if at.0 == at.1 {
        assert forall|i: int| 0 <= i < s.len() implies white(#[trigger] s[i]) by {
            if i >= at.0 {
                assert(i >= at.1);
            }
        }
    }
}

/// White space is the tab, the four line breaks after it, the space, and the wider blanks of
/// Unicode; a character that takes one byte is white only if it is one of six.
pub proof fn what_is_white(c: char)
    ensures
        c as u32 <= 0x7f ==> (white(c) <==> c == '\t' || c == '\n' || c == '\u{b}' || c == '\u{c}'
            || c == '\r' || c == ' '),
        c as u32 > 0x7f ==> (white(c) <==> c == '\u{85}' || c == '\u{a0}' || c == '\u{1680}' || c
            == '\u{2000}' || c == '\u{2001}' || c == '\u{2002}' || c == '\u{2003}' || c
            == '\u{2004}' || c == '\u{2005}' || c == '\u{2006}' || c == '\u{2007}' || c
            == '\u{2008}' || c == '\u{2009}' || c == '\u{200a}' || c == '\u{2028}' || c
            == '\u{2029}' || c == '\u{202f}' || c == '\u{205f}' || c == '\u{3000}'),
{
}

/// Control characters are the 32 below the space, and the 33 from delete on.
pub proof fn what_is_control(c: char)
    ensures
        control(c) <==> c < ' ' || ('\u{7f}' <= c && c < '\u{a0}'),
{
}

/// A number in decimal notation reads as that number, and begins with no zero but its own.
pub proof fn decimals_read_back(n: nat)
    ensures
        number(decimal(n)) == Some(n),
        digits_value(decimal(n)) == Some(n),
        decimal(n).len() >= 1,
        decimal(n).len() > 1 ==> decimal(n)[0] != '0',
        forall|i: int|
            0 <= i < decimal(n).len() ==> '0' <= #[trigger] decimal(n)[i] && decimal(n)[i] <= '9',
    decreases n,
{
    let s = decimal(n);
    reveal_with_fuel(digits_value, 2);
    if n < 10 {
        assert(s.drop_last() =~= seq![]);
        assert(digit_value(digit(n as int)) == Some(n));
    } else {
        assert(digit_value(digit((n % 10) as int)) == Some(n % 10));
        decimals_read_back(n / 10);
        let front = decimal(n / 10);
        assert(s.drop_last() =~= front);
        assert(s[0] == front[0]);
        if front.len() == 1 {
            assert(digits_value(front.drop_last()) == Some(0nat)) by {
                assert(front.drop_last() =~= seq![]);
            }
            assert(digit_value(front.last()) == Some(n / 10));
        }
    }
}

/// Filled up to a number of places, a number below that many digits reads as itself.
pub proof fn padded_numbers_read_back(n: nat, places: nat)
    ensures
        padded(n, places).len() == places,
        n < vstd::arithmetic::power::pow(10, places) ==> digits_value(padded(n, places)) == Some(n),
    decreases places,
{
    let s = padded(n, places);
    if places == 0 {
        vstd::arithmetic::power::lemma_pow0(10);
    } else {
        padded_numbers_read_back(n / 10, (places - 1) as nat);
        assert(s.drop_last() =~= padded(n / 10, (places - 1) as nat));
        assert(vstd::arithmetic::power::pow(10, places) == 10 * vstd::arithmetic::power::pow(
            10,
            (places - 1) as nat,
        )) by {
            reveal(vstd::arithmetic::power::pow);
        }
        assert(digit_value(s.last()) == Some(n % 10));
    }
}

/// A negative number has a minus sign before its amount, any other has none.
pub proof fn signs_stand_first(n: int)
    ensures
        n < 0 ==> signed(n)[0] == '-' && number(signed(n).skip(1)) == Some((-n) as nat),
        n >= 0 ==> number(signed(n)) == Some(n as nat),
{
    if n < 0 {
        decimals_read_back((-n) as nat);
        assert(signed(n).skip(1) =~= decimal((-n) as nat));
    } else {
        decimals_read_back(n as nat);
    }
}

/// A number is digits, each counting ten times the next, after at most one plus sign. Nothing else
/// is one, the empty text least of all.
pub proof fn what_is_a_number(s: Seq<char>)
    ensures
        number(s) is Some ==> s.len() > 0,
        s.len() > 0 && s[0] != '+' ==> (number(s) is Some <==> forall|i: int|
            0 <= i < s.len() ==> '0' <= #[trigger] s[i] && s[i] <= '9'),
        s.len() > 1 && s[0] == '+' ==> number(s) == (if s[1] == '+' {
            None
        } else {
            number(s.skip(1))
        }),
        s.len() == 1 && s[0] == '+' ==> number(s) is None,
{
    if s.len() > 0 && s[0] != '+' {
        all_digits(s);
    }
    if s.len() > 1 && s[0] == '+' && s[1] == '+' {
        all_digits(s.skip(1));
        if number(s) is Some {
            assert('0' <= s.skip(1)[0]);
        }
    }
}

/// The ten digits have their values, and nothing else has one.
pub proof fn what_is_a_digit(c: char)
    ensures
        digit_value(c) is Some <==> '0' <= c && c <= '9',
        digit_value(c) matches Some(d) ==> d < 10 && c == digit(d as int),
{
}

proof fn all_digits(s: Seq<char>)
    ensures
        digits_value(s) is Some <==> forall|i: int|
            0 <= i < s.len() ==> '0' <= #[trigger] s[i] && s[i] <= '9',
    decreases s.len(),
{
    if s.len() > 0 {
        let front = s.drop_last();
        all_digits(front);
        what_is_a_digit(s.last());
        if digits_value(s) is Some {
            assert forall|i: int| 0 <= i < s.len() implies '0' <= #[trigger] s[i] && s[i]
                <= '9' by {
                if i < front.len() {
                    assert(s[i] == front[i]);
                }
            }
        }
        if forall|i: int| 0 <= i < s.len() ==> '0' <= #[trigger] s[i] && s[i] <= '9' {
            assert('0' <= s[s.len() - 1] && s[s.len() - 1] <= '9');
            assert forall|i: int| 0 <= i < front.len() implies '0' <= #[trigger] front[i]
                && front[i] <= '9' by {
                assert(front[i] == s[i]);
            }
        }
    }
}

/// The first characters that differ decide the order; where there are none, the shorter text comes
/// first.
pub proof fn the_first_difference_decides(a: Seq<char>, b: Seq<char>, i: int)
    requires
        0 <= i <= a.len(),
        i <= b.len(),
        forall|j: int| 0 <= j < i ==> a[j] == b[j],
        i == a.len() || i == b.len() || a[i] != b[i],
    ensures
        in_order(a, b) == (i == a.len() || (i < b.len() && a[i] < b[i])),
    decreases i,
{
    if i > 0 {
        assert(a[0] == b[0]);
        the_first_difference_decides(a.drop_first(), b.drop_first(), i - 1);
    }
}

/// A character of the first plane is one unit, its own number. Any other is a high and a low
/// surrogate that give its number back.
pub proof fn units_read_back(c: char)
    ensures
        c as u32 <= 0xffff ==> units(c).len() == 1 && units(c)[0] == c as u32,
        c as u32 > 0xffff ==> units(c).len() == 2 && 0xd800 <= units(c)[0] <= 0xdbff && 0xdc00
            <= units(c)[1] <= 0xdfff && 0x1_0000 + 0x400 * (units(c)[0] - 0xd800) + (units(c)[1]
            - 0xdc00) == c as u32,
{
}

/// Texts one behind the other are so in UTF-16 too, and one character is its units.
pub proof fn units_stand_in_order(a: Seq<char>, b: Seq<char>, c: char)
    ensures
        utf16(a + b) == utf16(a) + utf16(b),
        utf16(seq![c]) == units(c),
        utf16(seq![]) == Seq::<u16>::empty(),
    decreases b.len(),
{
    reveal_with_fuel(utf16, 2);
    assert(seq![c].drop_last() =~= seq![]);
    assert(utf16(seq![c]) =~= units(c));
    if b.len() == 0 {
        assert(a + b =~= a);
        assert(utf16(a) + utf16(b) =~= utf16(a));
    } else {
        units_stand_in_order(a, b.drop_last(), c);
        assert((a + b).drop_last() =~= a + b.drop_last());
        assert((a + b).last() == b.last());
        assert(utf16(a + b) =~= utf16(a) + utf16(b));
    }
}

/// A text holds another one.
pub open spec fn says(whole: Seq<char>, part: Seq<char>) -> bool {
    exists|front: Seq<char>, back: Seq<char>| whole == #[trigger] (front + part + back)
}

/// A text holds one text and, behind it, another one.
pub open spec fn says_both(whole: Seq<char>, one: Seq<char>, other: Seq<char>) -> bool {
    exists|front: Seq<char>, between: Seq<char>, back: Seq<char>|
        whole == #[trigger] (front + one + between + other + back)
}

/// A text that is put together holds its parts, in their order.
pub proof fn parts_are_said(
    front: Seq<char>,
    one: Seq<char>,
    between: Seq<char>,
    other: Seq<char>,
    back: Seq<char>,
)
    ensures
        says(front + one, one),
        says(front + one + back, one),
        says_both(front + one + between + other, one, other),
        says_both(front + one + between + other + back, one, other),
{
    let nothing = Seq::<char>::empty();
    assert(front + one + nothing =~= front + one);
    assert(front + one + between + other + nothing =~= front + one + between + other);
}

} // verus!
