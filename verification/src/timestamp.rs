//! When a message was sent: read from its ULID, and shown as today,
//! yesterday, or a date.

use vstd::prelude::*;
use crate::text::{concat, decimal, spec_decimal, two_digits, spec_two_digits, push_char};

verus! {

/// The value of one character of a ULID (Crockford's base 32, either case;
/// `I`, `L`, `O` and `U` are not used), or -1.
pub open spec fn crockford_value(c: char) -> int {
    let u = c as u32;
    if '0' as u32 <= u && u <= '9' as u32 {
        u - '0' as u32
    } else {
        let l = if 'a' as u32 <= u && u <= 'z' as u32 { u - 32 } else { u as int };
        if l == 'I' as u32 || l == 'L' as u32 || l == 'O' as u32 || l == 'U' as u32 {
            -1
        } else if 'A' as u32 <= l && l <= 'H' as u32 {
            l - 'A' as u32 + 10
        } else if 'J' as u32 <= l && l <= 'K' as u32 {
            l - 'J' as u32 + 18
        } else if 'M' as u32 <= l && l <= 'N' as u32 {
            l - 'M' as u32 + 20
        } else if 'P' as u32 <= l && l <= 'T' as u32 {
            l - 'P' as u32 + 22
        } else if 'V' as u32 <= l && l <= 'Z' as u32 {
            l - 'V' as u32 + 27
        } else {
            -1
        }
    }
}

/// `s` reads as a ULID: 26 characters of base 32.
pub open spec fn ulid_valid(s: Seq<char>) -> bool {
    s.len() == 26 && forall|k: int| 0 <= k < 26 ==> crockford_value(#[trigger] s[k]) >= 0
}

/// The number the first `n` characters of `s` spell in base 32.
pub open spec fn base32_prefix(s: Seq<char>, n: nat) -> int
    decreases n,
{
    if n == 0 {
        0
    } else {
        base32_prefix(s, (n - 1) as nat) * 32 + crockford_value(s[n - 1])
    }
}

/// The milliseconds since the Unix epoch a valid ULID holds: the 48 bits
/// that its first ten characters end in.
pub open spec fn spec_ulid_millis(s: Seq<char>) -> int {
    base32_prefix(s, 10) % 0x1_0000_0000_0000
}

/// `ulid::Ulid::from_string` then `Ulid::timestamp_ms`: the milliseconds a
/// ULID holds, or `None` where `id` is no ULID.
#[verifier::external_body]
fn ulid_millis(id: &str) -> (r: Option<u64>)
    ensures
        r is Some <==> ulid_valid(id@),
        r is Some ==> r->0 == spec_ulid_millis(id@),
{
    match ulid::Ulid::from_string(id) {
        Ok(u) => Some(u.timestamp_ms()),
        Err(_) => None,
    }
}

/// When the message with ULID `id` was sent, in milliseconds since the
/// Unix epoch, or `None` where `id` is no ULID.
pub fn message_millis(id: &str) -> (r: Option<u64>)
    ensures
        r is Some <==> ulid_valid(id@),
        r is Some ==> r->0 == spec_ulid_millis(id@),
{
    ulid_millis(id)
}

/// `year` is a leap year of the proleptic Gregorian calendar.
pub open spec fn is_leap(year: int) -> bool {
    year % 4 == 0 && (year % 100 != 0 || year % 400 == 0)
}

/// The number of days of month `month` of `year`.
pub open spec fn days_in_month(year: int, month: int) -> int {
    if month == 2 {
        if is_leap(year) { 29 } else { 28 }
    } else if month == 4 || month == 6 || month == 9 || month == 11 {
        30
    } else {
        31
    }
}

/// A calendar date.
#[derive(Debug, PartialEq, Eq, Clone, Copy, Structural)]
pub struct CivilDate {
    pub year: i16,
    pub month: i8,
    pub day: i8,
}

/// A date `jiff` accepts: years -9999 to 9999, and a day of the month.
pub open spec fn date_valid(d: CivilDate) -> bool {
    -9999 <= d.year <= 9999 && 1 <= d.month <= 12 && 1 <= d.day <= days_in_month(d.year as int, d.month as int)
}

/// The day before `d`, none before -9999-01-01.
pub open spec fn spec_yesterday(d: CivilDate) -> Option<CivilDate> {
    if d.day > 1 {
        Some(CivilDate { year: d.year, month: d.month, day: (d.day - 1) as i8 })
    } else if d.month > 1 {
        Some(CivilDate { year: d.year, month: (d.month - 1) as i8, day: days_in_month(d.year as int, d.month - 1) as i8 })
    } else if d.year > -9999 {
        Some(CivilDate { year: (d.year - 1) as i16, month: 12, day: 31 })
    } else {
        None
    }
}

/// `jiff::civil::Date::yesterday`: the day before `d`, or `None` before the
/// first date `jiff` knows.
#[verifier::external_body]
fn civil_yesterday(d: CivilDate) -> (r: Option<CivilDate>)
    requires
        date_valid(d),
    ensures
        r == spec_yesterday(d),
{
    match jiff::civil::Date::new(d.year, d.month, d.day) {
        Ok(date) => match date.yesterday() {
            Ok(y) => Some(CivilDate { year: y.year(), month: y.month(), day: y.day() }),
            Err(_) => None,
        },
        Err(_) => None,
    }
}

/// The local date and time a message was sent.
#[derive(Debug, PartialEq, Eq, Clone, Copy, Structural)]
pub struct SentAt {
    pub date: CivilDate,
    pub hour: i8,
    pub minute: i8,
}

/// `n` in decimal, with a `-` in front if it is negative.
pub open spec fn spec_signed_decimal(n: int) -> Seq<char> {
    if n < 0 {
        seq!['-'] + spec_decimal((-n) as nat)
    } else {
        spec_decimal(n as nat)
    }
}

/// `HH:MM`.
pub open spec fn spec_clock(hour: int, minute: int) -> Seq<char> {
    spec_two_digits(hour as nat) + seq![':'] + spec_two_digits(minute as nat)
}

/// The label of a message sent at `sent`, seen on day `today` (whose
/// previous day is `yesterday`): `Today at HH:MM`, `Yesterday at HH:MM`, or
/// `DD/MM/YYYY`.
pub open spec fn spec_sent_label(sent: SentAt, today: CivilDate, yesterday: Option<CivilDate>) -> Seq<char> {
    if sent.date == today {
        seq!['T', 'o', 'd', 'a', 'y', ' ', 'a', 't', ' '] + spec_clock(sent.hour as int, sent.minute as int)
    } else if yesterday == Some(sent.date) {
        seq!['Y', 'e', 's', 't', 'e', 'r', 'd', 'a', 'y', ' ', 'a', 't', ' '] + spec_clock(sent.hour as int, sent.minute as int)
    } else {
        spec_two_digits(sent.date.day as nat) + seq!['/'] + spec_two_digits(sent.date.month as nat) + seq!['/']
            + spec_signed_decimal(sent.date.year as int)
    }
}

fn clock(hour: i8, minute: i8) -> (r: String)
    requires
        0 <= hour,
        0 <= minute,
    ensures
        r@ == spec_clock(hour as int, minute as int),
{
    let mut s = two_digits(hour as u64);
    push_char(&mut s, ':');
    let m = two_digits(minute as u64);
    let r = concat(s.as_str(), m.as_str());
    r
}

fn signed_decimal(n: i16) -> (r: String)
    ensures
        r@ == spec_signed_decimal(n as int),
{
    if n < 0 {
        let d = decimal((-(n as i32)) as u64);
        let mut s = String::new();
        push_char(&mut s, '-');
        let r = concat(s.as_str(), d.as_str());
        proof {
            assert(s@ =~= seq!['-']);
        }
        r
    } else {
        decimal(n as u64)
    }
}

/// The label of a message sent at `sent` given the day `yesterday` before
/// `today`.
pub fn sent_label_with(sent: SentAt, today: CivilDate, yesterday: Option<CivilDate>) -> (r: String)
    requires
        0 <= sent.hour,
        0 <= sent.minute,
        1 <= sent.date.day,
        1 <= sent.date.month,
    ensures
        r@ == spec_sent_label(sent, today, yesterday),
{
    if sent.date == today {
        let p = "Today at ";
        proof {
            reveal_strlit("Today at ");
        }
        let c = clock(sent.hour, sent.minute);
        concat(p, c.as_str())
    } else if yesterday == Some(sent.date) {
        let p = "Yesterday at ";
        proof {
            reveal_strlit("Yesterday at ");
        }
        let c = clock(sent.hour, sent.minute);
        concat(p, c.as_str())
    } else {
        let mut s = two_digits(sent.date.day as u64);
        push_char(&mut s, '/');
        let m = two_digits(sent.date.month as u64);
        let mut s2 = concat(s.as_str(), m.as_str());
        push_char(&mut s2, '/');
        let y = signed_decimal(sent.date.year);
        concat(s2.as_str(), y.as_str())
    }
}

/// The label of a message sent at `sent`, seen on day `today`.
pub fn sent_label(sent: SentAt, today: CivilDate) -> (r: String)
    requires
        0 <= sent.hour,
        0 <= sent.minute,
        1 <= sent.date.day,
        1 <= sent.date.month,
        date_valid(today),
    ensures
        r@ == spec_sent_label(sent, today, spec_yesterday(today)),
{
    let y = civil_yesterday(today);
    sent_label_with(sent, today, y)
}

/// The marker shown after the time of a message that was edited.
pub open spec fn spec_edited_marker(edited: bool) -> Option<Seq<char>> {
    if edited {
        Some("(edited)"@)
    } else {
        None
    }
}

/// `(edited)` for an edited message, nothing for another.
pub fn edited_marker(edited: bool) -> (r: Option<String>)
    ensures
        match r {
            Some(s) => spec_edited_marker(edited) == Some(s@),
            None => spec_edited_marker(edited) is None,
        },
{
    if edited {
        Some(String::from_str("(edited)"))
    } else {
        None
    }
}

/// The time labels of a message's header: when it was sent, seen on day
/// `today`, and the edited marker where the message was edited.
pub fn header_labels(sent: SentAt, today: CivilDate, edited: bool) -> (r: (String, Option<String>))
    requires
        0 <= sent.hour,
        0 <= sent.minute,
        1 <= sent.date.day,
        1 <= sent.date.month,
        date_valid(today),
    ensures
        r.0@ == spec_sent_label(sent, today, spec_yesterday(today)),
        match r.1 {
            Some(s) => spec_edited_marker(edited) == Some(s@),
            None => spec_edited_marker(edited) is None,
        },
{
    (sent_label(sent, today), edited_marker(edited))
}

/// What stands beside a message that follows another by the same author:
/// `(edited)` where it was edited, else its time `HH:MM` while the pointer
/// is over it, else nothing.
pub open spec fn spec_trailing_label(sent: SentAt, edited: bool, hovering: bool) -> Option<Seq<char>> {
    if edited {
        Some("(edited)"@)
    } else if hovering {
        Some(spec_clock(sent.hour as int, sent.minute as int))
    } else {
        None
    }
}

/// The label beside a message that follows another by the same author.
pub fn trailing_label(sent: SentAt, edited: bool, hovering: bool) -> (r: Option<String>)
    requires
        0 <= sent.hour,
        0 <= sent.minute,
    ensures
        match r {
            Some(s) => spec_trailing_label(sent, edited, hovering) == Some(s@),
            None => spec_trailing_label(sent, edited, hovering) is None,
        },
{
    if edited {
        edited_marker(true)
    } else if hovering {
        Some(clock(sent.hour, sent.minute))
    } else {
        None
    }
}

} // verus!

verus! {

/// The day before a date `jiff` knows is a date it knows, and there is one
/// for every date but the first.
pub proof fn law_yesterday_is_a_date(d: CivilDate)
    requires
        date_valid(d),
    ensures
        spec_yesterday(d) is None <==> (d.year == -9999 && d.month == 1 && d.day == 1),
        spec_yesterday(d) is Some ==> date_valid(spec_yesterday(d)->0),
{
}

/// A message sent on the day it is seen is labelled `Today at`, never with
/// its date.
pub proof fn law_same_day_is_today(sent: SentAt, yesterday: Option<CivilDate>)
    ensures
        spec_sent_label(sent, sent.date, yesterday).take(9) == "Today at "@,
{
    reveal_strlit("Today at ");
    let l = spec_sent_label(sent, sent.date, yesterday);
    assert(l.take(9) =~= "Today at "@);
}

} // verus!
