//! Append-only attachment lifecycle log: where it lives, how records are
//! stamped, when it rotates, and which pause transitions it records.
use vstd::prelude::*;
use crate::calendar::{
    civil_date, days_since_epoch, is_valid_date, lemma_before_year_10000, lemma_civil_from_march_days,
    lemma_days_since_epoch_order,
};
use vstd::arithmetic::div_mod::lemma_fundamental_div_mod_converse;
use crate::paths::{join, path_join, path_with_extension, with_extension};
use crate::text::{
    chars_before, digit_char, lemma_digit_char_order, lemma_zero_padded_2, lemma_zero_padded_4,
    push_char, push_zero_padded, str_eq, zero_padded,
};

verus! {

/// A log file at least this large is rotated before the next append.
pub const MAX_BYTES: u64 = 1_048_576;

/// The pause reason shown while docking resumes; it is not a pause of its own.
pub const RESUME_IN_PROGRESS: &'static str = "Resuming docking";

/// Where the log lives: `$APPDOCK_DATA_DIR` when set, else
/// `$HOME/Library/Logs/AppDock`, else `appdock-logs` in the working directory.
pub open spec fn spec_directory(data_dir: Option<Seq<char>>, home: Option<Seq<char>>) -> Seq<char> {
    match data_dir {
        Some(dir) => dir,
        None => match home {
            Some(h) => path_join(h, "Library/Logs/AppDock"@),
            None => "appdock-logs"@,
        },
    }
}

pub open spec fn opt_view(s: Option<&str>) -> Option<Seq<char>> {
    match s {
        Some(t) => Some(t@),
        None => None,
    }
}

/// The log directory, from the values of `APPDOCK_DATA_DIR` and `HOME`.
pub fn directory(data_dir: Option<&str>, home: Option<&str>) -> (dir: String)
    ensures
        dir@ == spec_directory(opt_view(data_dir), opt_view(home)),
{
    match data_dir {
        Some(dir) => String::from_str(dir),
        None => match home {
            Some(h) => join(h, "Library/Logs/AppDock"),
            None => String::from_str("appdock-logs"),
        },
    }
}

/// The log file inside the log directory.
pub fn path(directory: &str) -> (file: String)
    ensures
        file@ == path_join(directory@, "events.jsonl"@),
{
    join(directory, "events.jsonl")
}

/// Where a full log is moved: the same name with extension `jsonl.1`.
/// A log whose size could not be read, or that is smaller than
/// `max_bytes`, stays where it is.
pub fn rotation_target(path: &str, current_len: Option<u64>, max_bytes: u64) -> (target: Option<
    String,
>)
    ensures
        target matches Some(t) ==> t@ == path_with_extension(path@, "jsonl.1"@),
        target is Some <==> (current_len matches Some(len) && len >= max_bytes),
{
    proof {
        reveal_strlit("jsonl.1");
    }
    match current_len {
        Some(len) if len >= max_bytes => Some(with_extension(path, "jsonl.1")),
        _ => None,
    }
}

/// A lifecycle record about pausing.
#[derive(Clone, Debug, PartialEq, Eq)]
pub enum PauseRecord {
    /// Docking resumed after a pause.
    Resumed,
    /// Docking paused for the given reason.
    Paused(String),
}

/// What a change of pause reason logs: `resumed` when a pause ends, `paused`
/// with the reason when a new reason appears, except the resume-in-progress
/// reason, and nothing otherwise.
pub open spec fn spec_pause_transition(previous: Option<Seq<char>>, next: Option<Seq<char>>) -> Option<
    Option<Seq<char>>,
> {
    match next {
        None => if previous is Some {
            Some(None)
        } else {
            None
        },
        Some(reason) => if reason != "Resuming docking"@ && previous != Some(reason) {
            Some(Some(reason))
        } else {
            None
        },
    }
}

/// The record for `record`: `None` for `Resumed`, the reason for `Paused`.
pub open spec fn record_view(record: PauseRecord) -> Option<Seq<char>> {
    match record {
        PauseRecord::Resumed => None,
        PauseRecord::Paused(reason) => Some(reason@),
    }
}

/// The resume-in-progress reason is never logged as a pause, a reason is
/// not logged twice in a row, and `resumed` follows only a pause.
pub proof fn lemma_pause_log_is_faithful(previous: Option<Seq<char>>, next: Option<Seq<char>>)
    ensures
        spec_pause_transition(previous, next) != Some(Some("Resuming docking"@)),
        next is Some && previous == next ==> spec_pause_transition(previous, next) is None,
        spec_pause_transition(previous, next) == Some(None::<Seq<char>>) <==> (previous is Some
            && next is None),
{
}

/// Every new pause reason is logged, whatever was happening before (a pause
/// that interrupts a resume included), except the resume-in-progress reason
/// and a repeat of the current reason; the end of a pause is logged as
/// `resumed`; nothing else is logged.
pub proof fn lemma_pause_transition_logs(previous: Option<Seq<char>>, next: Option<Seq<char>>)
    ensures
        match next {
            Some(r) => (r != "Resuming docking"@ && previous != Some(r)) ==> spec_pause_transition(
                previous,
                next,
            ) == Some(Some(r)),
            None => true,
        },
        next is None && previous is Some ==> spec_pause_transition(previous, next) == Some(
            None::<Seq<char>>,
        ),
        next is None && previous is None ==> spec_pause_transition(previous, next) is None,
        match next {
            Some(r) => (r == "Resuming docking"@ || previous == Some(r)) ==> spec_pause_transition(
                previous,
                next,
            ) is None,
            None => true,
        },
{
}

pub fn pause_transition(previous: Option<&str>, next: Option<&str>) -> (record: Option<PauseRecord>)
    ensures
        match record {
            Some(r) => spec_pause_transition(opt_view(previous), opt_view(next)) == Some(
                record_view(r),
            ),
            None => spec_pause_transition(opt_view(previous), opt_view(next)) is None,
        },
{
    match next {
        None => if previous.is_some() {
            Some(PauseRecord::Resumed)
        } else {
            None
        },
        Some(reason) => {
            let repeated = match previous {
                Some(p) => str_eq(p, reason),
                None => false,
            };
            if !str_eq(reason, "Resuming docking") && !repeated {
                Some(PauseRecord::Paused(String::from_str(reason)))
            } else {
                None
            }
        },
    }
}

/// The day count that `civil_from_unix_days` works from: counts beyond the
/// largest day representable in its signed arithmetic saturate there.
pub open spec fn effective_unix_days(unix_days: nat) -> int {
    if unix_days > i64::MAX - 719_468 {
        i64::MAX - 719_468
    } else {
        unix_days as int
    }
}

/// Years beyond `i32::MAX` are reported as `i32::MAX`.
pub open spec fn clamp_year(y: int) -> int {
    if y > i32::MAX {
        i32::MAX as int
    } else {
        y
    }
}

/// Calendar date (year, month, day) of the given day count since 1970-01-01.
pub fn civil_from_unix_days(unix_days: u64) -> (date: (i32, u32, u32))
    ensures
        ({
            let (y, m, d) = civil_date(effective_unix_days(unix_days as nat));
            date.0 == clamp_year(y) && date.1 == m && date.2 == d
        }),
{
    let z: i64 = if unix_days > (i64::MAX - 719_468) as u64 {
        i64::MAX
    } else {
        unix_days as i64 + 719_468
    };
    let era: i64 = z / 146_097;
    let doe: u32 = (z - era * 146_097) as u32;
    assert(doe <= 146096);
    let yoe: u32 = (doe - doe / 1_460 + doe / 36_524 - doe / 146_096) / 365;
    let raw_year: i64 = yoe as i64 + era * 400;
    let mut year: i32 = if raw_year > i32::MAX as i64 {
        i32::MAX
    } else {
        raw_year as i32
    };
    let doy: u32 = doe - (365 * yoe + yoe / 4 - yoe / 100);
    proof {
        lemma_civil_from_march_days(z as int);
    }
    let mp: u32 = (5 * doy + 2) / 153;
    let day: u32 = doy - (153 * mp + 2) / 5 + 1;
    let month: u32 = if mp < 10 {
        mp + 3
    } else {
        mp - 9
    };
    if month <= 2 {
        year = if year == i32::MAX {
            year
        } else {
            year + 1
        };
    }
    (year, month, day)
}

/// Every day count since 1970-01-01 names one valid calendar date, and that
/// date's day count is the count it came from.
pub proof fn lemma_civil_date_round_trip(days: nat)
    ensures
        ({
            let (y, m, d) = civil_date(days as int);
            is_valid_date(y, m, d) && days_since_epoch(y, m, d) == days
        }),
{
    lemma_civil_from_march_days(days + 719_468int);
}

/// `YYYY-MM-DDTHH:MM:SSZ` for a count of seconds since the Unix epoch.
#[verifier::opaque]
pub open spec fn utc_datetime_text(secs: nat) -> Seq<char> {
    let (y, m, d) = civil_date((secs / 86_400) as int);
    let clock = secs % 86_400;
    zero_padded(clamp_year(y) as nat, 4) + seq!['-'] + zero_padded(m as nat, 2) + seq!['-']
        + zero_padded(d as nat, 2) + seq!['T'] + zero_padded(clock / 3_600, 2) + seq![':']
        + zero_padded((clock % 3_600) / 60, 2) + seq![':'] + zero_padded(clock % 60, 2) + seq![
        'Z',
    ]
}

/// A timestamp laid out from its fourteen digits (year, month, day, hour,
/// minute, second; two digits each but four for the year).
pub open spec fn timestamp_from_digits(g: Seq<int>) -> Seq<char> {
    seq![
        digit_char(g[0]), digit_char(g[1]), digit_char(g[2]), digit_char(g[3]), '-',
        digit_char(g[4]), digit_char(g[5]), '-', digit_char(g[6]), digit_char(g[7]), 'T',
        digit_char(g[8]), digit_char(g[9]), ':', digit_char(g[10]), digit_char(g[11]), ':',
        digit_char(g[12]), digit_char(g[13]), 'Z',
    ]
}

/// The fourteen digits of a date and time whose year has four digits.
pub open spec fn datetime_digits(y: int, m: int, d: int, h: int, mi: int, s: int) -> Seq<int> {
    seq![
        y / 1000, (y / 100) % 10, (y / 10) % 10, y % 10, m / 10, m % 10, d / 10, d % 10, h / 10, h
            % 10, mi / 10, mi % 10, s / 10, s % 10,
    ]
}

/// The fields of the timestamp of `secs`: date, then hour, minute and second.
pub open spec fn datetime_fields(secs: nat) -> (int, int, int, int, int, int) {
    let (y, m, d) = civil_date((secs / 86_400) as int);
    let clock = secs % 86_400;
    (y, m, d, (clock / 3_600) as int, ((clock % 3_600) / 60) as int, (clock % 60) as int)
}

/// Before year 10000 a timestamp is exactly its fourteen digits with separators.
proof fn lemma_timestamp_digits(secs: nat)
    requires
        secs < 253_402_300_800,
    ensures
        ({
            let (y, m, d, h, mi, s) = datetime_fields(secs);
            &&& 1970 <= y < 10000
            &&& 1 <= m <= 12 && 1 <= d <= 31
            &&& 0 <= h < 24 && 0 <= mi < 60 && 0 <= s < 60
            &&& is_valid_date(y, m, d)
            &&& days_since_epoch(y, m, d) == secs / 86_400
            &&& utc_datetime_text(secs) == timestamp_from_digits(datetime_digits(y, m, d, h, mi, s))
        }),
{
    let days = secs / 86_400;
    lemma_civil_from_march_days(days + 719_468int);
    let (y, m, d, h, mi, s) = datetime_fields(secs);
    lemma_before_year_10000(y, m, d);
    lemma_zero_padded_4(y as nat);
    lemma_zero_padded_2(m as nat);
    lemma_zero_padded_2(d as nat);
    lemma_zero_padded_2(h as nat);
    lemma_zero_padded_2(mi as nat);
    lemma_zero_padded_2(s as nat);
    reveal(utc_datetime_text);
    assert(utc_datetime_text(secs) =~= timestamp_from_digits(datetime_digits(y, m, d, h, mi, s)));
}

proof fn lemma_chars_before_at(a: Seq<char>, b: Seq<char>, i: int)
    requires
        0 <= i < a.len(),
        i < b.len(),
        forall|k: int| 0 <= k < i ==> a[k] == b[k],
        (a[i] as u32) < (b[i] as u32),
    ensures
        chars_before(a, b),
{
    assert(a.subrange(0, i) =~= b.subrange(0, i));
}

/// Digit sequences that first differ at `j`, smaller in `g1`, give timestamps
/// in that order.
proof fn lemma_timestamp_digits_order(g1: Seq<int>, g2: Seq<int>, j: int)
    requires
        g1.len() == 14,
        g2.len() == 14,
        0 <= j < 14,
        forall|k: int| 0 <= k < j ==> g1[k] == g2[k],
        0 <= g1[j] < g2[j] <= 9,
    ensures
        chars_before(timestamp_from_digits(g1), timestamp_from_digits(g2)),
{
    let a = timestamp_from_digits(g1);
    let b = timestamp_from_digits(g2);
    lemma_digit_char_order(g1[j], g2[j]);
    let i = if j < 4 {
        j
    } else if j < 6 {
        j + 1
    } else if j < 8 {
        j + 2
    } else if j < 10 {
        j + 3
    } else if j < 12 {
        j + 4
    } else {
        j + 5
    };
    assert forall|k: int| 0 <= k < i implies a[k] == b[k] by {
        if k < 4 {
            assert(g1[k] == g2[k]);
        } else if 4 < k < 7 {
            assert(g1[k - 1] == g2[k - 1]);
        } else if 7 < k < 10 {
            assert(g1[k - 2] == g2[k - 2]);
        } else if 10 < k < 13 {
            assert(g1[k - 3] == g2[k - 3]);
        } else if 13 < k < 16 {
            assert(g1[k - 4] == g2[k - 4]);
        } else if 16 < k < 19 {
            assert(g1[k - 5] == g2[k - 5]);
        }
    }
    lemma_chars_before_at(a, b, i);
}

/// The first differing digit of two two-digit numbers is smaller in the smaller one.
proof fn lemma_two_digit_order(a: int, b: int)
    requires
        0 <= a < b < 100,
    ensures
        a / 10 < b / 10 || (a / 10 == b / 10 && a % 10 < b % 10),
        0 <= a / 10 <= 9 && 0 <= b / 10 <= 9 && 0 <= a % 10 <= 9 && 0 <= b % 10 <= 9,
{
    lemma_fundamental_div_mod_converse(a, 10, a / 10, a % 10);
    lemma_fundamental_div_mod_converse(b, 10, b / 10, b % 10);
}

/// The same for four-digit numbers.
proof fn lemma_four_digit_order(a: int, b: int)
    requires
        1000 <= a < b < 10000,
    ensures
        a / 1000 < b / 1000 || (a / 1000 == b / 1000 && ((a / 100) % 10 < (b / 100) % 10 || ((a
            / 100) % 10 == (b / 100) % 10 && ((a / 10) % 10 < (b / 10) % 10 || ((a / 10) % 10 == (b
            / 10) % 10 && a % 10 < b % 10))))),
        0 <= a / 1000 <= 9 && 0 <= (a / 100) % 10 <= 9 && 0 <= (a / 10) % 10 <= 9 && 0 <= a % 10 <= 9,
        0 <= b / 1000 <= 9 && 0 <= (b / 100) % 10 <= 9 && 0 <= (b / 10) % 10 <= 9 && 0 <= b % 10 <= 9,
{
    lemma_fundamental_div_mod_converse(a, 10, a / 10, a % 10);
    lemma_fundamental_div_mod_converse(b, 10, b / 10, b % 10);
    lemma_fundamental_div_mod_converse(a / 10, 10, a / 100, (a / 10) % 10);
    lemma_fundamental_div_mod_converse(b / 10, 10, b / 100, (b / 10) % 10);
    lemma_fundamental_div_mod_converse(a / 100, 10, a / 1000, (a / 100) % 10);
    lemma_fundamental_div_mod_converse(b / 100, 10, b / 1000, (b / 100) % 10);
}

/// Field-wise order of (year, month, day, hour, minute, second) is the order
/// of their digit sequences.
proof fn lemma_digits_order(
    f1: (int, int, int, int, int, int),
    f2: (int, int, int, int, int, int),
) -> (j: int)
    requires
        1000 <= f1.0 < 10000,
        1000 <= f2.0 < 10000,
        0 <= f1.1 < 100 && 0 <= f1.2 < 100 && 0 <= f1.3 < 100 && 0 <= f1.4 < 100 && 0 <= f1.5 < 100,
        0 <= f2.1 < 100 && 0 <= f2.2 < 100 && 0 <= f2.3 < 100 && 0 <= f2.4 < 100 && 0 <= f2.5 < 100,
        f1.0 < f2.0 || (f1.0 == f2.0 && (f1.1 < f2.1 || (f1.1 == f2.1 && (f1.2 < f2.2 || (f1.2
            == f2.2 && (f1.3 < f2.3 || (f1.3 == f2.3 && (f1.4 < f2.4 || (f1.4 == f2.4 && f1.5
            < f2.5))))))))),
    ensures
        ({
            let g1 = datetime_digits(f1.0, f1.1, f1.2, f1.3, f1.4, f1.5);
            let g2 = datetime_digits(f2.0, f2.1, f2.2, f2.3, f2.4, f2.5);
            &&& 0 <= j < 14
            &&& forall|k: int| 0 <= k < j ==> g1[k] == g2[k]
            &&& 0 <= g1[j] < g2[j] <= 9
        }),
{
    let g1 = datetime_digits(f1.0, f1.1, f1.2, f1.3, f1.4, f1.5);
    let g2 = datetime_digits(f2.0, f2.1, f2.2, f2.3, f2.4, f2.5);
    let (y1, m1, d1, h1, i1, s1) = f1;
    let (y2, m2, d2, h2, i2, s2) = f2;
    if y1 < y2 {
        lemma_four_digit_order(y1, y2);
        if y1 / 1000 < y2 / 1000 {
            0
        } else if (y1 / 100) % 10 < (y2 / 100) % 10 {
            1
        } else if (y1 / 10) % 10 < (y2 / 10) % 10 {
            2
        } else {
            3
        }
    } else if m1 < m2 {
        lemma_two_digit_order(m1, m2);
        if m1 / 10 < m2 / 10 { 4 } else { 5 }
    } else if d1 < d2 {
        lemma_two_digit_order(d1, d2);
        if d1 / 10 < d2 / 10 { 6 } else { 7 }
    } else if h1 < h2 {
        lemma_two_digit_order(h1, h2);
        if h1 / 10 < h2 / 10 { 8 } else { 9 }
    } else if i1 < i2 {
        lemma_two_digit_order(i1, i2);
        if i1 / 10 < i2 / 10 { 10 } else { 11 }
    } else {
        lemma_two_digit_order(s1, s2);
        if s1 / 10 < s2 / 10 { 12 } else { 13 }
    }
}

/// Within a day, later seconds have a later (hour, minute, second).
proof fn lemma_clock_order(c1: int, c2: int)
    requires
        0 <= c1 < c2 < 86_400,
    ensures
        c1 / 3_600 < c2 / 3_600 || (c1 / 3_600 == c2 / 3_600 && ((c1 % 3_600) / 60 < (c2 % 3_600)
            / 60 || ((c1 % 3_600) / 60 == (c2 % 3_600) / 60 && c1 % 60 < c2 % 60))),
{
    lemma_fundamental_div_mod_converse(c1, 3_600, c1 / 3_600, c1 % 3_600);
    lemma_fundamental_div_mod_converse(c2, 3_600, c2 / 3_600, c2 % 3_600);
    lemma_fundamental_div_mod_converse(c1 % 3_600, 60, (c1 % 3_600) / 60, (c1 % 3_600) % 60);
    lemma_fundamental_div_mod_converse(c2 % 3_600, 60, (c2 % 3_600) / 60, (c2 % 3_600) % 60);
    lemma_fundamental_div_mod_converse(c1, 60, 60 * (c1 / 3_600) + (c1 % 3_600) / 60, (c1 % 3_600) % 60);
    lemma_fundamental_div_mod_converse(c2, 60, 60 * (c2 / 3_600) + (c2 % 3_600) / 60, (c2 % 3_600) % 60);
}

/// Later instants have later fields: (year, month, day, hour, minute, second)
/// grows in the order of its components.
proof fn lemma_fields_order(s1: nat, s2: nat)
    requires
        s1 < s2,
    ensures
        ({
            let f1 = datetime_fields(s1);
            let f2 = datetime_fields(s2);
            f1.0 < f2.0 || (f1.0 == f2.0 && (f1.1 < f2.1 || (f1.1 == f2.1 && (f1.2 < f2.2 || (f1.2
                == f2.2 && (f1.3 < f2.3 || (f1.3 == f2.3 && (f1.4 < f2.4 || (f1.4 == f2.4 && f1.5
                < f2.5)))))))))
        }),
{
    let days1 = s1 / 86_400;
    let days2 = s2 / 86_400;
    lemma_fundamental_div_mod_converse(s1 as int, 86_400, days1 as int, (s1 % 86_400) as int);
    lemma_fundamental_div_mod_converse(s2 as int, 86_400, days2 as int, (s2 % 86_400) as int);
    if days1 < days2 {
        lemma_civil_from_march_days(days1 + 719_468int);
        lemma_civil_from_march_days(days2 + 719_468int);
        let (y1, m1, d1) = civil_date(days1 as int);
        let (y2, m2, d2) = civil_date(days2 as int);
        lemma_days_since_epoch_order(y1, m1, d1, y2, m2, d2);
    } else {
        assert(days1 == days2);
        lemma_clock_order((s1 % 86_400) as int, (s2 % 86_400) as int);
    }
}

/// Timestamps before year 10000 are twenty characters long and keep the
/// order of the instants they name.
pub proof fn lemma_datetime_text_order(s1: nat, s2: nat)
    requires
        s1 < s2 < 253_402_300_800,
    ensures
        utc_datetime_text(s1).len() == 20,
        utc_datetime_text(s2).len() == 20,
        chars_before(utc_datetime_text(s1), utc_datetime_text(s2)),
{
    let f1 = datetime_fields(s1);
    let f2 = datetime_fields(s2);
    lemma_timestamp_digits(s1);
    lemma_timestamp_digits(s2);
    lemma_fields_order(s1, s2);
    let g1 = datetime_digits(f1.0, f1.1, f1.2, f1.3, f1.4, f1.5);
    let g2 = datetime_digits(f2.0, f2.1, f2.2, f2.3, f2.4, f2.5);
    let j = lemma_digits_order(f1, f2);
    lemma_timestamp_digits_order(g1, g2, j);
}

/// Formats seconds since the Unix epoch as an ISO 8601 UTC timestamp.
pub fn datetime_utc(secs: u64) -> (text: String)
    ensures
        text@ == utc_datetime_text(secs as nat),
{
    let days = secs / 86_400;
    let clock = secs % 86_400;
    let (year, month, day) = civil_from_unix_days(days);
    let hour = clock / 3_600;
    let minute = (clock % 3_600) / 60;
    let second = clock % 60;
    let mut text = String::new();
    push_zero_padded(&mut text, year as u64, 4);
    push_char(&mut text, '-');
    push_zero_padded(&mut text, month as u64, 2);
    push_char(&mut text, '-');
    push_zero_padded(&mut text, day as u64, 2);
    push_char(&mut text, 'T');
    push_zero_padded(&mut text, hour, 2);
    push_char(&mut text, ':');
    push_zero_padded(&mut text, minute, 2);
    push_char(&mut text, ':');
    push_zero_padded(&mut text, second, 2);
    push_char(&mut text, 'Z');
    proof {
        lemma_civil_from_march_days(days + 719_468int);
        reveal(utc_datetime_text);
    }
    text
}

/// The record timestamp: the clock's seconds since the Unix epoch, or the
/// epoch itself when the clock reads earlier than that.
pub fn timestamp(secs_since_epoch: Option<u64>) -> (text: String)
    ensures
        text@ == utc_datetime_text(
            match secs_since_epoch {
                Some(s) => s as nat,
                None => 0,
            },
        ),
{
    let secs = match secs_since_epoch {
        Some(s) => s,
        None => 0,
    };
    datetime_utc(secs)
}

} // verus!
