//! Timestamps and the compact display date used as a fallback article
//! title.  The civil calendar conversion comes from the `time` crate behind
//! one trusted item; the formatting itself is verified.

use vstd::prelude::*;

use crate::text::{append_u64, dec_rep, push_char};

verus! {

/// Seconds and nanoseconds since the Unix epoch.
#[derive(Clone, Copy, Debug, PartialEq, Eq, Structural)]
pub struct Timestamp {
    pub seconds: i64,
    pub nanos: u32,
}

/// The range of seconds accepted by the calendar conversion: years 1
/// through 9999.
pub open spec fn ts_in_range(seconds: int) -> bool {
    -62135596800 <= seconds <= 253402300799
}

impl Timestamp {
    pub open spec fn wf(self) -> bool {
        self.nanos < 1000000000 && ts_in_range(self.seconds as int)
    }

    pub fn new(seconds: i64, nanos: u32) -> (r: Timestamp)
        requires
            nanos < 1000000000,
            ts_in_range(seconds as int),
        ensures
            r.wf(),
            r.seconds == seconds,
            r.nanos == nanos,
    {
        Timestamp { seconds, nanos }
    }
}

/// The (weekday, day of month, month) of a Unix timestamp in UTC, where
/// weekday counts days from Monday.
pub uninterp spec fn civil_date_of(seconds: int) -> (nat, nat, nat);

/// Relies on `time::OffsetDateTime::from_unix_timestamp` and its
/// `weekday`, `day` and `month` accessors: the civil date of a Unix
/// timestamp in UTC, a function of the timestamp alone.
#[verifier::external_body]
fn civil_date(seconds: i64) -> (r: (u8, u8, u8))
    requires
        ts_in_range(seconds as int),
    ensures
        (r.0 as nat, r.1 as nat, r.2 as nat) == civil_date_of(seconds as int),
        r.0 < 7,
        1 <= r.1 <= 31,
        1 <= r.2 <= 12,
{
    let dt = time::OffsetDateTime::from_unix_timestamp(seconds).expect("timestamp in range");
    (dt.weekday().number_days_from_monday(), dt.day(), u8::from(dt.month()))
}

/// Three-letter weekday name, Monday first.
pub open spec fn weekday_abbrev(w: nat) -> Seq<char> {
    if w == 0 {
        "Mon"@
    } else if w == 1 {
        "Tue"@
    } else if w == 2 {
        "Wed"@
    } else if w == 3 {
        "Thu"@
    } else if w == 4 {
        "Fri"@
    } else if w == 5 {
        "Sat"@
    } else {
        "Sun"@
    }
}

/// Three-letter month name, January as 1.
pub open spec fn month_abbrev(m: nat) -> Seq<char> {
    if m == 1 {
        "Jan"@
    } else if m == 2 {
        "Feb"@
    } else if m == 3 {
        "Mar"@
    } else if m == 4 {
        "Apr"@
    } else if m == 5 {
        "May"@
    } else if m == 6 {
        "Jun"@
    } else if m == 7 {
        "Jul"@
    } else if m == 8 {
        "Aug"@
    } else if m == 9 {
        "Sep"@
    } else if m == 10 {
        "Oct"@
    } else if m == 11 {
        "Nov"@
    } else {
        "Dec"@
    }
}

fn weekday_name(w: u8) -> (r: &'static str)
    ensures
        r@ == weekday_abbrev(w as nat),
{
    match w {
        0 => "Mon",
        1 => "Tue",
        2 => "Wed",
        3 => "Thu",
        4 => "Fri",
        5 => "Sat",
        _ => "Sun",
    }
}

fn month_name(m: u8) -> (r: &'static str)
    ensures
        r@ == month_abbrev(m as nat),
{
    match m {
        1 => "Jan",
        2 => "Feb",
        3 => "Mar",
        4 => "Apr",
        5 => "May",
        6 => "Jun",
        7 => "Jul",
        8 => "Aug",
        9 => "Sep",
        10 => "Oct",
        11 => "Nov",
        _ => "Dec",
    }
}

/// The fallback article title: weekday, unpadded day, month, as in
/// `Mon 5 Nov`.
pub open spec fn display_date_of(seconds: int) -> Seq<char> {
    let (w, d, m) = civil_date_of(seconds);
    weekday_abbrev(w) + seq![' '] + dec_rep(d) + seq![' '] + month_abbrev(m)
}

/// Formats a timestamp as its display date.
pub fn format_display_date(ts: &Timestamp) -> (r: String)
    requires
        ts.wf(),
    ensures
        r@ == display_date_of(ts.seconds as int),
{
    let (w, d, m) = civil_date(ts.seconds);
    let mut out = String::new();
    out.append(weekday_name(w));
    push_char(&mut out, ' ');
    append_u64(&mut out, d as u64);
    push_char(&mut out, ' ');
    out.append(month_name(m));
    proof {
        assert(out@ =~= display_date_of(ts.seconds as int));
    }
    out
}

} // verus!
