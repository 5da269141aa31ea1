//! Second-resolution timestamps and the timestamped staging-root name.
//!
//! A staging root is named `{backup_base}-{YYYY-MM-DD_HH-MM-SS}`: the
//! timestamp is appended to the final component of the backup base, so each
//! run mirrors its sources under a directory of its own.
use crate::paths::{FsPath, PathModel};
use chrono::Datelike;
use chrono::Timelike;
use vstd::prelude::*;
use vstd::string::*;

verus! {

/// A local calendar time with second resolution.
#[derive(Clone, Copy, PartialEq, Eq, Structural, Debug)]
pub struct Timestamp {
    pub year: i32,
    pub month: u32,
    pub day: u32,
    pub hour: u32,
    pub minute: u32,
    pub second: u32,
}

impl Timestamp {
    /// The fields lie in the ranges that the rendered form
    /// `YYYY-MM-DD_HH-MM-SS` can carry.
    pub open spec fn wf(&self) -> bool {
        &&& 0 <= self.year <= 9999
        &&& 1 <= self.month <= 12
        &&& 1 <= self.day <= 31
        &&& self.hour <= 23
        &&& self.minute <= 59
        &&& self.second <= 59
    }
}

/// The character for one decimal digit.
pub open spec fn digit_char(d: int) -> char {
    if d == 0 {
        '0'
    } else if d == 1 {
        '1'
    } else if d == 2 {
        '2'
    } else if d == 3 {
        '3'
    } else if d == 4 {
        '4'
    } else if d == 5 {
        '5'
    } else if d == 6 {
        '6'
    } else if d == 7 {
        '7'
    } else if d == 8 {
        '8'
    } else {
        '9'
    }
}

/// `n` rendered as exactly two decimal digits, zero-padded.
pub open spec fn two_digits(n: int) -> Seq<char> {
    seq![digit_char(n / 10), digit_char(n % 10)]
}

/// `n` rendered as exactly four decimal digits, zero-padded.
pub open spec fn four_digits(n: int) -> Seq<char> {
    seq![
        digit_char(n / 1000 % 10),
        digit_char(n / 100 % 10),
        digit_char(n / 10 % 10),
        digit_char(n % 10),
    ]
}

/// The rendered form `YYYY-MM-DD_HH-MM-SS` of a timestamp.
pub open spec fn timestamp_seq(t: Timestamp) -> Seq<char> {
    four_digits(t.year as int) + seq!['-'] + two_digits(t.month as int) + seq!['-'] + two_digits(
        t.day as int,
    ) + seq!['_'] + two_digits(t.hour as int) + seq!['-'] + two_digits(t.minute as int) + seq!['-']
        + two_digits(t.second as int)
}

fn digit_str(d: u32) -> (r: &'static str)
    requires
        d < 10,
    ensures
        r@ == seq![digit_char(d as int)],
{
    proof {
        reveal_strlit("0");
        reveal_strlit("1");
        reveal_strlit("2");
        reveal_strlit("3");
        reveal_strlit("4");
        reveal_strlit("5");
        reveal_strlit("6");
        reveal_strlit("7");
        reveal_strlit("8");
        reveal_strlit("9");
        assert("0"@ =~= seq![digit_char(0)]);
        assert("1"@ =~= seq![digit_char(1)]);
        assert("2"@ =~= seq![digit_char(2)]);
        assert("3"@ =~= seq![digit_char(3)]);
        assert("4"@ =~= seq![digit_char(4)]);
        assert("5"@ =~= seq![digit_char(5)]);
        assert("6"@ =~= seq![digit_char(6)]);
        assert("7"@ =~= seq![digit_char(7)]);
        assert("8"@ =~= seq![digit_char(8)]);
        assert("9"@ =~= seq![digit_char(9)]);
    }
    if d == 0 {
        "0"
    } else if d == 1 {
        "1"
    } else if d == 2 {
        "2"
    } else if d == 3 {
        "3"
    } else if d == 4 {
        "4"
    } else if d == 5 {
        "5"
    } else if d == 6 {
        "6"
    } else if d == 7 {
        "7"
    } else if d == 8 {
        "8"
    } else {
        "9"
    }
}

fn push_two_digits(s: &mut String, n: u32)
    requires
        n < 100,
    ensures
        final(s)@ == old(s)@ + two_digits(n as int),
{
    s.append(digit_str(n / 10));
    s.append(digit_str(n % 10));
    proof {
        assert(final(s)@ =~= old(s)@ + two_digits(n as int));
    }
}

fn push_four_digits(s: &mut String, n: u32)
    requires
        n < 10000,
    ensures
        final(s)@ == old(s)@ + four_digits(n as int),
{
    s.append(digit_str(n / 1000));
    s.append(digit_str(n / 100 % 10));
    s.append(digit_str(n / 10 % 10));
    s.append(digit_str(n % 10));
    proof {
        assert(n / 1000 % 10 == n / 1000) by (nonlinear_arith)
            requires
                n < 10000,
        ;
        assert(final(s)@ =~= old(s)@ + four_digits(n as int));
    }
}

/// Renders a timestamp as `YYYY-MM-DD_HH-MM-SS`, zero-padded throughout.
pub fn format_timestamp(t: &Timestamp) -> (r: String)
    requires
        t.wf(),
    ensures
        r@ == timestamp_seq(*t),
{
    let mut s = String::new();
    push_four_digits(&mut s, t.year as u32);
    proof {
        reveal_strlit("-");
        reveal_strlit("_");
    }
    s.append("-");
    push_two_digits(&mut s, t.month);
    s.append("-");
    push_two_digits(&mut s, t.day);
    s.append("_");
    push_two_digits(&mut s, t.hour);
    s.append("-");
    push_two_digits(&mut s, t.minute);
    s.append("-");
    push_two_digits(&mut s, t.second);
    proof {
        assert("-"@ =~= seq!['-']);
        assert("_"@ =~= seq!['_']);
        assert(s@ =~= timestamp_seq(*t));
    }
    s
}

/// The staging-root name for one run: `-{timestamp}` appended to the final
/// component of the backup base.
pub open spec fn bundled_name_spec(base: PathModel, t: Timestamp) -> PathModel {
    crate::paths::append_to_last_spec(base, seq!['-'] + timestamp_seq(t))
}

/// Computes the timestamped staging-root path for one run.
pub fn generate_bundled_name(backup_base: &FsPath, t: &Timestamp) -> (r: FsPath)
    requires
        t.wf(),
    ensures
        r@ == bundled_name_spec(backup_base@, *t),
{
    let ts = format_timestamp(t);
    let mut suffix = String::new();
    proof {
        reveal_strlit("-");
        assert("-"@ =~= seq!['-']);
    }
    suffix.append("-");
    suffix.append(ts.as_str());
    crate::paths::append_to_last(backup_base, suffix.as_str())
}

/// Relies on `chrono::Local::now` and chrono's `Datelike` / `Timelike`
/// accessors for the current local time; chrono documents that `month` is
/// in 1..=12, `day` in 1..=31, `hour` in 0..=23, and `minute` and `second`
/// in 0..=59.  Nothing is promised of the year.
#[verifier::external_body]
pub fn now_timestamp() -> (t: Timestamp)
    ensures
        1 <= t.month <= 12,
        1 <= t.day <= 31,
        t.hour <= 23,
        t.minute <= 59,
        t.second <= 59,
{
    let now = chrono::Local::now();
    Timestamp {
        year: now.year(),
        month: now.month(),
        day: now.day(),
        hour: now.hour(),
        minute: now.minute(),
        second: now.second(),
    }
}

} // verus!
