//! Run identifiers: the local time at which a run starts, to the second,
//! written `YYYYmmdd_HHMMSS`, and the paths that a run derives from it.
use vstd::prelude::*;
use chrono::{Datelike, Timelike};
use crate::text::{padded, push_char, push_padded};

verus! {

/// A local calendar date and wall-clock time.
pub struct LocalTime {
    pub year: i32,
    pub month: u32,
    pub day: u32,
    pub hour: u32,
    pub minute: u32,
    pub second: u32,
}

impl LocalTime {
    pub open spec fn valid(&self) -> bool {
        &&& 1 <= self.month <= 12
        &&& 1 <= self.day <= 31
        &&& self.hour < 24
        &&& self.minute < 60
        &&& self.second < 60
    }
}

/// Relies on `chrono::Local::now` and the `Datelike` / `Timelike` accessors:
/// months run from 1 to 12, days from 1 to 31, hours from 0 to 23, minutes
/// and seconds from 0 to 59 (a leap second shows as second 59).
#[verifier::external_body]
fn local_now() -> (t: LocalTime)
    ensures
        t.valid(),
{
    let now = chrono::Local::now();
    LocalTime {
        year: now.year(),
        month: now.month(),
        day: now.day(),
        hour: now.hour(),
        minute: now.minute(),
        second: now.second(),
    }
}

/// The year as `%Y` writes it: four digits from 0 to 9999, otherwise a sign
/// and at least four digits.
pub open spec fn year_text(y: int) -> Seq<char> {
    if 0 <= y <= 9999 {
        padded(y as nat, 4)
    } else if y > 9999 {
        seq!['+'] + padded(y as nat, 4)
    } else {
        seq!['-'] + padded((-y) as nat, 4)
    }
}

/// `YYYYmmdd_HHMMSS`.
pub open spec fn run_id_text(t: LocalTime) -> Seq<char> {
    year_text(t.year as int) + padded(t.month as nat, 2) + padded(t.day as nat, 2) + seq!['_']
        + padded(t.hour as nat, 2) + padded(t.minute as nat, 2) + padded(t.second as nat, 2)
}

/// Writes the identifier of a run that starts at `t`.
pub fn run_identifier(t: &LocalTime) -> (r: String)
    ensures
        r@ == run_id_text(*t),
{
    let mut r = String::new();
    let y = t.year;
    if 0 <= y && y <= 9999 {
        push_padded(&mut r, y as u128, 4);
    } else if y > 9999 {
        push_char(&mut r, '+');
        push_padded(&mut r, y as u128, 4);
    } else {
        push_char(&mut r, '-');
        let magnitude: i64 = -(y as i64);
        push_padded(&mut r, magnitude as u128, 4);
    }
    push_padded(&mut r, t.month as u128, 2);
    push_padded(&mut r, t.day as u128, 2);
    push_char(&mut r, '_');
    push_padded(&mut r, t.hour as u128, 2);
    push_padded(&mut r, t.minute as u128, 2);
    push_padded(&mut r, t.second as u128, 2);
    assert(r@ =~= run_id_text(*t));
    r
}

/// The identifier of a run that starts now. Two runs that start within the
/// same second get the same identifier.
pub fn current_run_id() -> (r: String)
    ensures
        exists|t: LocalTime| t.valid() && r@ == run_id_text(t),
{
    let t = local_now();
    run_identifier(&t)
}

} // verus!
