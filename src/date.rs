//! Dates written as `YYYYMMDD`, the names of the daily reports.

use vstd::prelude::*;
use vstd::string::StringExecFns;

verus! {

/// The decimal digit for `k`, for `k` below ten.
pub open spec fn digit(k: int) -> char {
    "0123456789"@[k]
}

/// A date that has an eight-digit stamp: a year of at most four digits, a
/// month from 1 to 12 and a day from 1 to 31.
pub open spec fn is_stampable(year: i32, month: u32, day: u32) -> bool {
    0 <= year <= 9999 && 1 <= month <= 12 && 1 <= day <= 31
}

/// `YYYYMMDD`: the year in four digits, the month and the day in two,
/// each padded with zeros on the left.
pub open spec fn date_stamp(year: int, month: int, day: int) -> Seq<char> {
    seq![
        digit(year / 1000),
        digit(year / 100 % 10),
        digit(year / 10 % 10),
        digit(year % 10),
        digit(month / 10),
        digit(month % 10),
        digit(day / 10),
        digit(day % 10),
    ]
}

fn push_digit(s: &mut String, k: u32)
    requires
        k < 10,
    ensures
        final(s)@ == old(s)@.push(digit(k as int)),
{
    proof {
        reveal_strlit("0123456789");
    }
    let d = "0123456789".substring_char(k as usize, k as usize + 1);
    s.append(d);
    assert(d@ =~= seq![digit(k as int)]);
}

/// The stamp `YYYYMMDD` of a date, where it has one.
pub fn stamp_of(year: i32, month: u32, day: u32) -> (r: Option<String>)
    ensures
        r is Some <==> is_stampable(year, month, day),
        r matches Some(s) ==> s@ == date_stamp(year as int, month as int, day as int),
{
    if year < 0 || year > 9999 || month < 1 || month > 12 || day < 1 || day > 31 {
        return None;
    }
    let y = year as u32;
    let mut s = String::new();
    push_digit(&mut s, y / 1000);
    push_digit(&mut s, y / 100 % 10);
    push_digit(&mut s, y / 10 % 10);
    push_digit(&mut s, y % 10);
    push_digit(&mut s, month / 10);
    push_digit(&mut s, month % 10);
    push_digit(&mut s, day / 10);
    push_digit(&mut s, day % 10);
    assert(s@ =~= date_stamp(year as int, month as int, day as int));
    Some(s)
}

} // verus!
