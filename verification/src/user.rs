//! The user record and the plain-value types its fields are made of.
//!
//! Identifiers, dates and timestamps are held as plain integers so that every
//! rule about them can be stated and checked here; turning them into the
//! richer types of the outside world (UUID strings, calendar types) is the
//! caller's concern.

use vstd::prelude::*;

verus! {

/// The identifier that uniquely names a user record: the 128 bits of a UUID.
#[derive(Clone, Copy, PartialEq, Eq, Structural, Debug)]
pub struct UserId {
    pub value: u128,
}

/// A point in time, in microseconds since the Unix epoch, UTC.
#[derive(Clone, Copy, PartialEq, Eq, Structural, Debug)]
pub struct Timestamp {
    pub micros: i64,
}

/// The opaque custom payload carried by every record.
#[derive(Clone, Copy, PartialEq, Eq, Structural, Debug)]
pub struct CustomData {
    pub random: u32,
}

/// A calendar date with no time component.
#[derive(Clone, Copy, PartialEq, Eq, Structural, Debug)]
pub struct BirthDate {
    pub year: i32,
    pub month: u8,
    pub day: u8,
}

/// Whether `y` is a leap year of the proleptic Gregorian calendar.
pub open spec fn is_leap_year(y: int) -> bool {
    y % 4 == 0 && (y % 100 != 0 || y % 400 == 0)
}

/// How many days month `m` of year `y` has.
pub open spec fn days_in_month(y: int, m: int) -> int {
    if m == 2 {
        if is_leap_year(y) {
            29
        } else {
            28
        }
    } else if m == 4 || m == 6 || m == 9 || m == 11 {
        30
    } else {
        31
    }
}

/// A well-formed calendar date: a year from 1 to 9999, a real month, and a
/// day that exists in that month of that year.
pub open spec fn valid_date(y: int, m: int, d: int) -> bool {
    &&& 1 <= y <= 9999
    &&& 1 <= m <= 12
    &&& 1 <= d <= days_in_month(y, m)
}

impl BirthDate {
    /// A date is well formed when its fields name a day that exists.
    pub open spec fn wf(self) -> bool {
        valid_date(self.year as int, self.month as int, self.day as int)
    }

    /// Builds a date, rejecting any combination of fields that names no real
    /// calendar day.
    pub fn new(year: i32, month: u8, day: u8) -> (r: Option<BirthDate>)
        ensures
            r is Some <==> valid_date(year as int, month as int, day as int),
            r matches Some(b) ==> b == (BirthDate { year, month, day }) && b.wf(),
    {
        if year < 1 || year > 9999 || month < 1 || month > 12 || day < 1 {
            return None;
        }
        let leap: bool = year % 4 == 0 && (year % 100 != 0 || year % 400 == 0);
        let limit: u8 = if month == 2 {
            if leap {
                29
            } else {
                28
            }
        } else if month == 4 || month == 6 || month == 9 || month == 11 {
            30
        } else {
            31
        };
        if day > limit {
            None
        } else {
            Some(BirthDate { year, month, day })
        }
    }
}

/// A user record as the repository stores and returns it.
#[derive(Debug)]
pub struct User {
    pub id: UserId,
    pub name: String,
    pub birth_date: BirthDate,
    pub custom_data: CustomData,
    pub created_at: Option<Timestamp>,
    pub updated_at: Option<Timestamp>,
}

/// The mathematical value of a user record: the same fields, with the name
/// as a sequence of characters.
pub struct UserView {
    pub id: UserId,
    pub name: Seq<char>,
    pub birth_date: BirthDate,
    pub custom_data: CustomData,
    pub created_at: Option<Timestamp>,
    pub updated_at: Option<Timestamp>,
}

impl View for User {
    type V = UserView;

    open spec fn view(&self) -> UserView {
        UserView {
            id: self.id,
            name: self.name@,
            birth_date: self.birth_date,
            custom_data: self.custom_data,
            created_at: self.created_at,
            updated_at: self.updated_at,
        }
    }
}

impl User {
    /// An independent copy of the record, equal to it in every field.
    pub fn duplicate(&self) -> (r: User)
        ensures
            r == *self,
    {
        User {
            id: self.id,
            name: self.name.clone(),
            birth_date: self.birth_date,
            custom_data: self.custom_data,
            created_at: self.created_at,
            updated_at: self.updated_at,
        }
    }
}

} // verus!
