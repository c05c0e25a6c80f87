use vstd::prelude::*;

use chrono::Timelike;

use crate::errors::Error;

verus! {

/// A decimal digit character.
pub open spec fn is_digit(c: char) -> bool {
    48 <= c as int <= 57
}

/// The numeric value of a decimal digit character.
pub open spec fn digit_val(c: char) -> int {
    c as int - 48
}

/// A string of the exact shape `HH:MM`, naming a valid 24-hour time.
pub open spec fn valid_hhmm(s: Seq<char>) -> bool {
    &&& s.len() == 5
    &&& is_digit(s[0])
    &&& is_digit(s[1])
    &&& s[2] == ':'
    &&& is_digit(s[3])
    &&& is_digit(s[4])
    &&& hhmm_hour(s) <= 23
    &&& hhmm_minute(s) <= 59
}

/// The hour named by an `HH:MM` string.
pub open spec fn hhmm_hour(s: Seq<char>) -> int {
    digit_val(s[0]) * 10 + digit_val(s[1])
}

/// The minute named by an `HH:MM` string.
pub open spec fn hhmm_minute(s: Seq<char>) -> int {
    digit_val(s[3]) * 10 + digit_val(s[4])
}

/// A point in the 24-hour cycle, ordered by (hour, minute).
#[derive(Debug, Clone, Copy, PartialEq, Eq, Structural)]
pub struct ImageStartTime {
    hour: u8,
    minute: u8,
}

impl ImageStartTime {
    pub closed spec fn spec_hour(&self) -> u8 {
        self.hour
    }

    pub closed spec fn spec_minute(&self) -> u8 {
        self.minute
    }

    /// The hour is a valid hour of the day and the minute a valid minute of the hour.
    pub open spec fn wf(&self) -> bool {
        self.spec_hour() <= 23 && self.spec_minute() <= 59
    }

    /// The minute of the day this time stands for; the total order on times.
    pub open spec fn value(&self) -> int {
        self.spec_hour() * 60 + self.spec_minute()
    }

    /// `Some` exactly when the pair is a valid time of day.
    pub fn from_hm(hour: u8, minute: u8) -> (r: Option<ImageStartTime>)
        ensures
            r is Some <==> (hour <= 23 && minute <= 59),
            r is Some ==> r->0.spec_hour() == hour && r->0.spec_minute() == minute,
    {
        if hour > 23 || minute > 59 {
            return None;
        }

        Some(ImageStartTime { hour, minute })
    }

    /// Reads a 24-hour `HH:MM` string; `Ok` exactly on well-formed input.
    pub fn parse(s: &str) -> (r: Result<ImageStartTime, Error>)
        ensures
            r is Ok <==> valid_hhmm(s@),
            r is Ok ==> r->Ok_0.spec_hour() == hhmm_hour(s@) && r->Ok_0.spec_minute()
                == hhmm_minute(s@),
            r is Err ==> r->Err_0 == Error::ParseError,
    {
        if s.unicode_len() != 5 {
            return Err(Error::ParseError);
        }

        let c0 = s.get_char(0);
        let c1 = s.get_char(1);
        let c2 = s.get_char(2);
        let c3 = s.get_char(3);
        let c4 = s.get_char(4);
        if c2 != ':' || !digit_check(c0) || !digit_check(c1) || !digit_check(c3) || !digit_check(
            c4,
        ) {
            return Err(Error::ParseError);
        }

        let hour: u8 = digit_of(c0) * 10 + digit_of(c1);
        let minute: u8 = digit_of(c3) * 10 + digit_of(c4);
        if hour > 23 || minute > 59 {
            return Err(Error::ParseError);
        }

        Ok(ImageStartTime { hour, minute })
    }

    pub fn hour(&self) -> (r: u8)
        ensures
            r == self.spec_hour(),
    {
        self.hour
    }

    pub fn minute(&self) -> (r: u8)
        ensures
            r == self.spec_minute(),
    {
        self.minute
    }

    /// The minute of the day, for comparing two times.
    pub fn minutes_of_day(&self) -> (r: u16)
        ensures
            r == self.value(),
    {
        (self.hour as u16) * 60 + (self.minute as u16)
    }
}

fn digit_check(c: char) -> (r: bool)
    ensures
        r == is_digit(c),
{
    let v = c as u32;
    48 <= v && v <= 57
}

fn digit_of(c: char) -> (r: u8)
    requires
        is_digit(c),
    ensures
        r == digit_val(c),
{
    (c as u8) - 48
}

/// Relies on chrono's `Local::now` and `Timelike::{hour, minute}`: the hour
/// it reads is in [0, 23] and the minute in [0, 59].
#[verifier::external_body]
pub(crate) fn current_time() -> (r: ImageStartTime)
    ensures
        r.wf(),
{
    let t = chrono::Local::now().time();
    ImageStartTime { hour: t.hour() as u8, minute: t.minute() as u8 }
}

/// A location string starting with the `~/` home prefix.
pub open spec fn has_home_prefix(s: Seq<char>) -> bool {
    s.len() >= 2 && s[0] == '~' && s[1] == '/'
}

/// An opaque handle to image content: a resolved, existing location.
#[derive(Debug, Clone, PartialEq, Eq)]
pub struct ImageLocation(String);

impl ImageLocation {
    pub closed spec fn path(&self) -> Seq<char> {
        self.0@
    }

    /// Wraps a location that a collaborator has already resolved to an
    /// existing filesystem entry.
    pub fn new(resolved: String) -> (r: ImageLocation)
        ensures
            r.path() == resolved@,
    {
        ImageLocation(resolved)
    }

    /// Expands a `~/`-prefixed location against the home directory, handed in
    /// as a plain value; other locations pass through unchanged.
    pub fn expand(path: &str, home: Option<&String>) -> (r: Result<String, Error>)
        ensures
            has_home_prefix(path@) ==> match home {
                Some(h) => r is Ok && r->Ok_0@ == h@ + "/"@ + path@.skip(2),
                None => r == Err::<String, Error>(Error::NoHomeVar),
            },
            !has_home_prefix(path@) ==> r is Ok && r->Ok_0@ == path@,
    {
        let len = path.unicode_len();
        if len >= 2 && path.get_char(0) == '~' && path.get_char(1) == '/' {
            match home {
                Some(h) => {
                    let rest = path.substring_char(2, len);
                    Ok(h.clone().concat("/").concat(rest))
                },
                None => Err(Error::NoHomeVar),
            }
        } else {
            Ok(path.to_owned())
        }
    }

    pub fn as_str(&self) -> (r: &str)
        ensures
            r@ == self.path(),
    {
        self.0.as_str()
    }
}

/// A schedule entry: when a given background becomes active, and where its
/// content lives.
#[derive(Debug, Clone, PartialEq, Eq)]
pub struct Image {
    start: ImageStartTime,
    location: ImageLocation,
}

impl Image {
    pub closed spec fn spec_start(&self) -> ImageStartTime {
        self.start
    }

    pub closed spec fn spec_location(&self) -> ImageLocation {
        self.location
    }

    pub fn new(start: ImageStartTime, location: ImageLocation) -> (r: Self)
        ensures
            r.spec_start() == start,
            r.spec_location() == location,
    {
        Self { start, location }
    }

    pub fn start(&self) -> (r: ImageStartTime)
        ensures
            r == self.spec_start(),
    {
        self.start
    }

    pub fn location(&self) -> (r: &ImageLocation)
        ensures
            *r == self.spec_location(),
    {
        &self.location
    }
}

} // verus!
