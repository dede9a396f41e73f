use vstd::prelude::*;
use vstd::string::*;

verus! {

/// Leap years of the proleptic Gregorian calendar.
pub open spec fn is_leap_year(y: int) -> bool {
    (y % 4 == 0 && y % 100 != 0) || y % 400 == 0
}

/// Number of days of month `m` (1 to 12) in year `y`.
pub open spec fn days_in_month(y: int, m: int) -> int {
    if m == 2 {
        if is_leap_year(y) { 29 } else { 28 }
    } else if m == 4 || m == 6 || m == 9 || m == 11 {
        30
    } else {
        31
    }
}

/// The years a `chrono::NaiveDate` can hold.
pub open spec fn is_supported_year(y: int) -> bool {
    -262143 <= y <= 262142
}

/// `(y, m, d)` names a day of the proleptic Gregorian calendar that
/// `chrono::NaiveDate` can hold.
pub open spec fn is_valid_date(y: int, m: int, d: int) -> bool {
    &&& is_supported_year(y)
    &&& 1 <= m <= 12
    &&& 1 <= d <= days_in_month(y, m)
}

/// `chrono::NaiveDate::from_ymd_opt(year, month, day).is_some()`. chrono
/// documents `None` for a day that does not exist, an invalid month or day,
/// and a year out of range; its source fixes that range at
/// `MIN_YEAR = -262143` to `MAX_YEAR = 262142`, with leap years of the
/// proleptic Gregorian calendar.
#[verifier::external_body]
fn chrono_date_exists(year: i32, month: u32, day: u32) -> (r: bool)
    ensures
        r == is_valid_date(year as int, month as int, day as int),
{
    chrono::NaiveDate::from_ymd_opt(year, month, day).is_some()
}

/// A calendar day, the date of a post.
#[derive(Clone, Copy, Debug)]
pub struct PostDate {
    year: i32,
    month: u32,
    day: u32,
}

impl PostDate {
    #[verifier::type_invariant]
    spec fn well_formed(self) -> bool {
        is_valid_date(self.year as int, self.month as int, self.day as int)
    }

    pub closed spec fn spec_year(&self) -> int {
        self.year as int
    }

    pub closed spec fn spec_month(&self) -> int {
        self.month as int
    }

    pub closed spec fn spec_day(&self) -> int {
        self.day as int
    }

    /// The date `(year, month, day)`, when that day exists.
    pub fn from_ymd_opt(year: i32, month: u32, day: u32) -> (r: Option<PostDate>)
        ensures
            r is Some <==> is_valid_date(year as int, month as int, day as int),
            r matches Some(d) ==> d.spec_year() == year && d.spec_month() == month && d.spec_day()
                == day,
    {
        if chrono_date_exists(year, month, day) {
            Some(PostDate { year, month, day })
        } else {
            None
        }
    }

    pub fn year(&self) -> (r: i32)
        ensures
            r == self.spec_year(),
            is_supported_year(r as int),
    {
        proof {
            use_type_invariant(self);
        }
        self.year
    }

    pub fn month(&self) -> (r: u32)
        ensures
            r == self.spec_month(),
            1 <= r <= 12,
    {
        proof {
            use_type_invariant(self);
        }
        self.month
    }

    pub fn day(&self) -> (r: u32)
        ensures
            r == self.spec_day(),
            1 <= r <= days_in_month(self.spec_year(), self.spec_month()),
    {
        proof {
            use_type_invariant(self);
        }
        self.day
    }
}

/// Calendar order: `a` is a strictly earlier day than `b`.
pub open spec fn date_before(a: PostDate, b: PostDate) -> bool {
    a.spec_year() < b.spec_year() || (a.spec_year() == b.spec_year() && (a.spec_month()
        < b.spec_month() || (a.spec_month() == b.spec_month() && a.spec_day() < b.spec_day())))
}

/// `a` and `b` are the same day.
pub open spec fn same_day(a: PostDate, b: PostDate) -> bool {
    a.spec_year() == b.spec_year() && a.spec_month() == b.spec_month() && a.spec_day()
        == b.spec_day()
}

impl PostDate {
    /// Whether `self` is a strictly earlier day than `other`.
    pub fn is_before(&self, other: &PostDate) -> (r: bool)
        ensures
            r == date_before(*self, *other),
    {
        self.year < other.year || (self.year == other.year && (self.month < other.month || (
        self.month == other.month && self.day < other.day)))
    }
}

} // verus!
