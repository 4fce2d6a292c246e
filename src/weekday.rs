//! Days of the week.
use vstd::prelude::*;

verus! {

/// A day of the week.
#[derive(Debug, Clone, Copy, PartialEq, Eq, Hash, Structural)]
pub enum Weekday {
    Monday,
    Tuesday,
    Wednesday,
    Thursday,
    Friday,
    Saturday,
    Sunday,
}

/// The weekday `i` days after Monday (0 to 6).
pub open spec fn weekday_of_index(i: int) -> Weekday
    recommends
        0 <= i < 7,
{
    if i == 0 {
        Weekday::Monday
    } else if i == 1 {
        Weekday::Tuesday
    } else if i == 2 {
        Weekday::Wednesday
    } else if i == 3 {
        Weekday::Thursday
    } else if i == 4 {
        Weekday::Friday
    } else if i == 5 {
        Weekday::Saturday
    } else {
        Weekday::Sunday
    }
}

impl Weekday {
    /// Days after Monday: Monday is 0, Sunday 6.
    pub open spec fn index(self) -> int {
        match self {
            Weekday::Monday => 0,
            Weekday::Tuesday => 1,
            Weekday::Wednesday => 2,
            Weekday::Thursday => 3,
            Weekday::Friday => 4,
            Weekday::Saturday => 5,
            Weekday::Sunday => 6,
        }
    }

    pub proof fn lemma_index(self)
        ensures
            0 <= self.index() < 7,
            weekday_of_index(self.index()) == self,
    {
    }

    pub proof fn lemma_of_index(i: int)
        requires
            0 <= i < 7,
        ensures
            weekday_of_index(i).index() == i,
    {
    }

    /// The weekday `i` days after Monday.
    pub fn from_days_from_monday(i: u8) -> (r: Weekday)
        requires
            i < 7,
        ensures
            r == weekday_of_index(i as int),
    {
        match i {
            0 => Weekday::Monday,
            1 => Weekday::Tuesday,
            2 => Weekday::Wednesday,
            3 => Weekday::Thursday,
            4 => Weekday::Friday,
            5 => Weekday::Saturday,
            _ => Weekday::Sunday,
        }
    }

    /// Monday is 0, Sunday 6.
    pub fn number_days_from_monday(self) -> (r: u8)
        ensures
            r as int == self.index(),
    {
        match self {
            Weekday::Monday => 0,
            Weekday::Tuesday => 1,
            Weekday::Wednesday => 2,
            Weekday::Thursday => 3,
            Weekday::Friday => 4,
            Weekday::Saturday => 5,
            Weekday::Sunday => 6,
        }
    }

    /// Monday is 1, Sunday 7.
    pub fn number_from_monday(self) -> (r: u8)
        ensures
            r as int == self.index() + 1,
    {
        self.number_days_from_monday() + 1
    }

    /// Sunday is 0, Saturday 6.
    pub fn number_days_from_sunday(self) -> (r: u8)
        ensures
            r as int == (self.index() + 1) % 7,
    {
        match self {
            Weekday::Sunday => 0,
            _ => self.number_days_from_monday() + 1,
        }
    }

    /// Sunday is 1, Saturday 7.
    pub fn number_from_sunday(self) -> (r: u8)
        ensures
            r as int == (self.index() + 1) % 7 + 1,
    {
        self.number_days_from_sunday() + 1
    }
}

} // verus!
