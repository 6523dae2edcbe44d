//! Task priority: five levels, stored as the numbers 0 to 4.
use vstd::prelude::*;
use vstd::std_specs::convert::FromSpecImpl;
use vstd::std_specs::convert::TryFromSpecImpl;

verus! {

/// How urgent a task is. `Unset` (no priority) is the default; the levels are ordered
/// `Unset < Low < Medium < High < Urgent`.
#[derive(Debug, Clone, Copy, PartialEq, Eq, Structural, PartialOrd, Ord, Hash, Default)]
pub enum Priority {
    #[default]
    Unset,
    Low,
    Medium,
    High,
    Urgent,
}

impl Priority {
    /// The number that stands for the level: 0 for `Unset` up to 4 for `Urgent`.
    pub open spec fn level(self) -> int {
        match self {
            Priority::Unset => 0,
            Priority::Low => 1,
            Priority::Medium => 2,
            Priority::High => 3,
            Priority::Urgent => 4,
        }
    }

    /// The level whose number is `n`, if there is one.
    pub open spec fn from_level(n: int) -> Option<Priority> {
        if n == 0 {
            Some(Priority::Unset)
        } else if n == 1 {
            Some(Priority::Low)
        } else if n == 2 {
            Some(Priority::Medium)
        } else if n == 3 {
            Some(Priority::High)
        } else if n == 4 {
            Some(Priority::Urgent)
        } else {
            None
        }
    }

    /// The level's number.
    pub fn as_i8(self) -> (r: i8)
        ensures
            r as int == self.level(),
    {
        match self {
            Priority::Unset => 0,
            Priority::Low => 1,
            Priority::Medium => 2,
            Priority::High => 3,
            Priority::Urgent => 4,
        }
    }

    /// The level stored as `raw` in the database. Any number other than
    /// 1 to 4 reads as `Unset`, so a stored value never fails to read.
    pub fn from_sql_value(raw: i64) -> (r: Priority)
        ensures
            r == (match Priority::from_level(raw as int) {
                Some(p) => p,
                None => Priority::Unset,
            }),
    {
        if raw == 1 {
            Priority::Low
        } else if raw == 2 {
            Priority::Medium
        } else if raw == 3 {
            Priority::High
        } else if raw == 4 {
            Priority::Urgent
        } else {
            Priority::Unset
        }
    }

    /// The value written to the database for this level.
    pub fn to_sql_value(self) -> (r: i64)
        ensures
            r as int == self.level(),
    {
        self.as_i8() as i64
    }

    /// The level numbered `value`, or `Err(value)` where no level has that
    /// number.
    pub fn from_i8(value: i8) -> (r: Result<Priority, i8>)
        ensures
            r == (match Priority::from_level(value as int) {
                Some(p) => Ok::<Priority, i8>(p),
                None => Err(value),
            }),
    {
        if value == 0 {
            Ok(Priority::Unset)
        } else if value == 1 {
            Ok(Priority::Low)
        } else if value == 2 {
            Ok(Priority::Medium)
        } else if value == 3 {
            Ok(Priority::High)
        } else if value == 4 {
            Ok(Priority::Urgent)
        } else {
            Err(value)
        }
    }

    /// Whether `self` is a lower level than `other`, by their numbers.
    pub fn is_below(self, other: Priority) -> (r: bool)
        ensures
            r == (self.level() < other.level()),
    {
        self.as_i8() < other.as_i8()
    }
}

impl From<Priority> for i8 {
    fn from(p: Priority) -> (r: i8) {
        p.as_i8()
    }
}

impl FromSpecImpl<Priority> for i8 {
    open spec fn obeys_from_spec() -> bool {
        true
    }

    open spec fn from_spec(v: Priority) -> i8 {
        v.level() as i8
    }
}

impl TryFrom<i8> for Priority {
    type Error = i8;

    fn try_from(value: i8) -> (r: Result<Priority, i8>) {
        Priority::from_i8(value)
    }
}

impl TryFromSpecImpl<i8> for Priority {
    open spec fn obeys_try_from_spec() -> bool {
        true
    }

    open spec fn try_from_spec(v: i8) -> Result<Priority, i8> {
        match Priority::from_level(v as int) {
            Some(p) => Ok(p),
            None => Err(v),
        }
    }
}

/// Reading back the number of a level gives the level again, through every
/// conversion: `from_i8`, `TryFrom` and the database reading.
pub proof fn lemma_level_round_trip(p: Priority)
    ensures
        Priority::from_level(p.level()) == Some(p),
        0 <= p.level() <= 4,
{
}

/// Distinct levels have distinct numbers.
pub proof fn lemma_level_injective(p: Priority, q: Priority)
    ensures
        p.level() == q.level() <==> p == q,
{
}

} // verus!
