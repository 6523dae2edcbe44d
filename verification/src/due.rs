//! Which local day a due date falls on, relative to today.
use crate::time::{day_text, format_day, local_day, may_be_local_day, valid_day, Timestamp, MAX_DAY};
use vstd::prelude::*;
use vstd::string::StringExecFns;

verus! {

/// Where a due date lies relative to today, in local days.
#[derive(Debug, Clone, Copy, PartialEq, Eq, Structural, Hash)]
pub enum DueBucket {
    Yesterday,
    Today,
    Tomorrow,
    Other,
}

/// The bucket of a task due on local day `due` when today is local day
/// `today`.
pub open spec fn bucket_of_days(due: int, today: int) -> DueBucket {
    if due == today {
        DueBucket::Today
    } else if due == today + 1 {
        DueBucket::Tomorrow
    } else if due == today - 1 {
        DueBucket::Yesterday
    } else {
        DueBucket::Other
    }
}

/// The bucket for two local day numbers. The day after today and the day
/// before it are taken in chrono's calendar, which has no day past its
/// last nor before its first.
pub fn bucket_for_days(due_day: i32, today_day: i32) -> (r: DueBucket)
    requires
        valid_day(due_day as int),
        valid_day(today_day as int),
    ensures
        r == bucket_of_days(due_day as int, today_day as int),
{
    if due_day == today_day {
        DueBucket::Today
    } else if today_day < MAX_DAY && due_day == today_day + 1 {
        DueBucket::Tomorrow
    } else if today_day > crate::time::MIN_DAY && due_day == today_day - 1 {
        DueBucket::Yesterday
    } else {
        DueBucket::Other
    }
}

/// The bucket of the due instant `due`, seen at instant `now`, both taken
/// as local days in the machine's time zone. Which days those are depends
/// on the time zone (each is less than a day off the UTC one); whatever
/// they are, the bucket is theirs.
pub fn due_bucket(due: Timestamp, now: Timestamp) -> (r: DueBucket)
    requires
        due.in_local_range(),
        now.in_local_range(),
    ensures
        exists|d: int, t: int|
            {
                &&& valid_day(d) && valid_day(t)
                &&& may_be_local_day(due, d) && may_be_local_day(now, t)
                &&& r == #[trigger] bucket_of_days(d, t)
            },
{
    let due_day = local_day(&due);
    let today = local_day(&now);
    let r = bucket_for_days(due_day, today);
    assert(may_be_local_day(due, due_day as int) && may_be_local_day(now, today as int) && r
        == bucket_of_days(due_day as int, today as int));
    r
}

/// The label shown for a task due on local day `due` when today is `today`:
/// "Today", "Tomorrow", "Yesterday", or the date itself.
pub open spec fn due_text(due: int, today: int) -> Seq<char> {
    match bucket_of_days(due, today) {
        DueBucket::Today => "Today"@,
        DueBucket::Tomorrow => "Tomorrow"@,
        DueBucket::Yesterday => "Yesterday"@,
        DueBucket::Other => day_text(due),
    }
}

/// The label for a due date on local day `due_day`, today being `today_day`.
pub fn due_label_for_days(due_day: i32, today_day: i32) -> (r: String)
    requires
        valid_day(due_day as int),
        valid_day(today_day as int),
    ensures
        r@ == due_text(due_day as int, today_day as int),
{
    match bucket_for_days(due_day, today_day) {
        DueBucket::Today => String::from_str("Today"),
        DueBucket::Tomorrow => String::from_str("Tomorrow"),
        DueBucket::Yesterday => String::from_str("Yesterday"),
        DueBucket::Other => format_day(due_day),
    }
}

/// The label of an optional due date seen at `now`: none without a due
/// date, else the label of its local day relative to today.
pub fn format_due_display(due: Option<Timestamp>, now: Timestamp) -> (r: Option<String>)
    requires
        due matches Some(d) ==> d.in_local_range() && now.in_local_range(),
    ensures
        r is None <==> due is None,
        r matches Some(s) ==> exists|d: int, t: int|
            {
                &&& valid_day(d) && valid_day(t)
                &&& may_be_local_day(due.unwrap(), d) && may_be_local_day(now, t)
                &&& s@ == #[trigger] due_text(d, t)
            },
{
    match due {
        None => None,
        Some(dt) => {
            let due_day = local_day(&dt);
            let today = local_day(&now);
            let s = due_label_for_days(due_day, today);
            assert(may_be_local_day(dt, due_day as int) && may_be_local_day(now, today as int)
                && s@ == due_text(due_day as int, today as int));
            Some(s)
        },
    }
}

/// A due date on today's local day is "Today", on the next day "Tomorrow",
/// on the day before "Yesterday", and any other day shows its date.
pub proof fn lemma_due_buckets(today: int, due: int)
    ensures
        bucket_of_days(today, today) == DueBucket::Today,
        bucket_of_days(today + 1, today) == DueBucket::Tomorrow,
        bucket_of_days(today - 1, today) == DueBucket::Yesterday,
        (due < today - 1 || due > today + 1) ==> bucket_of_days(due, today) == DueBucket::Other
            && due_text(due, today) == day_text(due),
{
}

} // verus!
