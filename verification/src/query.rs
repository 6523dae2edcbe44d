//! Which stored tasks each listing returns, and in which order.
//!
//! The store hands over its rows; these functions select and order them
//! as the listings promise: newest first for the whole list; open before
//! done, then by due date (tasks without one first) and newest first among
//! equals for due-date listings; most recently completed first (never
//! completed last) and newest first among equals for the done list.
use crate::filter::TaskFilter;
use crate::task::Task;
use crate::time::Timestamp;
use vstd::prelude::*;
use vstd::seq_lib::*;

verus! {

broadcast use {vstd::seq_lib::group_seq_properties, vstd::seq_lib::to_multiset_build, vstd::seq_lib::to_multiset_insert};

/// An order of a listing.
#[derive(Debug, Clone, Copy, PartialEq, Eq, Structural)]
pub enum TaskOrder {
    /// Highest id first.
    NewestFirst,
    /// Open before done, then by due date (none first), then highest id first.
    ByDue,
    /// Latest completion first (none last), then highest id first.
    ByCompletion,
}

/// The sort key of a task: listings order tasks by these five numbers,
/// compared left to right.
pub type SortKey = (int, int, int, int, int);

/// The sort key of `t` in the order `order`.
pub open spec fn sort_key(order: TaskOrder, t: Task) -> SortKey {
    match order {
        TaskOrder::NewestFirst => (-t.id, 0, 0, 0, 0),
        TaskOrder::ByDue => (
            if t.is_done {
                1
            } else {
                0
            },
            if t.due_date is Some {
                1
            } else {
                0
            },
            match t.due_date {
                Some(d) => d.secs as int,
                None => 0,
            },
            match t.due_date {
                Some(d) => d.nanos as int,
                None => 0,
            },
            -t.id,
        ),
        TaskOrder::ByCompletion => (
            if t.completed_at is Some {
                0
            } else {
                1
            },
            match t.completed_at {
                Some(c) => -c.secs,
                None => 0,
            },
            match t.completed_at {
                Some(c) => -c.nanos,
                None => 0,
            },
            -t.id,
            0,
        ),
    }
}

/// Left-to-right comparison of sort keys: `a` may come before `b`.
pub open spec fn key_le(a: SortKey, b: SortKey) -> bool {
    ||| a.0 < b.0
    ||| a.0 == b.0 && a.1 < b.1
    ||| a.0 == b.0 && a.1 == b.1 && a.2 < b.2
    ||| a.0 == b.0 && a.1 == b.1 && a.2 == b.2 && a.3 < b.3
    ||| a.0 == b.0 && a.1 == b.1 && a.2 == b.2 && a.3 == b.3 && a.4 <= b.4
}

/// In the order `order`, task `a` may come before task `b`.
pub open spec fn precedes(order: TaskOrder, a: Task, b: Task) -> bool {
    key_le(sort_key(order, a), sort_key(order, b))
}

/// The tasks `s` are in the order `order`.
pub open spec fn sorted_by(order: TaskOrder, s: Seq<Task>) -> bool {
    forall|i: int, j: int| 0 <= i < j < s.len() ==> precedes(order, #[trigger] s[i], #[trigger] s[j])
}

/// The comparison of sort keys is a total preorder.
pub proof fn lemma_key_le_total_preorder(a: SortKey, b: SortKey, c: SortKey)
    ensures
        key_le(a, a),
        key_le(a, b) || key_le(b, a),
        key_le(a, b) && key_le(b, c) ==> key_le(a, c),
        key_le(a, b) && key_le(b, a) ==> a == b,
{
}

/// Two tasks with different ids never tie: in every order one of them
/// strictly comes first.
pub proof fn lemma_distinct_ids_strict(order: TaskOrder, a: Task, b: Task)
    requires
        a.id != b.id,
    ensures
        precedes(order, a, b) != precedes(order, b, a),
{
    lemma_key_le_total_preorder(sort_key(order, a), sort_key(order, b), sort_key(order, b));
}

/// Whole-list newest first: in a list in the order `NewestFirst`, a task
/// never has a smaller id than one after it.
pub proof fn lemma_newest_first_order(r: Seq<Task>)
    requires
        sorted_by(TaskOrder::NewestFirst, r),
    ensures
        forall|i: int, j: int| 0 <= i < j < r.len() ==> #[trigger] r[i].id >= #[trigger] r[j].id,
{
    assert forall|i: int, j: int| 0 <= i < j < r.len() implies #[trigger] r[i].id >= #[trigger] r[j].id by {
        assert(precedes(TaskOrder::NewestFirst, r[i], r[j]));
    }
}

/// Due-date order: in a list in the order `ByDue`, open tasks come before
/// done ones; among tasks alike in that, tasks without a due date come
/// first and due dates never go back in time; equal due dates put the
/// higher id first.
pub proof fn lemma_due_order(r: Seq<Task>)
    requires
        sorted_by(TaskOrder::ByDue, r),
    ensures
        forall|i: int, j: int| 0 <= i < j < r.len() ==> {
            &&& (#[trigger] r[i]).is_done ==> (#[trigger] r[j]).is_done
            &&& r[i].is_done == r[j].is_done && r[i].due_date is Some ==> (r[j].due_date matches Some(
                y,
            ) && !y.spec_before(r[i].due_date.unwrap()))
            &&& r[i].is_done == r[j].is_done && r[i].due_date == r[j].due_date ==> r[i].id >= r[j].id
        },
{
    assert forall|i: int, j: int| 0 <= i < j < r.len() implies {
        &&& (#[trigger] r[i]).is_done ==> (#[trigger] r[j]).is_done
        &&& r[i].is_done == r[j].is_done && r[i].due_date is Some ==> (r[j].due_date matches Some(
            y,
        ) && !y.spec_before(r[i].due_date.unwrap()))
        &&& r[i].is_done == r[j].is_done && r[i].due_date == r[j].due_date ==> r[i].id >= r[j].id
    } by {
        assert(precedes(TaskOrder::ByDue, r[i], r[j]));
    }
}

/// Completion order: in a list in the order `ByCompletion`, a task
/// completed at some instant comes after no task completed later and
/// after no task never completed; equal completions put the higher id
/// first.
pub proof fn lemma_completion_order(r: Seq<Task>)
    requires
        sorted_by(TaskOrder::ByCompletion, r),
    ensures
        forall|i: int, j: int| 0 <= i < j < r.len() ==> {
            &&& (#[trigger] r[j]).completed_at matches Some(y) ==> ((#[trigger] r[i]).completed_at matches Some(
                x,
            ) && !x.spec_before(y))
            &&& r[i].completed_at == r[j].completed_at ==> r[i].id >= r[j].id
        },
{
    assert forall|i: int, j: int| 0 <= i < j < r.len() implies {
        &&& (#[trigger] r[j]).completed_at matches Some(y) ==> ((#[trigger] r[i]).completed_at matches Some(
            x,
        ) && !x.spec_before(y))
        &&& r[i].completed_at == r[j].completed_at ==> r[i].id >= r[j].id
    } by {
        assert(precedes(TaskOrder::ByCompletion, r[i], r[j]));
    }
}

/// The sort key of `t` as machine numbers.
fn key_of(order: TaskOrder, t: &Task) -> (r: (i128, i128, i128, i128, i128))
    ensures
        (r.0 as int, r.1 as int, r.2 as int, r.3 as int, r.4 as int) == sort_key(order, *t),
{
    match order {
        TaskOrder::NewestFirst => (-(t.id as i128), 0, 0, 0, 0),
        TaskOrder::ByDue => {
            let done: i128 = if t.is_done {
                1
            } else {
                0
            };
            match t.due_date {
                Some(d) => (done, 1, d.secs as i128, d.nanos as i128, -(t.id as i128)),
                None => (done, 0, 0, 0, -(t.id as i128)),
            }
        },
        TaskOrder::ByCompletion => match t.completed_at {
            Some(c) => (0, -(c.secs as i128), -(c.nanos as i128), -(t.id as i128), 0),
            None => (1, 0, 0, -(t.id as i128), 0),
        },
    }
}

/// Whether `a` may come before `b` in the order `order`.
pub fn precedes_exec(order: TaskOrder, a: &Task, b: &Task) -> (r: bool)
    ensures
        r == precedes(order, *a, *b),
{
    let ka = key_of(order, a);
    let kb = key_of(order, b);
    ka.0 < kb.0 || (ka.0 == kb.0 && ka.1 < kb.1) || (ka.0 == kb.0 && ka.1 == kb.1 && ka.2 < kb.2)
        || (ka.0 == kb.0 && ka.1 == kb.1 && ka.2 == kb.2 && ka.3 < kb.3) || (ka.0 == kb.0 && ka.1
        == kb.1 && ka.2 == kb.2 && ka.3 == kb.3 && ka.4 <= kb.4)
}

/// The tasks `tasks` put in the order `order` (insertion sort; tasks that
/// tie keep their order).
pub fn sort_tasks(tasks: &Vec<Task>, order: TaskOrder) -> (r: Vec<Task>)
    ensures
        sorted_by(order, r@),
        r@.to_multiset() == tasks@.to_multiset(),
{
    let n = tasks.len();
    let mut res: Vec<Task> = Vec::new();
    let mut i: usize = 0;
    while i < n
        invariant
            n == tasks.len(),
            i <= n,
            sorted_by(order, res@),
            res@.to_multiset() == tasks@.take(i as int).to_multiset(),
        decreases n - i,
    {
        let x = tasks[i].clone();
        let mut p: usize = 0;
        while p < res.len() && precedes_exec(order, &res[p], &x)
            invariant
                p <= res.len(),
                forall|k: int| 0 <= k < p ==> precedes(order, #[trigger] res@[k], x),
            decreases res.len() - p,
        {
            p = p + 1;
        }
        proof {
            if p < res.len() {
                lemma_key_le_total_preorder(sort_key(order, res@[p as int]), sort_key(order, x), sort_key(order, x));
                assert forall|k: int| p <= k < res.len() implies precedes(order, x, #[trigger] res@[k]) by {
                    lemma_key_le_total_preorder(sort_key(order, x), sort_key(order, res@[p as int]), sort_key(order, res@[k]));
                    if k > p {
                        assert(precedes(order, res@[p as int], res@[k]));
                    }
                }
            }
            assert(tasks@.take(i + 1) == tasks@.take(i as int).push(tasks@[i as int]));
        }
        let ghost old_res = res@;
        res.insert(p, x);
        proof {
            assert forall|a: int, b: int| 0 <= a < b < res@.len() implies precedes(order, #[trigger] res@[a], #[trigger] res@[b]) by {
                if a < p && b < p {
                    assert(res@[a] == old_res[a] && res@[b] == old_res[b]);
                } else if a < p && b == p {
                } else if a < p {
                    assert(res@[a] == old_res[a] && res@[b] == old_res[b - 1]);
                    lemma_key_le_total_preorder(sort_key(order, old_res[a]), sort_key(order, x), sort_key(order, old_res[b - 1]));
                } else if a == p {
                    assert(res@[b] == old_res[b - 1]);
                } else {
                    assert(res@[a] == old_res[a - 1] && res@[b] == old_res[b - 1]);
                }
            }
        }
        i = i + 1;
    }
    proof {
        assert(tasks@.take(n as int) == tasks@);
    }
    res
}

/// Which stored tasks a listing takes.
#[derive(Debug, Clone, Copy, PartialEq, Eq)]
pub enum Selection {
    /// Every task.
    All,
    /// Tasks due at or after the first instant and before the second.
    DueBetween(Timestamp, Timestamp),
    /// Done tasks.
    Done,
    /// Tasks that a view shows, given the end of today (if known).
    View(TaskFilter, Option<Timestamp>),
}

impl Selection {
    /// Whether the listing takes `t`.
    pub open spec fn takes(self, t: Task) -> bool {
        match self {
            Selection::All => true,
            Selection::DueBetween(from, to) => t.due_date matches Some(d) && !d.spec_before(from)
                && d.spec_before(to),
            Selection::Done => t.is_done,
            Selection::View(f, e) => f.shows_given(t, e),
        }
    }

    /// Whether the listing takes `t`.
    pub fn takes_exec(&self, t: &Task) -> (r: bool)
        ensures
            r == self.takes(*t),
    {
        match self {
            Selection::All => true,
            Selection::DueBetween(from, to) => match t.due_date {
                Some(d) => !d.before(from) && d.before(to),
                None => false,
            },
            Selection::Done => t.is_done,
            Selection::View(f, e) => match e {
                Some(end) => f.matches_before(t, end),
                None => match f {
                    TaskFilter::Inbox => true,
                    TaskFilter::Completed => t.is_done,
                    _ => false,
                },
            },
        }
    }
}

/// The tasks of `rows` that `sel` takes, in their order.
pub fn select(rows: &Vec<Task>, sel: Selection) -> (r: Vec<Task>)
    ensures
        r@ == rows@.filter(|t: Task| sel.takes(t)),
{
    let n = rows.len();
    let mut res: Vec<Task> = Vec::new();
    let mut i: usize = 0;
    while i < n
        invariant
            n == rows.len(),
            i <= n,
            res@ == rows@.take(i as int).filter(|t: Task| sel.takes(t)),
        decreases n - i,
    {
        proof {
            assert(rows@.take(i + 1) == rows@.take(i as int).push(rows@[i as int]));
            rows@.take(i as int).lemma_filter_push(rows@[i as int], |t: Task| sel.takes(t));
        }
        if sel.takes_exec(&rows[i]) {
            res.push(rows[i].clone());
        }
        i = i + 1;
    }
    proof {
        assert(rows@.take(n as int) == rows@);
    }
    res
}

/// `r` holds exactly the tasks of `rows` that `sel` takes, in the order
/// `order`.
pub open spec fn is_listing(rows: Seq<Task>, sel: Selection, order: TaskOrder, r: Seq<Task>) -> bool {
    &&& sorted_by(order, r)
    &&& r.to_multiset() == rows.filter(|t: Task| sel.takes(t)).to_multiset()
}

/// The order of a view: the inbox newest first, the dated views by due
/// date, the done view by completion.
pub open spec fn view_order(f: TaskFilter) -> TaskOrder {
    match f {
        TaskFilter::Inbox => TaskOrder::NewestFirst,
        TaskFilter::Today => TaskOrder::ByDue,
        TaskFilter::Upcoming => TaskOrder::ByDue,
        TaskFilter::Completed => TaskOrder::ByCompletion,
    }
}

/// Every stored task, newest first.
pub fn list_tasks(rows: &Vec<Task>) -> (r: Vec<Task>)
    ensures
        is_listing(rows@, Selection::All, TaskOrder::NewestFirst, r@),
        forall|i: int, j: int| 0 <= i < j < r@.len() ==> #[trigger] r@[i].id >= #[trigger] r@[j].id,
{
    let all = select(rows, Selection::All);
    let r = sort_tasks(&all, TaskOrder::NewestFirst);
    proof {
        lemma_newest_first_order(r@);
    }
    r
}

/// The stored tasks due at or after `from` and before `to`: open before
/// done, then by due date, newest first among equals.
pub fn list_tasks_due_between(rows: &Vec<Task>, from: Timestamp, to: Timestamp) -> (r: Vec<Task>)
    ensures
        is_listing(rows@, Selection::DueBetween(from, to), TaskOrder::ByDue, r@),
        forall|i: int, j: int| 0 <= i < j < r@.len() ==> {
                &&& (#[trigger] r@[i]).is_done ==> (#[trigger] r@[j]).is_done
                &&& r@[i].is_done == r@[j].is_done && r@[i].due_date is Some ==> (r@[j].due_date matches Some(
                    y,
                ) && !y.spec_before(r@[i].due_date.unwrap()))
                &&& r@[i].is_done == r@[j].is_done && r@[i].due_date == r@[j].due_date ==> r@[i].id >= r@[j].id
            },
{
    let due = select(rows, Selection::DueBetween(from, to));
    let r = sort_tasks(&due, TaskOrder::ByDue);
    proof {
        lemma_due_order(r@);
    }
    r
}

/// The done tasks, most recently completed first.
pub fn list_completed_tasks(rows: &Vec<Task>) -> (r: Vec<Task>)
    ensures
        is_listing(rows@, Selection::Done, TaskOrder::ByCompletion, r@),
        forall|i: int, j: int| 0 <= i < j < r@.len() ==> {
                &&& (#[trigger] r@[j]).completed_at matches Some(y) ==> ((#[trigger] r@[i]).completed_at matches Some(
                    x,
                ) && !x.spec_before(y))
                &&& r@[i].completed_at == r@[j].completed_at ==> r@[i].id >= r@[j].id
            },
{
    let done = select(rows, Selection::Done);
    let r = sort_tasks(&done, TaskOrder::ByCompletion);
    proof {
        lemma_completion_order(r@);
    }
    r
}

/// The tasks that the view `filter` shows, given the end of today (`None`
/// where it is not known), in the view's order.
pub fn list_tasks_for_filter(rows: &Vec<Task>, filter: TaskFilter, today_end: Option<Timestamp>) -> (r: Vec<Task>)
    ensures
        is_listing(rows@, Selection::View(filter, today_end), view_order(filter), r@),
        filter is Inbox ==> forall|i: int, j: int| 0 <= i < j < r@.len() ==> #[trigger] r@[i].id >= #[trigger] r@[j].id,
        filter is Today || filter is Upcoming ==> forall|i: int, j: int| 0 <= i < j < r@.len() ==> {
                &&& (#[trigger] r@[i]).is_done ==> (#[trigger] r@[j]).is_done
                &&& r@[i].is_done == r@[j].is_done && r@[i].due_date is Some ==> (r@[j].due_date matches Some(
                    y,
                ) && !y.spec_before(r@[i].due_date.unwrap()))
                &&& r@[i].is_done == r@[j].is_done && r@[i].due_date == r@[j].due_date ==> r@[i].id >= r@[j].id
            },
        filter is Completed ==> forall|i: int, j: int| 0 <= i < j < r@.len() ==> {
                &&& (#[trigger] r@[j]).completed_at matches Some(y) ==> ((#[trigger] r@[i]).completed_at matches Some(
                    x,
                ) && !x.spec_before(y))
                &&& r@[i].completed_at == r@[j].completed_at ==> r@[i].id >= r@[j].id
            },
{
    let shown = select(rows, Selection::View(filter, today_end));
    let order = match filter {
        TaskFilter::Inbox => TaskOrder::NewestFirst,
        TaskFilter::Today => TaskOrder::ByDue,
        TaskFilter::Upcoming => TaskOrder::ByDue,
        TaskFilter::Completed => TaskOrder::ByCompletion,
    };
    let r = sort_tasks(&shown, order);
    proof {
        match filter {
            TaskFilter::Inbox => lemma_newest_first_order(r@),
            TaskFilter::Today => lemma_due_order(r@),
            TaskFilter::Upcoming => lemma_due_order(r@),
            TaskFilter::Completed => lemma_completion_order(r@),
        }
    }
    r
}

/// What each view's listing promises of its order: the inbox newest first;
/// "today" and "upcoming" open before done, undated first, then by due date,
/// newest first among equals; "completed" latest completion first (never
/// completed last), newest first among equals.
pub proof fn lemma_view_listing_order(
    rows: Seq<Task>,
    filter: TaskFilter,
    today_end: Option<Timestamp>,
    r: Seq<Task>,
)
    requires
        is_listing(rows, Selection::View(filter, today_end), view_order(filter), r),
    ensures
        filter is Inbox ==> forall|i: int, j: int| 0 <= i < j < r.len() ==> #[trigger] r[i].id >= #[trigger] r[j].id,
        filter is Today || filter is Upcoming ==> forall|i: int, j: int| 0 <= i < j < r.len() ==> {
                &&& (#[trigger] r[i]).is_done ==> (#[trigger] r[j]).is_done
                &&& r[i].is_done == r[j].is_done && r[i].due_date is Some ==> (r[j].due_date matches Some(
                    y,
                ) && !y.spec_before(r[i].due_date.unwrap()))
                &&& r[i].is_done == r[j].is_done && r[i].due_date == r[j].due_date ==> r[i].id >= r[j].id
            },
        filter is Completed ==> forall|i: int, j: int| 0 <= i < j < r.len() ==> {
                &&& (#[trigger] r[j]).completed_at matches Some(y) ==> ((#[trigger] r[i]).completed_at matches Some(
                    x,
                ) && !x.spec_before(y))
                &&& r[i].completed_at == r[j].completed_at ==> r[i].id >= r[j].id
            },
{
    match filter {
        TaskFilter::Inbox => lemma_newest_first_order(r),
        TaskFilter::Today => lemma_due_order(r),
        TaskFilter::Upcoming => lemma_due_order(r),
        TaskFilter::Completed => lemma_completion_order(r),
    }
}

/// No two tasks of `s` share an id (the store's primary key).
pub open spec fn distinct_ids(s: Seq<Task>) -> bool {
    forall|i: int, j: int| 0 <= i < j < s.len() ==> s[i].id != s[j].id
}

/// Tasks with the same sort key have the same id.
proof fn lemma_same_key_same_id(order: TaskOrder, a: Task, b: Task)
    requires
        precedes(order, a, b),
        precedes(order, b, a),
    ensures
        a.id == b.id,
{
    lemma_key_le_total_preorder(sort_key(order, a), sort_key(order, b), sort_key(order, a));
}

/// A listing is determined by the rows: two orderings of the same tasks
/// with distinct ids, both in the order `order`, are the same sequence.
pub proof fn lemma_listing_unique(order: TaskOrder, a: Seq<Task>, b: Seq<Task>)
    requires
        sorted_by(order, a),
        sorted_by(order, b),
        a.to_multiset() == b.to_multiset(),
        distinct_ids(a),
        distinct_ids(b),
    ensures
        a == b,
    decreases a.len(),
{
    broadcast use vstd::multiset::group_multiset_axioms;

    to_multiset_len(a);
    to_multiset_len(b);
    if a.len() == 0 {
        assert(a =~= b);
    } else {
        let x = a[0];
        let y = b[0];
        to_multiset_contains(a, x);
        to_multiset_contains(b, x);
        to_multiset_contains(a, y);
        to_multiset_contains(b, y);
        assert(a.contains(x));
        assert(b.contains(y));
        let j = choose|j: int| 0 <= j < b.len() && b[j] == x;
        let k = choose|k: int| 0 <= k < a.len() && a[k] == y;
        lemma_key_le_total_preorder(sort_key(order, x), sort_key(order, x), sort_key(order, x));
        lemma_key_le_total_preorder(sort_key(order, y), sort_key(order, y), sort_key(order, y));
        if j > 0 {
            assert(precedes(order, b[0], b[j]));
        }
        if k > 0 {
            assert(precedes(order, a[0], a[k]));
        }
        lemma_same_key_same_id(order, x, y);
        if j > 0 {
            assert(b[0].id != b[j].id);
        }
        assert(x == y);
        to_multiset_remove(a, 0);
        to_multiset_remove(b, 0);
        assert(a.remove(0) =~= a.drop_first());
        assert(b.remove(0) =~= b.drop_first());
        let a1 = a.drop_first();
        let b1 = b.drop_first();
        assert(sorted_by(order, a1)) by {
            assert forall|i: int, j2: int| 0 <= i < j2 < a1.len() implies precedes(order, #[trigger] a1[i], #[trigger] a1[j2]) by {
                assert(a1[i] == a[i + 1] && a1[j2] == a[j2 + 1]);
            }
        }
        assert(sorted_by(order, b1)) by {
            assert forall|i: int, j2: int| 0 <= i < j2 < b1.len() implies precedes(order, #[trigger] b1[i], #[trigger] b1[j2]) by {
                assert(b1[i] == b[i + 1] && b1[j2] == b[j2 + 1]);
            }
        }
        assert(distinct_ids(a1)) by {
            assert forall|i: int, j2: int| 0 <= i < j2 < a1.len() implies a1[i].id != a1[j2].id by {
                assert(a1[i] == a[i + 1] && a1[j2] == a[j2 + 1]);
            }
        }
        assert(distinct_ids(b1)) by {
            assert forall|i: int, j2: int| 0 <= i < j2 < b1.len() implies b1[i].id != b1[j2].id by {
                assert(b1[i] == b[i + 1] && b1[j2] == b[j2 + 1]);
            }
        }
        lemma_listing_unique(order, a1, b1);
        assert(a =~= b) by {
            assert forall|i: int| 0 <= i < a.len() implies a[i] == b[i] by {
                if i > 0 {
                    assert(a[i] == a1[i - 1] && b[i] == b1[i - 1]);
                }
            }
        }
    }
}

/// A listing holds exactly the stored tasks that its selection takes: a
/// task written to the store shows up in every listing that takes it, and
/// no listing shows a task the store does not hold.
pub proof fn lemma_listing_contains(rows: Seq<Task>, sel: Selection, order: TaskOrder, r: Seq<Task>, t: Task)
    requires
        is_listing(rows, sel, order, r),
    ensures
        r.contains(t) <==> (rows.contains(t) && sel.takes(t)),
{
    let pred = |x: Task| sel.takes(x);
    to_multiset_contains(r, t);
    to_multiset_contains(rows.filter(pred), t);
    if rows.contains(t) && sel.takes(t) {
        let k = choose|k: int| 0 <= k < rows.len() && rows[k] == t;
        rows.lemma_filter_contains(pred, k);
    }
    if rows.filter(pred).contains(t) {
        rows.lemma_filter_contains_rev(pred, t);
        let i = choose|i: int| 0 <= i < rows.filter(pred).len() && rows.filter(pred)[i] == t;
        rows.lemma_filter_pred(pred, i);
    }
}

/// The newest task comes first in the whole list: where a task `t` is
/// stored after `rows`, with an id above all of theirs, the list of all
/// tasks starts with `t`.
pub proof fn lemma_newest_first(rows: Seq<Task>, t: Task, r: Seq<Task>)
    requires
        forall|i: int| 0 <= i < rows.len() ==> #[trigger] rows[i].id < t.id,
        is_listing(rows.push(t), Selection::All, TaskOrder::NewestFirst, r),
    ensures
        r.len() > 0,
        r[0] == t,
{
    let all = rows.push(t);
    assert(all[rows.len() as int] == t);
    lemma_listing_contains(all, Selection::All, TaskOrder::NewestFirst, r, t);
    let k = choose|k: int| 0 <= k < r.len() && r[k] == t;
    let first = r[0];
    assert(r.contains(first)) by {
        assert(r[0] == first);
    }
    lemma_listing_contains(all, Selection::All, TaskOrder::NewestFirst, r, first);
    let m = choose|m: int| 0 <= m < all.len() && all[m] == first;
    if k > 0 {
        assert(precedes(TaskOrder::NewestFirst, r[0], r[k]));
    }
    if m < rows.len() {
        assert(all[m] == rows[m]);
        assert(rows[m].id < t.id);
    }
}

} // verus!
