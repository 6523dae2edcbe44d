//! The task list on screen: two lists of rows (open tasks and, in the
//! inbox, done ones), kept in step with the core's change events, and the
//! delayed removals and moves that let a row fade out before it leaves.
//!
//! The widgets live outside this module. Every handler here returns the
//! list operations to perform, in order, and applies the same operations
//! to the ids it keeps, so the two stay alike.
use crate::events::CoreEvent;
use crate::filter::{range_end, TaskFilter};
use crate::task::Task;
use crate::time::{today_range_at, today_range_outcome, Timestamp};
use crate::ui::row::TaskRowInput;
use crate::ui::sidebar::SidebarSelection;
use std::collections::HashMap;
use vstd::prelude::*;

verus! {

broadcast use vstd::std_specs::hash::group_hash_axioms;

/// One of the two lists of rows.
#[derive(Debug, Clone, Copy, PartialEq, Eq, Structural)]
pub enum ListId {
    Open,
    Done,
}

/// A delayed step that waits for the row to fade out.
#[derive(Debug, PartialEq, Eq)]
pub enum FinalizeMsg {
    /// Take the task's row out of the lists.
    Remove { id: i64, token: u64 },
    /// Move the task's row to the done list (`to_done`) or back.
    Move { task: Task, to_done: bool, token: u64 },
}

/// An operation on the rows.
#[derive(Debug, PartialEq, Eq)]
pub enum BoardAction {
    /// Put a row for the task at the top of the list.
    PushFront(ListId, Task),
    /// Put a row for the task at the bottom of the list.
    PushBack(ListId, Task),
    /// Take out the row at this index.
    Remove(ListId, usize),
    /// Take out every row of the list.
    Clear(ListId),
    /// Give the row at this index an input.
    Send(ListId, usize, TaskRowInput),
    /// Deliver this step to the board after the fade-out delay.
    Schedule(FinalizeMsg),
}

/// The state of the task list.
pub struct BoardModel {
    /// The sidebar entry being shown.
    pub selection: SidebarSelection,
    pub show_sidebar: bool,
    /// Task ids of the open list's rows, top first.
    pub open_ids: Vec<i64>,
    /// Task ids of the done list's rows, top first.
    pub done_ids: Vec<i64>,
    /// For each task with a delayed step under way, that step's token.
    pub pending_finalize: HashMap<i64, u64>,
    /// The token of the next delayed step.
    pub next_finalize_token: u64,
}

/// The index of the first `id` at or after `k` in `s`, or the length of `s`.
pub open spec fn find_from(s: Seq<i64>, id: i64, k: int) -> int
    decreases s.len() - k,
{
    if k < 0 || k >= s.len() {
        s.len() as int
    } else if s[k] == id {
        k
    } else {
        find_from(s, id, k + 1)
    }
}

/// The index of the first `id` in `s`, if any.
pub open spec fn position(s: Seq<i64>, id: i64) -> Option<int> {
    if find_from(s, id, 0) < s.len() {
        Some(find_from(s, id, 0))
    } else {
        None
    }
}

/// `position` as a machine index.
pub open spec fn row_index(s: Seq<i64>, id: i64) -> Option<usize> {
    match position(s, id) {
        Some(i) => Some(i as usize),
        None => None,
    }
}

/// `find_from` finds the first occurrence.
pub proof fn lemma_find_from(s: Seq<i64>, id: i64, k: int)
    requires
        0 <= k <= s.len(),
    ensures
        k <= find_from(s, id, k) <= s.len(),
        find_from(s, id, k) < s.len() ==> s[find_from(s, id, k)] == id,
        forall|j: int| k <= j < find_from(s, id, k) ==> s[j] != id,
    decreases s.len() - k,
{
    if k < s.len() && s[k] != id {
        lemma_find_from(s, id, k + 1);
    }
}

/// `position` gives the first index of `id`, and none where `s` lacks it.
pub proof fn lemma_position(s: Seq<i64>, id: i64)
    ensures
        position(s, id) matches Some(i) ==> 0 <= i < s.len() && s[i] == id && forall|j: int|
            0 <= j < i ==> s[j] != id,
        position(s, id) is None ==> !s.contains(id),
{
    lemma_find_from(s, id, 0);
    if position(s, id) is None {
        assert forall|j: int| 0 <= j < s.len() implies s[j] != id by {}
    }
}

/// The index of the first row for `id` in `ids`.
pub fn index_of(ids: &Vec<i64>, id: i64) -> (r: Option<usize>)
    ensures
        r == row_index(ids@, id),
        r matches Some(i) ==> position(ids@, id) == Some(i as int),
{
    let n = ids.len();
    let mut i: usize = 0;
    while i < n && ids[i] != id
        invariant
            n == ids.len(),
            i <= n,
            find_from(ids@, id, i as int) == find_from(ids@, id, 0),
        decreases n - i,
    {
        i = i + 1;
    }
    if i < n {
        Some(i)
    } else {
        None
    }
}

/// The list `l` of the pair of lists `lists` (open, done).
pub open spec fn list_of(lists: (Seq<i64>, Seq<i64>), l: ListId) -> Seq<i64> {
    match l {
        ListId::Open => lists.0,
        ListId::Done => lists.1,
    }
}

/// `lists` with list `l` replaced by `s`.
pub open spec fn with_list(lists: (Seq<i64>, Seq<i64>), l: ListId, s: Seq<i64>) -> (
    Seq<i64>,
    Seq<i64>,
) {
    match l {
        ListId::Open => (s, lists.1),
        ListId::Done => (lists.0, s),
    }
}

/// The ids of the rows after the operation `a`.
pub open spec fn apply_action(lists: (Seq<i64>, Seq<i64>), a: BoardAction) -> (Seq<i64>, Seq<i64>) {
    match a {
        BoardAction::PushFront(l, t) => with_list(lists, l, seq![t.id] + list_of(lists, l)),
        BoardAction::PushBack(l, t) => with_list(lists, l, list_of(lists, l).push(t.id)),
        BoardAction::Remove(l, i) => if i < list_of(lists, l).len() {
            with_list(lists, l, list_of(lists, l).remove(i as int))
        } else {
            lists
        },
        BoardAction::Clear(l) => with_list(lists, l, Seq::empty()),
        _ => lists,
    }
}

/// The ids of the rows after the operations `acts`, in order.
pub open spec fn apply_all(lists: (Seq<i64>, Seq<i64>), acts: Seq<BoardAction>) -> (
    Seq<i64>,
    Seq<i64>,
)
    decreases acts.len(),
{
    if acts.len() == 0 {
        lists
    } else {
        apply_all(apply_action(lists, acts[0]), acts.drop_first())
    }
}

/// Applying two runs of operations one after the other.
pub proof fn lemma_apply_all_append(
    lists: (Seq<i64>, Seq<i64>),
    a: Seq<BoardAction>,
    b: Seq<BoardAction>,
)
    ensures
        apply_all(lists, a + b) == apply_all(apply_all(lists, a), b),
    decreases a.len(),
{
    if a.len() == 0 {
        assert(a + b =~= b);
    } else {
        assert((a + b).drop_first() =~= a.drop_first() + b);
        lemma_apply_all_append(apply_action(lists, a[0]), a.drop_first(), b);
    }
}

/// The operation `a` refers only to rows that exist in `lists`.
pub open spec fn action_in_range(lists: (Seq<i64>, Seq<i64>), a: BoardAction) -> bool {
    match a {
        BoardAction::Remove(l, i) => i < list_of(lists, l).len(),
        BoardAction::Send(l, i, _) => i < list_of(lists, l).len(),
        _ => true,
    }
}

/// Each of the operations `acts`, performed in order from `lists`, refers
/// only to rows that exist when it is performed.
pub open spec fn all_in_range(lists: (Seq<i64>, Seq<i64>), acts: Seq<BoardAction>) -> bool
    decreases acts.len(),
{
    acts.len() == 0 || (action_in_range(lists, acts[0]) && all_in_range(
        apply_action(lists, acts[0]),
        acts.drop_first(),
    ))
}

/// Two runs of operations that each stay in range stay in range together.
pub proof fn lemma_all_in_range_append(
    lists: (Seq<i64>, Seq<i64>),
    a: Seq<BoardAction>,
    b: Seq<BoardAction>,
)
    requires
        all_in_range(lists, a),
        all_in_range(apply_all(lists, a), b),
    ensures
        all_in_range(lists, a + b),
    decreases a.len(),
{
    if a.len() == 0 {
        assert(a + b =~= b);
    } else {
        assert((a + b).drop_first() =~= a.drop_first() + b);
        lemma_all_in_range_append(apply_action(lists, a[0]), a.drop_first(), b);
    }
}

/// Applying a single operation.
pub proof fn lemma_apply_one(lists: (Seq<i64>, Seq<i64>), a: BoardAction)
    ensures
        apply_all(lists, seq![a]) == apply_action(lists, a),
{
    assert(seq![a].drop_first() =~= Seq::<BoardAction>::empty());
    assert(apply_all(apply_action(lists, a), Seq::<BoardAction>::empty()) == apply_action(lists, a));
}

impl BoardModel {
    /// The ids of both lists of rows.
    pub open spec fn lists(&self) -> (Seq<i64>, Seq<i64>) {
        (self.open_ids@, self.done_ids@)
    }

    /// An empty board showing the inbox, sidebar open.
    pub fn new() -> (r: BoardModel)
        ensures
            r.selection == SidebarSelection::Inbox,
            r.show_sidebar,
            r.open_ids@.len() == 0,
            r.done_ids@.len() == 0,
            r.pending_finalize@ == Map::<i64, u64>::empty(),
            r.next_finalize_token == 0,
    {
        BoardModel {
            selection: SidebarSelection::Inbox,
            show_sidebar: true,
            open_ids: Vec::new(),
            done_ids: Vec::new(),
            pending_finalize: HashMap::new(),
            next_finalize_token: 0,
        }
    }

    /// Starts a delayed step for task `id`: it gets the next token, which
    /// replaces any earlier one of the task, and the counter moves on
    /// (wrapping around after the largest token).
    pub fn schedule_finalize(&mut self, id: i64) -> (token: u64)
        ensures
            token == old(self).next_finalize_token,
            final(self).next_finalize_token == (if token == u64::MAX {
                0
            } else {
                (token + 1) as u64
            }),
            final(self).pending_finalize@ == old(self).pending_finalize@.insert(id, token),
            final(self).selection == old(self).selection,
            final(self).show_sidebar == old(self).show_sidebar,
            final(self).open_ids == old(self).open_ids,
            final(self).done_ids == old(self).done_ids,
    {
        let token = self.next_finalize_token;
        self.next_finalize_token = if token == u64::MAX {
            0
        } else {
            token + 1
        };
        self.pending_finalize.insert(id, token);
        token
    }

    /// Whether the delayed step `token` of task `id` is still the task's
    /// latest one; if so it is used up.
    pub fn claim_finalize(&mut self, id: i64, token: u64) -> (r: bool)
        ensures
            r == (old(self).pending_finalize@.contains_key(id) && old(self).pending_finalize@[id]
                == token),
            final(self).pending_finalize@ == if r {
                old(self).pending_finalize@.remove(id)
            } else {
                old(self).pending_finalize@
            },
            final(self).next_finalize_token == old(self).next_finalize_token,
            final(self).selection == old(self).selection,
            final(self).show_sidebar == old(self).show_sidebar,
            final(self).open_ids == old(self).open_ids,
            final(self).done_ids == old(self).done_ids,
    {
        let matches = match self.pending_finalize.get(&id) {
            Some(t) => *t == token,
            None => false,
        };
        if matches {
            self.pending_finalize.remove(&id);
        }
        matches
    }
}

/// Whether the entry `sel` shows `task`, the end of today being
/// `today_end` (if known).
pub open spec fn in_view(sel: SidebarSelection, task: Task, today_end: Option<Timestamp>) -> bool {
    match sel.filter_of() {
        Some(f) => f.shows_given(task, today_end),
        None => false,
    }
}

/// An input for the row at index `i` of list `l`, where there is a row.
pub open spec fn send_if(l: ListId, i: Option<usize>, msg: TaskRowInput) -> Seq<BoardAction> {
    match i {
        Some(i) => seq![BoardAction::Send(l, i, msg)],
        None => seq![],
    }
}

/// Removing the row at index `i` of list `l`, where there is a row.
pub open spec fn remove_if(l: ListId, i: Option<usize>) -> Seq<BoardAction> {
    match i {
        Some(i) => seq![BoardAction::Remove(l, i)],
        None => seq![],
    }
}

/// The operations for a stored task that changed into `task`, while the
/// entry `sel` is shown, `had_pending` tells whether a delayed step of the
/// task was under way, `oi` and `di` are its rows in the open and done
/// lists, and `token` is the token a new delayed step gets.
///
/// A row whose delayed step is cut short shows again. A task the view no
/// longer shows fades out and is removed later. In the inbox a task that
/// changed between open and done fades out and moves to the other list
/// later; otherwise its row shows the new task, or a new row appears at
/// the top of its list. Other views update the row or add one on top.
pub open spec fn updated_actions(
    sel: SidebarSelection,
    task: Task,
    today_end: Option<Timestamp>,
    had_pending: bool,
    oi: Option<usize>,
    di: Option<usize>,
    token: u64,
) -> Seq<BoardAction> {
    let shown_again = if had_pending {
        send_if(ListId::Open, oi, TaskRowInput::SetRevealed(true)) + send_if(
            ListId::Done,
            di,
            TaskRowInput::SetRevealed(true),
        )
    } else {
        seq![]
    };
    let rest = if !in_view(sel, task, today_end) {
        send_if(ListId::Open, oi, TaskRowInput::SetRevealed(false)) + send_if(
            ListId::Done,
            di,
            TaskRowInput::SetRevealed(false),
        ) + (if oi is Some || di is Some {
            seq![BoardAction::Schedule(FinalizeMsg::Remove { id: task.id, token })]
        } else {
            seq![]
        })
    } else if sel == SidebarSelection::Inbox {
        match oi {
            Some(i) => if task.is_done {
                seq![
                    BoardAction::Send(ListId::Open, i, TaskRowInput::SetRevealed(false)),
                    BoardAction::Schedule(FinalizeMsg::Move { task, to_done: true, token }),
                ]
            } else {
                seq![BoardAction::Send(ListId::Open, i, TaskRowInput::ReplaceTask(task))]
            },
            None => match di {
                Some(i) => if !task.is_done {
                    seq![
                        BoardAction::Send(ListId::Done, i, TaskRowInput::SetRevealed(false)),
                        BoardAction::Schedule(FinalizeMsg::Move { task, to_done: false, token }),
                    ]
                } else {
                    seq![BoardAction::Send(ListId::Done, i, TaskRowInput::ReplaceTask(task))]
                },
                None => if task.is_done {
                    seq![BoardAction::PushFront(ListId::Done, task)]
                } else {
                    seq![BoardAction::PushFront(ListId::Open, task)]
                },
            },
        }
    } else {
        match oi {
            Some(i) => seq![BoardAction::Send(ListId::Open, i, TaskRowInput::ReplaceTask(task))],
            None => seq![BoardAction::PushFront(ListId::Open, task)],
        }
    };
    shown_again + rest
}

/// Whether handling the changed task starts a delayed step.
pub open spec fn updated_schedules(
    sel: SidebarSelection,
    task: Task,
    today_end: Option<Timestamp>,
    oi: Option<usize>,
    di: Option<usize>,
) -> bool {
    if !in_view(sel, task, today_end) {
        oi is Some || di is Some
    } else if sel == SidebarSelection::Inbox {
        match oi {
            Some(_) => task.is_done,
            None => di is Some && !task.is_done,
        }
    } else {
        false
    }
}

/// The token that follows `t`.
pub open spec fn next_token(t: u64) -> u64 {
    if t == u64::MAX {
        0
    } else {
        (t + 1) as u64
    }
}

/// `new` and `r` are the board and the operations after following the
/// change of a stored task into `task` on the board `old`, the end of today
/// being `today_end`.
pub open spec fn updated_outcome(
    old: BoardModel,
    task: Task,
    today_end: Option<Timestamp>,
    r: Seq<BoardAction>,
    new: BoardModel,
) -> bool {
    let had = old.pending_finalize@.contains_key(task.id);
    let oi = row_index(old.open_ids@, task.id);
    let di = row_index(old.done_ids@, task.id);
    let token = old.next_finalize_token;
    let sched = updated_schedules(old.selection, task, today_end, oi, di);
    &&& r == updated_actions(old.selection, task, today_end, had, oi, di, token)
    &&& new.lists() == apply_all(old.lists(), r)
    &&& all_in_range(old.lists(), r)
    &&& new.pending_finalize@ == if sched {
        old.pending_finalize@.remove(task.id).insert(task.id, token)
    } else {
        old.pending_finalize@.remove(task.id)
    }
    &&& new.next_finalize_token == if sched {
        next_token(token)
    } else {
        token
    }
    &&& new.selection == old.selection
    &&& new.show_sidebar == old.show_sidebar
}

impl BoardModel {
    /// Performs `a` on the ids and records it in `acts`.
    fn act(&mut self, acts: &mut Vec<BoardAction>, a: BoardAction, Ghost(start): Ghost<(Seq<i64>, Seq<i64>)>)
        requires
            old(self).lists() == apply_all(start, old(acts)@),
            all_in_range(start, old(acts)@),
            action_in_range(old(self).lists(), a),
        ensures
            final(self).lists() == apply_all(start, final(acts)@),
            final(self).lists() == apply_action(old(self).lists(), a),
            all_in_range(start, final(acts)@),
            final(acts)@ == old(acts)@.push(a),
            final(self).selection == old(self).selection,
            final(self).show_sidebar == old(self).show_sidebar,
            final(self).pending_finalize == old(self).pending_finalize,
            final(self).next_finalize_token == old(self).next_finalize_token,
    {
        proof {
            lemma_apply_all_append(start, acts@, seq![a]);
            lemma_apply_one(old(self).lists(), a);
            assert(acts@.push(a) =~= acts@ + seq![a]);
            assert(seq![a].drop_first() =~= Seq::<BoardAction>::empty());
            assert(all_in_range(apply_action(old(self).lists(), a), Seq::<BoardAction>::empty()));
            assert(all_in_range(old(self).lists(), seq![a]));
            lemma_all_in_range_append(start, acts@, seq![a]);
        }
        match &a {
            BoardAction::PushFront(l, t) => {
                match l {
                    ListId::Open => {
                        self.open_ids.insert(0, t.id);
                    },
                    ListId::Done => {
                        self.done_ids.insert(0, t.id);
                    },
                }
            },
            BoardAction::PushBack(l, t) => {
                match l {
                    ListId::Open => {
                        self.open_ids.push(t.id);
                    },
                    ListId::Done => {
                        self.done_ids.push(t.id);
                    },
                }
            },
            BoardAction::Remove(l, i) => {
                match l {
                    ListId::Open => {
                        self.open_ids.remove(*i);
                    },
                    ListId::Done => {
                        self.done_ids.remove(*i);
                    },
                }
            },
            BoardAction::Clear(l) => {
                match l {
                    ListId::Open => {
                        self.open_ids.clear();
                    },
                    ListId::Done => {
                        self.done_ids.clear();
                    },
                }
            },
            _ => {},
        }
        proof {
            assert(self.lists() =~= apply_action(old(self).lists(), a));
        }
        acts.push(a);
    }
}

impl BoardModel {
    /// Whether the entry being shown shows `task`.
    pub fn view_shows(&self, task: &Task, today_end: Option<Timestamp>) -> (r: bool)
        ensures
            r == in_view(self.selection, *task, today_end),
    {
        match self.selection.task_filter() {
            Some(f) => match today_end {
                Some(e) => f.matches_before(task, &e),
                None => match f {
                    TaskFilter::Inbox => true,
                    TaskFilter::Completed => task.is_done,
                    _ => false,
                },
            },
            None => false,
        }
    }

    /// Follows a stored task that changed into `task`, the end of today
    /// being `today_end` (if known). See `updated_actions` for what is done.
    pub fn handle_task_updated_at(&mut self, task: Task, today_end: Option<Timestamp>) -> (r: Vec<
        BoardAction,
    >)
        ensures
            ({
                let had = old(self).pending_finalize@.contains_key(task.id);
                let oi = row_index(old(self).open_ids@, task.id);
                let di = row_index(old(self).done_ids@, task.id);
                let token = old(self).next_finalize_token;
                let sched = updated_schedules(old(self).selection, task, today_end, oi, di);
                &&& r@ == updated_actions(old(self).selection, task, today_end, had, oi, di, token)
                &&& final(self).lists() == apply_all(old(self).lists(), r@)
                &&& all_in_range(old(self).lists(), r@)
                &&& final(self).pending_finalize@ == if sched {
                    old(self).pending_finalize@.remove(task.id).insert(task.id, token)
                } else {
                    old(self).pending_finalize@.remove(task.id)
                }
                &&& final(self).next_finalize_token == if sched {
                    next_token(token)
                } else {
                    token
                }
                &&& final(self).selection == old(self).selection
                &&& final(self).show_sidebar == old(self).show_sidebar
            }),
            updated_outcome(*old(self), task, today_end, r@, *final(self)),
    {
        let ghost start = self.lists();
        let ghost old_pending = self.pending_finalize@;
        let ghost token0 = self.next_finalize_token;
        let had_pending = self.pending_finalize.remove(&task.id).is_some();
        let still_matches = self.view_shows(&task, today_end);
        let in_inbox = self.selection == SidebarSelection::Inbox;
        let open_index = index_of(&self.open_ids, task.id);
        let done_index = index_of(&self.done_ids, task.id);
        let mut acts: Vec<BoardAction> = Vec::new();
        proof {
            assert(all_in_range(start, acts@));
        }
        proof {
            assert(apply_all(start, acts@) == start);
        }
        if had_pending {
            if let Some(i) = open_index {
                self.act(&mut acts, BoardAction::Send(ListId::Open, i, TaskRowInput::SetRevealed(true)), Ghost(start));
            }
            if let Some(i) = done_index {
                self.act(&mut acts, BoardAction::Send(ListId::Done, i, TaskRowInput::SetRevealed(true)), Ghost(start));
            }
        }
        let id = task.id;
        if !still_matches {
            if let Some(i) = open_index {
                self.act(&mut acts, BoardAction::Send(ListId::Open, i, TaskRowInput::SetRevealed(false)), Ghost(start));
            }
            if let Some(i) = done_index {
                self.act(&mut acts, BoardAction::Send(ListId::Done, i, TaskRowInput::SetRevealed(false)), Ghost(start));
            }
            if open_index.is_some() || done_index.is_some() {
                let token = self.schedule_finalize(id);
                self.act(&mut acts, BoardAction::Schedule(FinalizeMsg::Remove { id, token }), Ghost(start));
            }
        } else if in_inbox {
            if let Some(i) = open_index {
                if task.is_done {
                    self.act(&mut acts, BoardAction::Send(ListId::Open, i, TaskRowInput::SetRevealed(false)), Ghost(start));
                    let token = self.schedule_finalize(id);
                    self.act(&mut acts, BoardAction::Schedule(FinalizeMsg::Move { task, to_done: true, token }), Ghost(start));
                } else {
                    self.act(&mut acts, BoardAction::Send(ListId::Open, i, TaskRowInput::ReplaceTask(task)), Ghost(start));
                }
            } else if let Some(i) = done_index {
                if !task.is_done {
                    self.act(&mut acts, BoardAction::Send(ListId::Done, i, TaskRowInput::SetRevealed(false)), Ghost(start));
                    let token = self.schedule_finalize(id);
                    self.act(&mut acts, BoardAction::Schedule(FinalizeMsg::Move { task, to_done: false, token }), Ghost(start));
                } else {
                    self.act(&mut acts, BoardAction::Send(ListId::Done, i, TaskRowInput::ReplaceTask(task)), Ghost(start));
                }
            } else if task.is_done {
                self.act(&mut acts, BoardAction::PushFront(ListId::Done, task), Ghost(start));
            } else {
                self.act(&mut acts, BoardAction::PushFront(ListId::Open, task), Ghost(start));
            }
        } else if let Some(i) = open_index {
            self.act(&mut acts, BoardAction::Send(ListId::Open, i, TaskRowInput::ReplaceTask(task)), Ghost(start));
        } else {
            self.act(&mut acts, BoardAction::PushFront(ListId::Open, task), Ghost(start));
        }
        proof {
            assert(acts@ =~= updated_actions(old(self).selection, task, today_end, had_pending, open_index, done_index, token0));
        }
        acts
    }
}

/// The operations for the event `event`, where the event is not a task
/// change (those are `updated_actions`): a created task the view shows
/// appears at the top of the open list; a deleted task's rows go.
pub open spec fn event_actions(
    sel: SidebarSelection,
    event: CoreEvent,
    today_end: Option<Timestamp>,
    lists: (Seq<i64>, Seq<i64>),
) -> Seq<BoardAction> {
    match event {
        CoreEvent::TaskCreated(task) => if in_view(sel, task, today_end) {
            seq![BoardAction::PushFront(ListId::Open, task)]
        } else {
            seq![]
        },
        CoreEvent::TaskDeleted(id) => remove_if(ListId::Open, row_index(lists.0, id)) + remove_if(
            ListId::Done,
            row_index(lists.1, id),
        ),
        CoreEvent::TaskUpdated(_) => seq![],
    }
}

impl BoardModel {
    /// Follows the core's event `event`, the end of today being `today_end`
    /// (if known).
    pub fn handle_core_event_at(&mut self, event: CoreEvent, today_end: Option<Timestamp>) -> (r: Vec<
        BoardAction,
    >)
        ensures
            final(self).lists() == apply_all(old(self).lists(), r@),
            all_in_range(old(self).lists(), r@),
            final(self).selection == old(self).selection,
            final(self).show_sidebar == old(self).show_sidebar,
            match event {
                CoreEvent::TaskUpdated(task) => {
                    let had = old(self).pending_finalize@.contains_key(task.id);
                    let oi = row_index(old(self).open_ids@, task.id);
                    let di = row_index(old(self).done_ids@, task.id);
                    let token = old(self).next_finalize_token;
                    let sched = updated_schedules(old(self).selection, task, today_end, oi, di);
                    &&& r@ == updated_actions(old(self).selection, task, today_end, had, oi, di, token)
                    &&& final(self).pending_finalize@ == if sched {
                        old(self).pending_finalize@.remove(task.id).insert(task.id, token)
                    } else {
                        old(self).pending_finalize@.remove(task.id)
                    }
                    &&& final(self).next_finalize_token == if sched {
                        next_token(token)
                    } else {
                        token
                    }
                },
                CoreEvent::TaskCreated(_) => {
                    &&& r@ == event_actions(old(self).selection, event, today_end, old(self).lists())
                    &&& final(self).pending_finalize@ == old(self).pending_finalize@
                    &&& final(self).next_finalize_token == old(self).next_finalize_token
                },
                CoreEvent::TaskDeleted(id) => {
                    &&& r@ == event_actions(old(self).selection, event, today_end, old(self).lists())
                    &&& final(self).pending_finalize@ == old(self).pending_finalize@.remove(id)
                    &&& final(self).next_finalize_token == old(self).next_finalize_token
                },
            },
    {
        let ghost start = self.lists();
        let ghost ev = event;
        match event {
            CoreEvent::TaskCreated(task) => {
                let mut acts: Vec<BoardAction> = Vec::new();
                proof {
                    assert(all_in_range(start, acts@));
                }
                if self.view_shows(&task, today_end) {
                    self.act(&mut acts, BoardAction::PushFront(ListId::Open, task), Ghost(start));
                }
                proof {
                    assert(acts@ =~= event_actions(old(self).selection, ev, today_end, start));
                }
                acts
            },
            CoreEvent::TaskUpdated(task) => self.handle_task_updated_at(task, today_end),
            CoreEvent::TaskDeleted(id) => {
                self.pending_finalize.remove(&id);
                let mut acts: Vec<BoardAction> = Vec::new();
                proof {
                    assert(all_in_range(start, acts@));
                }
                let open_index = index_of(&self.open_ids, id);
                let done_index = index_of(&self.done_ids, id);
                if let Some(i) = open_index {
                    self.act(&mut acts, BoardAction::Remove(ListId::Open, i), Ghost(start));
                    proof {
                        lemma_apply_one(start, BoardAction::Remove(ListId::Open, i));
                    }
                }
                if let Some(i) = done_index {
                    self.act(&mut acts, BoardAction::Remove(ListId::Done, i), Ghost(start));
                }
                proof {
                    assert(acts@ =~= event_actions(old(self).selection, ev, today_end, start));
                }
                acts
            },
        }
    }

    /// Follows the core's event `event` at `now`. The end of today is read
    /// from the local time zone (see `today_range_at`); whichever it is, the
    /// board follows the event as `handle_core_event_at` does with it.
    pub fn handle_core_event(&mut self, event: CoreEvent, now: &Timestamp) -> (r: Vec<
        BoardAction,
    >)
        requires
            now.wf(),
        ensures
            final(self).lists() == apply_all(old(self).lists(), r@),
            all_in_range(old(self).lists(), r@),
            final(self).selection == old(self).selection,
            final(self).show_sidebar == old(self).show_sidebar,
            exists|range: Option<(Timestamp, Timestamp)>|
                today_range_outcome(*now, range) && (range_end(range) matches Some(x) ==> x.wf())
                    && #[trigger] event_outcome(
                    *old(self),
                    event,
                    range_end(range),
                    r@,
                    *final(self),
                ),
    {
        let range = today_range_at(now);
        let end = match range {
            Some((_, e)) => Some(e),
            None => None,
        };
        let r = self.handle_core_event_at(event, end);
        assert(end == range_end(range));
        assert(event_outcome(*old(self), event, range_end(range), r@, *self));
        r
    }
}

/// `new` and `r` are the board and the operations after following `event`
/// on the board `old`, the end of today being `today_end`.
pub open spec fn event_outcome(
    old: BoardModel,
    event: CoreEvent,
    today_end: Option<Timestamp>,
    r: Seq<BoardAction>,
    new: BoardModel,
) -> bool {
    &&& new.lists() == apply_all(old.lists(), r)
    &&& match event {
        CoreEvent::TaskUpdated(task) => {
            let had = old.pending_finalize@.contains_key(task.id);
            let oi = row_index(old.open_ids@, task.id);
            let di = row_index(old.done_ids@, task.id);
            let token = old.next_finalize_token;
            let sched = updated_schedules(old.selection, task, today_end, oi, di);
            &&& r == updated_actions(old.selection, task, today_end, had, oi, di, token)
            &&& new.pending_finalize@ == if sched {
                old.pending_finalize@.remove(task.id).insert(task.id, token)
            } else {
                old.pending_finalize@.remove(task.id)
            }
            &&& new.next_finalize_token == if sched {
                next_token(token)
            } else {
                token
            }
        },
        CoreEvent::TaskCreated(_) => {
            &&& r == event_actions(old.selection, event, today_end, old.lists())
            &&& new.pending_finalize@ == old.pending_finalize@
            &&& new.next_finalize_token == old.next_finalize_token
        },
        CoreEvent::TaskDeleted(id) => {
            &&& r == event_actions(old.selection, event, today_end, old.lists())
            &&& new.pending_finalize@ == old.pending_finalize@.remove(id)
            &&& new.next_finalize_token == old.next_finalize_token
        },
    }
}

/// The list a task's row goes to on a refresh: the done list only in the
/// inbox (`split_done`) and only for a done task.
pub open spec fn refresh_list(split_done: bool, t: Task) -> ListId {
    if split_done && t.is_done {
        ListId::Done
    } else {
        ListId::Open
    }
}

/// `new` and `r` are the board and the operations after the delayed step
/// `m` comes due on the board `old`: where its token is still the task's
/// latest, a removal takes the task's rows out and a move takes its row
/// out of the list it leaves and puts one at the top of the other.
pub open spec fn finalize_outcome(
    old: BoardModel,
    m: FinalizeMsg,
    r: Seq<BoardAction>,
    new: BoardModel,
) -> bool {
    let (id, token) = match m {
        FinalizeMsg::Remove { id, token } => (id, token),
        FinalizeMsg::Move { task, token, .. } => (task.id, token),
    };
    let live = old.pending_finalize@.contains_key(id) && old.pending_finalize@[id] == token;
    &&& r == if !live {
        Seq::empty()
    } else {
        match m {
            FinalizeMsg::Remove { .. } => remove_if(ListId::Open, row_index(old.open_ids@, id))
                + remove_if(ListId::Done, row_index(old.done_ids@, id)),
            FinalizeMsg::Move { task, to_done, .. } => {
                let (from, to) = if to_done {
                    (ListId::Open, ListId::Done)
                } else {
                    (ListId::Done, ListId::Open)
                };
                match row_index(list_of(old.lists(), from), id) {
                    Some(i) => seq![BoardAction::Remove(from, i), BoardAction::PushFront(to, task)],
                    None => Seq::empty(),
                }
            },
        }
    }
    &&& new.pending_finalize@ == if live {
        old.pending_finalize@.remove(id)
    } else {
        old.pending_finalize@
    }
    &&& new.lists() == apply_all(old.lists(), r)
    &&& new.next_finalize_token == old.next_finalize_token
    &&& new.selection == old.selection
    &&& new.show_sidebar == old.show_sidebar
}

/// The operations of a refresh with the listing `tasks`: both lists are
/// emptied, then each task gets a row at the bottom of its list, in order.
pub open spec fn refresh_actions(split_done: bool, tasks: Seq<Task>) -> Seq<BoardAction> {
    seq![BoardAction::Clear(ListId::Open), BoardAction::Clear(ListId::Done)] + Seq::new(
        tasks.len(),
        |i: int| BoardAction::PushBack(refresh_list(split_done, tasks[i]), tasks[i]),
    )
}

impl BoardModel {
    /// The delayed removal `token` of task `id` comes due: where it is still
    /// the task's latest delayed step, the task's rows go.
    pub fn handle_finalize_remove(&mut self, id: i64, token: u64) -> (r: Vec<BoardAction>)
        ensures
            finalize_outcome(
                *old(self),
                FinalizeMsg::Remove { id, token },
                r@,
                *final(self),
            ),
            ({
                let live = old(self).pending_finalize@.contains_key(id)
                    && old(self).pending_finalize@[id] == token;
                &&& r@ == if live {
                    remove_if(ListId::Open, row_index(old(self).open_ids@, id)) + remove_if(
                        ListId::Done,
                        row_index(old(self).done_ids@, id),
                    )
                } else {
                    Seq::empty()
                }
                &&& final(self).pending_finalize@ == if live {
                    old(self).pending_finalize@.remove(id)
                } else {
                    old(self).pending_finalize@
                }
            }),
            final(self).lists() == apply_all(old(self).lists(), r@),
            all_in_range(old(self).lists(), r@),
            final(self).next_finalize_token == old(self).next_finalize_token,
            final(self).selection == old(self).selection,
            final(self).show_sidebar == old(self).show_sidebar,
    {
        let ghost start = self.lists();
        let mut acts: Vec<BoardAction> = Vec::new();
        proof {
            assert(all_in_range(start, acts@));
        }
        if !self.claim_finalize(id, token) {
            return acts;
        }
        let open_index = index_of(&self.open_ids, id);
        let done_index = index_of(&self.done_ids, id);
        if let Some(i) = open_index {
            self.act(&mut acts, BoardAction::Remove(ListId::Open, i), Ghost(start));
            proof {
                lemma_apply_one(start, BoardAction::Remove(ListId::Open, i));
            }
        }
        if let Some(i) = done_index {
            self.act(&mut acts, BoardAction::Remove(ListId::Done, i), Ghost(start));
        }
        proof {
            assert(acts@ =~= remove_if(ListId::Open, open_index) + remove_if(ListId::Done, done_index));
        }
        acts
    }

    /// The delayed move `token` of `task` comes due: where it is still the
    /// task's latest delayed step and the task has a row in the list it
    /// leaves, that row goes and a row for the task appears at the top of
    /// the other list.
    pub fn handle_finalize_move(&mut self, task: Task, to_done: bool, token: u64) -> (r: Vec<
        BoardAction,
    >)
        ensures
            finalize_outcome(
                *old(self),
                FinalizeMsg::Move { task, to_done, token },
                r@,
                *final(self),
            ),
            ({
                let live = old(self).pending_finalize@.contains_key(task.id)
                    && old(self).pending_finalize@[task.id] == token;
                let (from, to) = if to_done {
                    (ListId::Open, ListId::Done)
                } else {
                    (ListId::Done, ListId::Open)
                };
                &&& r@ == if live {
                    match row_index(list_of(old(self).lists(), from), task.id) {
                        Some(i) => seq![BoardAction::Remove(from, i), BoardAction::PushFront(to, task)],
                        None => Seq::empty(),
                    }
                } else {
                    Seq::empty()
                }
                &&& final(self).pending_finalize@ == if live {
                    old(self).pending_finalize@.remove(task.id)
                } else {
                    old(self).pending_finalize@
                }
            }),
            final(self).lists() == apply_all(old(self).lists(), r@),
            all_in_range(old(self).lists(), r@),
            final(self).next_finalize_token == old(self).next_finalize_token,
            final(self).selection == old(self).selection,
            final(self).show_sidebar == old(self).show_sidebar,
    {
        let ghost start = self.lists();
        let ghost t0 = task;
        let mut acts: Vec<BoardAction> = Vec::new();
        proof {
            assert(all_in_range(start, acts@));
        }
        if !self.claim_finalize(task.id, token) {
            return acts;
        }
        if to_done {
            if let Some(i) = index_of(&self.open_ids, task.id) {
                self.act(&mut acts, BoardAction::Remove(ListId::Open, i), Ghost(start));
                self.act(&mut acts, BoardAction::PushFront(ListId::Done, task), Ghost(start));
                proof {
                    assert(acts@ =~= seq![BoardAction::Remove(ListId::Open, i), BoardAction::PushFront(ListId::Done, t0)]);
                }
            }
        } else {
            if let Some(i) = index_of(&self.done_ids, task.id) {
                self.act(&mut acts, BoardAction::Remove(ListId::Done, i), Ghost(start));
                self.act(&mut acts, BoardAction::PushFront(ListId::Open, task), Ghost(start));
                proof {
                    assert(acts@ =~= seq![BoardAction::Remove(ListId::Done, i), BoardAction::PushFront(ListId::Open, t0)]);
                }
            }
        }
        acts
    }

    /// Shows the listing `tasks` of the entry being shown: in the inbox done
    /// tasks go to the done list, elsewhere every task goes to the open list.
    pub fn refresh(&mut self, tasks: Vec<Task>) -> (r: Vec<BoardAction>)
        ensures
            r@ == refresh_actions(old(self).selection == SidebarSelection::Inbox, tasks@),
            final(self).lists() == apply_all(old(self).lists(), r@),
            all_in_range(old(self).lists(), r@),
            final(self).pending_finalize == old(self).pending_finalize,
            final(self).next_finalize_token == old(self).next_finalize_token,
            final(self).selection == old(self).selection,
            final(self).show_sidebar == old(self).show_sidebar,
    {
        let ghost start = self.lists();
        let split_done = self.selection == SidebarSelection::Inbox;
        let mut acts: Vec<BoardAction> = Vec::new();
        proof {
            assert(all_in_range(start, acts@));
        }
        self.act(&mut acts, BoardAction::Clear(ListId::Open), Ghost(start));
        self.act(&mut acts, BoardAction::Clear(ListId::Done), Ghost(start));
        let n = tasks.len();
        let mut i: usize = 0;
        while i < n
            invariant
                n == tasks.len(),
                i <= n,
                self.lists() == apply_all(start, acts@),
                all_in_range(start, acts@),
                acts@ =~= refresh_actions(split_done, tasks@.take(i as int)),
                self.pending_finalize == old(self).pending_finalize,
                self.next_finalize_token == old(self).next_finalize_token,
                self.selection == old(self).selection,
                self.show_sidebar == old(self).show_sidebar,
            decreases n - i,
        {
            let t = tasks[i].clone();
            let l = if split_done && t.is_done {
                ListId::Done
            } else {
                ListId::Open
            };
            self.act(&mut acts, BoardAction::PushBack(l, t), Ghost(start));
            proof {
                assert(acts@ =~= refresh_actions(split_done, tasks@.take(i + 1)));
            }
            i = i + 1;
        }
        proof {
            assert(tasks@.take(n as int) =~= tasks@);
        }
        acts
    }

    /// Shows the sidebar entry `selection`; the caller then refreshes.
    pub fn select_view(&mut self, selection: SidebarSelection)
        ensures
            final(self).selection == selection,
            final(self).show_sidebar == old(self).show_sidebar,
            final(self).lists() == old(self).lists(),
            final(self).pending_finalize == old(self).pending_finalize,
            final(self).next_finalize_token == old(self).next_finalize_token,
    {
        self.selection = selection;
    }

    /// Opens or closes the sidebar.
    pub fn toggle_sidebar(&mut self)
        ensures
            final(self).show_sidebar == !old(self).show_sidebar,
            final(self).selection == old(self).selection,
            final(self).lists() == old(self).lists(),
            final(self).pending_finalize == old(self).pending_finalize,
            final(self).next_finalize_token == old(self).next_finalize_token,
            sidebar_toggled(*old(self), *final(self)),
    {
        self.show_sidebar = !self.show_sidebar;
    }
}

/// `new` is `old` with the sidebar opened or closed and nothing else changed.
pub open spec fn sidebar_toggled(old: BoardModel, new: BoardModel) -> bool {
    &&& new.show_sidebar == !old.show_sidebar
    &&& new.selection == old.selection
    &&& new.lists() == old.lists()
    &&& new.pending_finalize == old.pending_finalize
    &&& new.next_finalize_token == old.next_finalize_token
}

/// Opening or closing the sidebar twice in a row gives the board back as it
/// was: the sidebar, the selection, both lists and the delayed steps.
pub proof fn lemma_toggle_sidebar_twice(b0: BoardModel, b1: BoardModel, b2: BoardModel)
    requires
        sidebar_toggled(b0, b1),
        sidebar_toggled(b1, b2),
    ensures
        b2.show_sidebar == b0.show_sidebar,
        b2.selection == b0.selection,
        b2.lists() == b0.lists(),
        b2.pending_finalize == b0.pending_finalize,
        b2.next_finalize_token == b0.next_finalize_token,
{
}

/// A delayed step can be claimed once, with the token it was given: right
/// after `schedule_finalize` gives task `id` the token `t`, claiming `t`
/// succeeds, and claiming it again fails.
pub proof fn lemma_claim_once(pending: Map<i64, u64>, id: i64, t: u64)
    ensures
        pending.insert(id, t).contains_key(id) && pending.insert(id, t)[id] == t,
        !pending.insert(id, t).remove(id).contains_key(id),
{
}

/// A newer delayed step of a task voids the older one: after two steps
/// scheduled in a row for task `id`, the first token no longer claims.
pub proof fn lemma_newer_step_wins(pending: Map<i64, u64>, id: i64, t: u64)
    ensures
        next_token(t) != t,
        pending.insert(id, t).insert(id, next_token(t))[id] != t,
{
}

/// `id` occurs at most once in `s`.
pub open spec fn at_most_once(s: Seq<i64>, id: i64) -> bool {
    forall|i: int, j: int| 0 <= i < s.len() && 0 <= j < s.len() && s[i] == id && s[j] == id ==> i == j
}

/// After a deleted task's event, neither list has a row for it, where each
/// list had at most one.
pub proof fn lemma_deleted_task_leaves(
    sel: SidebarSelection,
    id: i64,
    today_end: Option<Timestamp>,
    lists: (Seq<i64>, Seq<i64>),
)
    requires
        lists.0.len() <= usize::MAX,
        lists.1.len() <= usize::MAX,
        at_most_once(lists.0, id),
        at_most_once(lists.1, id),
    ensures
        !apply_all(lists, event_actions(sel, CoreEvent::TaskDeleted(id), today_end, lists)).0.contains(id),
        !apply_all(lists, event_actions(sel, CoreEvent::TaskDeleted(id), today_end, lists)).1.contains(id),
{
    let a = remove_if(ListId::Open, row_index(lists.0, id));
    let b = remove_if(ListId::Done, row_index(lists.1, id));
    lemma_apply_all_append(lists, a, b);
    lemma_position(lists.0, id);
    lemma_position(lists.1, id);
    let mid = apply_all(lists, a);
    match row_index(lists.0, id) {
        Some(i) => {
            lemma_apply_one(lists, BoardAction::Remove(ListId::Open, i));
            let r = lists.0.remove(i as int);
            assert forall|k: int| 0 <= k < r.len() implies r[k] != id by {
                if k < i {
                    assert(r[k] == lists.0[k]);
                } else {
                    assert(r[k] == lists.0[k + 1]);
                    assert(lists.0[i as int] == id);
                    assert(0 <= k + 1 < lists.0.len());
                }
            }
        },
        None => {
            assert(apply_all(lists, Seq::<BoardAction>::empty()) == lists);
        },
    }
    assert(mid.1 == lists.1);
    assert(!mid.0.contains(id));
    match row_index(lists.1, id) {
        Some(j) => {
            lemma_apply_one(mid, BoardAction::Remove(ListId::Done, j));
            let r = lists.1.remove(j as int);
            assert forall|k: int| 0 <= k < r.len() implies r[k] != id by {
                if k < j {
                    assert(r[k] == lists.1[k]);
                } else {
                    assert(r[k] == lists.1[k + 1]);
                    assert(lists.1[j as int] == id);
                    assert(0 <= k + 1 < lists.1.len());
                }
            }
        },
        None => {
            assert(apply_all(mid, Seq::<BoardAction>::empty()) == mid);
        },
    }
}

/// The ids of the tasks of `tasks` whose rows a refresh puts in list `l`,
/// in order.
pub open spec fn refresh_ids(split_done: bool, tasks: Seq<Task>, l: ListId) -> Seq<i64> {
    tasks.filter(|t: Task| refresh_list(split_done, t) == l).map_values(|t: Task| t.id)
}

/// After a refresh the lists hold exactly the listing's tasks, in the
/// listing's order: in the inbox the open tasks in the open list and the
/// done ones in the done list; elsewhere all of them in the open list.
pub proof fn lemma_refresh_lists(split_done: bool, lists: (Seq<i64>, Seq<i64>), tasks: Seq<Task>)
    ensures
        apply_all(lists, refresh_actions(split_done, tasks)) == (
            refresh_ids(split_done, tasks, ListId::Open),
            refresh_ids(split_done, tasks, ListId::Done),
        ),
        !split_done ==> refresh_ids(split_done, tasks, ListId::Done).len() == 0,
    decreases tasks.len(),
{
    let open_pred = |t: Task| refresh_list(split_done, t) == ListId::Open;
    let done_pred = |t: Task| refresh_list(split_done, t) == ListId::Done;
    if tasks.len() == 0 {
        let clears = seq![BoardAction::Clear(ListId::Open), BoardAction::Clear(ListId::Done)];
        assert(refresh_actions(split_done, tasks) =~= clears);
        lemma_apply_all_append(lists, seq![BoardAction::Clear(ListId::Open)], seq![BoardAction::Clear(ListId::Done)]);
        assert(seq![BoardAction::Clear(ListId::Open)] + seq![BoardAction::Clear(ListId::Done)] =~= clears);
        lemma_apply_one(lists, BoardAction::Clear(ListId::Open));
        lemma_apply_one(apply_action(lists, BoardAction::Clear(ListId::Open)), BoardAction::Clear(ListId::Done));
        assert(tasks.filter(open_pred) =~= Seq::<Task>::empty()) by {
            reveal_with_fuel(Seq::filter, 1);
        }
        assert(tasks.filter(done_pred) =~= Seq::<Task>::empty()) by {
            reveal_with_fuel(Seq::filter, 1);
        }
        assert(refresh_ids(split_done, tasks, ListId::Open) =~= Seq::<i64>::empty());
        assert(refresh_ids(split_done, tasks, ListId::Done) =~= Seq::<i64>::empty());
    } else {
        let init = tasks.drop_last();
        let t = tasks.last();
        let l = refresh_list(split_done, t);
        lemma_refresh_lists(split_done, lists, init);
        assert(init.push(t) =~= tasks);
        let step = seq![BoardAction::PushBack(l, t)];
        assert(refresh_actions(split_done, tasks) =~= refresh_actions(split_done, init) + step);
        lemma_apply_all_append(lists, refresh_actions(split_done, init), step);
        lemma_apply_one(apply_all(lists, refresh_actions(split_done, init)), BoardAction::PushBack(l, t));
        init.lemma_filter_push(t, open_pred);
        init.lemma_filter_push(t, done_pred);
        assert(init.filter(open_pred).push(t).map_values(|t: Task| t.id) =~= init.filter(open_pred).map_values(|t: Task| t.id).push(t.id));
        assert(init.filter(done_pred).push(t).map_values(|t: Task| t.id) =~= init.filter(done_pred).map_values(|t: Task| t.id).push(t.id));
    }
}

/// Operations that only talk to rows or schedule steps leave the lists as
/// they are.
proof fn lemma_rows_untouched(lists: (Seq<i64>, Seq<i64>), acts: Seq<BoardAction>)
    requires
        forall|k: int| 0 <= k < acts.len() ==> (#[trigger] acts[k] is Send || acts[k] is Schedule),
    ensures
        apply_all(lists, acts) == lists,
    decreases acts.len(),
{
    if acts.len() > 0 {
        assert(acts[0] is Send || acts[0] is Schedule);
        assert forall|k: int| 0 <= k < acts.drop_first().len() implies (#[trigger] acts.drop_first()[k] is Send
            || acts.drop_first()[k] is Schedule) by {
            assert(acts.drop_first()[k] == acts[k + 1]);
        }
        lemma_rows_untouched(lists, acts.drop_first());
    }
}

/// Taking out the one row of `id` leaves no row of it.
proof fn lemma_remove_only(s: Seq<i64>, id: i64)
    requires
        at_most_once(s, id),
        position(s, id) is Some,
    ensures
        !s.remove(position(s, id).unwrap()).contains(id),
{
    lemma_position(s, id);
    let i = position(s, id).unwrap();
    let t = s.remove(i);
    if t.contains(id) {
        let k = choose|k: int| 0 <= k < t.len() && t[k] == id;
        if k < i {
            assert(t[k] == s[k]);
        } else {
            assert(t[k] == s[k + 1]);
            assert(s[i] == id);
            assert(0 <= k + 1 < s.len());
        }
    }
}

/// In the inbox a changed task settles in the list that matches it: after
/// the board follows the change and the delayed step it scheduled (if
/// any) comes due, an open task's row is in the open list and not in the
/// done list, and a done task's row is in the done list and not in the
/// open list. (The task had at most one row to start with.)
pub proof fn lemma_inbox_update_settles(
    b0: BoardModel,
    task: Task,
    today_end: Option<Timestamp>,
    r1: Seq<BoardAction>,
    b1: BoardModel,
    r2: Seq<BoardAction>,
    b2: BoardModel,
)
    requires
        b0.selection == SidebarSelection::Inbox,
        at_most_once(b0.open_ids@, task.id),
        at_most_once(b0.done_ids@, task.id),
        !(b0.open_ids@.contains(task.id) && b0.done_ids@.contains(task.id)),
        updated_outcome(b0, task, today_end, r1, b1),
        forall|m: FinalizeMsg| #[trigger] r1.contains(BoardAction::Schedule(m)) ==> finalize_outcome(b1, m, r2, b2),
        (forall|m: FinalizeMsg| !#[trigger] r1.contains(BoardAction::Schedule(m))) ==> b2.lists() == b1.lists(),
    ensures
        !task.is_done ==> b2.open_ids@.contains(task.id) && !b2.done_ids@.contains(task.id),
        task.is_done ==> b2.done_ids@.contains(task.id) && !b2.open_ids@.contains(task.id),
{
    let id = task.id;
    let open = b0.open_ids@;
    let done = b0.done_ids@;
    let had = b0.pending_finalize@.contains_key(id);
    let oi = row_index(open, id);
    let di = row_index(done, id);
    let token = b0.next_finalize_token;
    lemma_position(open, id);
    lemma_position(done, id);
    assert(open.len() == b0.open_ids.len() && done.len() == b0.done_ids.len());
    assert(in_view(SidebarSelection::Inbox, task, today_end));
    let shown_again = if had {
        send_if(ListId::Open, oi, TaskRowInput::SetRevealed(true)) + send_if(
            ListId::Done,
            di,
            TaskRowInput::SetRevealed(true),
        )
    } else {
        seq![]
    };
    assert(forall|k: int| 0 <= k < shown_again.len() ==> (#[trigger] shown_again[k] is Send));
    lemma_rows_untouched(b0.lists(), shown_again);
    let rest = r1.subrange(shown_again.len() as int, r1.len() as int);
    assert(r1 =~= shown_again + rest);
    lemma_apply_all_append(b0.lists(), shown_again, rest);
    assert(b1.lists() == apply_all(b0.lists(), rest));
    if oi is Some && task.is_done || oi is None && di is Some && !task.is_done {
        // The row fades out and a move is scheduled.
        let (from, to) = if task.is_done {
            (ListId::Open, ListId::Done)
        } else {
            (ListId::Done, ListId::Open)
        };
        let m = FinalizeMsg::Move { task, to_done: task.is_done, token };
        assert(rest.len() == 2 && rest[1] == BoardAction::Schedule(m));
        assert(r1[r1.len() - 1] == BoardAction::Schedule(m));
        assert(r1.contains(BoardAction::Schedule(m)));
        assert(finalize_outcome(b1, m, r2, b2));
        lemma_rows_untouched(b0.lists(), rest);
        assert(b1.lists() == b0.lists());
        assert(b1.pending_finalize@.contains_key(id) && b1.pending_finalize@[id] == token);
        let s = list_of(b0.lists(), from);
        let i = position(s, id).unwrap();
        assert(r2 == seq![BoardAction::Remove(from, i as usize), BoardAction::PushFront(to, task)]);
        assert(apply_all(b0.lists(), r2) == apply_action(apply_action(b0.lists(), r2[0]), r2[1])) by {
            assert(r2.drop_first() =~= seq![BoardAction::PushFront(to, task)]);
            lemma_apply_one(apply_action(b0.lists(), r2[0]), BoardAction::PushFront(to, task));
        }
        lemma_remove_only(s, id);
        if task.is_done {
            assert(b2.done_ids@ == seq![id] + done);
            assert(b2.done_ids@[0] == id);
            assert(b2.open_ids@ == open.remove(i));
        } else {
            assert(b2.open_ids@ == seq![id] + open);
            assert(b2.open_ids@[0] == id);
            assert(b2.done_ids@ == done.remove(i));
        }
    } else {
        assert forall|m: FinalizeMsg| !#[trigger] r1.contains(BoardAction::Schedule(m)) by {
            if r1.contains(BoardAction::Schedule(m)) {
                let k = choose|k: int| 0 <= k < r1.len() && r1[k] == BoardAction::Schedule(m);
                if k < shown_again.len() {
                    assert(shown_again[k] is Send);
                } else {
                    assert(rest[k - shown_again.len()] == r1[k]);
                }
            }
        }
        assert(b2.lists() == b1.lists());
        if oi is Some || di is Some {
            assert(rest.len() == 1 && rest[0] is Send);
            lemma_rows_untouched(b0.lists(), rest);
            if oi is Some {
                assert(open[position(open, id).unwrap()] == id);
            } else {
                assert(done[position(done, id).unwrap()] == id);
            }
        } else {
            let l = if task.is_done {
                ListId::Done
            } else {
                ListId::Open
            };
            assert(rest =~= seq![BoardAction::PushFront(l, task)]);
            lemma_apply_one(b0.lists(), BoardAction::PushFront(l, task));
            if task.is_done {
                assert(b2.done_ids@[0] == id);
            } else {
                assert(b2.open_ids@[0] == id);
            }
        }
    }
}

} // verus!
