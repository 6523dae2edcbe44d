//! Change events that the core publishes to its subscribers.
use crate::task::Task;
use std::sync::mpsc::{Receiver, Sender};
use vstd::prelude::*;

verus! {

/// A change to the stored tasks.
#[derive(Debug, PartialEq, Eq)]
pub enum CoreEvent {
    TaskCreated(Task),
    TaskUpdated(Task),
    TaskDeleted(i64),
}

impl Clone for CoreEvent {
    fn clone(&self) -> (r: CoreEvent)
        ensures
            r == *self,
    {
        match self {
            CoreEvent::TaskCreated(t) => CoreEvent::TaskCreated(t.clone()),
            CoreEvent::TaskUpdated(t) => CoreEvent::TaskUpdated(t.clone()),
            CoreEvent::TaskDeleted(id) => CoreEvent::TaskDeleted(*id),
        }
    }
}

/// The event for a task that was added (or duplicated).
pub fn created_event(task: &Task) -> (r: CoreEvent)
    ensures
        r == CoreEvent::TaskCreated(*task),
{
    CoreEvent::TaskCreated(task.clone())
}

/// The event after an update: one only where the store changed a task.
pub fn update_event(updated: bool, task: &Task) -> (r: Option<CoreEvent>)
    ensures
        r == (if updated {
            Some(CoreEvent::TaskUpdated(*task))
        } else {
            None
        }),
{
    if updated {
        Some(CoreEvent::TaskUpdated(task.clone()))
    } else {
        None
    }
}

/// The event after a toggle: one only where the store held the task.
pub fn toggle_event(toggled: &Option<Task>) -> (r: Option<CoreEvent>)
    ensures
        r == (match toggled {
            Some(t) => Some(CoreEvent::TaskUpdated(*t)),
            None => None,
        }),
{
    match toggled {
        Some(t) => Some(CoreEvent::TaskUpdated(t.clone())),
        None => None,
    }
}

/// The event after a delete: one only where the store removed a task.
pub fn delete_event(deleted: bool, id: i64) -> (r: Option<CoreEvent>)
    ensures
        r == (if deleted {
            Some(CoreEvent::TaskDeleted(id))
        } else {
            None
        }),
{
    if deleted {
        Some(CoreEvent::TaskDeleted(id))
    } else {
        None
    }
}

#[verifier::external_type_specification]
#[verifier::external_body]
#[verifier::reject_recursive_types(T)]
pub struct ExSender<T>(std::sync::mpsc::Sender<T>);

#[verifier::external_type_specification]
#[verifier::external_body]
#[verifier::reject_recursive_types(T)]
pub struct ExReceiver<T>(std::sync::mpsc::Receiver<T>);

/// A new channel for events, through `std::sync::mpsc::channel`. Nothing is
/// claimed of the two ends beyond their types.
#[verifier::external_body]
fn open_channel() -> (r: (Sender<CoreEvent>, Receiver<CoreEvent>)) {
    std::sync::mpsc::channel()
}

/// Sends `event` through `sub` with `Sender::send`; whether it arrives
/// depends on whether the receiving end still exists, so nothing is claimed
/// of the answer: `true` where the send succeeded.
#[verifier::external_body]
fn deliver(sub: &Sender<CoreEvent>, event: CoreEvent) -> (r: bool) {
    sub.send(event).is_ok()
}

/// The items of `s` whose mark in `keep` is set, in order.
pub open spec fn kept<A>(s: Seq<A>, keep: Seq<bool>) -> Seq<A>
    decreases s.len(),
{
    if s.len() == 0 || keep.len() != s.len() {
        Seq::empty()
    } else {
        kept(s.drop_last(), keep.drop_last()) + if keep.last() {
            seq![s.last()]
        } else {
            Seq::empty()
        }
    }
}

/// The subscribers to the core's events.
pub struct EventBus {
    subscribers: Vec<Sender<CoreEvent>>,
    /// Every hand-over so far: the subscriber and the event given to it to
    /// send, in order.
    sent: Ghost<Seq<(Sender<CoreEvent>, CoreEvent)>>,
}

/// The hand-overs of one event to each of `subs`, in order.
pub open spec fn hand_overs(subs: Seq<Sender<CoreEvent>>, event: CoreEvent) -> Seq<
    (Sender<CoreEvent>, CoreEvent),
> {
    subs.map_values(|s: Sender<CoreEvent>| (s, event))
}

impl EventBus {
    /// The subscribers, in the order they subscribed.
    pub closed spec fn subscribers(&self) -> Seq<Sender<CoreEvent>> {
        self.subscribers@
    }

    /// Every event handed to a subscriber to send, with that subscriber, in
    /// the order of the hand-overs.
    pub closed spec fn sent_log(&self) -> Seq<(Sender<CoreEvent>, CoreEvent)> {
        self.sent@
    }

    /// A bus without subscribers, which has sent nothing.
    pub fn new() -> (r: EventBus)
        ensures
            r.subscribers().len() == 0,
            r.sent_log().len() == 0,
    {
        EventBus { subscribers: Vec::new(), sent: Ghost(Seq::empty()) }
    }

    /// Adds a subscriber at the end and hands back its receiving end.
    pub fn subscribe(&mut self) -> (r: Receiver<CoreEvent>)
        ensures
            final(self).subscribers().len() == old(self).subscribers().len() + 1,
            final(self).subscribers().take(old(self).subscribers().len() as int) == old(
                self,
            ).subscribers(),
            final(self).sent_log() == old(self).sent_log(),
    {
        let (tx, rx) = open_channel();
        self.subscribers.push(tx);
        proof {
            assert(self.subscribers@.take(old(self).subscribers@.len() as int) =~= old(
                self,
            ).subscribers@);
        }
        rx
    }

    /// Sends a copy of `event` to every subscriber, in order. A subscriber
    /// whose send fails (its receiving end is gone) is dropped; the others
    /// stay, in order.
    pub fn publish(&mut self, event: &CoreEvent)
        ensures
            final(self).sent_log() == old(self).sent_log() + hand_overs(
                old(self).subscribers(),
                *event,
            ),
            exists|delivered: Seq<bool>|
                delivered.len() == old(self).subscribers().len() && final(self).subscribers()
                    == #[trigger] kept(old(self).subscribers(), delivered),
    {
        let mut subs: Vec<Sender<CoreEvent>> = Vec::new();
        std::mem::swap(&mut subs, &mut self.subscribers);
        let ghost start = self.sent@;
        let mut delivered: Vec<bool> = Vec::new();
        let mut i: usize = 0;
        while i < subs.len()
            invariant
                subs@ == old(self).subscribers(),
                i <= subs@.len(),
                delivered@.len() == i,
                self.sent@ == start + hand_overs(subs@.take(i as int), *event),
            decreases subs@.len() - i,
        {
            let copy = event.clone();
            proof {
                assert(subs@.take(i + 1) =~= subs@.take(i as int).push(subs@[i as int]));
                assert(hand_overs(subs@.take(i + 1), *event) =~= hand_overs(
                    subs@.take(i as int),
                    *event,
                ).push((subs@[i as int], copy)));
                self.sent@ = self.sent@.push((subs@[i as int], copy));
            }
            let ok = deliver(&subs[i], copy);
            delivered.push(ok);
            i = i + 1;
        }
        proof {
            assert(subs@.take(i as int) =~= subs@);
        }
        let ghost outcomes = delivered@;
        self.subscribers = kept_subscribers(subs, delivered);
        assert(outcomes.len() == old(self).subscribers().len() && self.subscribers() == kept(
            old(self).subscribers(),
            outcomes,
        ));
    }
}

/// The subscribers of `subs` whose send succeeded (their mark in
/// `delivered` is set), in order.
pub fn kept_subscribers(subs: Vec<Sender<CoreEvent>>, delivered: Vec<bool>) -> (r: Vec<
    Sender<CoreEvent>,
>)
    requires
        subs@.len() == delivered@.len(),
    ensures
        r@ == kept(subs@, delivered@),
{
    let ghost all = subs@;
    let mut rest = subs;
    let mut r: Vec<Sender<CoreEvent>> = Vec::new();
    let mut i: usize = 0;
    while rest.len() > 0
        invariant
            all.len() == delivered.len(),
            i + rest@.len() == all.len(),
            rest@ == all.subrange(i as int, all.len() as int),
            r@ == kept(all.take(i as int), delivered@.take(i as int)),
        decreases rest@.len(),
    {
        let sub = rest.remove(0);
        let ok = delivered[i];
        proof {
            assert(all.take(i + 1).drop_last() =~= all.take(i as int));
            assert(delivered@.take(i + 1).drop_last() =~= delivered@.take(i as int));
            assert(all.take(i + 1).last() == sub);
            assert(delivered@.take(i + 1).last() == ok);
        }
        if ok {
            r.push(sub);
        }
        proof {
            assert(rest@ =~= all.subrange(i + 1, all.len() as int));
        }
        i = i + 1;
    }
    proof {
        assert(all.take(i as int) =~= all);
        assert(delivered@.take(i as int) =~= delivered@);
    }
    r
}

} // verus!
