use std::collections::VecDeque;
use vstd::prelude::*;

use crate::status::query::TerminalState;

verus! {

/// Terminal events that are pushed to the AI agent
#[derive(Debug, Clone)]
pub enum TerminalEvent {
    CommandFinished { exit_code: i32 },
    WaitingForInput,
    Bell,
    ProcessStateChanged { old: TerminalState, new: TerminalState },
    ScreenChanged { changed_rows: Vec<usize> },
}

/// The mathematical form of an event: the changed rows as a sequence.
pub enum EventView {
    CommandFinished { exit_code: i32 },
    WaitingForInput,
    Bell,
    ProcessStateChanged { old: TerminalState, new: TerminalState },
    ScreenChanged { changed_rows: Seq<usize> },
}

impl View for TerminalEvent {
    type V = EventView;

    open spec fn view(&self) -> EventView {
        match self {
            TerminalEvent::CommandFinished { exit_code } => EventView::CommandFinished { exit_code: *exit_code },
            TerminalEvent::WaitingForInput => EventView::WaitingForInput,
            TerminalEvent::Bell => EventView::Bell,
            TerminalEvent::ProcessStateChanged { old, new } => EventView::ProcessStateChanged {
                old: *old,
                new: *new,
            },
            TerminalEvent::ScreenChanged { changed_rows } => EventView::ScreenChanged {
                changed_rows: changed_rows@,
            },
        }
    }
}

/// The views of a list of events.
pub open spec fn events_view(events: Seq<TerminalEvent>) -> Seq<EventView> {
    events.map_values(|e: TerminalEvent| e@)
}

/// Event queue per terminal instance
pub struct EventQueue {
    events: VecDeque<TerminalEvent>,
    max_capacity: usize,
}

/// The most events a queue made with capacity `cap` ever holds: `cap`, and
/// one for a queue made with none (it still keeps the latest event).
pub open spec fn event_bound(cap: nat) -> nat {
    if cap == 0 { 1 } else { cap }
}

/// The queue after an event arrives: when it already holds `cap` events or
/// more, the oldest is dropped, then the new one is appended.
pub open spec fn pushed(q: Seq<EventView>, cap: nat, e: EventView) -> Seq<EventView> {
    (if q.len() >= cap && q.len() > 0 { q.drop_first() } else { q }).push(e)
}

/// The queue after the events `es` arrive one by one.
pub open spec fn pushed_all(q: Seq<EventView>, cap: nat, es: Seq<EventView>) -> Seq<EventView>
    decreases es.len(),
{
    if es.len() == 0 {
        q
    } else {
        pushed(pushed_all(q, cap, es.drop_last()), cap, es.last())
    }
}

impl View for EventQueue {
    type V = Seq<EventView>;

    /// The queued events, oldest first.
    closed spec fn view(&self) -> Seq<EventView> {
        events_view(self.events@)
    }
}

impl EventQueue {
    /// The capacity the queue was made with.
    pub closed spec fn capacity(&self) -> nat {
        self.max_capacity as nat
    }

    /// The queue holds at most `event_bound(capacity)` events.
    pub closed spec fn wf(&self) -> bool {
        self.events@.len() <= event_bound(self.max_capacity as nat)
    }

    pub fn new(max_capacity: usize) -> (q: Self)
        ensures
            q.wf(),
            q@ == Seq::<EventView>::empty(),
            q.capacity() == max_capacity,
    {
        Self { events: VecDeque::new(), max_capacity }
    }

    pub fn push(&mut self, event: TerminalEvent)
        requires
            old(self).wf(),
        ensures
            final(self).wf(),
            final(self)@ == pushed(old(self)@, old(self).capacity(), event@),
            final(self).capacity() == old(self).capacity(),
            final(self)@.len() <= event_bound(final(self).capacity()),
    {
        let ghost before = self.events@;
        if self.events.len() >= self.max_capacity {
            let _ = self.events.pop_front();
        }
        let ghost mid = self.events@;
        self.events.push_back(event);
        assert(events_view(mid) =~= (if before.len() >= self.max_capacity && before.len() > 0 {
            events_view(before).drop_first()
        } else {
            events_view(before)
        }));
        assert(events_view(self.events@) =~= events_view(mid).push(event@));
    }

    pub fn drain(&mut self) -> (events: Vec<TerminalEvent>)
        ensures
            final(self).wf(),
            events_view(events@) == old(self)@,
            final(self)@ == Seq::<EventView>::empty(),
            final(self).capacity() == old(self).capacity(),
    {
        let mut out: Vec<TerminalEvent> = Vec::new();
        let ghost all = self.events@;
        while self.events.len() > 0
            invariant
                out@ + self.events@ == all,
                self.max_capacity == old(self).max_capacity,
            decreases self.events@.len(),
        {
            let e = self.events.pop_front().unwrap();
            out.push(e);
            assert(out@ + self.events@ =~= all);
        }
        assert(out@ =~= all);
        out
    }

    pub fn len(&self) -> (n: usize)
        ensures
            n == self@.len(),
            self.wf() ==> n <= event_bound(self.capacity()),
    {
        self.events.len()
    }

    pub fn is_empty(&self) -> (b: bool)
        ensures
            b == (self@.len() == 0),
    {
        self.events.len() == 0
    }
}

impl Default for EventQueue {
    fn default() -> (q: Self)
        ensures
            q.wf(),
            q@ == Seq::<EventView>::empty(),
            q.capacity() == 100,
    {
        Self::new(100)
    }
}

/// Arrival keeps the queue within its bound, keeps the newest events in
/// the order they came, and ends with the event that just arrived.
pub proof fn lemma_push_keeps_recent(q: Seq<EventView>, cap: nat, e: EventView)
    requires
        q.len() <= event_bound(cap),
    ensures
        pushed(q, cap, e).len() <= event_bound(cap),
        pushed(q, cap, e).last() == e,
        pushed(q, cap, e) == q.push(e).subrange(
            q.push(e).len() - pushed(q, cap, e).len(),
            q.push(e).len() as int,
        ),
        q.len() < cap ==> pushed(q, cap, e) == q.push(e),
{
    let p = pushed(q, cap, e);
    let full = q.push(e);
    assert(p =~= full.subrange(full.len() - p.len(), full.len() as int));
}

/// The last `k` items of `s` (all of them when there are fewer).
pub open spec fn keep_last(s: Seq<EventView>, k: nat) -> Seq<EventView> {
    if s.len() <= k {
        s
    } else {
        s.subrange(s.len() - k, s.len() as int)
    }
}

/// The queue is a ring buffer: after any events arrive, it holds exactly
/// the most recent ones, as many as its bound allows, oldest first; in
/// particular, below the bound nothing is lost.
pub proof fn lemma_queue_keeps_latest(q: Seq<EventView>, cap: nat, es: Seq<EventView>)
    requires
        q.len() <= event_bound(cap),
    ensures
        pushed_all(q, cap, es) == keep_last(q + es, event_bound(cap)),
        (q + es).len() <= event_bound(cap) ==> pushed_all(q, cap, es) == q + es,
    decreases es.len(),
{
    let b = event_bound(cap);
    if es.len() == 0 {
        assert(q + es =~= q);
    } else {
        let prev = es.drop_last();
        let e = es.last();
        lemma_queue_keeps_latest(q, cap, prev);
        let p = keep_last(q + prev, b);
        assert(q + es =~= (q + prev).push(e));
        let all = (q + prev).push(e);
        if (q + prev).len() < b {
            assert(p == q + prev);
            assert(pushed(p, cap, e) =~= keep_last(all, b));
        } else {
            assert(p.len() == b);
            assert(pushed(p, cap, e) =~= keep_last(all, b));
        }
    }
}

} // verus!
