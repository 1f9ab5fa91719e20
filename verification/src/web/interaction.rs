use std::collections::VecDeque;
use vstd::prelude::*;

use crate::manager::instance::text_view;

verus! {

/// A single agent interaction entry (tool call); the time is given in
/// RFC 3339 and the parameters as JSON text.
#[derive(Debug)]
pub struct InteractionEntry {
    pub timestamp: String,
    pub tool: String,
    pub terminal_id: Option<String>,
    pub params: String,
    pub success: bool,
    pub summary: Option<String>,
}

/// The mathematical form of an entry.
pub struct EntryView {
    pub timestamp: Seq<char>,
    pub tool: Seq<char>,
    pub terminal_id: Option<Seq<char>>,
    pub params: Seq<char>,
    pub success: bool,
    pub summary: Option<Seq<char>>,
}

impl View for InteractionEntry {
    type V = EntryView;

    open spec fn view(&self) -> EntryView {
        EntryView {
            timestamp: self.timestamp@,
            tool: self.tool@,
            terminal_id: text_view(self.terminal_id),
            params: self.params@,
            success: self.success,
            summary: text_view(self.summary),
        }
    }
}

pub open spec fn entries_view(es: Seq<InteractionEntry>) -> Seq<EntryView> {
    es.map_values(|e: InteractionEntry| e@)
}

/// The log after an entry arrives: when it already holds `cap` entries or
/// more, the oldest is dropped, then the new one is appended.
pub open spec fn logged(q: Seq<EntryView>, cap: nat, e: EntryView) -> Seq<EntryView> {
    (if q.len() >= cap && q.len() > 0 { q.drop_first() } else { q }).push(e)
}

/// The last `n` entries of a log (all of them when there are fewer).
pub open spec fn last_entries(q: Seq<EntryView>, n: nat) -> Seq<EntryView> {
    if n >= q.len() { q } else { q.subrange(q.len() - n, q.len() as int) }
}

/// The log keeps the latest entries: after an entry arrives it holds at
/// most `cap` entries (for a capacity of at least one), ends with the new
/// entry, and is what came before followed by the new entry with the
/// oldest left out as needed; below capacity nothing is left out. The last
/// `n` entries are `n` of them, or all when there are fewer, in order.
pub proof fn lemma_log_keeps_latest(q: Seq<EntryView>, cap: nat, e: EntryView, n: nat)
    requires
        cap >= 1,
        q.len() <= cap,
    ensures
        ({
            let l = logged(q, cap, e);
            let all = q.push(e);
            &&& l.len() <= cap
            &&& l.last() == e
            &&& l == all.subrange(all.len() - l.len(), all.len() as int)
            &&& q.len() < cap ==> l == all
        }),
        last_entries(q, n).len() == (if n <= q.len() { n } else { q.len() }),
        last_entries(q, n) == q.subrange(q.len() - last_entries(q, n).len(), q.len() as int),
{
    let l = logged(q, cap, e);
    let all = q.push(e);
    assert(l =~= all.subrange(all.len() - l.len(), all.len() as int));
    assert(q.subrange(0, q.len() as int) =~= q);
}

fn clone_text(t: &Option<String>) -> (r: Option<String>)
    ensures
        text_view(r) == text_view(*t),
{
    match t {
        Some(s) => Some(s.clone()),
        None => None,
    }
}

fn clone_entry(e: &InteractionEntry) -> (r: InteractionEntry)
    ensures
        r@ == e@,
{
    InteractionEntry {
        timestamp: e.timestamp.clone(),
        tool: e.tool.clone(),
        terminal_id: clone_text(&e.terminal_id),
        params: e.params.clone(),
        success: e.success,
        summary: clone_text(&e.summary),
    }
}

/// Ring-buffer log of agent interactions
pub struct InteractionLog {
    entries: VecDeque<InteractionEntry>,
    max_capacity: usize,
}

impl View for InteractionLog {
    type V = Seq<EntryView>;

    /// The logged entries, oldest first.
    closed spec fn view(&self) -> Seq<EntryView> {
        entries_view(self.entries@)
    }
}

impl InteractionLog {
    /// The capacity the log was made with.
    pub closed spec fn capacity(&self) -> nat {
        self.max_capacity as nat
    }

    pub fn new(max_capacity: usize) -> (log: Self)
        ensures
            log@ == Seq::<EntryView>::empty(),
            log.capacity() == max_capacity,
    {
        let log = Self { entries: VecDeque::new(), max_capacity };
        assert(log@ =~= Seq::<EntryView>::empty());
        log
    }

    pub fn push(&mut self, entry: InteractionEntry)
        ensures
            final(self)@ == logged(old(self)@, old(self).capacity(), entry@),
            final(self).capacity() == old(self).capacity(),
    {
        let ghost before = self.entries@;
        if self.entries.len() >= self.max_capacity {
            let _ = self.entries.pop_front();
        }
        let ghost mid = self.entries@;
        self.entries.push_back(entry);
        assert(entries_view(mid) =~= (if before.len() >= self.max_capacity && before.len() > 0 {
            entries_view(before).drop_first()
        } else {
            entries_view(before)
        }));
        assert(entries_view(self.entries@) =~= entries_view(mid).push(entry@));
    }

    /// The last `n` entries, oldest first.
    pub fn recent(&self, n: usize) -> (r: Vec<InteractionEntry>)
        ensures
            entries_view(r@) == last_entries(self@, n as nat),
    {
        let len = self.entries.len();
        let skip = len.saturating_sub(n);
        let mut r: Vec<InteractionEntry> = Vec::new();
        let mut i = skip;
        while i < len
            invariant
                skip <= i <= len,
                len == self.entries@.len(),
                entries_view(r@) == entries_view(self.entries@).subrange(skip as int, i as int),
            decreases len - i,
        {
            let e = clone_entry(&self.entries[i]);
            assert(e@ == entries_view(self.entries@)[i as int]);
            let ghost before = r@;
            r.push(e);
            assert(entries_view(r@) =~= entries_view(before).push(e@));
            i = i + 1;
            assert(entries_view(r@) =~= entries_view(self.entries@).subrange(skip as int, i as int));
        }
        assert(entries_view(self.entries@).subrange(skip as int, len as int) =~= last_entries(self@, n as nat));
        r
    }
}

impl Default for InteractionLog {
    fn default() -> (log: Self)
        ensures
            log@ == Seq::<EntryView>::empty(),
            log.capacity() == 500,
    {
        Self::new(500)
    }
}

} // verus!
