//! The turns of a Realtime session that were reported but not transcribed
//! yet: timing per item id.

use vstd::prelude::*;

use crate::transcript::opt_text;

verus! {

/// Timing that the server reported for one turn (one committed audio item).
#[derive(Debug)]
pub struct TurnTiming {
    pub start_ms: Option<i64>,
    pub end_ms: Option<i64>,
    pub previous_item_id: Option<String>,
}

/// The mathematical value of a [`TurnTiming`].
pub struct TurnTimingView {
    pub start_ms: Option<i64>,
    pub end_ms: Option<i64>,
    pub previous_item_id: Option<Seq<char>>,
}

impl View for TurnTiming {
    type V = TurnTimingView;

    open spec fn view(&self) -> TurnTimingView {
        TurnTimingView {
            start_ms: self.start_ms,
            end_ms: self.end_ms,
            previous_item_id: opt_text(self.previous_item_id),
        }
    }
}

/// A turn that nothing was reported for yet.
pub open spec fn empty_turn() -> TurnTimingView {
    TurnTimingView { start_ms: None, end_ms: None, previous_item_id: None }
}

impl TurnTiming {
    /// A turn that nothing was reported for yet.
    pub fn new() -> (r: TurnTiming)
        ensures
            r@ == empty_turn(),
    {
        TurnTiming { start_ms: None, end_ms: None, previous_item_id: None }
    }

    /// A copy with equal fields.
    pub fn duplicate(&self) -> (r: TurnTiming)
        ensures
            r@ == self@,
    {
        let previous_item_id = match &self.previous_item_id {
            Some(s) => Some(s.clone()),
            None => None,
        };
        TurnTiming { start_ms: self.start_ms, end_ms: self.end_ms, previous_item_id }
    }
}

struct TurnEntry {
    item_id: String,
    timing: TurnTiming,
}

/// The map that a list of entries stands for; a later entry for a key wins.
spec fn entries_map(entries: Seq<TurnEntry>) -> Map<Seq<char>, TurnTimingView>
    decreases entries.len(),
{
    if entries.len() == 0 {
        Map::empty()
    } else {
        entries_map(entries.drop_last()).insert(entries.last().item_id@, entries.last().timing@)
    }
}

proof fn lemma_entries_map_push(entries: Seq<TurnEntry>, e: TurnEntry)
    ensures
        entries_map(entries.push(e)) == entries_map(entries).insert(e.item_id@, e.timing@),
{
    assert(entries.push(e).drop_last() == entries);
}

proof fn lemma_entries_map_empty(entries: Seq<TurnEntry>)
    ensures
        entries.len() == 0 <==> entries_map(entries).dom() == Set::<Seq<char>>::empty(),
{
    if entries.len() > 0 {
        assert(entries_map(entries).dom().contains(entries.last().item_id@));
    } else {
        assert(entries_map(entries).dom() =~= Set::<Seq<char>>::empty());
    }
}

/// Timing per item id, for the turns that have not been transcribed yet.
pub struct TurnTable {
    entries: Vec<TurnEntry>,
}

impl View for TurnTable {
    type V = Map<Seq<char>, TurnTimingView>;

    closed spec fn view(&self) -> Map<Seq<char>, TurnTimingView> {
        entries_map(self.entries@)
    }
}

/// The timing recorded for `id`, or an empty one.
pub open spec fn turn_or_empty(turns: Map<Seq<char>, TurnTimingView>, id: Seq<char>) -> TurnTimingView {
    if turns.contains_key(id) {
        turns[id]
    } else {
        empty_turn()
    }
}

impl TurnTable {
    /// No turns.
    pub fn new() -> (r: TurnTable)
        ensures
            r@ == Map::<Seq<char>, TurnTimingView>::empty(),
    {
        let r = TurnTable { entries: Vec::new() };
        assert(r@ =~= Map::<Seq<char>, TurnTimingView>::empty());
        r
    }

    /// Whether no turn is recorded.
    pub fn is_empty(&self) -> (r: bool)
        ensures
            r <==> self@.dom() == Set::<Seq<char>>::empty(),
    {
        proof {
            lemma_entries_map_empty(self.entries@);
        }
        self.entries.len() == 0
    }

    /// A copy of the timing recorded for `id`, if any.
    pub fn get(&self, id: &String) -> (r: Option<TurnTiming>)
        ensures
            r is Some <==> self@.contains_key(id@),
            r matches Some(t) ==> t@ == self@[id@],
    {
        let mut found: Option<usize> = None;
        let mut i: usize = 0;
        while i < self.entries.len()
            invariant
                i <= self.entries@.len(),
                found matches Some(j) ==> j < i && self.entries@[j as int].item_id@ == id@
                    && entries_map(self.entries@.take(i as int)).contains_key(id@)
                    && entries_map(self.entries@.take(i as int))[id@] == self.entries@[j as int].timing@,
                found is None ==> !entries_map(self.entries@.take(i as int)).contains_key(id@),
            decreases self.entries.len() - i,
        {
            proof {
                assert(self.entries@.take(i + 1) == self.entries@.take(i as int).push(self.entries@[i as int]));
                lemma_entries_map_push(self.entries@.take(i as int), self.entries@[i as int]);
            }
            if self.entries[i].item_id == *id {
                found = Some(i);
            }
            i = i + 1;
        }
        assert(self.entries@.take(self.entries@.len() as int) == self.entries@);
        match found {
            Some(j) => Some(self.entries[j].timing.duplicate()),
            None => None,
        }
    }

    /// Forgets `id`; returns what was recorded for it.
    pub fn remove(&mut self, id: &String) -> (r: Option<TurnTiming>)
        ensures
            final(self)@ == old(self)@.remove(id@),
            r is Some <==> old(self)@.contains_key(id@),
            r matches Some(t) ==> t@ == old(self)@[id@],
    {
        let r = self.get(id);
        let mut kept: Vec<TurnEntry> = Vec::new();
        let mut i: usize = 0;
        while i < self.entries.len()
            invariant
                i <= self.entries@.len(),
                entries_map(kept@) == entries_map(self.entries@.take(i as int)).remove(id@),
            decreases self.entries.len() - i,
        {
            proof {
                assert(self.entries@.take(i + 1) == self.entries@.take(i as int).push(self.entries@[i as int]));
                lemma_entries_map_push(self.entries@.take(i as int), self.entries@[i as int]);
            }
            let e = &self.entries[i];
            if e.item_id != *id {
                let copy = TurnEntry { item_id: e.item_id.clone(), timing: e.timing.duplicate() };
                proof {
                    lemma_entries_map_push(kept@, copy);
                    assert(entries_map(kept@.push(copy)) =~= entries_map(self.entries@.take(i + 1)).remove(id@));
                }
                kept.push(copy);
            } else {
                assert(entries_map(kept@) =~= entries_map(self.entries@.take(i + 1)).remove(id@));
            }
            i = i + 1;
        }
        assert(self.entries@.take(self.entries@.len() as int) == self.entries@);
        self.entries = kept;
        r
    }

    /// Records `timing` for `id`, replacing what was there.
    pub fn insert(&mut self, id: String, timing: TurnTiming)
        ensures
            final(self)@ == old(self)@.insert(id@, timing@),
    {
        let _ = self.remove(&id);
        let e = TurnEntry { item_id: id, timing };
        proof {
            lemma_entries_map_push(self.entries@, e);
            assert(old(self)@.remove(e.item_id@).insert(e.item_id@, e.timing@) =~= old(self)@.insert(e.item_id@, e.timing@));
        }
        self.entries.push(e);
    }
}


} // verus!
