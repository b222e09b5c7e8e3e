//! The navigation history: a sequence of entries with a cursor.
//!
//! Pushing truncates what lies after the cursor and appends; replacing
//! overwrites the entry under the cursor; going back and forward moves the
//! cursor. A history with a size limit drops its oldest entries.

use crate::keyed::{has_key, lookup, put, StringMap};
use crate::NavigationDirection;
use vstd::prelude::*;

verus! {

/// Data attached to a history entry, such as a scroll position.
#[derive(Debug, Clone, PartialEq)]
pub struct HistoryState {
    /// The data, by key.
    pub data: StringMap,
}

impl View for HistoryState {
    type V = Seq<(Seq<char>, Seq<char>)>;

    open spec fn view(&self) -> Seq<(Seq<char>, Seq<char>)> {
        self.data@
    }
}

impl Default for HistoryState {
    fn default() -> (r: Self)
        ensures
            r@.len() == 0,
            r.data.wf(),
    {
        HistoryState::new()
    }
}

impl HistoryState {
    /// No data.
    pub fn new() -> (r: Self)
        ensures
            r@ == Seq::<(Seq<char>, Seq<char>)>::empty(),
            r.data.wf(),
    {
        HistoryState { data: StringMap::new() }
    }

    /// Stores `value` under `key`.
    pub fn set(&mut self, key: String, value: String)
        ensures
            old(self).data.wf() ==> final(self).data.wf(),
            final(self)@ == put(old(self)@, key@, value@),
    {
        self.data.insert(key, value);
    }

    /// The value stored under `key`.
    pub fn get(&self, key: &str) -> (r: Option<&String>)
        ensures
            r.is_some() == has_key(self@, key@),
            r matches Some(v) ==> lookup(self@, key@) == Some(v@),
            r is None ==> lookup(self@, key@) is None,
    {
        self.data.get(key)
    }
}

/// One entry of the history.
#[derive(Debug, Clone, PartialEq)]
pub struct HistoryEntry {
    /// The path of the entry.
    pub path: String,
    /// Data attached to the entry.
    pub state: Option<HistoryState>,
}

/// A history entry as characters.
pub struct EntryView {
    pub path: Seq<char>,
    pub state: Option<Seq<(Seq<char>, Seq<char>)>>,
}

impl View for HistoryEntry {
    type V = EntryView;

    open spec fn view(&self) -> EntryView {
        EntryView {
            path: self.path@,
            state: match self.state {
                Some(s) => Some(s@),
                None => None,
            },
        }
    }
}

impl HistoryEntry {
    /// An entry for `path` without data.
    pub fn new(path: String) -> (r: Self)
        ensures
            r@ == (EntryView { path: path@, state: None }),
    {
        HistoryEntry { path, state: None }
    }

    /// An entry for `path` with `state` attached.
    pub fn with_state(path: String, state: HistoryState) -> (r: Self)
        ensures
            r@ == (EntryView { path: path@, state: Some(state@) }),
    {
        HistoryEntry { path, state: Some(state) }
    }
}

/// What a history operation reports.
#[derive(Debug, Clone)]
pub struct NavigationEvent {
    /// The path that was current before.
    pub from: Option<String>,
    /// The path that is current now.
    pub to: String,
    /// The direction of the move.
    pub direction: NavigationDirection,
}

/// A history as a mathematical value.
pub struct HistoryView {
    /// The entries, oldest first.
    pub entries: Seq<EntryView>,
    /// The position of the current entry.
    pub current: int,
    /// The most entries the history keeps; 0 for no limit.
    pub max_size: int,
}

impl HistoryView {
    /// There is an entry, and the cursor is on one.
    pub open spec fn wf(self) -> bool {
        0 <= self.current < self.entries.len() && self.max_size >= 0
    }

    /// The path of the current entry.
    pub open spec fn current_path(self) -> Seq<char> {
        self.entries[self.current].path
    }

    /// There is an entry before the current one.
    pub open spec fn can_go_back(self) -> bool {
        self.current > 0
    }

    /// There is an entry after the current one.
    pub open spec fn can_go_forward(self) -> bool {
        self.current < self.entries.len() - 1
    }

    /// How many of the oldest entries leave a history of `len` entries.
    pub open spec fn excess(self, len: int) -> int {
        if self.max_size > 0 && len > self.max_size {
            len - self.max_size
        } else {
            0
        }
    }

    /// The history after `entry` is pushed: the entries after the current
    /// one are dropped, `entry` is appended and becomes current, and the
    /// oldest entries leave until the size limit is met.
    pub open spec fn push(self, entry: EntryView) -> HistoryView {
        let kept = self.entries.take(self.current + 1).push(entry);
        let excess = self.excess(kept.len() as int);
        HistoryView {
            entries: kept.skip(excess),
            current: if self.current + 1 >= excess {
                self.current + 1 - excess
            } else {
                0
            },
            max_size: self.max_size,
        }
    }

    /// The history after the current entry is replaced by `entry`.
    pub open spec fn replace(self, entry: EntryView) -> HistoryView {
        HistoryView { entries: self.entries.update(self.current, entry), ..self }
    }

    /// The history after a step back, where there is one to take.
    pub open spec fn back(self) -> HistoryView {
        if self.can_go_back() {
            HistoryView { current: self.current - 1, ..self }
        } else {
            self
        }
    }

    /// The history after a step forward, where there is one to take.
    pub open spec fn forward(self) -> HistoryView {
        if self.can_go_forward() {
            HistoryView { current: self.current + 1, ..self }
        } else {
            self
        }
    }
}

/// The views of a sequence of entries.
pub open spec fn entry_views(entries: Seq<HistoryEntry>) -> Seq<EntryView> {
    entries.map_values(|e: HistoryEntry| e@)
}

/// Pushing leaves the pushed entry current and last.
pub proof fn lemma_push(h: HistoryView, entry: EntryView)
    requires
        h.wf(),
    ensures
        h.push(entry).wf(),
        h.push(entry).current == h.push(entry).entries.len() - 1,
        h.push(entry).entries.last() == entry,
        !h.push(entry).can_go_forward(),
        h.max_size > 0 && h.current + 2 <= h.max_size || h.max_size == 0 ==> h.push(entry).entries
            == h.entries.take(h.current + 1).push(entry),
{
}

/// Going back right after a push restores the path that was current
/// before, unless the history keeps a single entry.
pub proof fn law_push_back(h: HistoryView, entry: EntryView)
    requires
        h.wf(),
        h.max_size != 1,
    ensures
        h.push(entry).can_go_back(),
        h.push(entry).back().current_path() == h.current_path(),
{
}

/// Pushing `a`, pushing `b`, going back and pushing `c` leaves the history
/// that pushing `a` and `c` leaves: nothing of `b` remains, and there is
/// nothing to go forward to.
pub proof fn law_push_truncates(h: HistoryView, a: EntryView, b: EntryView, c: EntryView)
    requires
        h.wf(),
    ensures
        h.push(a).push(b).back().push(c) == h.push(a).push(c),
        !h.push(a).push(b).back().push(c).can_go_forward(),
{
    let h1 = h.push(a);
    lemma_push(h, a);
    let h2 = h1.push(b);
    lemma_push(h1, b);
    let h3 = h2.back();
    let left = h3.push(c);
    let right = h1.push(c);
    assert(left.entries =~= right.entries);
}

/// Replacing keeps the number of entries and the cursor.
pub proof fn law_replace_keeps_length(h: HistoryView, entry: EntryView)
    requires
        h.wf(),
    ensures
        h.replace(entry).wf(),
        h.replace(entry).entries.len() == h.entries.len(),
        h.replace(entry).current == h.current,
        h.replace(entry).can_go_forward() == h.can_go_forward(),
        h.replace(entry).can_go_back() == h.can_go_back(),
{
}

/// After a push and a replace, going back returns to the path that was
/// current before the push, unless the history keeps a single entry.
pub proof fn law_push_replace_back(h: HistoryView, pushed: EntryView, replacement: EntryView)
    requires
        h.wf(),
        h.max_size != 1,
    ensures
        h.push(pushed).replace(replacement).back().current_path() == h.current_path(),
{
}

/// The navigation history.
#[derive(Debug, Clone)]
pub struct History {
    entries: Vec<HistoryEntry>,
    current: usize,
    max_size: usize,
}

impl View for History {
    type V = HistoryView;

    closed spec fn view(&self) -> HistoryView {
        HistoryView {
            entries: entry_views(self.entries@),
            current: self.current as int,
            max_size: self.max_size as int,
        }
    }
}

impl Default for History {
    fn default() -> (r: Self)
        ensures
            r.wf(),
            r@.entries == seq![EntryView { path: "/"@, state: None }],
            r@.current == 0,
            r@.max_size == 1000,
    {
        History::new("/".to_owned())
    }
}

impl History {
    /// There is an entry, and the cursor is on one.
    pub open spec fn wf(&self) -> bool {
        self@.wf()
    }

    /// A history of one entry, which keeps at most 1000 entries.
    pub fn new(initial_path: String) -> (r: Self)
        ensures
            r.wf(),
            r@.entries == seq![EntryView { path: initial_path@, state: None }],
            r@.current == 0,
            r@.max_size == 1000,
    {
        History::with_max_size(initial_path, 1000)
    }

    /// A history of one entry, which keeps at most `max_size` entries, or
    /// any number if `max_size` is 0.
    pub fn with_max_size(initial_path: String, max_size: usize) -> (r: Self)
        ensures
            r.wf(),
            r@.entries == seq![EntryView { path: initial_path@, state: None }],
            r@.current == 0,
            r@.max_size == max_size,
    {
        let mut entries: Vec<HistoryEntry> = Vec::new();
        entries.push(HistoryEntry::new(initial_path));
        let r = History { entries, current: 0, max_size };
        assert(r@.entries =~= seq![EntryView { path: initial_path@, state: None }]);
        r
    }

    /// The path of the current entry.
    pub fn current_path(&self) -> (r: &str)
        requires
            self.wf(),
        ensures
            r@ == self@.current_path(),
    {
        self.entries[self.current].path.as_str()
    }

    /// The current entry.
    pub fn current_entry(&self) -> (r: &HistoryEntry)
        requires
            self.wf(),
        ensures
            r@ == self@.entries[self@.current],
    {
        &self.entries[self.current]
    }

    fn push_entry(&mut self, entry: HistoryEntry)
        requires
            old(self).wf(),
        ensures
            final(self).wf(),
            final(self)@ == old(self)@.push(entry@),
    {
        let ghost before = self@;
        let _ = self.entries.len();
        self.entries.truncate(self.current + 1);
        self.entries.push(entry);
        let _ = self.entries.len();
        self.current += 1;
        assert(entry_views(self.entries@) =~= before.entries.take(before.current + 1).push(entry@));
        self.enforce_size_limit();
    }

    /// Pushes `path`: what lies after the current entry is dropped, the
    /// new entry is appended and becomes current, and the oldest entries
    /// leave until the size limit is met.
    pub fn push(&mut self, path: String) -> (event: NavigationEvent)
        requires
            old(self).wf(),
        ensures
            final(self).wf(),
            final(self)@ == old(self)@.push(EntryView { path: path@, state: None }),
            event.from matches Some(from) && from@ == old(self)@.current_path(),
            event.to@ == path@,
            event.direction == NavigationDirection::Forward,
    {
        let from = Some(self.current_path().to_owned());
        self.push_entry(HistoryEntry::new(path.clone()));
        NavigationEvent { from, to: path, direction: NavigationDirection::Forward }
    }

    /// Pushes `path` with `state` attached.
    pub fn push_with_state(&mut self, path: String, state: HistoryState) -> (event: NavigationEvent)
        requires
            old(self).wf(),
        ensures
            final(self).wf(),
            final(self)@ == old(self)@.push(EntryView { path: path@, state: Some(state@) }),
            event.from matches Some(from) && from@ == old(self)@.current_path(),
            event.to@ == path@,
            event.direction == NavigationDirection::Forward,
    {
        let from = Some(self.current_path().to_owned());
        self.push_entry(HistoryEntry::with_state(path.clone(), state));
        NavigationEvent { from, to: path, direction: NavigationDirection::Forward }
    }

    fn replace_entry(&mut self, entry: HistoryEntry)
        requires
            old(self).wf(),
        ensures
            final(self).wf(),
            final(self)@ == old(self)@.replace(entry@),
    {
        let ghost before = self@;
        self.entries.set(self.current, entry);
        assert(entry_views(self.entries@) =~= before.entries.update(before.current, entry@));
    }

    /// Replaces the current entry by one for `path`. The number of entries
    /// and the cursor stay as they are.
    pub fn replace(&mut self, path: String) -> (event: NavigationEvent)
        requires
            old(self).wf(),
        ensures
            final(self).wf(),
            final(self)@ == old(self)@.replace(EntryView { path: path@, state: None }),
            final(self)@.entries.len() == old(self)@.entries.len(),
            event.from matches Some(from) && from@ == old(self)@.current_path(),
            event.to@ == path@,
            event.direction == NavigationDirection::Replace,
    {
        let from = Some(self.current_path().to_owned());
        self.replace_entry(HistoryEntry::new(path.clone()));
        NavigationEvent { from, to: path, direction: NavigationDirection::Replace }
    }

    /// Replaces the current entry by one for `path` with `state` attached.
    pub fn replace_with_state(&mut self, path: String, state: HistoryState) -> (event:
        NavigationEvent)
        requires
            old(self).wf(),
        ensures
            final(self).wf(),
            final(self)@ == old(self)@.replace(EntryView { path: path@, state: Some(state@) }),
            final(self)@.entries.len() == old(self)@.entries.len(),
            event.from matches Some(from) && from@ == old(self)@.current_path(),
            event.to@ == path@,
            event.direction == NavigationDirection::Replace,
    {
        let from = Some(self.current_path().to_owned());
        self.replace_entry(HistoryEntry::with_state(path.clone(), state));
        NavigationEvent { from, to: path, direction: NavigationDirection::Replace }
    }

    /// Moves the cursor one entry back. At the first entry nothing happens
    /// and nothing is reported.
    pub fn back(&mut self) -> (r: Option<NavigationEvent>)
        requires
            old(self).wf(),
        ensures
            final(self).wf(),
            final(self)@ == old(self)@.back(),
            r.is_some() == old(self)@.can_go_back(),
            r matches Some(event) ==> (event.from matches Some(from) && from@ == old(self)@.current_path()) && event.to@ == final(self)@.current_path() && event.direction
                == NavigationDirection::Back,
    {
        if self.can_go_back() {
            let from = Some(self.current_path().to_owned());
            self.current -= 1;
            let to = self.current_path().to_owned();
            Some(NavigationEvent { from, to, direction: NavigationDirection::Back })
        } else {
            None
        }
    }

    /// Moves the cursor one entry forward. At the last entry nothing
    /// happens and nothing is reported.
    pub fn forward(&mut self) -> (r: Option<NavigationEvent>)
        requires
            old(self).wf(),
        ensures
            final(self).wf(),
            final(self)@ == old(self)@.forward(),
            r.is_some() == old(self)@.can_go_forward(),
            r matches Some(event) ==> (event.from matches Some(from) && from@ == old(self)@.current_path()) && event.to@ == final(self)@.current_path() && event.direction
                == NavigationDirection::Forward,
    {
        if self.can_go_forward() {
            let from = Some(self.current_path().to_owned());
            let _ = self.entries.len();
            self.current += 1;
            let to = self.current_path().to_owned();
            Some(NavigationEvent { from, to, direction: NavigationDirection::Forward })
        } else {
            None
        }
    }

    /// Whether there is an entry before the current one.
    pub fn can_go_back(&self) -> (r: bool)
        ensures
            r == self@.can_go_back(),
    {
        self.current > 0
    }

    /// Whether there is an entry after the current one.
    pub fn can_go_forward(&self) -> (r: bool)
        requires
            self.wf(),
        ensures
            r == self@.can_go_forward(),
    {
        self.current < self.entries.len() - 1
    }

    /// Resets the history to a single entry for `initial_path`.
    pub fn clear(&mut self, initial_path: String)
        ensures
            final(self).wf(),
            final(self)@.entries == seq![EntryView { path: initial_path@, state: None }],
            final(self)@.current == 0,
            final(self)@.max_size == old(self)@.max_size,
    {
        self.entries.clear();
        self.entries.push(HistoryEntry::new(initial_path));
        self.current = 0;
        assert(self@.entries =~= seq![EntryView { path: initial_path@, state: None }]);
    }

    /// Number of entries.
    pub fn len(&self) -> (n: usize)
        ensures
            n == self@.entries.len(),
    {
        self.entries.len()
    }

    /// Whether there is no entry, which a well-formed history never is.
    pub fn is_empty(&self) -> (r: bool)
        ensures
            r == (self@.entries.len() == 0),
            self.wf() ==> !r,
    {
        self.entries.len() == 0
    }

    /// All entries, oldest first.
    pub fn entries(&self) -> (r: &Vec<HistoryEntry>)
        ensures
            entry_views(r@) == self@.entries,
    {
        &self.entries
    }

    /// The position of the current entry.
    pub fn current_index(&self) -> (i: usize)
        ensures
            i == self@.current,
    {
        self.current
    }

    /// Takes over `entries` with the cursor at `current`. Entries that are
    /// empty, or a cursor that is not on one of them, change nothing.
    pub fn restore(&mut self, entries: Vec<HistoryEntry>, current: usize)
        requires
            old(self).wf(),
        ensures
            final(self).wf(),
            final(self)@.max_size == old(self)@.max_size,
            if current < entries@.len() {
                final(self)@.entries == entry_views(entries@) && final(self)@.current == current
            } else {
                final(self)@ == old(self)@
            },
    {
        if entries.len() > 0 && current < entries.len() {
            self.entries = entries;
            self.current = current;
        }
    }

    /// Drops the oldest entries beyond the size limit and moves the cursor
    /// by as many, so that it stays on the same entry.
    fn enforce_size_limit(&mut self)
        requires
            old(self)@.entries.len() > 0,
            old(self)@.current == old(self)@.entries.len() - 1,
        ensures
            final(self)@.max_size == old(self)@.max_size,
            final(self)@.entries == old(self)@.entries.skip(
                old(self)@.excess(old(self)@.entries.len() as int),
            ),
            final(self)@.current == old(self)@.current - old(self)@.excess(
                old(self)@.entries.len() as int,
            ),
    {
        if self.max_size > 0 && self.entries.len() > self.max_size {
            let ghost before = self@;
            let excess = self.entries.len() - self.max_size;
            let kept = self.entries.split_off(excess);
            self.entries = kept;
            self.current = self.current - excess;
            assert(entry_views(self.entries@) =~= before.entries.skip(excess as int));
        } else {
            assert(self@.entries.skip(0) =~= self@.entries);
        }
    }
}

} // verus!
