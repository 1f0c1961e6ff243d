//! What the agent remembers between polls: the keys of threads it already
//! handled, the blocks of the notifications it sent, and auto-watch progress.

use std::collections::VecDeque;

use vstd::prelude::*;

use crate::text::{joined, str_eq, trim, trimmed, views, copy_str};

verus! {

/// How many message blocks one notification keeps.
pub const MAX_MERGED_MESSAGES: usize = 4;

/// The blocks a notification shows after an incoming message was merged into
/// what was sent before under the same sequence id.
#[derive(Debug, Clone, PartialEq, Eq)]
pub struct NotificationMerge {
    pub blocks: Vec<String>,
    pub had_existing: bool,
    pub inserted_new_block: bool,
}

/// A notification body made of blocks: the blocks separated by blank lines.
pub open spec fn joined_blocks(blocks: Seq<Seq<char>>) -> Seq<char> {
    joined(blocks, "\n\n"@)
}

impl NotificationMerge {
    /// The notification body: the blocks separated by blank lines.
    pub fn message(&self) -> (r: String)
        ensures
            r@ == joined_blocks(views(self.blocks@)),
    {
        crate::text::join(&self.blocks, "\n\n")
    }
}

/// The message blocks last sent under one sequence id.
#[derive(Debug, Clone)]
pub struct NotificationEntry {
    pub sequence_id: String,
    pub messages: Vec<String>,
}

/// The remembered state.
#[derive(Debug)]
pub struct State {
    pub last_modified: Option<String>,
    seen: VecDeque<String>,
    notifications: VecDeque<NotificationEntry>,
    auto_watch_initialized: bool,
    auto_watched: Vec<String>,
}

/// A remembered notification: its sequence id and its message blocks.
pub type EntryView = (Seq<char>, Seq<Seq<char>>);

/// The view of a remembered notification.
pub open spec fn entry_view(e: NotificationEntry) -> EntryView {
    (e.sequence_id@, views(e.messages@))
}

/// No key occurs twice.
pub open spec fn no_dups(s: Seq<Seq<char>>) -> bool {
    forall|i: int, j: int| 0 <= i < j < s.len() ==> s[i] != s[j]
}

/// No sequence id occurs twice.
pub open spec fn unique_ids(e: Seq<EntryView>) -> bool {
    forall|i: int, j: int| 0 <= i < j < e.len() ==> e[i].0 != e[j].0
}

/// The newest `max` items of `s` (all of them when there are fewer).
pub open spec fn newest<A>(s: Seq<A>, max: nat) -> Seq<A> {
    if s.len() > max {
        s.skip(s.len() - max)
    } else {
        s
    }
}

/// The seen keys after `key` is marked seen: unchanged when it was already
/// seen; else it is appended and the oldest keys are dropped until at most
/// `max` remain.
pub open spec fn seen_after_mark(seen: Seq<Seq<char>>, key: Seq<char>, max: nat) -> Seq<Seq<char>> {
    if seen.contains(key) {
        seen
    } else {
        newest(seen.push(key), max)
    }
}

/// Position of the first entry with sequence id `id`, or the number of entries.
pub open spec fn id_index(e: Seq<EntryView>, id: Seq<char>) -> int
    decreases e.len(),
{
    if e.len() == 0 || e[0].0 == id {
        0
    } else {
        1 + id_index(e.drop_first(), id)
    }
}

/// The blocks remembered under `id`, if any.
pub open spec fn lookup(e: Seq<EntryView>, id: Seq<char>) -> Option<Seq<Seq<char>>> {
    if id_index(e, id) < e.len() {
        Some(e[id_index(e, id)].1)
    } else {
        None
    }
}

/// The remembered notifications after `msgs` is remembered under `id`: an
/// entry with that id gets the new blocks in place; else a new entry is
/// appended and the oldest entries are dropped until at most `max` remain.
pub open spec fn entries_after_remember(e: Seq<EntryView>, id: Seq<char>, msgs: Seq<Seq<char>>, max: nat) -> Seq<EntryView> {
    if id_index(e, id) < e.len() {
        e.update(id_index(e, id), (id, msgs))
    } else {
        newest(e.push((id, msgs)), max)
    }
}

/// The first `n` items of `s` (all of them when there are fewer).
pub open spec fn first_n<A>(s: Seq<A>, n: nat) -> Seq<A> {
    if s.len() > n {
        s.take(n as int)
    } else {
        s
    }
}

/// The blocks shown when `incoming` (already trimmed) arrives for a
/// notification that had `existing` blocks: the existing blocks unchanged when
/// it is one of them, else it first and then the newest existing blocks, at
/// most four in all; just it when there were none.
pub open spec fn merged_blocks(existing: Option<Seq<Seq<char>>>, incoming: Seq<char>) -> Seq<Seq<char>> {
    match existing {
        None => seq![incoming],
        Some(ex) => if ex.contains(incoming) {
            ex
        } else {
            seq![incoming] + first_n(ex, (MAX_MERGED_MESSAGES - 1) as nat)
        },
    }
}

/// `m` is the merge of `incoming` (trimmed) into what `entries` remember
/// under `id`.
pub open spec fn merge_matches(m: NotificationMerge, entries: Seq<EntryView>, id: Seq<char>, incoming: Seq<char>) -> bool {
    &&& views(m.blocks@) == merged_blocks(lookup(entries, id), trimmed(incoming))
    &&& m.had_existing == lookup(entries, id) is Some
    &&& m.inserted_new_block == !(lookup(entries, id) matches Some(ex) && ex.contains(trimmed(incoming)))
}

/// `s` with every repeated key after its first occurrence left out.
pub open spec fn dedup_keep_first(s: Seq<Seq<char>>) -> Seq<Seq<char>>
    decreases s.len(),
{
    if s.len() == 0 {
        Seq::empty()
    } else {
        let r = dedup_keep_first(s.drop_last());
        if r.contains(s.last()) {
            r
        } else {
            r.push(s.last())
        }
    }
}

/// The sequence ids of remembered notifications.
pub open spec fn ids_of(e: Seq<EntryView>) -> Seq<Seq<char>> {
    e.map_values(|x: EntryView| x.0)
}

/// Remembered notifications as loaded: only the first entry of each sequence
/// id is kept, with at most four blocks.
pub open spec fn restored_entries(e: Seq<EntryView>) -> Seq<EntryView>
    decreases e.len(),
{
    if e.len() == 0 {
        Seq::empty()
    } else {
        let r = restored_entries(e.drop_last());
        if ids_of(r).contains(e.last().0) {
            r
        } else {
            r.push((e.last().0, first_n(e.last().1, MAX_MERGED_MESSAGES as nat)))
        }
    }
}

impl State {
    /// The keys already handled, oldest first.
    pub closed spec fn seen_view(&self) -> Seq<Seq<char>> {
        views(self.seen@)
    }

    /// The remembered notifications, oldest first.
    pub closed spec fn entries_view(&self) -> Seq<EntryView> {
        self.notifications@.map_values(|e: NotificationEntry| entry_view(e))
    }

    /// The `Last-Modified` value of the last poll.
    pub closed spec fn last_modified_view(&self) -> Option<Seq<char>> {
        crate::github::model::opt_view(self.last_modified)
    }

    /// Whether auto-watch recorded its baseline.
    pub closed spec fn auto_watch_initialized_view(&self) -> bool {
        self.auto_watch_initialized
    }

    /// The repositories auto-watch has handled.
    pub closed spec fn auto_watched_view(&self) -> Seq<Seq<char>> {
        views(self.auto_watched@)
    }

    /// The state is consistent: no key, sequence id or repository is
    /// remembered twice.
    pub open spec fn wf(&self) -> bool {
        no_dups(self.seen_view()) && unique_ids(self.entries_view()) && no_dups(self.auto_watched_view())
    }

    /// The keys already handled, oldest first.
    pub fn seen_keys(&self) -> (r: &VecDeque<String>)
        ensures
            views(r@) == self.seen_view(),
    {
        &self.seen
    }

    /// The remembered notifications, oldest first.
    pub fn notification_entries(&self) -> (r: &VecDeque<NotificationEntry>)
        ensures
            r@.map_values(|e: NotificationEntry| entry_view(e)) == self.entries_view(),
    {
        &self.notifications
    }

    /// The repositories auto-watch has handled.
    pub fn auto_watched_repositories(&self) -> (r: &Vec<String>)
        ensures
            views(r@) == self.auto_watched_view(),
    {
        &self.auto_watched
    }

    /// Whether `key` was already handled.
    pub fn has_seen(&self, key: &str) -> (r: bool)
        ensures
            r == self.seen_view().contains(key@),
    {
        contains_in_queue(&self.seen, key)
    }

    /// Records `key` as handled, keeping at most `max_seen` keys when it is new.
    pub fn mark_seen(&mut self, key: String, max_seen: usize)
        requires
            old(self).wf(),
        ensures
            final(self).wf(),
            final(self).seen_view() == seen_after_mark(old(self).seen_view(), key@, max_seen as nat),
            final(self).entries_view() == old(self).entries_view(),
            final(self).last_modified_view() == old(self).last_modified_view(),
            final(self).auto_watch_initialized_view() == old(self).auto_watch_initialized_view(),
            final(self).auto_watched_view() == old(self).auto_watched_view(),
    {
        if self.has_seen(key.as_str()) {
            return;
        }
        let ghost full = self.seen_view().push(key@);
        self.seen.push_back(key);
        proof {
            assert(self.seen_view() =~= full);
            assert(full.skip(0) =~= full);
            lemma_push_new_no_dups(old(self).seen_view(), key@);
        }
        let ghost mut dropped: int = 0;
        while self.seen.len() > max_seen
            invariant
                0 <= dropped <= full.len(),
                dropped > 0 ==> full.len() - dropped >= max_seen,
                self.seen_view() == full.skip(dropped),
                no_dups(full),
                self.notifications == old(self).notifications,
                self.auto_watched == old(self).auto_watched,
                self.last_modified == old(self).last_modified,
                self.auto_watch_initialized == old(self).auto_watch_initialized,
            decreases self.seen.len(),
        {
            let _ = self.seen.pop_front();
            proof {
                assert(full.skip(dropped).drop_first() =~= full.skip(dropped + 1));
                assert(self.seen_view() =~= full.skip(dropped).drop_first());
                dropped = dropped + 1;
            }
        }
        proof {
            lemma_skip_no_dups(full, dropped);
            if full.len() > max_seen {
                assert(dropped == full.len() - max_seen);
            } else {
                assert(dropped == 0);
            }
        }
    }

    /// The blocks to show when `incoming_message` (trimmed) arrives under
    /// `sequence_id`, and whether there was a notification and whether a
    /// block was added.
    pub fn merge_notification(&self, sequence_id: &str, incoming_message: &str) -> (r: NotificationMerge)
        requires
            self.wf(),
        ensures
            merge_matches(r, self.entries_view(), sequence_id@, incoming_message@),
    {
        let incoming = trim(incoming_message);
        let i = self.find_entry(sequence_id);
        if i == self.notifications.len() {
            let mut blocks = Vec::new();
            blocks.push(copy_str(incoming));
            proof {
                assert(views(blocks@) =~= seq![incoming@]);
            }
            return NotificationMerge { blocks, had_existing: false, inserted_new_block: true };
        }
        let existing = &self.notifications[i].messages;
        proof {
            assert(lookup(self.entries_view(), sequence_id@) == Some(views(existing@)));
        }
        if contains_str(existing, incoming) {
            return NotificationMerge { blocks: copy_strings(existing), had_existing: true, inserted_new_block: false };
        }
        let mut blocks = Vec::new();
        blocks.push(copy_str(incoming));
        let mut k: usize = 0;
        while k < existing.len() && k < MAX_MERGED_MESSAGES - 1
            invariant
                k <= existing@.len(),
                k <= MAX_MERGED_MESSAGES - 1,
                views(blocks@) == seq![incoming@] + views(existing@).take(k as int),
            decreases existing.len() - k,
        {
            let ghost before = blocks@;
            blocks.push(copy_str(existing[k].as_str()));
            proof {
                assert(views(blocks@) =~= views(before).push(existing@[k as int]@));
                assert(views(existing@).take(k + 1) =~= views(existing@).take(k as int).push(existing@[k as int]@));
                assert(views(blocks@) =~= seq![incoming@] + views(existing@).take(k + 1));
            }
            k += 1;
        }
        proof {
            assert(views(existing@).take(k as int) =~= first_n(views(existing@), (MAX_MERGED_MESSAGES - 1) as nat));
        }
        NotificationMerge { blocks, had_existing: true, inserted_new_block: true }
    }

    /// Remembers the blocks sent under `sequence_id`: an existing entry is
    /// updated in place; a new one is appended, keeping at most `max_seen`
    /// entries.
    pub fn remember_notification(&mut self, sequence_id: String, messages: Vec<String>, max_seen: usize)
        requires
            old(self).wf(),
        ensures
            final(self).wf(),
            final(self).entries_view() == entries_after_remember(
                old(self).entries_view(),
                sequence_id@,
                views(messages@),
                max_seen as nat,
            ),
            final(self).seen_view() == old(self).seen_view(),
            final(self).last_modified_view() == old(self).last_modified_view(),
            final(self).auto_watch_initialized_view() == old(self).auto_watch_initialized_view(),
            final(self).auto_watched_view() == old(self).auto_watched_view(),
    {
        let ghost old_entries = self.entries_view();
        let ghost id = sequence_id@;
        let ghost msgs = views(messages@);
        let i = self.find_entry(sequence_id.as_str());
        if i < self.notifications.len() {
            let ghost old_notifications = self.notifications@;
            let _ = self.notifications.remove(i);
            self.notifications.insert(i, NotificationEntry { sequence_id, messages });
            proof {
                assert(self.notifications@ =~= old_notifications.update(
                    i as int,
                    NotificationEntry { sequence_id, messages },
                ));
                assert(self.entries_view() =~= old_entries.update(i as int, (id, msgs)));
                assert forall|a: int, b: int| 0 <= a < b < self.entries_view().len() implies self.entries_view()[a].0
                    != self.entries_view()[b].0 by {
                    assert(old_entries[i as int].0 == id);
                }
            }
            return;
        }
        self.notifications.push_back(NotificationEntry { sequence_id, messages });
        let ghost full = old_entries.push((id, msgs));
        proof {
            assert(self.entries_view() =~= full);
            assert(full.skip(0) =~= full);
            lemma_id_index_absent(old_entries, id);
            assert(unique_ids(full));
        }
        let ghost mut dropped: int = 0;
        while self.notifications.len() > max_seen
            invariant
                0 <= dropped <= full.len(),
                dropped > 0 ==> full.len() - dropped >= max_seen,
                self.entries_view() == full.skip(dropped),
                unique_ids(full),
                self.seen == old(self).seen,
                self.auto_watched == old(self).auto_watched,
                self.last_modified == old(self).last_modified,
                self.auto_watch_initialized == old(self).auto_watch_initialized,
            decreases self.notifications.len(),
        {
            let _ = self.notifications.pop_front();
            proof {
                assert(full.skip(dropped).drop_first() =~= full.skip(dropped + 1));
                assert(self.entries_view() =~= full.skip(dropped).drop_first());
                dropped = dropped + 1;
            }
        }
        proof {
            assert forall|a: int, b: int| 0 <= a < b < self.entries_view().len() implies self.entries_view()[a].0
                != self.entries_view()[b].0 by {
                assert(self.entries_view()[a] == full[a + dropped]);
                assert(self.entries_view()[b] == full[b + dropped]);
            }
            if full.len() > max_seen {
                assert(dropped == full.len() - max_seen);
            } else {
                assert(dropped == 0);
            }
        }
    }

    fn find_entry(&self, sequence_id: &str) -> (r: usize)
        ensures
            r == id_index(self.entries_view(), sequence_id@),
            r <= self.notifications@.len(),
            r < self.notifications@.len() ==> self.entries_view()[r as int].0 == sequence_id@,
    {
        let mut i: usize = 0;
        while i < self.notifications.len() && !str_eq(self.notifications[i].sequence_id.as_str(), sequence_id)
            invariant
                i <= self.notifications@.len(),
                forall|j: int| 0 <= j < i ==> self.entries_view()[j].0 != sequence_id@,
            decreases self.notifications.len() - i,
        {
            i += 1;
        }
        proof {
            lemma_id_index(self.entries_view(), sequence_id@, i as int);
        }
        i
    }

    /// Whether auto-watch recorded its baseline.
    pub fn is_auto_watch_initialized(&self) -> (r: bool)
        ensures
            r == self.auto_watch_initialized_view(),
    {
        self.auto_watch_initialized
    }

    /// Records that auto-watch recorded its baseline.
    pub fn mark_auto_watch_initialized(&mut self)
        requires
            old(self).wf(),
        ensures
            final(self).wf(),
            final(self).auto_watch_initialized_view(),
            final(self).seen_view() == old(self).seen_view(),
            final(self).entries_view() == old(self).entries_view(),
            final(self).auto_watched_view() == old(self).auto_watched_view(),
            final(self).last_modified_view() == old(self).last_modified_view(),
    {
        self.auto_watch_initialized = true;
    }

    /// Whether auto-watch already handled `full_name`.
    pub fn has_auto_watched_repository(&self, full_name: &str) -> (r: bool)
        ensures
            r == self.auto_watched_view().contains(full_name@),
    {
        contains_str(&self.auto_watched, full_name)
    }

    /// Records that auto-watch handled `full_name`.
    pub fn remember_auto_watched_repository(&mut self, full_name: String)
        requires
            old(self).wf(),
        ensures
            final(self).wf(),
            final(self).auto_watched_view() == if old(self).auto_watched_view().contains(full_name@) {
                old(self).auto_watched_view()
            } else {
                old(self).auto_watched_view().push(full_name@)
            },
            final(self).auto_watch_initialized_view() == old(self).auto_watch_initialized_view(),
            final(self).seen_view() == old(self).seen_view(),
            final(self).entries_view() == old(self).entries_view(),
            final(self).last_modified_view() == old(self).last_modified_view(),
    {
        if contains_str(&self.auto_watched, full_name.as_str()) {
            return;
        }
        let ghost before = self.auto_watched_view();
        self.auto_watched.push(full_name);
        proof {
            assert(self.auto_watched_view() =~= before.push(full_name@));
            lemma_push_new_no_dups(before, full_name@);
        }
    }
}

impl Default for State {
    fn default() -> (r: Self)
        ensures
            r.wf(),
            r.last_modified_view() is None,
            r.seen_view().len() == 0,
            r.entries_view().len() == 0,
            !r.auto_watch_initialized_view(),
            r.auto_watched_view().len() == 0,
    {
        State {
            last_modified: None,
            seen: VecDeque::new(),
            notifications: VecDeque::new(),
            auto_watch_initialized: false,
            auto_watched: Vec::new(),
        }
    }
}

pub(crate) fn contains_str(v: &Vec<String>, key: &str) -> (r: bool)
    ensures
        r == views(v@).contains(key@),
{
    let mut i: usize = 0;
    while i < v.len()
        invariant
            i <= v@.len(),
            forall|j: int| 0 <= j < i ==> v@[j]@ != key@,
        decreases v.len() - i,
    {
        if str_eq(v[i].as_str(), key) {
            proof {
                assert(views(v@)[i as int] == key@);
            }
            return true;
        }
        i += 1;
    }
    proof {
        assert forall|j: int| 0 <= j < views(v@).len() implies views(v@)[j] != key@ by {
            assert(views(v@)[j] == v@[j]@);
        }
    }
    false
}

fn contains_in_queue(v: &VecDeque<String>, key: &str) -> (r: bool)
    ensures
        r == views(v@).contains(key@),
{
    let mut i: usize = 0;
    while i < v.len()
        invariant
            i <= v@.len(),
            forall|j: int| 0 <= j < i ==> v@[j]@ != key@,
        decreases v.len() - i,
    {
        if str_eq(v[i].as_str(), key) {
            proof {
                assert(views(v@)[i as int] == key@);
            }
            return true;
        }
        i += 1;
    }
    proof {
        assert forall|j: int| 0 <= j < views(v@).len() implies views(v@)[j] != key@ by {
            assert(views(v@)[j] == v@[j]@);
        }
    }
    false
}

/// The items of `v` in a queue, in the same order.
fn into_queue<T>(v: Vec<T>) -> (r: VecDeque<T>)
    ensures
        r@ == v@,
{
    let ghost all = v@;
    let mut v = v;
    let mut r: VecDeque<T> = VecDeque::new();
    while v.len() > 0
        invariant
            all == v@ + r@,
        decreases v.len(),
    {
        let ghost before = v@;
        let x = v.pop().unwrap();
        r.push_front(x);
        proof {
            assert(before =~= v@.push(x));
        }
    }
    proof {
        assert(all =~= r@);
    }
    r
}

/// The first occurrence of each text of `v`, in order.
fn dedup_queue(v: &VecDeque<String>) -> (r: VecDeque<String>)
    ensures
        views(r@) == dedup_keep_first(views(v@)),
{
    let mut r: VecDeque<String> = VecDeque::new();
    let mut i: usize = 0;
    proof {
        assert(views(v@).take(0) =~= Seq::<Seq<char>>::empty());
        assert(views(r@) =~= Seq::<Seq<char>>::empty());
    }
    while i < v.len()
        invariant
            i <= v@.len(),
            views(r@) == dedup_keep_first(views(v@).take(i as int)),
        decreases v.len() - i,
    {
        proof {
            assert(views(v@).take(i + 1).drop_last() =~= views(v@).take(i as int));
            assert(views(v@).take(i + 1).last() == v@[i as int]@);
        }
        if !contains_in_queue(&r, v[i].as_str()) {
            let ghost before = r@;
            r.push_back(copy_str(v[i].as_str()));
            proof {
                assert(views(r@) =~= views(before).push(v@[i as int]@));
            }
        }
        i += 1;
    }
    proof {
        assert(views(v@).take(v@.len() as int) =~= views(v@));
    }
    r
}

fn copy_strings(v: &Vec<String>) -> (r: Vec<String>)
    ensures
        views(r@) == views(v@),
{
    let mut r: Vec<String> = Vec::new();
    let mut i: usize = 0;
    while i < v.len()
        invariant
            i <= v@.len(),
            views(r@) == views(v@).take(i as int),
        decreases v.len() - i,
    {
        let ghost before = r@;
        r.push(copy_str(v[i].as_str()));
        proof {
            assert(views(r@) =~= views(before).push(v@[i as int]@));
            assert(views(v@).take(i + 1) =~= views(v@).take(i as int).push(v@[i as int]@));
        }
        i += 1;
    }
    proof {
        assert(views(v@).take(v@.len() as int) =~= views(v@));
    }
    r
}

proof fn lemma_push_new_no_dups(s: Seq<Seq<char>>, k: Seq<char>)
    requires
        no_dups(s),
        !s.contains(k),
    ensures
        no_dups(s.push(k)),
{
    assert forall|i: int, j: int| 0 <= i < j < s.push(k).len() implies s.push(k)[i] != s.push(k)[j] by {
        if j == s.len() {
            assert(s.push(k)[i] == s[i]);
        }
    }
}

proof fn lemma_skip_no_dups(s: Seq<Seq<char>>, n: int)
    requires
        no_dups(s),
        0 <= n <= s.len(),
    ensures
        no_dups(s.skip(n)),
{
    assert forall|i: int, j: int| 0 <= i < j < s.skip(n).len() implies s.skip(n)[i] != s.skip(n)[j] by {
        assert(s.skip(n)[i] == s[i + n]);
        assert(s.skip(n)[j] == s[j + n]);
    }
}

proof fn lemma_id_index(e: Seq<EntryView>, id: Seq<char>, i: int)
    requires
        0 <= i <= e.len(),
        forall|j: int| 0 <= j < i ==> e[j].0 != id,
        i == e.len() || e[i].0 == id,
    ensures
        id_index(e, id) == i,
    decreases e.len(),
{
    if e.len() > 0 && e[0].0 != id {
        lemma_id_index(e.drop_first(), id, i - 1);
    }
}

/// The first position of `id` is where it is, and no earlier entry has it.
pub proof fn lemma_id_index_absent(e: Seq<EntryView>, id: Seq<char>)
    ensures
        0 <= id_index(e, id) <= e.len(),
        forall|j: int| 0 <= j < id_index(e, id) ==> e[j].0 != id,
        id_index(e, id) < e.len() ==> e[id_index(e, id)].0 == id,
    decreases e.len(),
{
    if e.len() > 0 && e[0].0 != id {
        lemma_id_index_absent(e.drop_first(), id);
        assert forall|j: int| 0 <= j < id_index(e, id) implies e[j].0 != id by {
            if j > 0 {
                assert(e[j] == e.drop_first()[j - 1]);
            }
        }
    }
}


/// Keeping only first occurrences leaves no key twice.
pub proof fn lemma_dedup_keep_first_no_dups(s: Seq<Seq<char>>)
    ensures
        no_dups(dedup_keep_first(s)),
    decreases s.len(),
{
    if s.len() > 0 {
        lemma_dedup_keep_first_no_dups(s.drop_last());
        let r = dedup_keep_first(s.drop_last());
        if !r.contains(s.last()) {
            lemma_push_new_no_dups(r, s.last());
        }
    }
}

/// Loading leaves no sequence id twice.
pub proof fn lemma_restored_entries_unique(e: Seq<EntryView>)
    ensures
        unique_ids(restored_entries(e)),
    decreases e.len(),
{
    if e.len() > 0 {
        lemma_restored_entries_unique(e.drop_last());
        let r = restored_entries(e.drop_last());
        if !ids_of(r).contains(e.last().0) {
            let x = (e.last().0, first_n(e.last().1, MAX_MERGED_MESSAGES as nat));
            assert forall|i: int, j: int| 0 <= i < j < r.push(x).len() implies r.push(x)[i].0 != r.push(x)[j].0 by {
                if j == r.len() {
                    assert(ids_of(r)[i] == r[i].0);
                }
            }
        }
    }
}

fn dedup_strings(v: &Vec<String>) -> (r: Vec<String>)
    ensures
        views(r@) == dedup_keep_first(views(v@)),
{
    let mut r: Vec<String> = Vec::new();
    let mut i: usize = 0;
    proof {
        assert(views(v@).take(0) =~= Seq::<Seq<char>>::empty());
        assert(views(r@) =~= Seq::<Seq<char>>::empty());
    }
    while i < v.len()
        invariant
            i <= v@.len(),
            views(r@) == dedup_keep_first(views(v@).take(i as int)),
        decreases v.len() - i,
    {
        proof {
            assert(views(v@).take(i + 1).drop_last() =~= views(v@).take(i as int));
            assert(views(v@).take(i + 1).last() == v@[i as int]@);
        }
        if !contains_str(&r, v[i].as_str()) {
            let ghost before = r@;
            r.push(copy_str(v[i].as_str()));
            proof {
                assert(views(r@) =~= views(before).push(v@[i as int]@));
            }
        }
        i += 1;
    }
    proof {
        assert(views(v@).take(v@.len() as int) =~= views(v@));
    }
    r
}

fn first_messages(v: &Vec<String>) -> (r: Vec<String>)
    ensures
        views(r@) == first_n(views(v@), MAX_MERGED_MESSAGES as nat),
{
    let mut r: Vec<String> = Vec::new();
    let mut i: usize = 0;
    while i < v.len() && i < MAX_MERGED_MESSAGES
        invariant
            i <= v@.len(),
            i <= MAX_MERGED_MESSAGES,
            views(r@) == views(v@).take(i as int),
        decreases v.len() - i,
    {
        let ghost before = r@;
        r.push(copy_str(v[i].as_str()));
        proof {
            assert(views(r@) =~= views(before).push(v@[i as int]@));
            assert(views(v@).take(i + 1) =~= views(v@).take(i as int).push(v@[i as int]@));
        }
        i += 1;
    }
    proof {
        assert(views(v@).take(i as int) =~= first_n(views(v@), MAX_MERGED_MESSAGES as nat));
    }
    r
}

impl State {
    /// A state as it was saved: every key, sequence id and repository is kept
    /// only at its first occurrence, and each notification keeps at most four
    /// blocks.
    pub fn restore(
        last_modified: Option<String>,
        seen: Vec<String>,
        notifications: Vec<NotificationEntry>,
        auto_watch_initialized: bool,
        auto_watched: Vec<String>,
    ) -> (r: State)
        ensures
            r.wf(),
            r.last_modified_view() == crate::github::model::opt_view(last_modified),
            r.seen_view() == dedup_keep_first(views(seen@)),
            r.entries_view() == restored_entries(notifications@.map_values(|e: NotificationEntry| entry_view(e))),
            r.auto_watch_initialized_view() == auto_watch_initialized,
            r.auto_watched_view() == dedup_keep_first(views(auto_watched@)),
    {
        let mut state = State {
            last_modified,
            seen: into_queue(seen),
            notifications: into_queue(notifications),
            auto_watch_initialized,
            auto_watched,
        };
        state.rebuild_seen_index();
        state.rebuild_notification_index();
        state.auto_watched = dedup_strings(&state.auto_watched);
        proof {
            lemma_dedup_keep_first_no_dups(views(auto_watched@));
        }
        state
    }

    fn rebuild_seen_index(&mut self)
        ensures
            final(self).seen_view() == dedup_keep_first(old(self).seen_view()),
            no_dups(final(self).seen_view()),
            final(self).notifications == old(self).notifications,
            final(self).auto_watched == old(self).auto_watched,
            final(self).last_modified == old(self).last_modified,
            final(self).auto_watch_initialized == old(self).auto_watch_initialized,
    {
        self.seen = dedup_queue(&self.seen);
        proof {
            lemma_dedup_keep_first_no_dups(old(self).seen_view());
        }
    }

    fn rebuild_notification_index(&mut self)
        ensures
            final(self).entries_view() == restored_entries(old(self).entries_view()),
            unique_ids(final(self).entries_view()),
            final(self).seen == old(self).seen,
            final(self).auto_watched == old(self).auto_watched,
            final(self).last_modified == old(self).last_modified,
            final(self).auto_watch_initialized == old(self).auto_watch_initialized,
    {
        let ghost all = self.entries_view();
        let mut kept: VecDeque<NotificationEntry> = VecDeque::new();
        let mut i: usize = 0;
        proof {
            assert(all.take(0) =~= Seq::<EntryView>::empty());
            assert(kept@.map_values(|e: NotificationEntry| entry_view(e)) =~= Seq::<EntryView>::empty());
        }
        while i < self.notifications.len()
            invariant
                i <= self.notifications@.len(),
                all == self.entries_view(),
                self.seen == old(self).seen,
                self.notifications == old(self).notifications,
                self.auto_watched == old(self).auto_watched,
                self.last_modified == old(self).last_modified,
                self.auto_watch_initialized == old(self).auto_watch_initialized,
                kept@.map_values(|e: NotificationEntry| entry_view(e)) == restored_entries(all.take(i as int)),
            decreases self.notifications.len() - i,
        {
            let ghost kv = kept@.map_values(|e: NotificationEntry| entry_view(e));
            proof {
                assert(all.take(i + 1).drop_last() =~= all.take(i as int));
                assert(all.take(i + 1).last() == all[i as int]);
            }
            let entry = &self.notifications[i];
            let mut j: usize = 0;
            while j < kept.len() && !str_eq(kept[j].sequence_id.as_str(), entry.sequence_id.as_str())
                invariant
                    j <= kept@.len(),
                    kv == kept@.map_values(|e: NotificationEntry| entry_view(e)),
                    forall|m: int| 0 <= m < j ==> kept@[m].sequence_id@ != entry.sequence_id@,
                decreases kept.len() - j,
            {
                j += 1;
            }
            if j == kept.len() {
                proof {
                    assert forall|m: int| 0 <= m < ids_of(kv).len() implies ids_of(kv)[m] != entry.sequence_id@ by {
                        assert(ids_of(kv)[m] == kept@[m].sequence_id@);
                    }
                    assert(!ids_of(kv).contains(all[i as int].0));
                }
                let fresh = NotificationEntry {
                    sequence_id: copy_str(entry.sequence_id.as_str()),
                    messages: first_messages(&entry.messages),
                };
                kept.push_back(fresh);
                proof {
                    assert(kept@.map_values(|e: NotificationEntry| entry_view(e)) =~= kv.push(
                        (all[i as int].0, first_n(all[i as int].1, MAX_MERGED_MESSAGES as nat)),
                    ));
                }
            } else {
                proof {
                    assert(ids_of(kv)[j as int] == all[i as int].0);
                    assert(ids_of(kv).contains(all[i as int].0));
                }
            }
            i += 1;
        }
        proof {
            assert(all.take(all.len() as int) =~= all);
            lemma_restored_entries_unique(all);
        }
        self.notifications = kept;
    }
}


/// A key that was just marked seen is seen, as long as at least one key is kept.
pub proof fn law_marked_key_is_seen(seen: Seq<Seq<char>>, key: Seq<char>, max: nat)
    requires
        max >= 1,
    ensures
        seen_after_mark(seen, key, max).contains(key),
{
    if !seen.contains(key) {
        let f = seen.push(key);
        assert(f[f.len() - 1] == key);
        if f.len() > max {
            let r = f.skip(f.len() - max);
            assert(r[r.len() - 1] == key);
        }
    }
}

/// Marking a new key keeps at most `max` keys, and marking any key never
/// grows a list that already holds at most `max`.
pub proof fn law_mark_seen_is_bounded(seen: Seq<Seq<char>>, key: Seq<char>, max: nat)
    requires
        !seen.contains(key) || seen.len() <= max,
    ensures
        seen_after_mark(seen, key, max).len() <= max || seen_after_mark(seen, key, max) == seen,
        seen.len() <= max ==> seen_after_mark(seen, key, max).len() <= max,
{
}

/// When the list is full, marking a new key forgets exactly the oldest key.
pub proof fn law_mark_seen_evicts_oldest(seen: Seq<Seq<char>>, key: Seq<char>, max: nat)
    requires
        !seen.contains(key),
        seen.len() == max,
        max >= 1,
    ensures
        seen_after_mark(seen, key, max) == seen.drop_first().push(key),
{
    assert(seen.push(key).skip(1) =~= seen.drop_first().push(key));
}

/// Marking a key never makes another key seen, and forgets only the oldest keys.
pub proof fn law_mark_seen_forgets_only_oldest(seen: Seq<Seq<char>>, key: Seq<char>, max: nat, other: Seq<char>)
    requires
        other != key,
    ensures
        seen_after_mark(seen, key, max).contains(other) ==> seen.contains(other),
        (seen.contains(other) && !seen_after_mark(seen, key, max).contains(other)) ==> exists|i: int|
            0 <= i < seen.len() && seen[i] == other && i < seen.len() + 1 - max,
{
    let r = seen_after_mark(seen, key, max);
    if !seen.contains(key) {
        let f = seen.push(key);
        if r.contains(other) {
            let j = choose|j: int| 0 <= j < r.len() && r[j] == other;
            if f.len() > max {
                assert(r[j] == f[j + f.len() - max]);
            }
            let k = if f.len() > max { j + f.len() - max } else { j };
            assert(f[k] == other);
            assert(k < seen.len());
            assert(seen[k] == other);
        }
        if seen.contains(other) && !r.contains(other) {
            let i = choose|i: int| 0 <= i < seen.len() && seen[i] == other;
            if f.len() > max {
                if i >= f.len() - max {
                    assert(r[i - (f.len() - max)] == other);
                }
            } else {
                assert(r[i] == other);
            }
        }
    }
}

/// Marking keeps the list free of repeated keys.
pub proof fn law_mark_seen_keeps_keys_unique(seen: Seq<Seq<char>>, key: Seq<char>, max: nat)
    requires
        no_dups(seen),
    ensures
        no_dups(seen_after_mark(seen, key, max)),
{
    if !seen.contains(key) {
        lemma_push_new_no_dups(seen, key);
        let f = seen.push(key);
        if f.len() > max {
            lemma_skip_no_dups(f, f.len() - max);
        }
    }
}

/// After blocks are remembered under a sequence id, looking the id up gives
/// them back, as long as at least one notification is kept (an id that was
/// already remembered is updated in place whatever the limit).
pub proof fn law_remembered_blocks_are_found(e: Seq<EntryView>, id: Seq<char>, msgs: Seq<Seq<char>>, max: nat)
    requires
        unique_ids(e),
        max >= 1 || id_index(e, id) < e.len(),
    ensures
        lookup(entries_after_remember(e, id, msgs, max), id) == Some(msgs),
{
    lemma_id_index_absent(e, id);
    let r = entries_after_remember(e, id, msgs, max);
    if id_index(e, id) < e.len() {
        let k = id_index(e, id);
        assert forall|j: int| 0 <= j < k implies r[j].0 != id by {
            assert(r[j] == e[j]);
        }
        lemma_id_index(r, id, k);
    } else {
        let f = e.push((id, msgs));
        let k = r.len() - 1;
        assert(r[k] == (id, msgs));
        assert forall|j: int| 0 <= j < k implies r[j].0 != id by {
            if f.len() > max {
                assert(r[j] == f[j + f.len() - max]);
                assert(r[j] == e[j + f.len() - max]);
            } else {
                assert(r[j] == e[j]);
            }
        }
        lemma_id_index(r, id, k);
    }
}

/// Remembering a new sequence id keeps at most `max` notifications, and
/// remembering under a known id changes no other entry.
pub proof fn law_remember_is_bounded(e: Seq<EntryView>, id: Seq<char>, msgs: Seq<Seq<char>>, max: nat)
    ensures
        id_index(e, id) >= e.len() ==> entries_after_remember(e, id, msgs, max).len() == if e.len() + 1 > max {
            max
        } else {
            e.len() + 1
        },
        id_index(e, id) < e.len() ==> entries_after_remember(e, id, msgs, max).len() == e.len(),
{
    lemma_id_index_absent(e, id);
}

/// A message that is already one of the blocks of its notification changes
/// nothing: the blocks stay as they are.
pub proof fn law_merge_skips_duplicate_block(e: Seq<EntryView>, id: Seq<char>, msgs: Seq<Seq<char>>, max: nat, incoming: Seq<char>)
    requires
        unique_ids(e),
        max >= 1 || id_index(e, id) < e.len(),
        msgs.contains(trimmed(incoming)),
    ensures
        merged_blocks(lookup(entries_after_remember(e, id, msgs, max), id), trimmed(incoming)) == msgs,
{
    law_remembered_blocks_are_found(e, id, msgs, max);
}

/// A new message comes first, ahead of the newest earlier blocks, and a
/// notification never shows more than four blocks once a new one is added.
pub proof fn law_merge_puts_newest_first(existing: Option<Seq<Seq<char>>>, incoming: Seq<char>)
    requires
        !(existing matches Some(ex) && ex.contains(incoming)),
    ensures
        merged_blocks(existing, incoming)[0] == incoming,
        merged_blocks(existing, incoming).len() <= MAX_MERGED_MESSAGES,
        existing matches Some(ex) ==> merged_blocks(existing, incoming).drop_first() == first_n(ex, (MAX_MERGED_MESSAGES - 1) as nat),
{
    match existing {
        Some(ex) => {
            assert((seq![incoming] + first_n(ex, (MAX_MERGED_MESSAGES - 1) as nat)).drop_first() =~= first_n(ex, (MAX_MERGED_MESSAGES - 1) as nat));
        },
        None => {},
    }
}

/// The seen keys after each of `keys` is marked seen in turn.
pub open spec fn seen_after_marks(seen: Seq<Seq<char>>, keys: Seq<Seq<char>>, max: nat) -> Seq<Seq<char>>
    decreases keys.len(),
{
    if keys.len() == 0 {
        seen
    } else {
        seen_after_mark(seen_after_marks(seen, keys.drop_last(), max), keys.last(), max)
    }
}

/// Marking keys one after another, starting from nothing, keeps a queue: at
/// most `max` keys are seen, each of them only once and each one of the
/// marked keys, and the last key marked is seen.
pub proof fn law_marks_keep_a_bounded_queue(keys: Seq<Seq<char>>, max: nat)
    requires
        max >= 1,
    ensures
        seen_after_marks(Seq::empty(), keys, max).len() <= max,
        no_dups(seen_after_marks(Seq::empty(), keys, max)),
        forall|k: Seq<char>| #[trigger] seen_after_marks(Seq::empty(), keys, max).contains(k) ==> keys.contains(k),
        keys.len() > 0 ==> seen_after_marks(Seq::empty(), keys, max).contains(keys.last()),
    decreases keys.len(),
{
    if keys.len() > 0 {
        let before = seen_after_marks(Seq::empty(), keys.drop_last(), max);
        law_marks_keep_a_bounded_queue(keys.drop_last(), max);
        law_mark_seen_is_bounded(before, keys.last(), max);
        law_mark_seen_keeps_keys_unique(before, keys.last(), max);
        law_marked_key_is_seen(before, keys.last(), max);
        assert forall|k: Seq<char>| #[trigger] seen_after_mark(before, keys.last(), max).contains(k) implies keys.contains(k) by {
            if k == keys.last() {
                assert(keys[keys.len() - 1] == k);
            } else {
                law_mark_seen_forgets_only_oldest(before, keys.last(), max, k);
                let j = choose|j: int| 0 <= j < keys.drop_last().len() && keys.drop_last()[j] == k;
                assert(keys[j] == k);
            }
        }
    }
}

/// Marking a key that is already seen changes nothing: it is not moved to
/// the newest place and no other key is forgotten.
pub proof fn law_marking_a_seen_key_changes_nothing(seen: Seq<Seq<char>>, key: Seq<char>, max: nat)
    requires
        seen.contains(key),
    ensures
        seen_after_mark(seen, key, max) == seen,
{
}

proof fn lemma_dedup_of_distinct(s: Seq<Seq<char>>)
    requires
        no_dups(s),
    ensures
        dedup_keep_first(s) == s,
    decreases s.len(),
{
    if s.len() > 0 {
        let d = s.drop_last();
        assert(no_dups(d)) by {
            assert forall|i: int, j: int| 0 <= i < j < d.len() implies d[i] != d[j] by {
                assert(d[i] == s[i] && d[j] == s[j]);
            }
        }
        lemma_dedup_of_distinct(d);
        if d.contains(s.last()) {
            let i = choose|i: int| 0 <= i < d.len() && d[i] == s.last();
            assert(s[i] == s[s.len() - 1]);
        }
        assert(d.push(s.last()) =~= s);
    }
}

proof fn lemma_restored_of_distinct(e: Seq<EntryView>)
    requires
        unique_ids(e),
        forall|i: int| 0 <= i < e.len() ==> (#[trigger] e[i]).1.len() <= MAX_MERGED_MESSAGES,
    ensures
        restored_entries(e) == e,
    decreases e.len(),
{
    if e.len() > 0 {
        let d = e.drop_last();
        assert(unique_ids(d)) by {
            assert forall|i: int, j: int| 0 <= i < j < d.len() implies d[i].0 != d[j].0 by {
                assert(d[i] == e[i] && d[j] == e[j]);
            }
        }
        assert forall|i: int| 0 <= i < d.len() implies (#[trigger] d[i]).1.len() <= MAX_MERGED_MESSAGES by {
            assert(d[i] == e[i]);
        }
        lemma_restored_of_distinct(d);
        if ids_of(d).contains(e.last().0) {
            let i = choose|i: int| 0 <= i < ids_of(d).len() && ids_of(d)[i] == e.last().0;
            assert(d[i] == e[i]);
        }
        assert(e[e.len() - 1].1.len() <= MAX_MERGED_MESSAGES);
        assert(first_n(e.last().1, MAX_MERGED_MESSAGES as nat) == e.last().1);
        assert(d.push((e.last().0, e.last().1)) =~= e);
    }
}

/// Saving a state and restoring it gives it back: restoring keeps the first
/// occurrence of each key, sequence id and repository and at most four
/// blocks per notification, which changes nothing in a consistent state
/// whose notifications hold at most four blocks each (as merged ones do).
pub proof fn law_restore_gives_back_the_saved_state(s: State)
    requires
        s.wf(),
        forall|i: int| 0 <= i < s.entries_view().len() ==> (#[trigger] s.entries_view()[i]).1.len() <= MAX_MERGED_MESSAGES,
    ensures
        dedup_keep_first(s.seen_view()) == s.seen_view(),
        restored_entries(s.entries_view()) == s.entries_view(),
        dedup_keep_first(s.auto_watched_view()) == s.auto_watched_view(),
{
    lemma_dedup_of_distinct(s.seen_view());
    lemma_restored_of_distinct(s.entries_view());
    lemma_dedup_of_distinct(s.auto_watched_view());
}

/// Keys dropped from the front of `q` while more than `max` remain.
pub open spec fn pop_front_while_over(q: Seq<Seq<char>>, max: nat) -> Seq<Seq<char>>
    decreases q.len(),
{
    if q.len() > max {
        pop_front_while_over(q.drop_first(), max)
    } else {
        q
    }
}

/// The queue of keys after each of `keys` is marked in turn, starting from
/// none: a key not in the queue is pushed at the back (one already there is
/// not moved), then keys are popped from the front while more than `max`
/// remain.
pub open spec fn queue_after_marks(keys: Seq<Seq<char>>, max: nat) -> Seq<Seq<char>>
    decreases keys.len(),
{
    if keys.len() == 0 {
        Seq::empty()
    } else {
        let q = queue_after_marks(keys.drop_last(), max);
        if q.contains(keys.last()) {
            q
        } else {
            pop_front_while_over(q.push(keys.last()), max)
        }
    }
}

proof fn lemma_pop_front_while_over(q: Seq<Seq<char>>, max: nat)
    ensures
        pop_front_while_over(q, max) == newest(q, max),
    decreases q.len(),
{
    if q.len() > max {
        lemma_pop_front_while_over(q.drop_first(), max);
        if q.drop_first().len() > max {
            assert(q.drop_first().skip(q.drop_first().len() - max) =~= q.skip(q.len() - max));
        } else {
            assert(q.drop_first() =~= q.skip(q.len() - max));
        }
    }
}

/// The seen keys of a state that starts with none and is marked with each of
/// `keys` in turn (each step being what `mark_seen` does) are exactly the
/// queue of [`queue_after_marks`]: at most `max` keys when `max` is at least
/// one, the last key marked among them, and marking a key already seen
/// neither moves it nor forgets another.
pub proof fn law_seen_keys_follow_the_queue(states: Seq<State>, keys: Seq<Seq<char>>, max: nat)
    requires
        states.len() == keys.len() + 1,
        states[0].seen_view().len() == 0,
        forall|i: int|
            0 <= i < keys.len() ==> #[trigger] states[i + 1].seen_view() == seen_after_mark(
                states[i].seen_view(),
                keys[i],
                max,
            ),
    ensures
        states.last().seen_view() == queue_after_marks(keys, max),
        max >= 1 ==> states.last().seen_view().len() <= max,
        max >= 1 && keys.len() > 0 ==> states.last().seen_view().contains(keys.last()),
    decreases keys.len(),
{
    if keys.len() == 0 {
        assert(states.last().seen_view() =~= queue_after_marks(keys, max));
    } else {
        let n = keys.len() - 1;
        let ps = states.drop_last();
        let pk = keys.drop_last();
        assert forall|i: int| 0 <= i < pk.len() implies #[trigger] ps[i + 1].seen_view() == seen_after_mark(
            ps[i].seen_view(),
            pk[i],
            max,
        ) by {
            assert(ps[i + 1] == states[i + 1] && ps[i] == states[i] && pk[i] == keys[i]);
        }
        law_seen_keys_follow_the_queue(ps, pk, max);
        let q = queue_after_marks(pk, max);
        assert(states[n + 1].seen_view() == seen_after_mark(states[n].seen_view(), keys[n], max));
        assert(states[n] == ps.last());
        lemma_pop_front_while_over(q.push(keys.last()), max);
        if max >= 1 {
            law_marked_key_is_seen(q, keys.last(), max);
            law_mark_seen_is_bounded(q, keys.last(), max);
        }
    }
}

} // verus!
