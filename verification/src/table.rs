//! The status of every bot, by id.

use crate::status::{merge_status, merged, BotStatus, StatusModel};
use crate::text::same_text;
use vstd::prelude::*;

verus! {

/// The status of each bot, by its id. No id occurs twice.
pub struct StatusTable {
    entries: Vec<(String, BotStatus)>,
}

/// `i` is the place of `id` in a list of entries.
pub open spec fn is_place(entries: Seq<(String, BotStatus)>, id: Seq<char>, i: int) -> bool {
    0 <= i < entries.len() && entries[i].0@ == id
}

/// No id occurs twice in a list of entries.
pub open spec fn distinct(entries: Seq<(String, BotStatus)>) -> bool {
    forall|i: int, j: int|
        0 <= i < j < entries.len() ==> (#[trigger] entries[i]).0@ != (#[trigger] entries[j]).0@
}

/// The table that a list of entries spells out.
pub open spec fn table_of(entries: Seq<(String, BotStatus)>) -> Map<Seq<char>, StatusModel> {
    Map::new(
        |id: Seq<char>| exists|i: int| is_place(entries, id, i),
        |id: Seq<char>| entries[choose|i: int| is_place(entries, id, i)].1@,
    )
}

/// The status of a bot, blank where the table has none.
pub open spec fn known(table: Map<Seq<char>, StatusModel>, id: Seq<char>) -> StatusModel {
    if table.contains_key(id) {
        table[id]
    } else {
        StatusModel::blank()
    }
}

/// What is written to disk: what is on disk, with each of `mine` merged into it.
pub open spec fn merged_table(
    mine: Map<Seq<char>, StatusModel>,
    on_disk: Map<Seq<char>, StatusModel>,
) -> Map<Seq<char>, StatusModel> {
    Map::new(
        |id: Seq<char>| mine.contains_key(id) || on_disk.contains_key(id),
        |id: Seq<char>|
            if mine.contains_key(id) {
                merged(mine[id], known(on_disk, id))
            } else {
                on_disk[id]
            },
    )
}

proof fn lemma_place(entries: Seq<(String, BotStatus)>, i: int)
    requires
        distinct(entries),
        0 <= i < entries.len(),
    ensures
        table_of(entries).contains_key(entries[i].0@),
        table_of(entries)[entries[i].0@] == entries[i].1@,
{
    let id = entries[i].0@;
    assert(is_place(entries, id, i));
    let k = choose|k: int| is_place(entries, id, k);
    assert(is_place(entries, id, k));
    assert(k == i) by {
        if k < i {
            assert(entries[k].0@ != entries[i].0@);
        }
        if i < k {
            assert(entries[i].0@ != entries[k].0@);
        }
    }
}

proof fn lemma_absent(entries: Seq<(String, BotStatus)>, id: Seq<char>)
    requires
        forall|i: int| 0 <= i < entries.len() ==> (#[trigger] entries[i]).0@ != id,
    ensures
        !table_of(entries).contains_key(id),
{
    assert(forall|i: int| !is_place(entries, id, i));
}

proof fn lemma_push(entries: Seq<(String, BotStatus)>, entry: (String, BotStatus))
    requires
        distinct(entries),
        !table_of(entries).contains_key(entry.0@),
    ensures
        distinct(entries.push(entry)),
        table_of(entries.push(entry)) == table_of(entries).insert(entry.0@, entry.1@),
{
    let more = entries.push(entry);
    let want = table_of(entries).insert(entry.0@, entry.1@);
    assert forall|i: int| 0 <= i < entries.len() implies (#[trigger] entries[i]).0@ != entry.0@ by {
        lemma_place(entries, i);
    }
    assert(distinct(more));
    assert forall|id: Seq<char>| table_of(more).contains_key(id) <==> want.contains_key(id) by {
        if table_of(more).contains_key(id) {
            let i = choose|i: int| is_place(more, id, i);
            assert(is_place(more, id, i));
            if i < entries.len() {
                assert(is_place(entries, id, i));
            }
        }
        if table_of(entries).contains_key(id) {
            let i = choose|i: int| is_place(entries, id, i);
            assert(is_place(entries, id, i));
            assert(is_place(more, id, i));
        }
        assert(is_place(more, entry.0@, entries.len() as int));
    }
    assert forall|id: Seq<char>| table_of(more).contains_key(id) implies table_of(more)[id]
        == want[id] by {
        let i = choose|i: int| is_place(more, id, i);
        assert(is_place(more, id, i));
        lemma_place(more, i);
        if i < entries.len() {
            assert(is_place(entries, id, i));
            lemma_place(entries, i);
        }
    }
    assert(table_of(more) =~= want);
}

proof fn lemma_update(entries: Seq<(String, BotStatus)>, i: int, entry: (String, BotStatus))
    requires
        distinct(entries),
        is_place(entries, entry.0@, i),
    ensures
        distinct(entries.update(i, entry)),
        table_of(entries.update(i, entry)) == table_of(entries).insert(entry.0@, entry.1@),
{
    let next = entries.update(i, entry);
    let want = table_of(entries).insert(entry.0@, entry.1@);
    assert forall|k: int| 0 <= k < next.len() implies (#[trigger] next[k]).0@ == entries[k].0@ by {}
    assert(distinct(next)) by {
        assert forall|a: int, b: int| 0 <= a < b < next.len() implies (#[trigger] next[a]).0@ != (
        #[trigger] next[b]).0@ by {
            assert(entries[a].0@ != entries[b].0@);
        }
    }
    assert forall|id: Seq<char>| table_of(next).contains_key(id) <==> want.contains_key(id) by {
        if table_of(next).contains_key(id) {
            let k = choose|k: int| is_place(next, id, k);
            assert(is_place(next, id, k));
            assert(is_place(entries, id, k));
        }
        if table_of(entries).contains_key(id) {
            let k = choose|k: int| is_place(entries, id, k);
            assert(is_place(entries, id, k));
            assert(next[k].0@ == entries[k].0@);
            assert(is_place(next, id, k));
        }
        assert(is_place(next, entry.0@, i));
    }
    assert forall|id: Seq<char>| table_of(next).contains_key(id) implies table_of(next)[id]
        == want[id] by {
        let k = choose|k: int| is_place(next, id, k);
        assert(is_place(next, id, k));
        lemma_place(next, k);
        lemma_place(entries, k);
        if k != i {
            assert(next[k].0@ != next[i].0@);
        }
    }
    assert(table_of(next) =~= want);
}

proof fn lemma_remove(entries: Seq<(String, BotStatus)>, i: int)
    requires
        distinct(entries),
        0 <= i < entries.len(),
    ensures
        distinct(entries.remove(i)),
        table_of(entries.remove(i)) == table_of(entries).remove(entries[i].0@),
{
    let next = entries.remove(i);
    let gone = entries[i].0@;
    let want = table_of(entries).remove(gone);
    assert forall|k: int| 0 <= k < next.len() implies #[trigger] next[k] == entries[if k < i {
        k
    } else {
        k + 1
    }] by {}
    assert(distinct(next));
    assert forall|id: Seq<char>| table_of(next).contains_key(id) <==> want.contains_key(id) by {
        if table_of(next).contains_key(id) {
            let k = choose|k: int| is_place(next, id, k);
            assert(is_place(next, id, k));
            let from = if k < i {
                k
            } else {
                k + 1
            };
            assert(next[k] == entries[from]);
            assert(is_place(entries, id, from));
            assert(entries[from].0@ != entries[i].0@);
        }
        if want.contains_key(id) {
            let k = choose|k: int| is_place(entries, id, k);
            assert(is_place(entries, id, k));
            assert(k != i);
            let to = if k < i {
                k
            } else {
                k - 1
            };
            assert(next[to] == entries[k]);
            assert(is_place(next, id, to));
        }
    }
    assert forall|id: Seq<char>| table_of(next).contains_key(id) implies table_of(next)[id]
        == want[id] by {
        let k = choose|k: int| is_place(next, id, k);
        assert(is_place(next, id, k));
        lemma_place(next, k);
        let from = if k < i {
            k
        } else {
            k + 1
        };
        assert(next[k] == entries[from]);
        lemma_place(entries, from);
    }
    assert(table_of(next) =~= want);
}

impl View for StatusTable {
    type V = Map<Seq<char>, StatusModel>;

    closed spec fn view(&self) -> Map<Seq<char>, StatusModel> {
        table_of(self.entries@)
    }
}

impl StatusTable {
    /// No id occurs twice.
    pub closed spec fn wf(self) -> bool {
        distinct(self.entries@)
    }

    pub fn new() -> (r: StatusTable)
        ensures
            r.wf(),
            r@ == Map::<Seq<char>, StatusModel>::empty(),
    {
        let r = StatusTable { entries: Vec::new() };
        proof {
            assert forall|id: Seq<char>| !r@.contains_key(id) by {
                lemma_absent(r.entries@, id);
            }
            assert(r@ =~= Map::<Seq<char>, StatusModel>::empty());
        }
        r
    }

    /// The entries, one for each bot in the table.
    pub fn entries(&self) -> (r: &Vec<(String, BotStatus)>)
        requires
            self.wf(),
        ensures
            distinct(r@),
            table_of(r@) == self@,
    {
        &self.entries
    }

    fn place(&self, id: &str) -> (r: Option<usize>)
        requires
            self.wf(),
        ensures
            match r {
                Some(i) => is_place(self.entries@, id@, i as int),
                None => !self@.contains_key(id@),
            },
    {
        let mut i: usize = 0;
        while i < self.entries.len()
            invariant
                i <= self.entries@.len(),
                forall|k: int| 0 <= k < i ==> (#[trigger] self.entries@[k]).0@ != id@,
            decreases self.entries@.len() - i,
        {
            if same_text(self.entries[i].0.as_str(), id) {
                return Some(i);
            }
            i += 1;
        }
        proof {
            lemma_absent(self.entries@, id@);
        }
        None
    }

    /// The status of a bot, if there is one.
    pub fn get(&self, id: &str) -> (r: Option<&BotStatus>)
        requires
            self.wf(),
        ensures
            match r {
                Some(s) => self@.contains_key(id@) && self@[id@] == s@,
                None => !self@.contains_key(id@),
            },
    {
        match self.place(id) {
            Some(i) => {
                proof {
                    lemma_place(self.entries@, i as int);
                }
                Some(&self.entries[i].1)
            },
            None => None,
        }
    }

    /// The status of a bot, blank where the table has none.
    pub fn status_of(&self, id: &str) -> (r: BotStatus)
        requires
            self.wf(),
        ensures
            r@ == known(self@, id@),
    {
        match self.get(id) {
            Some(s) => s.clone(),
            None => BotStatus::default(),
        }
    }

    /// Whether `uid` is recorded as written to the bot's markdown file.
    ///
    /// Checked in addition to the offset, which cannot be trusted on its own:
    /// Telegram delivers a confirmed update again for a day if it is ever asked
    /// with a lower offset.
    pub fn already_saved(&self, id: &str, uid: i64) -> (r: bool)
        requires
            self.wf(),
        ensures
            r == known(self@, id@).saved.contains(uid),
    {
        match self.get(id) {
            Some(s) => crate::status::holds(&s.saved, uid),
            None => false,
        }
    }

    /// Records the status of a bot.
    pub fn put(&mut self, id: String, status: BotStatus)
        requires
            old(self).wf(),
        ensures
            final(self).wf(),
            final(self)@ == old(self)@.insert(id@, status@),
    {
        match self.place(id.as_str()) {
            Some(i) => {
                proof {
                    lemma_update(self.entries@, i as int, (id, status));
                }
                self.entries.set(i, (id, status));
            },
            None => {
                proof {
                    lemma_push(self.entries@, (id, status));
                }
                self.entries.push((id, status));
            },
        }
    }

    /// Records that a bot is being started.
    pub fn mark_started(&mut self, id: &str)
        requires
            old(self).wf(),
        ensures
            final(self).wf(),
            final(self)@ == old(self)@.insert(
                id@,
                StatusModel { running: true, ..known(old(self)@, id@) },
            ),
    {
        let mut status = self.status_of(id);
        status.running = true;
        self.put(id.to_owned(), status);
    }

    /// Records that a bot was stopped, where anything is known of it.
    pub fn mark_stopped(&mut self, id: &str)
        requires
            old(self).wf(),
        ensures
            final(self).wf(),
            final(self)@ == if old(self)@.contains_key(id@) {
                old(self)@.insert(id@, StatusModel { running: false, ..old(self)@[id@] })
            } else {
                old(self)@
            },
    {
        let found = match self.get(id) {
            Some(s) => Some(s.clone()),
            None => None,
        };
        if let Some(s) = found {
            let mut status = s;
            status.running = false;
            self.put(id.to_owned(), status);
        }
    }

    /// Forgets a bot.
    pub fn remove(&mut self, id: &str)
        requires
            old(self).wf(),
        ensures
            final(self).wf(),
            final(self)@ == old(self)@.remove(id@),
    {
        match self.place(id) {
            Some(i) => {
                proof {
                    lemma_remove(self.entries@, i as int);
                }
                self.entries.remove(i);
            },
            None => {
                assert(self@.remove(id@) =~= self@);
            },
        }
    }

    /// Merges every status into what is on disk, rather than overwriting it: see
    /// [`merge_status`]. A bot that only the disk knows of stays as it is.
    pub fn merge_into(&self, on_disk: &mut StatusTable)
        requires
            self.wf(),
            old(on_disk).wf(),
        ensures
            final(on_disk).wf(),
            final(on_disk)@ == merged_table(self@, old(on_disk)@),
    {
        let ghost start = on_disk@;
        let mut i: usize = 0;
        proof {
            assert forall|id: Seq<char>| !table_of(self.entries@.take(0)).contains_key(id) by {
                lemma_absent(self.entries@.take(0), id);
            }
            assert(on_disk@ =~= merged_table(table_of(self.entries@.take(0)), start));
        }
        while i < self.entries.len()
            invariant
                i <= self.entries@.len(),
                self.wf(),
                distinct(self.entries@),
                on_disk.wf(),
                on_disk@ == merged_table(table_of(self.entries@.take(i as int)), start),
            decreases self.entries@.len() - i,
        {
            let id = &self.entries[i].0;
            let ghost done = self.entries@.take(i as int);
            proof {
                assert(distinct(done));
                assert forall|k: int| 0 <= k < done.len() implies (#[trigger] done[k]).0@
                    != id@ by {
                    assert(self.entries@[k].0@ != self.entries@[i as int].0@);
                }
                lemma_absent(done, id@);
                lemma_push(done, self.entries@[i as int]);
                assert(self.entries@.take(i + 1) =~= done.push(self.entries@[i as int]));
            }
            let before = on_disk.status_of(id.as_str());
            assert(before@ == known(start, id@));
            let next = merge_status(&self.entries[i].1, &before);
            on_disk.put(id.clone(), next);
            i += 1;
            assert(on_disk@ =~= merged_table(table_of(self.entries@.take(i as int)), start));
        }
        assert(self.entries@.take(i as int) =~= self.entries@);
    }

    /// As [`StatusTable::merge_into`], for a bot that was removed: nothing of it is
    /// left, neither of what is known here nor of what is on disk, so that it does
    /// not come back as an orphan.
    pub fn merge_without(&self, on_disk: &mut StatusTable, id: &str)
        requires
            self.wf(),
            old(on_disk).wf(),
        ensures
            final(on_disk).wf(),
            final(on_disk)@ == merged_table(self@.remove(id@), old(on_disk)@.remove(id@)),
            !final(on_disk)@.contains_key(id@),
    {
        let ghost start = on_disk@;
        on_disk.remove(id);
        self.merge_into(on_disk);
        on_disk.remove(id);
        proof {
            lemma_merged_without(self@, start, id@);
        }
    }
}

/// Leaving a bot out on both sides is leaving it out of what they merge to.
proof fn lemma_merged_without(
    mine: Map<Seq<char>, StatusModel>,
    on_disk: Map<Seq<char>, StatusModel>,
    id: Seq<char>,
)
    ensures
        merged_table(mine, on_disk.remove(id)).remove(id) == merged_table(
            mine.remove(id),
            on_disk.remove(id),
        ),
{
    assert(merged_table(mine, on_disk.remove(id)).remove(id) =~= merged_table(
        mine.remove(id),
        on_disk.remove(id),
    ));
}

/// A bot that was removed leaves nothing behind, and every other one stays what
/// it would have been: it is only the removed one that is missing.
pub proof fn law_a_removed_bot_leaves_nothing_behind(
    mine: Map<Seq<char>, StatusModel>,
    on_disk: Map<Seq<char>, StatusModel>,
    id: Seq<char>,
)
    ensures
        merged_table(mine.remove(id), on_disk.remove(id)) == merged_table(mine, on_disk).remove(id),
        !merged_table(mine.remove(id), on_disk.remove(id)).contains_key(id),
{
    assert(merged_table(mine.remove(id), on_disk.remove(id)) =~= merged_table(
        mine,
        on_disk,
    ).remove(id));
}

/// Writing the table down keeps every bot that either side knew, and moves none
/// of them backwards.
pub proof fn law_writing_keeps_every_bot(
    mine: Map<Seq<char>, StatusModel>,
    on_disk: Map<Seq<char>, StatusModel>,
    id: Seq<char>,
)
    requires
        mine.contains_key(id) || on_disk.contains_key(id),
    ensures
        merged_table(mine, on_disk).contains_key(id),
        mine.contains_key(id) ==> merged_table(mine, on_disk)[id].offset >= mine[id].offset
            && merged_table(mine, on_disk)[id].message_count >= mine[id].message_count,
        on_disk.contains_key(id) ==> merged_table(mine, on_disk)[id].offset >= on_disk[id].offset
            && merged_table(mine, on_disk)[id].message_count >= on_disk[id].message_count,
{
}

/// What is written down of a bot depends on that bot alone: merged where it is
/// known here, with a blank status where the disk knows nothing of it, and as it
/// is on disk where it is not known here.
pub proof fn law_each_bot_is_merged_by_itself(
    mine: Map<Seq<char>, StatusModel>,
    on_disk: Map<Seq<char>, StatusModel>,
    id: Seq<char>,
)
    ensures
        merged_table(mine, on_disk).contains_key(id) <==> mine.contains_key(id)
            || on_disk.contains_key(id),
        mine.contains_key(id) && on_disk.contains_key(id) ==> merged_table(mine, on_disk)[id]
            == merged(mine[id], on_disk[id]),
        mine.contains_key(id) && !on_disk.contains_key(id) ==> merged_table(mine, on_disk)[id]
            == merged(mine[id], StatusModel::blank()),
        !mine.contains_key(id) && on_disk.contains_key(id) ==> merged_table(mine, on_disk)[id]
            == on_disk[id],
{
}

/// A table has the status of every entry under its id, and nothing else; a bot that
/// it does not have is blank.
pub proof fn law_a_table_has_every_entry(
    entries: Seq<(String, BotStatus)>,
    i: int,
    id: Seq<char>,
)
    requires
        distinct(entries),
        0 <= i < entries.len(),
    ensures
        table_of(entries).contains_key(entries[i].0@),
        table_of(entries)[entries[i].0@] == entries[i].1@,
        known(table_of(entries), entries[i].0@) == entries[i].1@,
        (forall|k: int| 0 <= k < entries.len() ==> (#[trigger] entries[k]).0@ != id)
            ==> !table_of(entries).contains_key(id) && known(table_of(entries), id)
            == StatusModel::blank(),
{
    lemma_place(entries, i);
    if table_of(entries).contains_key(id) {
        let k = choose|k: int| is_place(entries, id, k);
        assert(entries[k].0@ == id);
    }
}

} // verus!
