//! What holds of a bot's notes, whatever messages arrive and however often.

use crate::journal::{queued, JobModel};
use crate::poll::{
    confirmed, followed_by, is_stranger, remembered_opt, settled, too_large_note, unwritten,
    verdict_of, Gate, VerdictModel,
};
use crate::status::{
    law_remembering_is_idempotent_and_bounded, recent, remembered, StatusModel, RECENT_SAVED_MAX,
};
use crate::telegram::UpdateModel;
use vstd::prelude::*;

verus! {

/// Everything that an update can change: where the bot has got to, its status,
/// the files still to fetch, and the notes in the markdown file.
#[verifier::ext_equal]
pub struct Inbox {
    pub offset: i64,
    pub status: StatusModel,
    pub journal: Seq<JobModel>,
    pub notes: Seq<Seq<char>>,
}

impl Inbox {
    /// What is to be done with an update.
    pub open spec fn verdict(self, update: UpdateModel, gate: Gate) -> VerdictModel {
        verdict_of(update, gate, self.journal, self.status.saved)
    }

    /// The inbox after an update was dealt with.
    pub open spec fn after(
        self,
        update: UpdateModel,
        gate: Gate,
        written: Result<(), Seq<char>>,
        at: Seq<char>,
    ) -> Inbox {
        let verdict = self.verdict(update, gate);
        let (offset, status) = settled(
            self.offset,
            self.status,
            update.update_id,
            verdict,
            written,
            at,
        );
        Inbox {
            offset,
            status,
            journal: match verdict {
                VerdictModel::Fetch(job) => self.journal.push(job),
                _ => self.journal,
            },
            notes: match verdict {
                VerdictModel::Refuse { note, .. } => if written is Ok {
                    self.notes.push(note)
                } else {
                    self.notes
                },
                VerdictModel::Write(text) => if written is Ok {
                    self.notes.push(text)
                } else {
                    self.notes
                },
                _ => self.notes,
            },
        }
    }

    /// The inbox after a batch of updates, each of which could be written.
    pub open spec fn after_all(self, updates: Seq<UpdateModel>, gate: Gate, at: Seq<char>) -> Inbox
        decreases updates.len(),
    {
        if updates.len() == 0 {
            self
        } else {
            self.after_all(updates.drop_last(), gate, at).after(updates.last(), gate, Ok(()), at)
        }
    }

    /// The update is saved, or queued to be.
    pub open spec fn accounts_for(self, uid: i64) -> bool {
        self.status.saved.contains(uid) || queued(self.journal, uid)
    }
}

/// There is something in the update that is to be saved.
pub open spec fn wants_saving(update: UpdateModel, gate: Gate) -> bool {
    !is_stranger(gate, update.from_id) && (update.attachment is Some || update.text is Some)
}

/// The offset only ever moves forwards, and so does the one that is kept across
/// restarts.
pub proof fn law_the_offset_never_falls_back(
    inbox: Inbox,
    update: UpdateModel,
    gate: Gate,
    written: Result<(), Seq<char>>,
    at: Seq<char>,
)
    requires
        update.update_id != Some(i64::MAX),
    ensures
        inbox.after(update, gate, written, at).offset >= inbox.offset,
        inbox.after(update, gate, written, at).status.offset >= inbox.status.offset,
{
}

/// A message of anyone but the owner leaves no trace but the confirmation.
pub proof fn law_strangers_leave_no_trace(
    inbox: Inbox,
    update: UpdateModel,
    gate: Gate,
    written: Result<(), Seq<char>>,
    at: Seq<char>,
)
    requires
        is_stranger(gate, update.from_id),
    ensures
        inbox.after(update, gate, written, at) == (Inbox {
            offset: confirmed(inbox.offset, update.update_id),
            ..inbox
        }),
{
}

/// Nor does anything that is neither text nor a file: a location, a contact, a
/// poll.
pub proof fn law_other_messages_are_only_confirmed(
    inbox: Inbox,
    update: UpdateModel,
    gate: Gate,
    written: Result<(), Seq<char>>,
    at: Seq<char>,
)
    requires
        update.attachment is None,
        update.text is None,
    ensures
        inbox.after(update, gate, written, at) == (Inbox {
            offset: confirmed(inbox.offset, update.update_id),
            ..inbox
        }),
{
}

/// Every new text of the owner is noted, once and as it is, and confirmed.
pub proof fn law_every_new_text_is_noted(
    inbox: Inbox,
    update: UpdateModel,
    gate: Gate,
    at: Seq<char>,
    uid: i64,
)
    requires
        update.update_id == Some(uid),
        uid < i64::MAX,
        !is_stranger(gate, update.from_id),
        update.attachment is None,
        update.text is Some,
        !inbox.status.saved.contains(uid),
    ensures
        ({
            let after = inbox.after(update, gate, Ok(()), at);
            &&& after.notes == inbox.notes.push(update.text->0)
            &&& after.status.saved.contains(uid)
            &&& after.offset > uid
        }),
{
    law_remembering_is_idempotent_and_bounded(inbox.status.saved, uid);
}

/// An update that was saved before is neither noted nor queued again, whatever
/// the offset says; nor is a file that is still queued.
pub proof fn law_nothing_is_saved_twice(
    inbox: Inbox,
    update: UpdateModel,
    gate: Gate,
    written: Result<(), Seq<char>>,
    at: Seq<char>,
    uid: i64,
)
    requires
        update.update_id == Some(uid),
        inbox.status.saved.contains(uid) || update.attachment is Some && queued(
            inbox.journal,
            uid,
        ),
    ensures
        inbox.after(update, gate, written, at) == (Inbox {
            offset: confirmed(inbox.offset, Some(uid)),
            ..inbox
        }),
{
}

/// An update that was dealt with and is delivered again changes neither the notes
/// nor the journal, nor the count.
pub proof fn law_a_replay_changes_nothing(
    inbox: Inbox,
    update: UpdateModel,
    gate: Gate,
    written: Result<(), Seq<char>>,
    at: Seq<char>,
    later: Seq<char>,
    uid: i64,
)
    requires
        update.update_id == Some(uid),
    ensures
        ({
            let once = inbox.after(update, gate, Ok(()), at);
            let twice = once.after(update, gate, written, later);
            &&& twice.notes == once.notes
            &&& twice.journal == once.journal
            &&& twice.status == once.status
        }),
{
    law_remembering_is_idempotent_and_bounded(inbox.status.saved, uid);
    let once = inbox.after(update, gate, Ok(()), at);
    if let VerdictModel::Fetch(job) = inbox.verdict(update, gate) {
        assert(once.journal[inbox.journal.len() as int].update_id == uid);
        assert(queued(once.journal, uid));
    }
}

/// A file may be put in the journal well before its update is confirmed: if all
/// stops in between, the update comes again, and is then confirmed and nothing
/// else. The job is the one there would have been without the stop.
pub proof fn law_a_stop_before_confirming_is_harmless(
    inbox: Inbox,
    update: UpdateModel,
    gate: Gate,
    written: Result<(), Seq<char>>,
    at: Seq<char>,
)
    requires
        inbox.verdict(update, gate) is Fetch,
    ensures
        ({
            let job = inbox.verdict(update, gate)->Fetch_0;
            let stopped = Inbox { journal: inbox.journal.push(job), ..inbox };
            let again = stopped.after(update, gate, written, at);
            &&& again == (Inbox {
                offset: confirmed(inbox.offset, update.update_id),
                ..stopped
            })
            &&& again.journal == inbox.after(update, gate, written, at).journal
            &&& again.offset == inbox.after(update, gate, written, at).offset
        }),
{
    let job = inbox.verdict(update, gate)->Fetch_0;
    let stopped = inbox.journal.push(job);
    assert(stopped[inbox.journal.len() as int].update_id == job.update_id);
    assert(queued(stopped, job.update_id));
}

/// A note that cannot be written is not lost: nothing is confirmed, nothing is
/// recorded as saved, and the same is to be done when the update comes again.
pub proof fn law_a_failed_write_loses_nothing(
    inbox: Inbox,
    update: UpdateModel,
    gate: Gate,
    error: Seq<char>,
    at: Seq<char>,
)
    requires
        inbox.verdict(update, gate) is Write || inbox.verdict(update, gate) is Refuse,
    ensures
        inbox.after(update, gate, Err(error), at) == (Inbox {
            status: unwritten(inbox.status, error),
            ..inbox
        }),
        inbox.after(update, gate, Err(error), at).verdict(update, gate) == inbox.verdict(
            update,
            gate,
        ),
{
}

/// Nothing is confirmed before it is safe: once the offset has moved past an
/// update with anything to save in it, the update is recorded as saved, or its
/// file is in the journal.
pub proof fn law_what_is_confirmed_is_accounted_for(
    inbox: Inbox,
    update: UpdateModel,
    gate: Gate,
    written: Result<(), Seq<char>>,
    at: Seq<char>,
    uid: i64,
)
    requires
        update.update_id == Some(uid),
        uid < i64::MAX,
        inbox.offset <= uid < inbox.after(update, gate, written, at).offset,
        wants_saving(update, gate),
    ensures
        inbox.after(update, gate, written, at).accounts_for(uid),
{
    law_remembering_is_idempotent_and_bounded(inbox.status.saved, uid);
    if let VerdictModel::Fetch(job) = inbox.verdict(update, gate) {
        let after = inbox.after(update, gate, written, at);
        assert(after.journal[inbox.journal.len() as int].update_id == uid);
        assert(queued(after.journal, uid));
    }
}

/// The place of `uid` in `saved` is at most `back` from its end.
spec fn is_near(saved: Seq<i64>, uid: i64, back: int) -> bool {
    exists|k: int| 0 <= k < saved.len() && #[trigger] saved[k] == uid && saved.len() - k <= back
}

proof fn lemma_near_after(saved: Seq<i64>, uid: i64, back: int, other: i64)
    requires
        is_near(saved, uid, back),
        back < RECENT_SAVED_MAX,
    ensures
        is_near(remembered(saved, other), uid, back + 1),
{
    let k = choose|k: int|
        0 <= k < saved.len() && #[trigger] saved[k] == uid && saved.len() - k <= back;
    let next = remembered(saved, other);
    if saved.contains(other) {
        assert(next[k] == uid);
    } else {
        let more = saved.push(other);
        assert(more[k] == uid);
        if more.len() > RECENT_SAVED_MAX {
            let cut = more.len() - RECENT_SAVED_MAX;
            assert(next[k - cut] == uid);
        } else {
            assert(next[k] == uid);
        }
    }
}

/// After a batch, each of its updates is one that there is nothing to save in, is
/// queued, or is not far from the end of the list of saved ids.
proof fn lemma_batch(
    inbox: Inbox,
    updates: Seq<UpdateModel>,
    gate: Gate,
    at: Seq<char>,
    i: int,
)
    requires
        0 <= i < updates.len() <= RECENT_SAVED_MAX,
        updates[i].update_id is Some,
        wants_saving(updates[i], gate),
        forall|k: int| 0 <= k < i ==> #[trigger] updates[k].update_id != updates[i].update_id,
        !inbox.status.saved.contains(updates[i].update_id->0),
    ensures
        ({
            let uid = updates[i].update_id->0;
            let after = inbox.after_all(updates, gate, at);
            ||| updates[i].attachment is Some && queued(after.journal, uid)
            ||| is_near(after.status.saved, uid, updates.len() - i)
        }),
    decreases updates.len(),
{
    let uid = updates[i].update_id->0;
    let before = inbox.after_all(updates.drop_last(), gate, at);
    let last = updates.last();
    let after = inbox.after_all(updates, gate, at);
    assert(after == before.after(last, gate, Ok(()), at));
    if i < updates.len() - 1 {
        lemma_batch(inbox, updates.drop_last(), gate, at, i);
        if queued(before.journal, uid) {
            let k = choose|k: int|
                0 <= k < before.journal.len() && (#[trigger] before.journal[k]).update_id == uid;
            assert(after.journal[k].update_id == uid);
        }
        if is_near(before.status.saved, uid, updates.len() - 1 - i) {
            if after.status.saved != before.status.saved {
                let other = last.update_id->0;
                assert(after.status.saved == remembered(before.status.saved, other));
                lemma_near_after(before.status.saved, uid, updates.len() - 1 - i, other);
            } else {
                let k = choose|k: int|
                    0 <= k < before.status.saved.len() && #[trigger] before.status.saved[k] == uid
                        && before.status.saved.len() - k <= updates.len() - 1 - i;
                assert(after.status.saved[k] == uid);
            }
        }
    } else {
        lemma_not_remembered(inbox, updates.drop_last(), gate, at, uid);
        if let VerdictModel::Fetch(job) = before.verdict(last, gate) {
            assert(after.journal[before.journal.len() as int].update_id == uid);
        } else if !(last.attachment is Some && queued(before.journal, uid)) {
            let saved = before.status.saved;
            assert(after.status.saved == remembered(saved, uid));
            let r = recent(saved.push(uid));
            assert(r[r.len() - 1] == uid);
        }
    }
}

/// Remembering one id brings in no other.
proof fn lemma_other_id(saved: Seq<i64>, uid: i64, other: i64)
    requires
        other != uid,
        !saved.contains(other),
    ensures
        !remembered(saved, uid).contains(other),
{
    let more = saved.push(uid);
    let kept = recent(more);
    if !saved.contains(uid) && kept.contains(other) {
        let k = choose|k: int| 0 <= k < kept.len() && kept[k] == other;
        assert(more[k + more.len() - kept.len()] == other);
        assert(saved[k + more.len() - kept.len()] == other);
    }
}

/// A batch records no id but those of its own updates.
proof fn lemma_not_remembered(
    inbox: Inbox,
    updates: Seq<UpdateModel>,
    gate: Gate,
    at: Seq<char>,
    uid: i64,
)
    requires
        forall|k: int| 0 <= k < updates.len() ==> #[trigger] updates[k].update_id != Some(uid),
        !inbox.status.saved.contains(uid),
    ensures
        !inbox.after_all(updates, gate, at).status.saved.contains(uid),
    decreases updates.len(),
{
    if updates.len() > 0 {
        let before = inbox.after_all(updates.drop_last(), gate, at);
        assert forall|k: int| 0 <= k < updates.len() - 1 implies #[trigger] updates.drop_last()[k].update_id
            != Some(uid) by {
            assert(updates[k].update_id != Some(uid));
        }
        lemma_not_remembered(inbox, updates.drop_last(), gate, at, uid);
        let last = updates.last();
        assert(updates[updates.len() - 1].update_id != Some(uid));
        let after = inbox.after_all(updates, gate, at);
        let saved = before.status.saved;
        assert(after.status.saved == saved || after.status.saved == remembered_opt(
            saved,
            last.update_id,
        ));
        if last.update_id is Some {
            lemma_other_id(saved, last.update_id->0, uid);
        }
    }
}

/// A whole batch that is delivered again adds nothing: after a batch of at most
/// [`RECENT_SAVED_MAX`] new updates, none of them is noted or queued a second
/// time, even if the offset is rolled back to before the first of them.
pub proof fn law_a_replayed_batch_adds_nothing(
    inbox: Inbox,
    updates: Seq<UpdateModel>,
    gate: Gate,
    at: Seq<char>,
    i: int,
    rolled_back: i64,
    written: Result<(), Seq<char>>,
    later: Seq<char>,
)
    requires
        0 <= i < updates.len() <= RECENT_SAVED_MAX,
        forall|k: int| 0 <= k < updates.len() ==> (#[trigger] updates[k]).update_id is Some,
        forall|j: int, k: int|
            0 <= j < k < updates.len() ==> (#[trigger] updates[j]).update_id != (
            #[trigger] updates[k]).update_id,
        !inbox.status.saved.contains(updates[i].update_id->0),
    ensures
        ({
            let once = Inbox { offset: rolled_back, ..inbox.after_all(updates, gate, at) };
            let twice = once.after(updates[i], gate, written, later);
            twice.notes == once.notes && twice.journal == once.journal
        }),
{
    if wants_saving(updates[i], gate) {
        lemma_batch(inbox, updates, gate, at, i);
    }
}

/// The note that an update becomes is in the file, or its file is in the journal.
pub open spec fn is_kept(inbox: Inbox, update: UpdateModel) -> bool {
    match update.attachment {
        Some(att) => queued(inbox.journal, update.update_id->0) || inbox.notes.contains(
            too_large_note(att, update.caption),
        ),
        None => inbox.notes.contains(update.text->0),
    }
}

impl Inbox {
    /// The inbox after the first `n` updates of a batch, of which `written` says
    /// how the writing of each went, and whether the batch is still being worked
    /// on: it is not after a note that could not be written.
    pub open spec fn after_first(
        self,
        updates: Seq<UpdateModel>,
        gate: Gate,
        written: spec_fn(int) -> Result<(), Seq<char>>,
        at: Seq<char>,
        n: nat,
    ) -> (Inbox, bool)
        decreases n,
    {
        if n == 0 {
            (self, true)
        } else {
            let (before, going) = self.after_first(updates, gate, written, at, (n - 1) as nat);
            if going {
                let update = updates[n - 1];
                let went = written(n - 1);
                (
                    before.after(update, gate, went, at),
                    followed_by(before.verdict(update, gate), went).go_on,
                )
            } else {
                (before, false)
            }
        }
    }
}

/// A batch as Telegram delivers it to a bot that asks from `offset` on: every
/// update has an id, the ids ascend, and none is below the offset.
pub open spec fn is_batch(updates: Seq<UpdateModel>, offset: i64) -> bool {
    &&& forall|k: int|
        0 <= k < updates.len() ==> (#[trigger] updates[k]).update_id is Some && offset
            <= updates[k].update_id->0 < i64::MAX
    &&& forall|j: int, k: int|
        0 <= j < k < updates.len() ==> (#[trigger] updates[j]).update_id->0 < (
        #[trigger] updates[k]).update_id->0
}

proof fn lemma_kept_stays(before: Inbox, after: Inbox, update: UpdateModel)
    requires
        is_kept(before, update),
        forall|k: int|
            0 <= k < before.journal.len() ==> k < after.journal.len() && before.journal[k]
                == #[trigger] after.journal[k],
        forall|k: int|
            0 <= k < before.notes.len() ==> k < after.notes.len() && before.notes[k]
                == #[trigger] after.notes[k],
        before.journal.len() <= after.journal.len(),
        before.notes.len() <= after.notes.len(),
    ensures
        is_kept(after, update),
{
    if update.attachment is Some && queued(before.journal, update.update_id->0) {
        let k = choose|k: int|
            0 <= k < before.journal.len() && (#[trigger] before.journal[k]).update_id
                == update.update_id->0;
        assert(after.journal[k].update_id == update.update_id->0);
    } else {
        let note = match update.attachment {
            Some(att) => too_large_note(att, update.caption),
            None => update.text->0,
        };
        let k = choose|k: int| 0 <= k < before.notes.len() && before.notes[k] == note;
        assert(after.notes[k] == note);
    }
}

/// What is already noted or queued stays so while a batch is worked on, and the
/// offset stays at or below the first update that is still to come.
proof fn lemma_after_first(
    inbox: Inbox,
    updates: Seq<UpdateModel>,
    gate: Gate,
    written: spec_fn(int) -> Result<(), Seq<char>>,
    at: Seq<char>,
    n: nat,
    i: int,
)
    requires
        is_batch(updates, inbox.offset),
        n <= updates.len(),
        0 <= i < updates.len(),
        wants_saving(updates[i], gate),
        !inbox.status.saved.contains(updates[i].update_id->0),
    ensures
        ({
            let (after, going) = inbox.after_first(updates, gate, written, at, n);
            let uid = updates[i].update_id->0;
            &&& uid < after.offset ==> i < n && is_kept(after, updates[i])
            &&& going && i >= n ==> !after.status.saved.contains(uid)
            &&& going ==> forall|k: int|
                n <= k < updates.len() ==> after.offset <= (#[trigger] updates[k]).update_id->0
        }),
    decreases n,
{
    let uid = updates[i].update_id->0;
    if n > 0 {
        lemma_after_first(inbox, updates, gate, written, at, (n - 1) as nat, i);
        let (before, going) = inbox.after_first(updates, gate, written, at, (n - 1) as nat);
        let (after, _) = inbox.after_first(updates, gate, written, at, n);
        let update = updates[n - 1];
        let went = written(n - 1);
        if going {
            assert(before.offset <= update.update_id->0);
            assert(after == before.after(update, gate, went, at));
            assert forall|k: int| n <= k < updates.len() implies after.offset <= (
            #[trigger] updates[k]).update_id->0 by {
                assert(update.update_id->0 < updates[k].update_id->0);
            }
            if i >= n {
                assert(update.update_id->0 < uid);
                lemma_other_id(before.status.saved, update.update_id->0, uid);
            } else if i == n - 1 {
                if uid < after.offset {
                    let verdict = before.verdict(update, gate);
                    if let VerdictModel::Fetch(job) = verdict {
                        assert(after.journal[before.journal.len() as int].update_id == uid);
                    } else if verdict is Write || verdict is Refuse {
                        assert(after.notes[before.notes.len() as int] == after.notes.last());
                    }
                }
            } else if is_kept(before, updates[i]) {
                lemma_kept_stays(before, after, updates[i]);
            }
        }
    }
}

/// No message is lost, whatever fails: once a batch was worked on, up to its end
/// or to the first note that could not be written, every update with anything to
/// save that the offset has moved past is noted, or its file is queued. The
/// others Telegram delivers again.
pub proof fn law_no_message_is_lost(
    inbox: Inbox,
    updates: Seq<UpdateModel>,
    gate: Gate,
    written: spec_fn(int) -> Result<(), Seq<char>>,
    at: Seq<char>,
    i: int,
)
    requires
        is_batch(updates, inbox.offset),
        0 <= i < updates.len(),
        wants_saving(updates[i], gate),
        !inbox.status.saved.contains(updates[i].update_id->0),
        updates[i].update_id->0 < inbox.after_first(
            updates,
            gate,
            written,
            at,
            updates.len(),
        ).0.offset,
    ensures
        is_kept(inbox.after_first(updates, gate, written, at, updates.len()).0, updates[i]),
{
    lemma_after_first(inbox, updates, gate, written, at, updates.len(), i);
}

} // verus!
