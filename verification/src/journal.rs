//! The journal of downloads that were confirmed to Telegram but are not yet saved.
//!
//! Downloads run in the background, so that a slow one cannot keep a bot from
//! receiving later messages. Their updates are confirmed as soon as they are
//! queued; the journal is what lets a crash in between lose nothing.

use crate::text::{copy_opt, opt_view};
use vstd::prelude::*;

verus! {

/// A file to fetch, with what is needed to note and acknowledge it afterwards.
pub struct PendingDownload {
    pub update_id: i64,
    pub file_id: String,
    pub file_name: Option<String>,
    pub caption: String,
    pub chat_id: i64,
    pub message_id: i64,
}

/// What a [`PendingDownload`] holds.
#[verifier::ext_equal]
pub struct JobModel {
    pub update_id: i64,
    pub file_id: Seq<char>,
    pub file_name: Option<Seq<char>>,
    pub caption: Seq<char>,
    pub chat_id: i64,
    pub message_id: i64,
}

impl View for PendingDownload {
    type V = JobModel;

    open spec fn view(&self) -> JobModel {
        JobModel {
            update_id: self.update_id,
            file_id: self.file_id@,
            file_name: opt_view(self.file_name),
            caption: self.caption@,
            chat_id: self.chat_id,
            message_id: self.message_id,
        }
    }
}

impl Clone for PendingDownload {
    fn clone(&self) -> (r: Self)
        ensures
            r@ == self@,
    {
        PendingDownload {
            update_id: self.update_id,
            file_id: self.file_id.clone(),
            file_name: copy_opt(&self.file_name),
            caption: self.caption.clone(),
            chat_id: self.chat_id,
            message_id: self.message_id,
        }
    }
}

/// What a journal holds.
pub open spec fn job_models(journal: Seq<PendingDownload>) -> Seq<JobModel> {
    journal.map_values(|j: PendingDownload| j@)
}

/// The update is in the journal.
pub open spec fn queued(journal: Seq<JobModel>, uid: i64) -> bool {
    exists|i: int| 0 <= i < journal.len() && (#[trigger] journal[i]).update_id == uid
}

/// The journal without the jobs of one update, the others in their order.
pub open spec fn without(journal: Seq<JobModel>, uid: i64) -> Seq<JobModel>
    decreases journal.len(),
{
    if journal.len() == 0 {
        journal
    } else if journal.last().update_id == uid {
        without(journal.drop_last(), uid)
    } else {
        without(journal.drop_last(), uid).push(journal.last())
    }
}

/// Whether the update is in the journal.
pub fn is_queued(journal: &Vec<PendingDownload>, uid: i64) -> (r: bool)
    ensures
        r == queued(job_models(journal@), uid),
{
    let ghost jobs = job_models(journal@);
    let mut i: usize = 0;
    while i < journal.len()
        invariant
            i <= journal@.len(),
            jobs == job_models(journal@),
            forall|k: int| 0 <= k < i ==> (#[trigger] jobs[k]).update_id != uid,
        decreases journal@.len() - i,
    {
        assert(jobs[i as int] == journal@[i as int]@);
        if journal[i].update_id == uid {
            return true;
        }
        i += 1;
    }
    false
}

/// Adds a job to the journal.
pub fn enqueue(journal: &mut Vec<PendingDownload>, job: PendingDownload)
    ensures
        job_models(final(journal)@) == job_models(old(journal)@).push(job@),
{
    journal.push(job);
    assert(job_models(journal@) =~= job_models(old(journal)@).push(job@));
}

/// Drops the jobs of an update that was saved, or that failed for good.
pub fn finish(journal: &mut Vec<PendingDownload>, uid: i64)
    ensures
        job_models(final(journal)@) == without(job_models(old(journal)@), uid),
{
    let ghost jobs = job_models(journal@);
    let mut kept: Vec<PendingDownload> = Vec::new();
    let mut i: usize = 0;
    assert(jobs.take(0) =~= Seq::<JobModel>::empty());
    assert(job_models(kept@) =~= Seq::<JobModel>::empty());
    while i < journal.len()
        invariant
            i <= journal@.len(),
            jobs == job_models(journal@),
            job_models(kept@) == without(jobs.take(i as int), uid),
        decreases journal@.len() - i,
    {
        proof {
            assert(jobs.take(i + 1).drop_last() =~= jobs.take(i as int));
            assert(jobs.take(i + 1).last() == journal@[i as int]@);
        }
        if journal[i].update_id != uid {
            let ghost before = kept@;
            kept.push(journal[i].clone());
            assert(job_models(kept@) =~= job_models(before).push(journal@[i as int]@));
        }
        i += 1;
    }
    assert(jobs.take(i as int) =~= jobs);
    *journal = kept;
}

/// Whether a journal has a file at all: an empty one leaves none behind, so that
/// no orphan lingers for a bot that no longer exists.
pub fn has_file(journal: &Vec<PendingDownload>) -> (r: bool)
    ensures
        r == (job_models(journal@).len() > 0),
{
    journal.len() > 0
}

/// Finishing an update drops its jobs and no others, and is final: the update is
/// no longer queued, and every other one is queued if and only if it was.
pub proof fn law_finishing_drops_only_its_own(journal: Seq<JobModel>, uid: i64, other: i64)
    ensures
        !queued(without(journal, uid), uid),
        other != uid ==> (queued(without(journal, uid), other) <==> queued(journal, other)),
    decreases journal.len(),
{
    if journal.len() > 0 {
        let front = journal.drop_last();
        let last = journal.last();
        law_finishing_drops_only_its_own(front, uid, other);
        assert(journal[journal.len() - 1] == last);
        if queued(front, other) {
            let i = choose|i: int| 0 <= i < front.len() && (#[trigger] front[i]).update_id == other;
            assert(journal[i].update_id == other);
        }
        if queued(journal, other) && last.update_id != other {
            let i = choose|i: int|
                0 <= i < journal.len() && (#[trigger] journal[i]).update_id == other;
            assert(front[i].update_id == other);
        }
        if last.update_id != uid {
            let kept = without(front, uid);
            let all = kept.push(last);
            assert(without(journal, uid) == all);
            assert(all[kept.len() as int] == last);
            if queued(kept, other) {
                let i = choose|i: int| 0 <= i < kept.len() && (#[trigger] kept[i]).update_id
                    == other;
                assert(all[i].update_id == other);
            }
            if queued(all, other) && last.update_id != other {
                let i = choose|i: int| 0 <= i < all.len() && (#[trigger] all[i]).update_id == other;
                assert(kept[i].update_id == other);
            }
            if queued(all, uid) {
                let i = choose|i: int| 0 <= i < all.len() && (#[trigger] all[i]).update_id == uid;
                assert(kept[i].update_id == uid);
            }
        }
    }
}

/// A journal without an update is made job by job: each job is kept or dropped by
/// its own id alone, and those that are kept stay in their order.
pub proof fn law_jobs_are_dropped_one_by_one(journal: Seq<JobModel>, job: JobModel, uid: i64)
    ensures
        without(Seq::empty(), uid) == Seq::<JobModel>::empty(),
        job.update_id == uid ==> without(journal.push(job), uid) == without(journal, uid),
        job.update_id != uid ==> without(journal.push(job), uid) == without(journal, uid).push(job),
{
    assert(journal.push(job).drop_last() =~= journal);
    assert(journal.push(job).last() == job);
}

/// An update is queued exactly when some job of the journal is for it.
pub proof fn law_an_update_is_queued_by_its_id(journal: Seq<JobModel>, job: JobModel, uid: i64)
    ensures
        !queued(Seq::empty(), uid),
        queued(journal.push(job), uid) <==> queued(journal, uid) || job.update_id == uid,
{
    let more = journal.push(job);
    assert(more[journal.len() as int] == job);
    if queued(journal, uid) {
        let i = choose|i: int| 0 <= i < journal.len() && (#[trigger] journal[i]).update_id == uid;
        assert(more[i].update_id == uid);
    }
    if queued(more, uid) && job.update_id != uid {
        let i = choose|i: int| 0 <= i < more.len() && (#[trigger] more[i]).update_id == uid;
        assert(journal[i].update_id == uid);
    }
}

/// The view of a job leaves nothing out.
pub proof fn law_a_job_is_seen_whole(job: PendingDownload)
    ensures
        job@.update_id == job.update_id,
        job@.file_id == job.file_id@,
        job@.file_name is Some <==> job.file_name is Some,
        job.file_name is Some ==> job@.file_name->0 == job.file_name->0@,
        job@.caption == job.caption@,
        job@.chat_id == job.chat_id,
        job@.message_id == job.message_id,
{
}

/// The models of a journal are those of its jobs, in order.
pub proof fn law_every_job_is_seen(journal: Seq<PendingDownload>, i: int)
    requires
        0 <= i < journal.len(),
    ensures
        job_models(journal).len() == journal.len(),
        job_models(journal)[i] == journal[i]@,
{
}

} // verus!
