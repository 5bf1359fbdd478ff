//! What becomes of a queued file.

use crate::clock::{is_time_of_day, time_of_day};
use crate::download::{DownloadError, ErrorModel};
use crate::inbox::Inbox;
use crate::journal::{
    law_finishing_drops_only_its_own, queued, without, JobModel, PendingDownload,
};
use crate::notes::{captioned, dropped_note, prefixed, saved_note, with_caption};
use crate::paths::{file_name_or, name_or, path_file_name};
use crate::poll::{written_view, Gate};
use crate::size::{human_size, size_text};
use crate::status::{
    law_remembering_is_idempotent_and_bounded, remember_saved, remembered, BotStatus, StatusModel,
};
use crate::telegram::UpdateModel;
use crate::text::begins_with;
use vstd::prelude::*;

verus! {

/// Seconds to wait before a failed download is tried again.
pub const DOWNLOAD_WAIT: u64 = 10;

/// How a download ended.
pub enum Outcome {
    /// The file is at `dest` and has `size` bytes.
    Saved { dest: String, size: i64 },
    Failed(DownloadError),
}

/// What an [`Outcome`] holds.
pub enum OutcomeModel {
    Saved { dest: Seq<char>, size: i64 },
    Failed(ErrorModel),
}

impl View for Outcome {
    type V = OutcomeModel;

    open spec fn view(&self) -> OutcomeModel {
        match self {
            Outcome::Saved { dest, size } => OutcomeModel::Saved { dest: dest@, size: *size },
            Outcome::Failed(e) => OutcomeModel::Failed(e@),
        }
    }
}

impl OutcomeModel {
    /// The download is to be tried again.
    pub open spec fn is_transient(self) -> bool {
        self is Failed && !self->Failed_0.permanent
    }
}

/// What is to be done after a download.
pub enum JobStep {
    /// Try again after so many seconds; the job stays in the journal.
    Retry(u64),
    /// Write this note; then the job is done.
    Note(String),
}

/// What a [`JobStep`] holds.
pub enum StepModel {
    Retry(u64),
    Note(Seq<char>),
}

impl View for JobStep {
    type V = StepModel;

    open spec fn view(&self) -> StepModel {
        match self {
            JobStep::Retry(wait) => StepModel::Retry(*wait),
            JobStep::Note(text) => StepModel::Note(text@),
        }
    }
}

/// What is to be done after a download, and the status then.
pub open spec fn downloaded(status: StatusModel, job: JobModel, outcome: OutcomeModel) -> (
    StatusModel,
    StepModel,
) {
    match outcome {
        OutcomeModel::Saved { dest, size } => (
            status,
            StepModel::Note(captioned(saved_note(name_or(dest, "file"@), dest), job.caption)),
        ),
        OutcomeModel::Failed(e) => if e.permanent {
            (status, StepModel::Note(captioned("could not save file: "@ + e.msg, job.caption)))
        } else {
            (
                StatusModel { last_error: Some("file save failed: "@ + e.msg), ..status },
                StepModel::Retry(DOWNLOAD_WAIT),
            )
        },
    }
}

/// Decides what is to be done after a download: a failure that may pass is tried
/// again, anything else is noted.
pub fn after_download(status: &mut BotStatus, job: &PendingDownload, outcome: &Outcome) -> (r:
    JobStep)
    ensures
        (final(status)@, r@) == downloaded(old(status)@, job@, outcome@),
{
    match outcome {
        Outcome::Saved { dest, size } => {
            JobStep::Note(with_caption(dropped_note(dest.as_str()), job.caption.as_str()))
        },
        Outcome::Failed(e) => {
            if e.permanent {
                let note = prefixed("could not save file: ", e.msg.as_str());
                JobStep::Note(with_caption(note, job.caption.as_str()))
            } else {
                status.last_error = Some(prefixed("file save failed: ", e.msg.as_str()));
                JobStep::Retry(DOWNLOAD_WAIT)
            }
        },
    }
}

/// What the sender is told of a file, and whether the message is marked as saved.
pub struct Ack {
    pub reply: String,
    /// The file and its note are both there: mark the message, and write the
    /// status down.
    pub done: bool,
}

/// What an [`Ack`] holds.
#[verifier::ext_equal]
pub struct AckModel {
    pub reply: Seq<char>,
    pub done: bool,
}

impl View for Ack {
    type V = AckModel;

    open spec fn view(&self) -> AckModel {
        AckModel { reply: self.reply@, done: self.done }
    }
}

/// What the sender is told of a file, and the status, once its note was written
/// at the time of day `at`, or could not be.
pub open spec fn noted(
    status: StatusModel,
    job: JobModel,
    outcome: OutcomeModel,
    written: Result<(), Seq<char>>,
    at: Seq<char>,
) -> (StatusModel, AckModel) {
    match outcome {
        OutcomeModel::Saved { dest, size } => {
            let what = name_or(dest, "file"@) + " ("@ + size_text(size as int) + ")"@;
            match written {
                Ok(_) => (
                    StatusModel {
                        saved: remembered(status.saved, job.update_id),
                        message_count: (status.message_count + 1) as u64,
                        last_message_at: Some(at),
                        last_error: None,
                        ..status
                    },
                    AckModel { reply: "✅ Saved "@ + what, done: true },
                ),
                Err(e) => (
                    StatusModel {
                        last_error: Some("file saved but note write failed: "@ + e),
                        ..status
                    },
                    AckModel {
                        reply: "⚠️ Downloaded "@ + what + " but couldn't write its note to the file: "@
                            + e,
                        done: false,
                    },
                ),
            }
        },
        OutcomeModel::Failed(e) => (
            StatusModel { saved: remembered(status.saved, job.update_id), ..status },
            AckModel { reply: "⚠️ "@ + e.msg, done: false },
        ),
    }
}

/// `name` with the size behind it.
fn name_and_size(prefix: &str, dest: &str, size: i64) -> (r: String)
    ensures
        r@ == prefix@ + (name_or(dest@, "file"@) + " ("@ + size_text(size as int) + ")"@),
{
    let name = file_name_or(dest, "file");
    let mut out = prefixed(prefix, name.as_str());
    out.append(" (");
    let text = human_size(size);
    out.append(text.as_str());
    out.append(")");
    assert(out@ =~= prefix@ + (name@ + " ("@ + size_text(size as int) + ")"@));
    out
}

/// Brings the status up to date once the note on a file was written at the time
/// of day `at`, or could not be. A file whose note could not be written is still
/// done, for it is on disk; but it is not counted, and the sender is told.
pub fn after_note(
    status: &mut BotStatus,
    job: &PendingDownload,
    outcome: &Outcome,
    written: Result<(), String>,
    at: String,
) -> (r: Ack)
    requires
        !outcome@.is_transient(),
        outcome is Saved && written is Ok ==> old(status)@.message_count < u64::MAX,
    ensures
        (final(status)@, r@) == noted(old(status)@, job@, outcome@, written_view(written), at@),
{
    match outcome {
        Outcome::Saved { dest, size } => {
            match written {
                Ok(_) => {
                    remember_saved(status, job.update_id);
                    status.message_count += 1;
                    status.last_message_at = Some(at);
                    status.last_error = None;
                    Ack { reply: name_and_size("✅ Saved ", dest.as_str(), *size), done: true }
                },
                Err(e) => {
                    status.last_error = Some(
                        prefixed("file saved but note write failed: ", e.as_str()),
                    );
                    let mut reply = name_and_size("⚠️ Downloaded ", dest.as_str(), *size);
                    reply.append(" but couldn't write its note to the file: ");
                    reply.append(e.as_str());
                    Ack { reply, done: false }
                },
            }
        },
        Outcome::Failed(e) => {
            remember_saved(status, job.update_id);
            Ack { reply: prefixed("⚠️ ", e.msg.as_str()), done: false }
        },
    }
}

/// [`after_note`] at this moment.
pub fn after_note_now(
    status: &mut BotStatus,
    job: &PendingDownload,
    outcome: &Outcome,
    written: Result<(), String>,
) -> (r: Ack)
    requires
        !outcome@.is_transient(),
        outcome is Saved && written is Ok ==> old(status)@.message_count < u64::MAX,
    ensures
        exists|at: Seq<char>|
            is_time_of_day(at) && (final(status)@, r@) == #[trigger] noted(
                old(status)@,
                job@,
                outcome@,
                written_view(written),
                at,
            ),
{
    after_note(status, job, outcome, written, time_of_day())
}

/// The inbox after one attempt at a job.
pub open spec fn worked(
    inbox: Inbox,
    job: JobModel,
    outcome: OutcomeModel,
    written: Result<(), Seq<char>>,
    at: Seq<char>,
) -> Inbox {
    let (status, step) = downloaded(inbox.status, job, outcome);
    match step {
        StepModel::Retry(_) => Inbox { status, ..inbox },
        StepModel::Note(note) => Inbox {
            status: noted(status, job, outcome, written, at).0,
            journal: without(inbox.journal, job.update_id),
            notes: if written is Ok {
                inbox.notes.push(note)
            } else {
                inbox.notes
            },
            ..inbox
        },
    }
}

/// A job leaves the journal when it is done and not before: a failure that may
/// pass keeps it there, and changes nothing but the error that is shown.
pub proof fn law_a_job_stays_until_it_is_done(
    inbox: Inbox,
    job: JobModel,
    outcome: OutcomeModel,
    written: Result<(), Seq<char>>,
    at: Seq<char>,
)
    ensures
        outcome.is_transient() ==> worked(inbox, job, outcome, written, at) == (Inbox {
            status: StatusModel {
                last_error: Some("file save failed: "@ + outcome->Failed_0.msg),
                ..inbox.status
            },
            ..inbox
        }),
        !outcome.is_transient() ==> !queued(
            worked(inbox, job, outcome, written, at).journal,
            job.update_id,
        ),
{
    law_finishing_drops_only_its_own(inbox.journal, job.update_id, job.update_id);
}

/// Work on one job leaves every other one where it was.
pub proof fn law_other_jobs_are_untouched(
    inbox: Inbox,
    job: JobModel,
    outcome: OutcomeModel,
    written: Result<(), Seq<char>>,
    at: Seq<char>,
    other: i64,
)
    requires
        other != job.update_id,
    ensures
        queued(worked(inbox, job, outcome, written, at).journal, other) <==> queued(
            inbox.journal,
            other,
        ),
{
    law_finishing_drops_only_its_own(inbox.journal, job.update_id, other);
}

/// Once a file is saved and noted, or has failed for good, its update is recorded
/// as saved, so that it is not fetched again when Telegram delivers it again.
pub proof fn law_a_done_job_is_remembered(
    inbox: Inbox,
    job: JobModel,
    outcome: OutcomeModel,
    written: Result<(), Seq<char>>,
    at: Seq<char>,
)
    requires
        !outcome.is_transient(),
        outcome is Saved ==> written is Ok,
    ensures
        worked(inbox, job, outcome, written, at).status.saved.contains(job.update_id),
{
    law_remembering_is_idempotent_and_bounded(inbox.status.saved, job.update_id);
}

/// A file is noted exactly once: from the update that queues it, over the work on
/// it, to any number of later deliveries of the same update.
pub proof fn law_a_file_is_noted_once(
    inbox: Inbox,
    update: UpdateModel,
    gate: Gate,
    outcome: OutcomeModel,
    at: Seq<char>,
    written: Result<(), Seq<char>>,
    later: Seq<char>,
)
    requires
        inbox.verdict(update, gate) is Fetch,
        !outcome.is_transient(),
    ensures
        ({
            let waiting = inbox.after(update, gate, Ok(()), at);
            let job = inbox.verdict(update, gate)->Fetch_0;
            let done = worked(waiting, job, outcome, Ok(()), at);
            let again = done.after(update, gate, written, later);
            &&& waiting.notes == inbox.notes
            &&& done.notes == inbox.notes.push(downloaded(inbox.status, job, outcome).1->Note_0)
            &&& again.notes == done.notes
            &&& again.journal == done.journal
        }),
{
    let waiting = inbox.after(update, gate, Ok(()), at);
    let job = inbox.verdict(update, gate)->Fetch_0;
    law_a_done_job_is_remembered(waiting, job, outcome, Ok(()), at);
}

/// A file counts as saved only when it is on disk and has its note: the counter
/// and the mark on the message go by that, and nothing else moves the counter.
pub proof fn law_only_a_noted_file_counts(
    inbox: Inbox,
    job: JobModel,
    outcome: OutcomeModel,
    written: Result<(), Seq<char>>,
    at: Seq<char>,
)
    requires
        inbox.status.message_count < u64::MAX,
    ensures
        ({
            let counted = outcome is Saved && written is Ok;
            &&& worked(inbox, job, outcome, written, at).status.message_count
                == inbox.status.message_count + if counted {
                1int
            } else {
                0
            }
            &&& !outcome.is_transient() ==> noted(
                inbox.status,
                job,
                outcome,
                written,
                at,
            ).1.done == counted
        }),
{
}

/// The note on a file says where it is and under which name, and has the caption
/// behind it, where there is one; the note on a failure says why.
pub proof fn law_the_note_tells_what_became_of_a_file(
    status: StatusModel,
    job: JobModel,
    outcome: OutcomeModel,
)
    ensures
        outcome matches OutcomeModel::Saved { dest, size } ==> ({
            let note = downloaded(status, job, outcome).1->Note_0;
            let name = match path_file_name(dest) {
                Some(name) => name,
                None => "file"@,
            };
            &&& downloaded(status, job, outcome).1 is Note
            &&& job.caption.len() == 0 ==> note == "saved file: "@ + name + " → "@ + dest
            &&& job.caption.len() > 0 ==> note == "saved file: "@ + name + " → "@ + dest + " — "@
                + job.caption
            &&& downloaded(status, job, outcome).0 == status
        }),
        outcome matches OutcomeModel::Failed(e) ==> e.permanent ==> ({
            let note = downloaded(status, job, outcome).1->Note_0;
            &&& downloaded(status, job, outcome).1 is Note
            &&& job.caption.len() == 0 ==> note == "could not save file: "@ + e.msg
            &&& job.caption.len() > 0 ==> note == "could not save file: "@ + e.msg + " — "@
                + job.caption
            &&& downloaded(status, job, outcome).0 == status
        }),
        outcome matches OutcomeModel::Failed(e) ==> !e.permanent ==> downloaded(
            status,
            job,
            outcome,
        ) == (
            StatusModel { last_error: Some("file save failed: "@ + e.msg), ..status },
            StepModel::Retry(10),
        ),
{
}

/// What becomes of the status when a job is done: the id of its own update is
/// recorded, unless a saved file could not be noted, and of the rest only what goes
/// with a note that was written changes.
pub proof fn law_a_done_job_is_recorded_as_it_was(
    status: StatusModel,
    job: JobModel,
    outcome: OutcomeModel,
    written: Result<(), Seq<char>>,
    at: Seq<char>,
)
    requires
        status.message_count < u64::MAX,
        status.saved.len() < 500,
        !status.saved.contains(job.update_id),
    ensures
        ({
            let after = noted(status, job, outcome, written, at).0;
            let counted = outcome is Saved && written is Ok;
            let unnoted = outcome is Saved && written is Err;
            &&& !unnoted ==> after.saved == status.saved.push(job.update_id)
            &&& unnoted ==> after.saved == status.saved
            &&& counted ==> after.message_count == status.message_count + 1
                && after.last_message_at == Some(at) && after.last_error is None
            &&& !counted ==> after.message_count == status.message_count && after.last_message_at
                == status.last_message_at
            &&& unnoted ==> after.last_error == Some(
                "file saved but note write failed: "@ + written->Err_0,
            )
            &&& outcome is Failed ==> after.last_error == status.last_error
            &&& after.running == status.running
            &&& after.username == status.username
            &&& after.last_daily_error == status.last_daily_error
            &&& after.offset == status.offset
        }),
{
}

/// The sender is told which file it was and how large, or why there is none.
pub proof fn law_the_sender_is_told_the_truth(
    status: StatusModel,
    job: JobModel,
    outcome: OutcomeModel,
    written: Result<(), Seq<char>>,
    at: Seq<char>,
)
    ensures
        outcome matches OutcomeModel::Saved { dest, size } ==> ({
            let reply = noted(status, job, outcome, written, at).1.reply;
            let name = match path_file_name(dest) {
                Some(name) => name,
                None => "file"@,
            };
            let file = name + " ("@ + size_text(size as int) + ")"@;
            &&& written is Ok ==> reply == "✅ Saved "@ + file
            &&& written matches Err(e) ==> begins_with(reply, "⚠️ Downloaded "@ + file)
                && reply.skip(reply.len() - e.len()) == e
        }),
        outcome matches OutcomeModel::Failed(e) ==> noted(
            status,
            job,
            outcome,
            written,
            at,
        ).1.reply == "⚠️ "@ + e.msg,
        noted(status, job, outcome, written, at).1.done <==> outcome is Saved && written is Ok,
{
    if let OutcomeModel::Saved { dest, size } = outcome {
        if let Err(e) = written {
            let reply = noted(status, job, outcome, written, at).1.reply;
            let file = name_or(dest, "file"@) + " ("@ + size_text(size as int) + ")"@;
            let head = "⚠️ Downloaded "@ + file;
            assert(reply.take(head.len() as int) =~= head);
            assert(reply.skip(reply.len() - e.len()) =~= e);
        }
    }
}

/// The views of an outcome, of a step and of what the sender is told leave nothing
/// out.
pub proof fn law_an_outcome_is_seen_whole(
    dest: String,
    size: i64,
    e: DownloadError,
    wait: u64,
    ack: Ack,
)
    ensures
        (Outcome::Saved { dest, size })@ == (OutcomeModel::Saved { dest: dest@, size }),
        Outcome::Failed(e)@ == OutcomeModel::Failed(e@),
        JobStep::Retry(wait)@ == StepModel::Retry(wait),
        JobStep::Note(dest)@ == StepModel::Note(dest@),
        ack@.reply == ack.reply@,
        ack@.done == ack.done,
{
}

/// A sender whose file is here while its note is not is told both, and why.
pub proof fn law_a_file_without_a_note_is_told(
    status: StatusModel,
    job: JobModel,
    dest: Seq<char>,
    size: i64,
    error: Seq<char>,
    at: Seq<char>,
)
    requires
        path_file_name(dest) is Some,
    ensures
        ({
            let outcome = OutcomeModel::Saved { dest, size };
            let (after, ack) = noted(status, job, outcome, Err(error), at);
            let file = path_file_name(dest)->0 + " ("@ + size_text(size as int) + ")"@;
            &&& !ack.done
            &&& ack.reply == "⚠️ Downloaded "@ + file
                + " but couldn't write its note to the file: "@ + error
            &&& after == (StatusModel {
                last_error: Some("file saved but note write failed: "@ + error),
                ..status
            })
        }),
{
}

} // verus!
