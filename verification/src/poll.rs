//! What a bot does with the updates it receives.

use crate::clock::{is_time_of_day, time_of_day};
use crate::journal::{is_queued, job_models, queued, JobModel, PendingDownload};
use crate::notes::{captioned, prefixed, with_caption};
use crate::redact::{scrub, scrubbed};
use crate::size::{human_size, size_text};
use crate::status::{holds, remember_saved, remembered, BotStatus, StatusModel};
use crate::telegram::{
    update_models, Attachment, AttachmentModel, Update, UpdateModel, Updates, UpdatesModel,
    RETRY_WAIT,
};
use crate::text::{begins_with, copy_opt};
use vstd::prelude::*;

verus! {

/// The largest file that the public Bot API serves, in bytes. A local server has
/// no such limit.
///
/// Decimal, as Telegram documents it, so that it lines up with the real cut-off.
pub const PUBLIC_DOWNLOAD_LIMIT: i64 = 20_000_000;

/// The rules that a bot goes by.
#[derive(Clone, Copy)]
pub struct Gate {
    /// The user that may write; 0 for anyone.
    pub allowed_user_id: i64,
    /// Files come from the public Bot API, which has a limit.
    pub capped: bool,
}

/// What is to be done with an update.
pub enum Verdict {
    /// Nothing is to be saved; it is confirmed.
    Confirm,
    /// Nothing can be done with it; it is not confirmed.
    Leave,
    /// The file is too large: `note` goes to the markdown file and `reply` to the
    /// sender.
    Refuse { note: String, reply: String },
    /// The file is queued.
    Fetch(PendingDownload),
    /// The text goes to the markdown file.
    Write(String),
}

/// What a [`Verdict`] holds.
pub enum VerdictModel {
    Confirm,
    Leave,
    Refuse { note: Seq<char>, reply: Seq<char> },
    Fetch(JobModel),
    Write(Seq<char>),
}

impl View for Verdict {
    type V = VerdictModel;

    open spec fn view(&self) -> VerdictModel {
        match self {
            Verdict::Confirm => VerdictModel::Confirm,
            Verdict::Leave => VerdictModel::Leave,
            Verdict::Refuse { note, reply } => VerdictModel::Refuse { note: note@, reply: reply@ },
            Verdict::Fetch(job) => VerdictModel::Fetch(job@),
            Verdict::Write(text) => VerdictModel::Write(text@),
        }
    }
}

/// The sender is not the one that may write.
pub open spec fn is_stranger(gate: Gate, from_id: i64) -> bool {
    gate.allowed_user_id != 0 && from_id != gate.allowed_user_id
}

/// What a file is called before it has a name.
pub open spec fn display_name(att: AttachmentModel) -> Seq<char> {
    match att.file_name {
        Some(name) => name,
        None => "file"@,
    }
}

/// The note on a file that is too large.
pub open spec fn too_large_note(att: AttachmentModel, caption: Seq<char>) -> Seq<char> {
    captioned(
        "could not save file: "@ + display_name(att) + " is "@ + size_text(att.file_size as int)
            + " — over the 20 MB Bot API limit; enable the local server to receive it"@,
        caption,
    )
}

/// The answer to a file that is too large.
pub open spec fn too_large_reply(att: AttachmentModel) -> Seq<char> {
    "⚠️ "@ + display_name(att) + " ("@ + size_text(att.file_size as int)
        + ") is over the 20 MB limit and was not saved."@
}

/// What is to be done with an update, given what is queued and what was saved.
pub open spec fn verdict_of(
    update: UpdateModel,
    gate: Gate,
    journal: Seq<JobModel>,
    saved: Seq<i64>,
) -> VerdictModel {
    if is_stranger(gate, update.from_id) {
        VerdictModel::Confirm
    } else {
        match (update.attachment, update.update_id) {
            (Some(_), None) => VerdictModel::Leave,
            (Some(att), Some(uid)) => if queued(journal, uid) || saved.contains(uid) {
                VerdictModel::Confirm
            } else if gate.capped && att.file_size > PUBLIC_DOWNLOAD_LIMIT {
                VerdictModel::Refuse {
                    note: too_large_note(att, update.caption),
                    reply: too_large_reply(att),
                }
            } else {
                VerdictModel::Fetch(
                    JobModel {
                        update_id: uid,
                        file_id: att.file_id,
                        file_name: att.file_name,
                        caption: update.caption,
                        chat_id: update.chat_id,
                        message_id: update.message_id,
                    },
                )
            },
            (None, uid) => match update.text {
                None => VerdictModel::Confirm,
                Some(text) => if uid is Some && saved.contains(uid->0) {
                    VerdictModel::Confirm
                } else {
                    VerdictModel::Write(text)
                },
            },
        }
    }
}

/// The name that a file goes by.
fn name_of(att: &Attachment) -> (r: String)
    ensures
        r@ == display_name(att@),
{
    match &att.file_name {
        Some(name) => name.clone(),
        None => "file".to_owned(),
    }
}

/// The note and the answer for a file that is too large.
fn refuse(att: &Attachment, caption: &str) -> (r: Verdict)
    ensures
        r@ == (VerdictModel::Refuse {
            note: too_large_note(att@, caption@),
            reply: too_large_reply(att@),
        }),
{
    let name = name_of(att);
    let size = human_size(att.file_size);
    let mut note = prefixed("could not save file: ", name.as_str());
    note.append(" is ");
    note.append(size.as_str());
    note.append(" — over the 20 MB Bot API limit; enable the local server to receive it");
    let mut reply = prefixed("⚠️ ", name.as_str());
    reply.append(" (");
    reply.append(size.as_str());
    reply.append(") is over the 20 MB limit and was not saved.");
    Verdict::Refuse { note: with_caption(note, caption), reply }
}

/// Decides what is to be done with an update, given the journal and the ids that
/// were saved.
///
/// A file is queued, so that a slow transfer cannot stall the bot; a plain text
/// is written at once; anything else is confirmed and not saved. What is already
/// queued or saved is only confirmed again: the offset alone cannot tell, for it
/// may have been rolled back.
pub fn judge(
    update: &Update,
    gate: &Gate,
    journal: &Vec<PendingDownload>,
    saved: &Vec<i64>,
) -> (r: Verdict)
    ensures
        r@ == verdict_of(update@, *gate, job_models(journal@), saved@),
{
    if gate.allowed_user_id != 0 && update.from_id != gate.allowed_user_id {
        return Verdict::Confirm;
    }
    if let Some(att) = &update.attachment {
        let uid = match update.update_id {
            Some(uid) => uid,
            None => {
                return Verdict::Leave;
            },
        };
        if is_queued(journal, uid) || holds(saved, uid) {
            return Verdict::Confirm;
        }
        if gate.capped && att.file_size > PUBLIC_DOWNLOAD_LIMIT {
            return refuse(att, update.caption.as_str());
        }
        return Verdict::Fetch(
            PendingDownload {
                update_id: uid,
                file_id: att.file_id.clone(),
                file_name: copy_opt(&att.file_name),
                caption: update.caption.clone(),
                chat_id: update.chat_id,
                message_id: update.message_id,
            },
        );
    }
    match &update.text {
        None => Verdict::Confirm,
        Some(text) => {
            if let Some(uid) = update.update_id {
                if holds(saved, uid) {
                    return Verdict::Confirm;
                }
            }
            Verdict::Write(text.clone())
        },
    }
}

/// The offset once an update is confirmed: past it, and never back.
pub open spec fn confirmed(offset: i64, update_id: Option<i64>) -> i64 {
    match update_id {
        Some(uid) => if uid + 1 > offset {
            (uid + 1) as i64
        } else {
            offset
        },
        None => offset,
    }
}

/// A list of saved ids with the id of an update in it, where it has one.
pub open spec fn remembered_opt(saved: Seq<i64>, update_id: Option<i64>) -> Seq<i64> {
    match update_id {
        Some(uid) => remembered(saved, uid),
        None => saved,
    }
}

/// The further of two offsets.
pub open spec fn further(a: i64, b: i64) -> i64 {
    if a >= b {
        a
    } else {
        b
    }
}

/// The status after a note could not be written.
pub open spec fn unwritten(status: StatusModel, error: Seq<char>) -> StatusModel {
    StatusModel { last_error: Some("write failed: "@ + error), ..status }
}

/// The offset and the status after a verdict was carried out at the time of day
/// `at`; `written` says whether the note, if there was one, was written.
pub open spec fn settled(
    offset: i64,
    status: StatusModel,
    update_id: Option<i64>,
    verdict: VerdictModel,
    written: Result<(), Seq<char>>,
    at: Seq<char>,
) -> (i64, StatusModel) {
    let past = confirmed(offset, update_id);
    match verdict {
        VerdictModel::Confirm => (past, status),
        VerdictModel::Leave => (offset, status),
        VerdictModel::Fetch(_) => (
            past,
            StatusModel { offset: further(status.offset, past), ..status },
        ),
        VerdictModel::Refuse { .. } => match written {
            Ok(_) => (
                past,
                StatusModel {
                    saved: remembered_opt(status.saved, update_id),
                    last_message_at: Some(at),
                    ..status
                },
            ),
            Err(e) => (offset, unwritten(status, e)),
        },
        VerdictModel::Write(_) => match written {
            Ok(_) => (
                past,
                StatusModel {
                    saved: remembered_opt(status.saved, update_id),
                    message_count: (status.message_count + 1) as u64,
                    last_message_at: Some(at),
                    last_error: None,
                    ..status
                },
            ),
            Err(e) => (offset, unwritten(status, e)),
        },
    }
}

/// What a result of writing says.
pub open spec fn written_view(written: Result<(), String>) -> Result<(), Seq<char>> {
    match written {
        Ok(_) => Ok(()),
        Err(e) => Err(e@),
    }
}

/// What to do once a verdict was carried out.
#[derive(PartialEq, Eq, Structural, Clone, Copy, Debug)]
pub struct After {
    /// Go on with the rest of the batch.
    pub go_on: bool,
    /// Mark the message as saved.
    pub mark: bool,
    /// Write the status down now, not with the rest of the batch.
    pub keep: bool,
}

/// What to do once a verdict was carried out: a batch ends where a note could not
/// be written, a text that was written is marked, and a queued file is put on
/// record at once.
pub open spec fn followed_by(verdict: VerdictModel, written: Result<(), Seq<char>>) -> After {
    After {
        go_on: !((verdict is Write || verdict is Refuse) && written is Err),
        mark: verdict is Write && written is Ok,
        keep: verdict is Fetch,
    }
}

/// Moves the offset past an update, never back.
fn confirm(offset: i64, update_id: Option<i64>) -> (r: i64)
    requires
        update_id != Some(i64::MAX),
    ensures
        r == confirmed(offset, update_id),
{
    match update_id {
        Some(uid) => if uid + 1 > offset {
            uid + 1
        } else {
            offset
        },
        None => offset,
    }
}

/// Brings the offset and the status up to date once a verdict was carried out at
/// the time of day `at`. `written` says whether the note, if there was one, was
/// written; where it was not, the update stays unconfirmed, so that Telegram
/// delivers it again, and the rest of the batch is not to be worked on.
///
/// A file has to be in the journal on disk before this is called for it: from
/// here on Telegram may forget it.
///
/// For a queued file the status is to be written down now: its entry in the
/// journal goes the moment the file is saved, and without either record Telegram
/// could deliver the update again.
pub fn settle(
    offset: &mut i64,
    status: &mut BotStatus,
    update_id: Option<i64>,
    verdict: &Verdict,
    written: Result<(), String>,
    at: String,
) -> (r: After)
    requires
        update_id != Some(i64::MAX),
        verdict is Write && written is Ok ==> old(status)@.message_count < u64::MAX,
    ensures
        (*final(offset), final(status)@) == settled(
            *old(offset),
            old(status)@,
            update_id,
            verdict@,
            written_view(written),
            at@,
        ),
        r == followed_by(verdict@, written_view(written)),
{
    match verdict {
        Verdict::Confirm => {
            *offset = confirm(*offset, update_id);
            After { go_on: true, mark: false, keep: false }
        },
        Verdict::Leave => After { go_on: true, mark: false, keep: false },
        Verdict::Fetch(_) => {
            *offset = confirm(*offset, update_id);
            if *offset > status.offset {
                status.offset = *offset;
            }
            After { go_on: true, mark: false, keep: true }
        },
        Verdict::Refuse { .. } => {
            match written {
                Ok(_) => {
                    *offset = confirm(*offset, update_id);
                    if let Some(uid) = update_id {
                        remember_saved(status, uid);
                    }
                    status.last_message_at = Some(at);
                    After { go_on: true, mark: false, keep: false }
                },
                Err(e) => {
                    status.last_error = Some(prefixed("write failed: ", e.as_str()));
                    After { go_on: false, mark: false, keep: false }
                },
            }
        },
        Verdict::Write(_) => {
            match written {
                Ok(_) => {
                    *offset = confirm(*offset, update_id);
                    if let Some(uid) = update_id {
                        remember_saved(status, uid);
                    }
                    status.message_count += 1;
                    status.last_message_at = Some(at);
                    status.last_error = None;
                    After { go_on: true, mark: true, keep: false }
                },
                Err(e) => {
                    status.last_error = Some(prefixed("write failed: ", e.as_str()));
                    After { go_on: false, mark: false, keep: false }
                },
            }
        },
    }
}

/// [`settle`] at this moment.
pub fn settle_now(
    offset: &mut i64,
    status: &mut BotStatus,
    update_id: Option<i64>,
    verdict: &Verdict,
    written: Result<(), String>,
) -> (r: After)
    requires
        update_id != Some(i64::MAX),
        verdict is Write && written is Ok ==> old(status)@.message_count < u64::MAX,
    ensures
        exists|at: Seq<char>|
            is_time_of_day(at) && (*final(offset), final(status)@) == #[trigger] settled(
                *old(offset),
                old(status)@,
                update_id,
                verdict@,
                written_view(written),
                at,
            ),
        r == followed_by(verdict@, written_view(written)),
{
    settle(offset, status, update_id, verdict, written, time_of_day())
}

/// Records the offset at the end of a batch that started at `start`. Returns
/// whether there is anything to write down.
pub fn close_batch(status: &mut BotStatus, start: i64, offset: i64) -> (r: bool)
    ensures
        r == (offset != start),
        final(status)@ == if offset != start {
            StatusModel { offset: further(old(status)@.offset, offset), ..old(status)@ }
        } else {
            old(status)@
        },
{
    if offset != start {
        if offset > status.offset {
            status.offset = offset;
        }
        true
    } else {
        false
    }
}

/// What to do after an answer to a poll.
pub enum Polled {
    /// Poll again after so many seconds.
    Wait(u64),
    /// Deal with these updates, in order.
    Work(Vec<Update>),
}

/// What a [`Polled`] holds.
pub enum PolledModel {
    Wait(u64),
    Work(Seq<UpdateModel>),
}

impl View for Polled {
    type V = PolledModel;

    open spec fn view(&self) -> PolledModel {
        match self {
            Polled::Wait(wait) => PolledModel::Wait(*wait),
            Polled::Work(updates) => PolledModel::Work(update_models(updates@)),
        }
    }
}

/// What to do after an answer to a poll, and the status then.
pub open spec fn polled(status: StatusModel, answer: UpdatesModel) -> (StatusModel, PolledModel) {
    let healthy = StatusModel { last_error: None, running: true, ..status };
    match answer {
        UpdatesModel::Refused { message, wait } => (
            StatusModel { last_error: Some(message), ..status },
            PolledModel::Wait(wait),
        ),
        UpdatesModel::Batch(updates) => (healthy, PolledModel::Work(updates)),
        UpdatesModel::Nothing => (healthy, PolledModel::Work(Seq::empty())),
    }
}

/// Records the answer to a poll, and says what to do about it.
pub fn after_poll(status: &mut BotStatus, answer: Updates) -> (r: Polled)
    ensures
        (final(status)@, r@) == polled(old(status)@, answer@),
{
    match answer {
        Updates::Refused { message, wait } => {
            status.last_error = Some(message);
            Polled::Wait(wait)
        },
        Updates::Batch(updates) => {
            status.last_error = None;
            status.running = true;
            Polled::Work(updates)
        },
        Updates::Nothing => {
            status.last_error = None;
            status.running = true;
            let none: Vec<Update> = Vec::new();
            assert(update_models(none@) =~= Seq::<UpdateModel>::empty());
            Polled::Work(none)
        },
    }
}

/// Records that a poll did not get through, and says how many seconds to wait. A
/// long poll that timed out is nothing out of the ordinary. The token does not
/// show in the record.
pub fn poll_failed(status: &mut BotStatus, timed_out: bool, error: String, token: &str) -> (r:
    Option<u64>)
    ensures
        timed_out ==> r is None && final(status)@ == old(status)@,
        !timed_out ==> r == Some(RETRY_WAIT) && final(status)@ == (StatusModel {
            last_error: Some(scrubbed(error@, token@)),
            ..old(status)@
        }),
{
    if timed_out {
        return None;
    }
    status.last_error = Some(scrub(error, token));
    Some(RETRY_WAIT)
}

/// Records the answer to the `getMe` that a bot starts with. Returns whether its
/// user name is known.
pub fn greeted(status: &mut BotStatus, me: Result<String, String>) -> (r: bool)
    ensures
        r == (me is Ok),
        final(status)@ == match me {
            Ok(name) => StatusModel {
                username: Some(name@),
                last_error: None,
                running: true,
                ..old(status)@
            },
            Err(e) => StatusModel {
                last_error: Some("getMe failed: "@ + e@),
                running: true,
                ..old(status)@
            },
        },
{
    status.running = true;
    match me {
        Ok(name) => {
            status.username = Some(name);
            status.last_error = None;
            true
        },
        Err(e) => {
            status.last_error = Some(prefixed("getMe failed: ", e.as_str()));
            false
        },
    }
}

/// Records the answer to a `getMe` that was asked again because the first one
/// failed. Returns whether the user name is known now.
pub fn named(status: &mut BotStatus, me: Result<String, String>) -> (r: bool)
    ensures
        r == (me is Ok),
        final(status)@ == match me {
            Ok(name) => StatusModel { username: Some(name@), ..old(status)@ },
            Err(_) => old(status)@,
        },
{
    match me {
        Ok(name) => {
            status.username = Some(name);
            true
        },
        Err(_) => false,
    }
}

/// A new file of someone who may write is queued with everything that is needed to
/// save and acknowledge it, each thing as it was sent: the file's id and name, the
/// caption, the chat and the message. It is so for every size on a server without a
/// limit, and up to 20 MB on the public one.
pub proof fn law_a_new_file_is_queued_as_sent(
    update: UpdateModel,
    gate: Gate,
    journal: Seq<JobModel>,
    saved: Seq<i64>,
    uid: i64,
    att: AttachmentModel,
)
    requires
        gate.allowed_user_id == 0 || update.from_id == gate.allowed_user_id,
        update.update_id == Some(uid),
        update.attachment == Some(att),
        forall|k: int| 0 <= k < journal.len() ==> (#[trigger] journal[k]).update_id != uid,
        forall|k: int| 0 <= k < saved.len() ==> #[trigger] saved[k] != uid,
        !gate.capped || att.file_size <= 20_000_000,
    ensures
        verdict_of(update, gate, journal, saved) matches VerdictModel::Fetch(job) && {
            &&& job.update_id == uid
            &&& job.file_id == att.file_id
            &&& job.file_name == att.file_name
            &&& job.caption == update.caption
            &&& job.chat_id == update.chat_id
            &&& job.message_id == update.message_id
        },
{
}

/// A new file that is too large for the public server is refused: the note says
/// which file it was and how large, and has the caption behind it; so does the
/// answer, without the caption.
pub proof fn law_a_large_file_is_refused_by_name(
    update: UpdateModel,
    gate: Gate,
    journal: Seq<JobModel>,
    saved: Seq<i64>,
    uid: i64,
    att: AttachmentModel,
)
    requires
        gate.allowed_user_id == 0 || update.from_id == gate.allowed_user_id,
        update.update_id == Some(uid),
        update.attachment == Some(att),
        forall|k: int| 0 <= k < journal.len() ==> (#[trigger] journal[k]).update_id != uid,
        forall|k: int| 0 <= k < saved.len() ==> #[trigger] saved[k] != uid,
        gate.capped,
        att.file_size > 20_000_000,
    ensures
        verdict_of(update, gate, journal, saved) matches VerdictModel::Refuse { note, reply } && {
            let name = match att.file_name {
                Some(name) => name,
                None => "file"@,
            };
            let size = size_text(att.file_size as int);
            &&& begins_with(note, "could not save file: "@ + name + " is "@ + size)
            &&& begins_with(reply, "⚠️ "@ + name + " ("@ + size + ")"@)
            &&& update.caption.len() > 0 ==> note.skip(note.len() - update.caption.len() - 3)
                == " — "@ + update.caption
        },
{
    let name = display_name(att);
    let size = size_text(att.file_size as int);
    let note = too_large_note(att, update.caption);
    let reply = too_large_reply(att);
    let head = "could not save file: "@ + name + " is "@ + size;
    assert(note.take(head.len() as int) =~= head);
    reveal_strlit(") is over the 20 MB limit and was not saved.");
    reveal_strlit(")");
    let start = "⚠️ "@ + name + " ("@ + size + ")"@;
    assert(reply.take(start.len() as int) =~= start);
    reveal_strlit(" — ");
    if update.caption.len() > 0 {
        assert(note.skip(note.len() - update.caption.len() - 3) =~= " — "@ + update.caption);
    }
}

/// A new text of someone who may write is written as it is; one with an id that was
/// saved before is not.
pub proof fn law_a_new_text_is_written_as_it_is(
    update: UpdateModel,
    gate: Gate,
    journal: Seq<JobModel>,
    saved: Seq<i64>,
    text: Seq<char>,
)
    requires
        gate.allowed_user_id == 0 || update.from_id == gate.allowed_user_id,
        update.attachment is None,
        update.text == Some(text),
    ensures
        (update.update_id is None || !saved.contains(update.update_id->0)) ==> verdict_of(
            update,
            gate,
            journal,
            saved,
        ) == VerdictModel::Write(text),
        (update.update_id is Some && saved.contains(update.update_id->0)) ==> verdict_of(
            update,
            gate,
            journal,
            saved,
        ) is Confirm,
{
}

/// What is not to be saved is only confirmed: a message of anyone but the owner,
/// where there is one, one with neither text nor file, and a file that is saved or
/// queued already.
pub proof fn law_the_rest_is_only_confirmed(
    update: UpdateModel,
    gate: Gate,
    journal: Seq<JobModel>,
    saved: Seq<i64>,
)
    ensures
        gate.allowed_user_id != 0 && update.from_id != gate.allowed_user_id ==> verdict_of(
            update,
            gate,
            journal,
            saved,
        ) is Confirm,
        update.attachment is None && update.text is None ==> verdict_of(
            update,
            gate,
            journal,
            saved,
        ) is Confirm,
        update.attachment is Some && update.update_id is Some && (saved.contains(
            update.update_id->0,
        ) || exists|k: int|
            0 <= k < journal.len() && (#[trigger] journal[k]).update_id == update.update_id->0)
            ==> verdict_of(update, gate, journal, saved) is Confirm,
        update.attachment is Some && update.update_id is None && (gate.allowed_user_id == 0
            || update.from_id == gate.allowed_user_id) ==> verdict_of(
            update,
            gate,
            journal,
            saved,
        ) is Leave,
{
}

/// Where the offset is after an update: past it if it was dealt with, and where it
/// was if it was not, or has no id. It never goes back.
pub proof fn law_the_offset_moves_past_what_is_done(
    offset: i64,
    status: StatusModel,
    uid: i64,
    verdict: VerdictModel,
    written: Result<(), Seq<char>>,
    at: Seq<char>,
)
    requires
        uid < i64::MAX,
    ensures
        ({
            let after = settled(offset, status, Some(uid), verdict, written, at).0;
            let done = verdict is Confirm || verdict is Fetch || (verdict is Write
                || verdict is Refuse) && written is Ok;
            &&& done && offset <= uid ==> after == uid + 1
            &&& done && offset > uid ==> after == offset
            &&& !done ==> after == offset
        }),
        settled(offset, status, None, verdict, written, at).0 == offset,
{
}

/// What a written note changes in the status: its id is recorded, the moment is
/// kept, and, for a text, one more is counted and the error is gone. Nothing else
/// changes; above all not what a refused file would have counted.
pub proof fn law_a_written_note_is_recorded(
    offset: i64,
    status: StatusModel,
    update_id: Option<i64>,
    verdict: VerdictModel,
    at: Seq<char>,
)
    requires
        verdict is Write || verdict is Refuse,
        status.message_count < u64::MAX,
        status.saved.len() < 500,
    ensures
        ({
            let after = settled(offset, status, update_id, verdict, Ok(()), at).1;
            &&& update_id is Some && !status.saved.contains(update_id->0) ==> after.saved
                == status.saved.push(update_id->0)
            &&& update_id is None || status.saved.contains(update_id->0) ==> after.saved
                == status.saved
            &&& after.last_message_at == Some(at)
            &&& verdict is Write ==> after.message_count == status.message_count + 1
                && after.last_error is None
            &&& verdict is Refuse ==> after.message_count == status.message_count
                && after.last_error == status.last_error
            &&& after.running == status.running
            &&& after.username == status.username
            &&& after.last_daily_error == status.last_daily_error
            &&& after.offset == status.offset
        }),
{
}

/// What anything else changes in the status: a note that could not be written
/// leaves why it could not, a queued file brings the kept offset up, and the rest
/// changes nothing.
pub proof fn law_nothing_else_is_recorded(
    offset: i64,
    status: StatusModel,
    update_id: Option<i64>,
    verdict: VerdictModel,
    written: Result<(), Seq<char>>,
    at: Seq<char>,
)
    requires
        update_id != Some(i64::MAX),
    ensures
        ({
            let (past, after) = settled(offset, status, update_id, verdict, written, at);
            &&& verdict is Confirm || verdict is Leave ==> after == status
            &&& verdict is Fetch ==> after == (StatusModel { offset: after.offset, ..status })
                && after.offset >= past && after.offset >= status.offset && (after.offset == past
                || after.offset == status.offset)
            &&& (verdict is Write || verdict is Refuse) && written is Err ==> {
                &&& after == (StatusModel { last_error: after.last_error, ..status })
                &&& after.last_error == Some("write failed: "@ + written->Err_0)
            }
        }),
{
}

/// A batch ends at the first note that cannot be written and nowhere else; a text
/// that was written is marked, and nothing else is; a queued file, and nothing
/// else, is put on record at once.
pub proof fn law_what_follows_a_verdict(verdict: VerdictModel, written: Result<(), Seq<char>>)
    ensures
        followed_by(verdict, written).go_on <==> written is Ok || verdict is Confirm
            || verdict is Leave || verdict is Fetch,
        followed_by(verdict, written).mark <==> verdict is Write && written is Ok,
        followed_by(verdict, written).keep <==> verdict is Fetch,
{
}

/// A poll that was refused shows what was said and waits; any other clears the
/// error, shows the bot as running and hands on every update, in order.
pub proof fn law_a_poll_hands_on_every_update(status: StatusModel, answer: UpdatesModel)
    ensures
        answer matches UpdatesModel::Refused { message, wait } ==> polled(status, answer) == (
            StatusModel { last_error: Some(message), ..status },
            PolledModel::Wait(wait),
        ),
        answer matches UpdatesModel::Batch(updates) ==> polled(status, answer) == (
            StatusModel { last_error: None, running: true, ..status },
            PolledModel::Work(updates),
        ),
        answer is Nothing ==> polled(status, answer).0 == (StatusModel {
            last_error: None,
            running: true,
            ..status
        }),
        answer is Nothing ==> polled(status, answer).1 == PolledModel::Work(Seq::empty()),
{
}

/// The view of a verdict leaves nothing out.
pub proof fn law_a_verdict_is_seen_whole(note: String, reply: String, job: PendingDownload)
    ensures
        Verdict::Confirm@ is Confirm,
        Verdict::Leave@ is Leave,
        (Verdict::Refuse { note, reply })@ == (VerdictModel::Refuse { note: note@, reply: reply@ }),
        Verdict::Fetch(job)@ == VerdictModel::Fetch(job@),
        Verdict::Write(note)@ == VerdictModel::Write(note@),
{
}

/// A job that an update is judged to be holds what the update and its file hold,
/// word for word.
pub proof fn law_a_job_is_the_update_it_came_from(
    update: Update,
    gate: Gate,
    journal: Vec<PendingDownload>,
    saved: Vec<i64>,
    r: Verdict,
)
    requires
        call_ensures(judge, (&update, &gate, &journal, &saved), r),
        r is Fetch,
    ensures
        update.attachment is Some,
        update.update_id == Some(r->Fetch_0.update_id),
        r->Fetch_0.file_id@ == update.attachment->0.file_id@,
        r->Fetch_0.file_name is Some <==> update.attachment->0.file_name is Some,
        r->Fetch_0.file_name is Some ==> r->Fetch_0.file_name->0@
            == update.attachment->0.file_name->0@,
        r->Fetch_0.caption@ == update.caption@,
        r->Fetch_0.chat_id == update.chat_id,
        r->Fetch_0.message_id == update.message_id,
{
    let verdict = verdict_of(update@, gate, job_models(journal@), saved@);
    assert(r@ == VerdictModel::Fetch(r->Fetch_0@));
    assert(verdict == VerdictModel::Fetch(r->Fetch_0@));
}

/// The note on a file that is too large says what it is called, how large it is,
/// why it was not saved and what would help; the caption stands behind it.
pub proof fn law_a_refusal_says_what_would_help(att: AttachmentModel, caption: Seq<char>)
    requires
        att.file_name is Some,
    ensures
        too_large_note(att, Seq::empty()) == "could not save file: "@ + att.file_name->0 + " is "@
            + size_text(att.file_size as int)
            + " — over the 20 MB Bot API limit; enable the local server to receive it"@,
        caption.len() > 0 ==> too_large_note(att, caption) == too_large_note(att, Seq::empty())
            + " — "@ + caption,
{
}

} // verus!
