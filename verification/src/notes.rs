//! What is written to a markdown file, and how writers take turns at it.

use crate::clock::{is_minute_stamp, lemma_stamp_is_flat, minute_stamp};
use crate::number::{decimal, push_decimal};
use crate::paths::{file_name_or, name_or};
use crate::text::begins_with;
use vstd::prelude::*;

verus! {

/// The line that a note becomes.
pub open spec fn note_text(stamp: Seq<char>, text: Seq<char>) -> Seq<char> {
    "- ["@ + stamp + "] "@ + text + "\n"@
}

/// The line that a note becomes.
pub fn note_line(stamp: &str, text: &str) -> (r: String)
    ensures
        r@ == note_text(stamp@, text@),
{
    let mut line = "- [".to_owned();
    line.append(stamp);
    line.append("] ");
    line.append(text);
    line.append("\n");
    line
}

/// The line that a note taken now becomes.
pub fn timestamped_line(text: &str) -> (r: String)
    ensures
        exists|stamp: Seq<char>| is_minute_stamp(stamp) && r@ == #[trigger] note_text(stamp, text@),
{
    let stamp = minute_stamp();
    note_line(stamp.as_str(), text)
}

/// A note is one line of the file: it opens with a dash and its moment, ends in
/// the only line break it has, and holds the text as it is in between.
pub proof fn law_a_note_is_one_line(stamp: Seq<char>, text: Seq<char>)
    requires
        is_minute_stamp(stamp),
        !text.contains('\n'),
    ensures
        ({
            let line = note_text(stamp, text);
            &&& line.last() == '\n'
            &&& forall|i: int| 0 <= i < line.len() - 1 ==> #[trigger] line[i] != '\n'
            &&& begins_with(line, "- ["@ + stamp + "] "@)
            &&& line.subrange(line.len() - 1 - text.len(), line.len() - 1) == text
        }),
{
    let line = note_text(stamp, text);
    reveal_strlit("- [");
    reveal_strlit("] ");
    reveal_strlit("\n");
    let head = "- ["@ + stamp + "] "@;
    assert(line.take(head.len() as int) =~= head);
    assert(line.subrange(line.len() - 1 - text.len(), line.len() - 1) =~= text);
    lemma_stamp_is_flat(stamp);
    assert forall|i: int| 0 <= i < line.len() - 1 implies #[trigger] line[i] != '\n' by {
        if i >= head.len() {
            assert(line[i] == text[i - head.len()]);
            assert(text.contains(text[i - head.len()]));
        } else if 3 <= i < 3 + stamp.len() {
            assert(line[i] == stamp[i - 3]);
        }
    }
}

/// A note with the caption of the message behind it, where there is one.
pub open spec fn captioned(note: Seq<char>, caption: Seq<char>) -> Seq<char> {
    if caption.len() == 0 {
        note
    } else {
        note + " — "@ + caption
    }
}

/// A note with the caption of the message behind it, where there is one.
pub fn with_caption(note: String, caption: &str) -> (r: String)
    ensures
        r@ == captioned(note@, caption@),
{
    if caption.is_empty() {
        return note;
    }
    let mut note = note;
    note.append(" — ");
    note.append(caption);
    note
}

/// The note on a file that was saved.
pub open spec fn saved_note(name: Seq<char>, dest: Seq<char>) -> Seq<char> {
    "saved file: "@ + name + " → "@ + dest
}

/// The note on a file that was saved.
pub fn saved_file_note(name: &str, dest: &str) -> (r: String)
    ensures
        r@ == saved_note(name@, dest@),
{
    let mut note = "saved file: ".to_owned();
    note.append(name);
    note.append(" → ");
    note.append(dest);
    note
}

/// The note on a file that was saved at `dest`, whether it was sent to the bot or
/// dropped on the window: it has the name under which the file was saved.
pub fn dropped_note(dest: &str) -> (r: String)
    ensures
        r@ == saved_note(name_or(dest@, "file"@), dest@),
{
    let name = file_name_or(dest, "file");
    saved_file_note(name.as_str(), dest)
}

/// `prefix` and `text` behind it.
pub fn prefixed(prefix: &str, text: &str) -> (r: String)
    ensures
        r@ == prefix@ + text@,
{
    let mut out = prefix.to_owned();
    out.append(text);
    out
}

/// How often a writer tries to take a lock that another process holds.
pub const MAX_ATTEMPTS: u32 = 5;

/// What a writer does after it could not take the lock.
#[derive(PartialEq, Eq, Structural, Clone, Copy, Debug)]
pub enum LockStep {
    /// Try again after so many milliseconds.
    Wait(u64),
    /// Leave the note unwritten; so many attempts failed.
    GiveUp(u32),
}

/// What a writer does when its `attempt`th attempt, counted from 1, has failed.
pub open spec fn lock_step(attempt: int) -> LockStep {
    if attempt >= MAX_ATTEMPTS {
        LockStep::GiveUp(attempt as u32)
    } else {
        LockStep::Wait((100 * attempt) as u64)
    }
}

/// What a writer does when its `attempt`th attempt, counted from 1, to take the
/// lock has failed: it backs off, a little longer each time, and gives up after
/// [`MAX_ATTEMPTS`] rather than hold up its bot.
pub fn after_failed_lock(attempt: u32) -> (r: LockStep)
    requires
        1 <= attempt,
    ensures
        r == lock_step(attempt as int),
{
    if attempt >= MAX_ATTEMPTS {
        LockStep::GiveUp(attempt)
    } else {
        LockStep::Wait(100 * attempt as u64)
    }
}

/// What is said when the lock was never free.
pub open spec fn locked_text(attempts: u32, error: Seq<char>) -> Seq<char> {
    "file locked by another process after "@ + decimal(attempts as nat) + " attempts: "@ + error
}

/// What is said when the lock was never free.
pub fn locked_message(attempts: u32, error: &str) -> (r: String)
    ensures
        r@ == locked_text(attempts, error@),
{
    let mut out = "file locked by another process after ".to_owned();
    push_decimal(&mut out, attempts as u64);
    out.append(" attempts: ");
    out.append(error);
    out
}

/// The milliseconds that a writer waits in all before its `attempt`th attempt.
pub open spec fn waited(attempt: int) -> int
    decreases attempt,
{
    if attempt <= 1 {
        0
    } else {
        waited(attempt - 1) + (match lock_step(attempt - 1) {
            LockStep::Wait(ms) => ms as int,
            LockStep::GiveUp(_) => 0,
        })
    }
}

/// A writer never waits for a lock indefinitely: it gives up at the last of its
/// attempts and not before, after a second of waiting in all, each wait longer
/// than the one before.
pub proof fn law_the_lock_is_given_up_in_time(attempt: int)
    requires
        1 <= attempt <= MAX_ATTEMPTS,
    ensures
        lock_step(attempt) is GiveUp <==> attempt == MAX_ATTEMPTS,
        waited(attempt) <= 1000,
        attempt + 1 < MAX_ATTEMPTS ==> lock_step(attempt)->Wait_0 < lock_step(attempt + 1)->Wait_0,
{
    reveal_with_fuel(waited, 6);
}

/// One step of replacing a file as a whole.
#[derive(PartialEq, Eq, Structural, Clone, Copy, Debug)]
pub enum ReplaceStep {
    /// Write everything to a temporary sibling, and flush it to the disk.
    Write,
    /// Rename the sibling over the file.
    Rename,
    /// Remove the sibling: something failed.
    Discard,
    Done,
    Failed,
}

/// The step after `step`, which went well or did not.
pub open spec fn next_step(step: ReplaceStep, ok: bool) -> ReplaceStep {
    match step {
        ReplaceStep::Write => if ok {
            ReplaceStep::Rename
        } else {
            ReplaceStep::Discard
        },
        ReplaceStep::Rename => if ok {
            ReplaceStep::Done
        } else {
            ReplaceStep::Discard
        },
        ReplaceStep::Discard => ReplaceStep::Failed,
        ReplaceStep::Done => ReplaceStep::Done,
        ReplaceStep::Failed => ReplaceStep::Failed,
    }
}

/// The step after `step`, which went well or did not. Every failure passes
/// through [`ReplaceStep::Discard`].
pub fn after_step(step: ReplaceStep, ok: bool) -> (r: ReplaceStep)
    ensures
        r == next_step(step, ok),
{
    match step {
        ReplaceStep::Write => if ok {
            ReplaceStep::Rename
        } else {
            ReplaceStep::Discard
        },
        ReplaceStep::Rename => if ok {
            ReplaceStep::Done
        } else {
            ReplaceStep::Discard
        },
        ReplaceStep::Discard => ReplaceStep::Failed,
        ReplaceStep::Done => ReplaceStep::Done,
        ReplaceStep::Failed => ReplaceStep::Failed,
    }
}

/// A file and its temporary sibling, each with what is in it, if it exists.
#[verifier::ext_equal]
pub struct Disk {
    pub file: Option<Seq<u8>>,
    pub sibling: Option<Seq<u8>>,
}

/// The disk after `step`. A write that fails may have left any part of the bytes
/// in the sibling; a rename that fails has changed nothing.
pub open spec fn performed(
    disk: Disk,
    step: ReplaceStep,
    bytes: Seq<u8>,
    ok: bool,
    left: Option<Seq<u8>>,
) -> Disk {
    match step {
        ReplaceStep::Write => Disk {
            sibling: if ok {
                Some(bytes)
            } else {
                left
            },
            ..disk
        },
        ReplaceStep::Rename => if ok {
            Disk { file: disk.sibling, sibling: None }
        } else {
            disk
        },
        ReplaceStep::Discard => if ok {
            Disk { sibling: None, ..disk }
        } else {
            disk
        },
        _ => disk,
    }
}

/// The disk and the step after `n` steps of which `went` says how each went.
pub open spec fn replaced_after(
    disk: Disk,
    bytes: Seq<u8>,
    went: spec_fn(nat) -> bool,
    left: Option<Seq<u8>>,
    n: nat,
) -> (Disk, ReplaceStep)
    decreases n,
{
    if n == 0 {
        (disk, ReplaceStep::Write)
    } else {
        let (before, step) = replaced_after(disk, bytes, went, left, (n - 1) as nat);
        (
            performed(before, step, bytes, went((n - 1) as nat), left),
            next_step(step, went((n - 1) as nat)),
        )
    }
}

/// Replacing a file is all or nothing. Wherever it stops, the file holds what it
/// held before or all of the new bytes, and these if it was done; it ends within
/// three steps; and unless the removal itself fails, no sibling stays behind.
pub proof fn law_a_file_is_replaced_whole(
    disk: Disk,
    bytes: Seq<u8>,
    went: spec_fn(nat) -> bool,
    left: Option<Seq<u8>>,
    n: nat,
)
    ensures
        ({
            let (after, step) = replaced_after(disk, bytes, went, left, n);
            &&& after.file == disk.file || after.file == Some(bytes)
            &&& step is Done ==> after.file == Some(bytes) && after.sibling is None
            &&& step is Failed ==> after.file == disk.file
            &&& step is Failed && (if went(0) {
                went(2)
            } else {
                went(1)
            }) ==> after.sibling is None
            &&& n >= 3 ==> step is Done || step is Failed
        }),
    decreases n,
{
    reveal_with_fuel(replaced_after, 5);
    if n > 3 {
        law_a_file_is_replaced_whole(disk, bytes, went, left, (n - 1) as nat);
    }
}

/// A caption stands behind its note, as it is; without one the note stays as it is.
pub proof fn law_a_caption_stands_behind_its_note(note: Seq<char>, caption: Seq<char>)
    ensures
        captioned(note, Seq::empty()) == note,
        caption.len() > 0 ==> captioned(note, caption) == note + " — "@ + caption,
{
}

/// The note on a file that was saved has its name and its place.
pub proof fn law_a_saved_file_is_named_in_its_note(name: Seq<char>, dest: Seq<char>)
    ensures
        saved_note(name, dest) == "saved file: "@ + name + " → "@ + dest,
{
}

/// A writer that finds the lock taken waits a tenth of a second more each time, and
/// gives up at the fifth.
pub proof fn law_a_writer_waits_longer_each_time(attempt: int)
    requires
        1 <= attempt,
    ensures
        attempt < 5 ==> lock_step(attempt) == LockStep::Wait((100 * attempt) as u64),
        attempt == 5 ==> lock_step(attempt) == LockStep::GiveUp(5),
{
}

/// A writer that gave up says after how many attempts, and what the last one met.
pub proof fn law_giving_up_says_how_often_it_tried(attempts: u32, error: &str, r: String)
    requires
        call_ensures(locked_message, (attempts, error), r),
    ensures
        r@ == "file locked by another process after "@ + decimal(attempts as nat) + " attempts: "@
            + error@,
{
}

} // verus!
