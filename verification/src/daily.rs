//! The daily digest: once a day, a bot sends a markdown file back to its owner.

use crate::chunk::{chunk_ranges, chunked};
use crate::clock::{local_clock, Clock};
use crate::notes::prefixed;
use crate::number::{all_digits, digits_value, is_digit, parse_u32, read_unsigned};
use crate::status::{BotStatus, StatusModel};
use crate::text::{
    chars_of, law_trimming_takes_only_white_space, lemma_tight_is_trimmed, trim, trimmed, white_space,
};
use vstd::prelude::*;
use vstd::string::StringSliceAdditionalSpecFns;

verus! {

/// The place of the first colon, or the length where there is none.
pub open spec fn colon_at(s: Seq<char>) -> int
    decreases s.len(),
{
    if s.len() == 0 || s[0] == ':' {
        0
    } else {
        1 + colon_at(s.skip(1))
    }
}

/// The number that a field spells, at most `max`; nothing where it spells none.
pub open spec fn field(text: Seq<char>, max: nat) -> Option<nat> {
    match read_unsigned(trimmed(text), u32::MAX as nat) {
        Some(n) => Some(
            if n > max {
                max
            } else {
                n
            },
        ),
        None => None,
    }
}

/// The hour and the minute that a text spells: without a colon it is the hour
/// alone, and what cannot be read is 08:00.
pub open spec fn hour_and_minute(s: Seq<char>) -> (nat, nat) {
    let t = trimmed(s);
    let colon = colon_at(t);
    let hour = field(t.take(colon), 23);
    let minute = if colon < t.len() {
        field(t.skip(colon + 1), 59)
    } else {
        Some(0)
    };
    match (hour, minute) {
        (Some(h), Some(m)) => (h, m),
        _ => (8, 0),
    }
}

/// The number that a field spells, at most `max`; nothing where it spells none.
fn read_field(text: &str, max: u32) -> (r: Option<u32>)
    ensures
        field(text@, max as nat) == (match r {
            Some(n) => Some(n as nat),
            None => None,
        }),
{
    match parse_u32(trim(text)) {
        Some(n) => if n > max {
            Some(max)
        } else {
            Some(n)
        },
        None => None,
    }
}

proof fn lemma_colon_step(s: Seq<char>, i: int)
    requires
        0 <= i < s.len(),
        s[i] != ':',
    ensures
        colon_at(s.skip(i)) == 1 + colon_at(s.skip(i + 1)),
{
    assert(s.skip(i).skip(1) =~= s.skip(i + 1));
}

/// Reads `HH:MM`, clamped to the hours and minutes of a day. Anything that cannot
/// be read falls back to 08:00 as a whole.
pub fn parse_hhmm(s: &str) -> (r: (u32, u32))
    ensures
        (r.0 as nat, r.1 as nat) == hour_and_minute(s@),
        r.0 < 24,
        r.1 < 60,
{
    let t = trim(s);
    let chars = chars_of(t);
    let len: usize = chars.len();
    let mut i: usize = 0;
    assert(t@.skip(0) =~= t@);
    while i < len && chars[i] != ':'
        invariant
            i <= len,
            len == chars@.len(),
            chars@ == t@,
            colon_at(t@) == i + colon_at(t@.skip(i as int)),
        decreases len - i,
    {
        proof {
            lemma_colon_step(t@, i as int);
        }
        i += 1;
    }
    assert(colon_at(t@) == i);
    assert(t@.subrange(0, i as int) =~= t@.take(i as int));
    let hour = read_field(t.substring_char(0, i), 23);
    let minute = if i < len {
        assert(t@.subrange(i + 1, len as int) =~= t@.skip(i + 1));
        read_field(t.substring_char(i + 1, len), 59)
    } else {
        Some(0)
    };
    match (hour, minute) {
        (Some(h), Some(m)) => (h, m),
        _ => (8, 0),
    }
}

/// When the digest goes out.
///
/// The wall clock is looked at every half minute, rather than slept through to
/// the next day: a laptop that sleeps, or a clock that is set, would throw that
/// off.
pub struct DailySchedule {
    pub hour: u32,
    pub minute: u32,
    /// The day that is already dealt with.
    pub last_day: Option<i32>,
}

/// Seconds between two looks at the clock.
pub const DAILY_WAIT: u64 = 30;

impl DailySchedule {
    /// The time of day has come.
    pub open spec fn is_past(self, now: Clock) -> bool {
        now.hour > self.hour || (now.hour == self.hour && now.minute >= self.minute)
    }

    /// The digest goes out at `now`.
    pub open spec fn is_due(self, now: Clock) -> bool {
        self.last_day != Some(now.day) && self.is_past(now)
    }

    /// The schedule after a look at the clock.
    pub open spec fn looked(self, now: Clock) -> DailySchedule {
        if self.is_due(now) {
            DailySchedule { last_day: Some(now.day), ..self }
        } else {
            self
        }
    }

    /// The schedule of a bot that starts at `now`.
    pub open spec fn started(daily_time: Seq<char>, now: Clock) -> DailySchedule {
        let (hour, minute) = hour_and_minute(daily_time);
        let fresh = DailySchedule { hour: hour as u32, minute: minute as u32, last_day: None };
        DailySchedule {
            last_day: if fresh.is_past(now) {
                Some(now.day)
            } else {
                None
            },
            ..fresh
        }
    }

    /// Starts a schedule. Where today's time is over, today counts as dealt with,
    /// so that a launch brings no surprise.
    pub fn new(daily_time: &str, now: &Clock) -> (r: DailySchedule)
        ensures
            r == DailySchedule::started(daily_time@, *now),
    {
        let (hour, minute) = parse_hhmm(daily_time);
        let past = now.hour > hour || (now.hour == hour && now.minute >= minute);
        let last_day = if past {
            Some(now.day)
        } else {
            None
        };
        DailySchedule { hour, minute, last_day }
    }

    /// Starts a schedule at this moment.
    pub fn new_now(daily_time: &str) -> (r: DailySchedule)
        ensures
            exists|now: Clock| now.wf() && r == #[trigger] DailySchedule::started(daily_time@, now),
    {
        let now = local_clock();
        DailySchedule::new(daily_time, &now)
    }

    /// Looks at the clock: whether the digest is to go out. The day counts as
    /// dealt with from here on, so that a failure cannot send it over and over.
    pub fn due(&mut self, now: &Clock) -> (r: bool)
        ensures
            r == old(self).is_due(*now),
            *final(self) == old(self).looked(*now),
    {
        if let Some(day) = self.last_day {
            if day == now.day {
                return false;
            }
        }
        let past = now.hour > self.hour || (now.hour == self.hour && now.minute >= self.minute);
        if past {
            self.last_day = Some(now.day);
        }
        past
    }

    /// Looks at the clock at this moment.
    pub fn due_now(&mut self) -> (r: bool)
        ensures
            exists|now: Clock|
                #![trigger old(self).is_due(now)]
                now.wf() && r == old(self).is_due(now) && *final(self) == old(self).looked(now),
    {
        let now = local_clock();
        self.due(&now)
    }

    /// The schedule after each of `clocks` was looked at.
    pub open spec fn looked_all(self, clocks: Seq<Clock>) -> DailySchedule
        decreases clocks.len(),
    {
        if clocks.len() == 0 {
            self
        } else {
            self.looked_all(clocks.drop_last()).looked(clocks.last())
        }
    }

    /// The digest goes out at the `i`th of `clocks`.
    pub open spec fn fires(self, clocks: Seq<Clock>, i: int) -> bool {
        self.looked_all(clocks.take(i)).is_due(clocks[i])
    }
}

/// The days of `clocks` never go back.
pub open spec fn days_go_on(clocks: Seq<Clock>) -> bool {
    forall|i: int, j: int|
        0 <= i < j < clocks.len() ==> (#[trigger] clocks[i]).day <= (#[trigger] clocks[j]).day
}

proof fn lemma_last_day(schedule: DailySchedule, clocks: Seq<Clock>, i: int, j: int)
    requires
        0 <= i < j <= clocks.len(),
        days_go_on(clocks),
        schedule.fires(clocks, i),
    ensures
        schedule.looked_all(clocks.take(j)).last_day is Some,
        clocks[i].day <= schedule.looked_all(clocks.take(j)).last_day->0 <= clocks[j - 1].day,
    decreases j,
{
    let t = clocks.take(j);
    assert(t.drop_last() =~= clocks.take(j - 1));
    assert(t.last() == clocks[j - 1]);
    if j - 1 > i {
        lemma_last_day(schedule, clocks, i, j - 1);
        assert(clocks[j - 2].day <= clocks[j - 1].day);
    }
}

/// The digest goes out at most once a day, however often the clock is looked at.
pub proof fn law_at_most_once_a_day(
    schedule: DailySchedule,
    clocks: Seq<Clock>,
    i: int,
    j: int,
)
    requires
        0 <= i < j < clocks.len(),
        days_go_on(clocks),
        schedule.fires(clocks, i),
        schedule.fires(clocks, j),
    ensures
        clocks[i].day < clocks[j].day,
{
    lemma_last_day(schedule, clocks, i, j);
    assert(clocks[i].day <= clocks[j].day);
    assert(clocks[j - 1].day <= clocks[j].day);
}

/// The time of the schedule never changes.
proof fn lemma_same_time(schedule: DailySchedule, clocks: Seq<Clock>)
    ensures
        schedule.looked_all(clocks).hour == schedule.hour,
        schedule.looked_all(clocks).minute == schedule.minute,
    decreases clocks.len(),
{
    if clocks.len() > 0 {
        lemma_same_time(schedule, clocks.drop_last());
    }
}

/// The digest never goes out before its time of day.
pub proof fn law_never_before_its_time(schedule: DailySchedule, clocks: Seq<Clock>, i: int)
    requires
        0 <= i < clocks.len(),
        schedule.fires(clocks, i),
    ensures
        clocks[i].hour > schedule.hour || (clocks[i].hour == schedule.hour && clocks[i].minute
            >= schedule.minute),
{
    lemma_same_time(schedule, clocks.take(i));
}

proof fn lemma_still_today(schedule: DailySchedule, day: i32, clocks: Seq<Clock>)
    requires
        schedule.last_day == Some(day),
        forall|k: int| 0 <= k < clocks.len() ==> (#[trigger] clocks[k]).day == day,
    ensures
        schedule.looked_all(clocks).last_day == Some(day),
    decreases clocks.len(),
{
    if clocks.len() > 0 {
        assert forall|k: int| 0 <= k < clocks.len() - 1 implies (#[trigger] clocks.drop_last()[k]).day
            == day by {
            assert(clocks[k].day == day);
        }
        lemma_still_today(schedule, day, clocks.drop_last());
        assert(clocks[clocks.len() - 1].day == day);
    }
}

/// A bot that starts after today's time does not catch up: nothing goes out for
/// as long as the day lasts.
pub proof fn law_no_catch_up_on_launch(
    daily_time: Seq<char>,
    now: Clock,
    clocks: Seq<Clock>,
    i: int,
)
    requires
        now.minute < 60,
        ({
            let (hour, minute) = hour_and_minute(daily_time);
            60 * now.hour + now.minute >= 60 * hour + minute
        }),
        0 <= i < clocks.len(),
        forall|k: int| 0 <= k <= i ==> (#[trigger] clocks[k]).day == now.day,
    ensures
        !DailySchedule::started(daily_time, now).fires(clocks, i),
{
    let schedule = DailySchedule::started(daily_time, now);
    law_a_time_lies_within_a_day(daily_time);
    assert forall|k: int| 0 <= k < i implies (#[trigger] clocks.take(i)[k]).day == now.day by {
        assert(clocks[k].day == now.day);
    }
    lemma_still_today(schedule, now.day, clocks.take(i));
    assert(clocks[i].day == now.day);
}

/// A day whose time comes is not skipped: the first look at the clock after that
/// sends the digest, unless the day was already dealt with.
pub proof fn law_no_day_is_skipped(schedule: DailySchedule, now: Clock)
    requires
        schedule.minute < 60,
        now.minute < 60,
        60 * now.hour + now.minute >= 60 * schedule.hour + schedule.minute,
        schedule.last_day != Some(now.day),
    ensures
        schedule.is_due(now),
        schedule.looked(now).last_day == Some(now.day),
        schedule.looked(now).hour == schedule.hour,
        schedule.looked(now).minute == schedule.minute,
{
}

/// The digest goes out at a look at the clock exactly when the day is not dealt
/// with and as many minutes of it have passed as the schedule says; otherwise the
/// look changes nothing.
pub proof fn law_the_time_is_counted_in_minutes(schedule: DailySchedule, now: Clock)
    requires
        schedule.minute < 60,
        now.minute < 60,
    ensures
        schedule.is_due(now) <==> schedule.last_day != Some(now.day) && 60 * now.hour + now.minute
            >= 60 * schedule.hour + schedule.minute,
        !schedule.is_due(now) ==> schedule.looked(now) == schedule,
{
}

/// A launch before the time of day leaves the day open, and the digest then goes
/// out at the first look at the clock at which the time has come.
pub proof fn law_an_early_launch_sends_today(daily_time: Seq<char>, start: Clock, now: Clock)
    requires
        start.minute < 60,
        now.minute < 60,
        ({
            let (hour, minute) = hour_and_minute(daily_time);
            &&& 60 * start.hour + start.minute < 60 * hour + minute
            &&& 60 * now.hour + now.minute >= 60 * hour + minute
        }),
    ensures
        DailySchedule::started(daily_time, start).last_day is None,
        DailySchedule::started(daily_time, start).is_due(now),
{
    law_a_time_lies_within_a_day(daily_time);
}

/// Whatever a text spells, it is a time of day.
pub proof fn law_a_time_lies_within_a_day(s: Seq<char>)
    ensures
        hour_and_minute(s).0 < 24,
        hour_and_minute(s).1 < 60,
{
}

proof fn lemma_colon_after(a: Seq<char>, b: Seq<char>)
    requires
        !a.contains(':'),
    ensures
        colon_at(a + ":"@ + b) == a.len(),
        colon_at(a) == a.len(),
    decreases a.len(),
{
    reveal_strlit(":");
    let s = a + ":"@ + b;
    if a.len() > 0 {
        assert(a.contains(a[0]));
        assert forall|c: char| a.skip(1).contains(c) implies a.contains(c) by {
            let i = choose|i: int| 0 <= i < a.skip(1).len() && a.skip(1)[i] == c;
            assert(a[i + 1] == c);
        }
        lemma_colon_after(a.skip(1), b);
        assert(s.skip(1) =~= a.skip(1) + ":"@ + b);
    }
}

proof fn lemma_digits_field(a: Seq<char>, max: nat)
    requires
        a.len() > 0,
        all_digits(a),
        digits_value(a) <= u32::MAX,
    ensures
        field(a, max) == Some(
            if digits_value(a) <= max {
                digits_value(a)
            } else {
                max
            },
        ),
        !a.contains(':'),
{
    assert(is_digit(a[0]) && is_digit(a[a.len() - 1]));
    lemma_tight_is_trimmed(a);
    if a.contains(':') {
        let i = choose|i: int| 0 <= i < a.len() && a[i] == ':';
        assert(is_digit(a[i]));
    }
}

/// A time is read as it is written: digits, a colon and digits are the hour and
/// the minute that they spell, each brought down to the last of its kind; digits
/// alone are the hour; and white space around it makes no difference.
pub proof fn law_a_time_is_read_as_written(a: Seq<char>, b: Seq<char>)
    requires
        a.len() > 0,
        b.len() > 0,
        all_digits(a),
        all_digits(b),
        digits_value(a) <= u32::MAX,
        digits_value(b) <= u32::MAX,
    ensures
        hour_and_minute(a + ":"@ + b) == (
            if digits_value(a) <= 23 {
                digits_value(a)
            } else {
                23
            },
            if digits_value(b) <= 59 {
                digits_value(b)
            } else {
                59
            },
        ),
        hour_and_minute(a) == (
            if digits_value(a) <= 23 {
                digits_value(a)
            } else {
                23
            },
            0nat,
        ),
{
    reveal_strlit(":");
    let s = a + ":"@ + b;
    lemma_digits_field(a, 23);
    lemma_digits_field(b, 59);
    lemma_colon_after(a, b);
    assert(is_digit(a[0]) && is_digit(b[b.len() - 1]) && is_digit(a[a.len() - 1]));
    assert(s[0] == a[0] && s.last() == b[b.len() - 1]);
    lemma_tight_is_trimmed(s);
    lemma_tight_is_trimmed(a);
    assert(s.take(a.len() as int) =~= a);
    assert(s.skip(a.len() + 1int) =~= b);
    assert(a.take(a.len() as int) =~= a);
}

/// What cannot be read is eight o'clock, as a whole: whichever of the two parts
/// spells no number.
pub proof fn law_an_unreadable_time_is_eight(a: Seq<char>, b: Seq<char>)
    requires
        a.len() > 0,
        b.len() > 0,
        !white_space(a[0]),
        !white_space(b.last()),
        !a.contains(':'),
        read_unsigned(trimmed(a), u32::MAX as nat) is None || read_unsigned(
            trimmed(b),
            u32::MAX as nat,
        ) is None,
    ensures
        hour_and_minute(a + ":"@ + b) == (8nat, 0nat),
{
    reveal_strlit(":");
    let s = a + ":"@ + b;
    lemma_colon_after(a, b);
    assert(s[0] == a[0] && s.last() == b.last());
    lemma_tight_is_trimmed(s);
    assert(s.take(a.len() as int) =~= a);
    assert(s.skip(a.len() + 1int) =~= b);
}

/// White space around a time makes no difference.
pub proof fn law_a_time_may_be_padded(s: Seq<char>)
    ensures
        hour_and_minute(trimmed(s)) == hour_and_minute(s),
{
    law_trimming_takes_only_white_space(s);
}

/// What there is to send of a file.
pub enum Digest {
    /// Nothing: the file is blank.
    Nothing,
    /// These pieces of it, as byte ranges, in order.
    Pieces(Vec<(usize, usize)>),
}

/// Decides what there is to send of a file.
pub fn digest_of(content: &str) -> (r: Digest)
    ensures
        match r {
            Digest::Nothing => trimmed(content@).len() == 0,
            Digest::Pieces(pieces) => trimmed(content@).len() > 0 && chunked(
                content.spec_bytes(),
                pieces@,
            ),
        },
{
    if trim(content).is_empty() {
        Digest::Nothing
    } else {
        Digest::Pieces(chunk_ranges(content))
    }
}

/// How a day's digest ended.
pub enum DigestEnd {
    /// There was nothing to send.
    Blank,
    /// Every piece was accepted.
    Sent,
    /// A piece was not, and the rest was not sent.
    Rejected,
    /// The file could not be read.
    Unreadable(String),
}

/// The error that is shown after a digest, if any.
pub open spec fn digest_error(end: DigestEnd) -> Option<Seq<char>> {
    match end {
        DigestEnd::Blank => None,
        DigestEnd::Sent => None,
        DigestEnd::Rejected => Some("daily send failed (Telegram rejected message)"@),
        DigestEnd::Unreadable(e) => Some("daily send: cannot read file: "@ + e@),
    }
}

/// Records how a day's digest ended. One that went well, or had nothing to send,
/// clears the error of an earlier day.
pub fn after_digest(status: &mut BotStatus, end: &DigestEnd)
    ensures
        final(status)@ == (StatusModel { last_daily_error: digest_error(*end), ..old(status)@ }),
{
    status.last_daily_error = match end {
        DigestEnd::Blank => None,
        DigestEnd::Sent => None,
        DigestEnd::Rejected => Some("daily send failed (Telegram rejected message)".to_owned()),
        DigestEnd::Unreadable(e) => Some(prefixed("daily send: cannot read file: ", e.as_str())),
    };
}

/// What to do in sending a digest.
#[derive(PartialEq, Eq, Structural, Clone, Copy, Debug)]
pub enum DigestStep {
    /// Send the piece with this number.
    Send(usize),
    /// Every piece was accepted.
    Sent,
    /// A piece was not.
    Rejected,
}

/// What to do once `sent` of `total` pieces were accepted.
pub fn next_piece(sent: usize, total: usize) -> (r: DigestStep)
    ensures
        r == if sent < total {
            DigestStep::Send(sent)
        } else {
            DigestStep::Sent
        },
{
    if sent < total {
        DigestStep::Send(sent)
    } else {
        DigestStep::Sent
    }
}

/// What to do after the piece with the number `piece` was accepted, or was not. A
/// digest stops at the first piece that is rejected.
pub fn after_piece(piece: usize, total: usize, accepted: bool) -> (r: DigestStep)
    requires
        piece < total,
    ensures
        r == if !accepted {
            DigestStep::Rejected
        } else if piece + 1 < total {
            DigestStep::Send((piece + 1) as usize)
        } else {
            DigestStep::Sent
        },
{
    if accepted {
        next_piece(piece + 1, total)
    } else {
        DigestStep::Rejected
    }
}

/// Whether a bot sends digests, and the error that is shown when it starts.
pub open spec fn daily_plan(
    daily_send: bool,
    allowed_user_id: i64,
    error: Option<Seq<char>>,
) -> (bool, Option<Seq<char>>) {
    if daily_send && allowed_user_id != 0 {
        (true, error)
    } else if daily_send {
        (false, Some("daily send needs your Telegram user ID — it's the chat to send to"@))
    } else {
        (false, None)
    }
}

/// Decides when a bot starts whether it sends digests. They go to the owner's
/// private chat, whose id is the owner's user id; without one there is nowhere
/// to send them, and that is said. A bot that sends none shows no error of an
/// earlier one.
pub fn start_daily(status: &mut BotStatus, daily_send: bool, allowed_user_id: i64) -> (r: bool)
    ensures
        ({
            let (runs, error) = daily_plan(
                daily_send,
                allowed_user_id,
                old(status)@.last_daily_error,
            );
            r == runs && final(status)@ == (StatusModel {
                last_daily_error: error,
                ..old(status)@
            })
        }),
{
    if daily_send && allowed_user_id != 0 {
        return true;
    }
    if daily_send {
        status.last_daily_error = Some(
            "daily send needs your Telegram user ID — it's the chat to send to".to_owned(),
        );
    } else {
        status.last_daily_error = None;
    }
    false
}

/// A digest is sent by a bot that is to send one and knows whom to send it to, and
/// by no other; one that lacks only that says so, and one that sends none shows no
/// error of an earlier one.
pub proof fn law_a_digest_needs_a_recipient(
    daily_send: bool,
    allowed_user_id: i64,
    error: Option<Seq<char>>,
)
    ensures
        daily_plan(daily_send, allowed_user_id, error).0 <==> daily_send && allowed_user_id != 0,
        daily_send && allowed_user_id == 0 ==> daily_plan(
            daily_send,
            allowed_user_id,
            error,
        ).1 is Some,
        !daily_send ==> daily_plan(daily_send, allowed_user_id, error).1 is None,
        daily_send && allowed_user_id != 0 ==> daily_plan(daily_send, allowed_user_id, error).1
            == error,
{
}

/// A digest shows an error exactly when something of it did not arrive, and what
/// could not be read is in it.
pub proof fn law_a_digest_that_arrived_shows_no_error(end: DigestEnd)
    ensures
        digest_error(end) is Some <==> end is Rejected || end is Unreadable,
        end matches DigestEnd::Unreadable(e) ==> digest_error(end)->0.skip(
            digest_error(end)->0.len() - e@.len(),
        ) == e@,
{
    if let DigestEnd::Unreadable(e) = end {
        let text = digest_error(end)->0;
        assert(text.skip(text.len() - e@.len()) =~= e@);
    }
}

/// A schedule that is started counts the day as dealt with exactly when as many
/// minutes of it have passed as its time of day has.
pub proof fn law_a_start_closes_the_day_by_the_minute(
    daily_time: &str,
    now: Clock,
    time: (u32, u32),
    r: DailySchedule,
)
    requires
        call_ensures(parse_hhmm, (daily_time,), time),
        call_ensures(DailySchedule::new, (daily_time, &now), r),
        now.minute < 60,
    ensures
        r.hour == time.0,
        r.minute == time.1,
        60 * now.hour + now.minute >= 60 * time.0 + time.1 ==> r.last_day == Some(now.day),
        60 * now.hour + now.minute < 60 * time.0 + time.1 ==> r.last_day is None,
{
}

/// A digest that did not go out says why: it was refused, its file could not be
/// read, or there is nobody to send it to.
pub proof fn law_a_digest_says_why_it_did_not_go_out(end: DigestEnd, error: Option<Seq<char>>)
    ensures
        end is Rejected ==> digest_error(end) == Some(
            "daily send failed (Telegram rejected message)"@,
        ),
        end matches DigestEnd::Unreadable(e) ==> digest_error(end) == Some(
            "daily send: cannot read file: "@ + e@,
        ),
        daily_plan(true, 0, error).1 == Some(
            "daily send needs your Telegram user ID — it's the chat to send to"@,
        ),
{
}

} // verus!
