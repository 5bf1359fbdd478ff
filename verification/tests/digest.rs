use msg2note::chunk::TELEGRAM_MSG_LIMIT;
use msg2note::clock::Clock;
use msg2note::daily::{
    after_digest, after_piece, digest_of, next_piece, parse_hhmm, start_daily, DailySchedule,
    Digest, DigestEnd, DigestStep,
};
use msg2note::status::BotStatus;

fn at(day: i32, hour: u32, minute: u32) -> Clock {
    Clock { day, hour, minute }
}

#[test]
fn a_digest_goes_out_once_a_day() {
    let mut schedule = DailySchedule::new("08:30", &at(1, 7, 0));
    assert!(!schedule.due(&at(1, 8, 29)));
    assert!(schedule.due(&at(1, 8, 30)));
    assert!(!schedule.due(&at(1, 8, 30)));
    assert!(!schedule.due(&at(1, 23, 59)));
    assert!(!schedule.due(&at(2, 0, 0)));
    // Late, but on a new day.
    assert!(schedule.due(&at(2, 21, 3)));
    assert!(!schedule.due(&at(2, 21, 4)));
}

#[test]
fn a_late_launch_does_not_catch_up() {
    let mut schedule = DailySchedule::new("08:30", &at(1, 8, 30));
    assert!(!schedule.due(&at(1, 8, 31)));
    assert!(!schedule.due(&at(1, 23, 0)));
    assert!(schedule.due(&at(2, 8, 30)));
}

#[test]
fn the_clock_on_the_wall_is_read() {
    let mut schedule = DailySchedule::new_now("00:00");
    // Midnight is always over.
    assert!(schedule.last_day.is_some());
    // Unless midnight passes just now, nothing is due; then it is, once.
    let due = schedule.due_now();
    assert!(!due || !schedule.due_now());
}

#[test]
fn a_time_that_cannot_be_read_is_eight_o_clock() {
    assert_eq!(parse_hhmm("xx:30"), (8, 0));
    assert_eq!(parse_hhmm("12:x"), (8, 0));
    assert_eq!(parse_hhmm("12:"), (8, 0));
    assert_eq!(parse_hhmm("+7:5:6"), (8, 0));
    assert_eq!(parse_hhmm(":"), (8, 0));
    assert_eq!(parse_hhmm("-1:00"), (8, 0));
    assert_eq!(parse_hhmm(" 7 : 05 "), (7, 5));
    assert_eq!(parse_hhmm("24:00"), (23, 0));
}

#[test]
fn a_blank_file_sends_nothing() {
    assert!(matches!(digest_of(" \n\t"), Digest::Nothing));
    match digest_of("a\nb\n") {
        Digest::Pieces(pieces) => assert_eq!(pieces, vec![(0, 4)]),
        Digest::Nothing => panic!("there is something"),
    }
    let long = "line of text\n".repeat(900);
    match digest_of(&long) {
        Digest::Pieces(pieces) => {
            let mut whole = String::new();
            for (a, b) in pieces {
                assert!(b - a <= TELEGRAM_MSG_LIMIT);
                assert!(long[a..b].ends_with('\n'));
                whole.push_str(&long[a..b]);
            }
            assert_eq!(whole, long);
        }
        Digest::Nothing => panic!("there is something"),
    }
}

#[test]
fn a_digest_stops_at_the_first_rejection() {
    assert_eq!(next_piece(0, 2), DigestStep::Send(0));
    assert_eq!(next_piece(0, 0), DigestStep::Sent);
    assert_eq!(after_piece(0, 2, true), DigestStep::Send(1));
    assert_eq!(after_piece(1, 2, true), DigestStep::Sent);
    assert_eq!(after_piece(0, 2, false), DigestStep::Rejected);
}

#[test]
fn a_digest_leaves_its_mark_on_the_status() {
    let mut status = BotStatus::default();
    after_digest(&mut status, &DigestEnd::Rejected);
    assert_eq!(
        status.last_daily_error.as_deref(),
        Some("daily send failed (Telegram rejected message)")
    );
    after_digest(&mut status, &DigestEnd::Blank);
    assert_eq!(status.last_daily_error, None);
    after_digest(&mut status, &DigestEnd::Unreadable("no such file".into()));
    assert_eq!(
        status.last_daily_error.as_deref(),
        Some("daily send: cannot read file: no such file")
    );
    after_digest(&mut status, &DigestEnd::Sent);
    assert_eq!(status.last_daily_error, None);
}

#[test]
fn a_digest_needs_someone_to_send_it_to() {
    let mut status = BotStatus::default();
    assert!(!start_daily(&mut status, true, 0));
    assert_eq!(
        status.last_daily_error.as_deref(),
        Some("daily send needs your Telegram user ID — it's the chat to send to")
    );
    // One that is not configured clears what an earlier one left.
    assert!(!start_daily(&mut status, false, 5));
    assert_eq!(status.last_daily_error, None);
    status.last_daily_error = Some("yesterday".into());
    assert!(start_daily(&mut status, true, 5));
    assert_eq!(status.last_daily_error.as_deref(), Some("yesterday"));
}
