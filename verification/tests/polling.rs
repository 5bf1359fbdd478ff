use msg2note::journal::{enqueue, finish, has_file, is_queued, PendingDownload};
use msg2note::json::parse_json;
use msg2note::poll::{
    after_poll, close_batch, greeted, judge, named, poll_failed, settle, settle_now, Gate, Polled,
    Verdict,
};
use msg2note::status::{BotStatus, RECENT_SAVED_MAX};
use msg2note::telegram::{
    message_accepted, message_body, reaction_body, read_me_bytes, read_update, read_updates_bytes,
    updates_query, Update, Updates,
};

const OWNER: i64 = 7;

fn gate() -> Gate {
    Gate {
        allowed_user_id: OWNER,
        capped: true,
    }
}

fn update(text: &str) -> Update {
    read_update(&parse_json(text.as_bytes()).unwrap())
}

fn text_update(uid: i64, from: i64, text: &str) -> Update {
    update(&format!(
        r#"{{"update_id": {uid}, "message": {{"message_id": 3, "from": {{"id": {from}}}, "chat": {{"id": 9}}, "text": "{text}"}}}}"#
    ))
}

fn file_update(uid: i64, size: i64) -> Update {
    update(&format!(
        r#"{{"update_id": {uid}, "message": {{"message_id": 3, "from": {{"id": {OWNER}}}, "caption": "  trip ",
            "video": {{"file_id": "V", "file_name": "v.mp4", "file_size": {size}}}}}}}"#
    ))
}

/// A bot's side of things, and the notes it has written.
struct Bot {
    offset: i64,
    status: BotStatus,
    journal: Vec<PendingDownload>,
    notes: Vec<String>,
}

impl Bot {
    fn new() -> Bot {
        Bot {
            offset: 0,
            status: BotStatus::default(),
            journal: Vec::new(),
            notes: Vec::new(),
        }
    }

    fn receive(&mut self, update: &Update, gate: &Gate, written: Result<(), String>) -> bool {
        let verdict = judge(update, gate, &self.journal, &self.status.saved);
        match &verdict {
            Verdict::Write(text) if written.is_ok() => self.notes.push(text.clone()),
            Verdict::Refuse { note, .. } if written.is_ok() => self.notes.push(note.clone()),
            Verdict::Fetch(job) => enqueue(&mut self.journal, job.clone()),
            _ => {}
        }
        settle(
            &mut self.offset,
            &mut self.status,
            update.update_id,
            &verdict,
            written,
            "14:30".to_string(),
        )
        .go_on
    }
}

#[test]
fn an_update_is_read_as_far_as_the_bot_acts_on_it() {
    let u = text_update(41, OWNER, "hello");
    assert_eq!(u.update_id, Some(41));
    assert_eq!(u.from_id, OWNER);
    assert_eq!(u.chat_id, 9);
    assert_eq!(u.message_id, 3);
    assert_eq!(u.caption, "");
    assert!(u.attachment.is_none());
    assert_eq!(u.text.as_deref(), Some("hello"));

    // The chat falls back to the sender, and the caption is trimmed.
    let u = file_update(42, 10);
    assert_eq!(u.chat_id, OWNER);
    assert_eq!(u.caption, "trip");
    let file = u.attachment.unwrap();
    assert_eq!(file.file_id, "V");
    assert_eq!(file.file_name.as_deref(), Some("v.mp4"));

    let u = update(r#"{"update_id": 1.5}"#);
    assert_eq!(u.update_id, None);
    assert_eq!(u.from_id, 0);
}

#[test]
fn a_new_text_is_noted_counted_and_confirmed() {
    let mut bot = Bot::new();
    assert!(bot.receive(&text_update(41, OWNER, "hello"), &gate(), Ok(())));
    assert_eq!(bot.notes, vec!["hello"]);
    assert_eq!(bot.offset, 42);
    assert_eq!(bot.status.message_count, 1);
    assert_eq!(bot.status.saved, vec![41]);
    assert_eq!(bot.status.last_message_at.as_deref(), Some("14:30"));
    assert_eq!(bot.status.last_error, None);
}

#[test]
fn a_replayed_update_is_not_noted_again() {
    let mut bot = Bot::new();
    let u = text_update(41, OWNER, "hello");
    bot.receive(&u, &gate(), Ok(()));
    // The offset was rolled back.
    bot.offset = 0;
    bot.receive(&u, &gate(), Ok(()));
    assert_eq!(bot.notes.len(), 1);
    assert_eq!(bot.status.message_count, 1);
    assert_eq!(bot.offset, 42);
}

#[test]
fn a_replayed_batch_is_not_noted_again() {
    let mut bot = Bot::new();
    let batch: Vec<Update> = (0..RECENT_SAVED_MAX as i64)
        .map(|uid| text_update(uid, OWNER, "line"))
        .collect();
    for u in &batch {
        bot.receive(u, &gate(), Ok(()));
    }
    assert_eq!(bot.notes.len(), RECENT_SAVED_MAX);
    bot.offset = 0;
    for u in &batch {
        bot.receive(u, &gate(), Ok(()));
    }
    assert_eq!(bot.notes.len(), RECENT_SAVED_MAX);
}

#[test]
fn strangers_are_confirmed_and_ignored() {
    let mut bot = Bot::new();
    assert!(bot.receive(&text_update(41, 8, "let me in"), &gate(), Ok(())));
    assert!(bot.notes.is_empty());
    assert!(bot.status.saved.is_empty());
    assert_eq!(bot.offset, 42);
    // Without an owner, anyone may write.
    let open = Gate {
        allowed_user_id: 0,
        capped: true,
    };
    bot.receive(&text_update(42, 8, "let me in"), &open, Ok(()));
    assert_eq!(bot.notes.len(), 1);
}

#[test]
fn other_messages_are_only_confirmed() {
    let mut bot = Bot::new();
    let u = update(r#"{"update_id": 5, "message": {"from": {"id": 7}, "location": {}}}"#);
    assert!(bot.receive(&u, &gate(), Ok(())));
    assert!(bot.notes.is_empty());
    assert_eq!(bot.offset, 6);
    assert_eq!(bot.status.message_count, 0);
}

#[test]
fn a_failed_write_leaves_the_update_unconfirmed() {
    let mut bot = Bot::new();
    let u = text_update(41, OWNER, "hello");
    assert!(!bot.receive(&u, &gate(), Err("disk full".into())));
    assert_eq!(bot.offset, 0);
    assert!(bot.status.saved.is_empty());
    assert_eq!(
        bot.status.last_error.as_deref(),
        Some("write failed: disk full")
    );
    // It is noted when it comes again.
    assert!(bot.receive(&u, &gate(), Ok(())));
    assert_eq!(bot.notes, vec!["hello"]);
}

#[test]
fn a_batch_that_breaks_off_loses_nothing() {
    let mut bot = Bot::new();
    let batch: Vec<Update> = (10..14)
        .map(|uid| text_update(uid, OWNER, &format!("note {uid}")))
        .collect();
    for (i, u) in batch.iter().enumerate() {
        let written = if i == 2 { Err("busy".to_string()) } else { Ok(()) };
        if !bot.receive(u, &gate(), written) {
            break;
        }
    }
    assert_eq!(bot.offset, 12);
    assert_eq!(bot.notes, vec!["note 10", "note 11"]);
    // Telegram delivers the rest again.
    for u in batch.iter().filter(|u| u.update_id >= Some(bot.offset)).collect::<Vec<_>>() {
        assert!(bot.receive(u, &gate(), Ok(())));
    }
    assert_eq!(bot.notes, vec!["note 10", "note 11", "note 12", "note 13"]);
    assert_eq!(bot.offset, 14);
}

#[test]
fn a_file_is_queued_before_it_is_confirmed() {
    let mut bot = Bot::new();
    let u = file_update(50, 10);
    assert!(bot.receive(&u, &gate(), Ok(())));
    assert_eq!(bot.journal.len(), 1);
    assert_eq!(bot.journal[0].update_id, 50);
    assert_eq!(bot.journal[0].file_id, "V");
    assert_eq!(bot.journal[0].caption, "trip");
    assert_eq!(bot.offset, 51);
    assert_eq!(bot.status.offset, 51);
    assert_eq!(bot.status.message_count, 0);
    // Delivered again, it is not queued again.
    bot.receive(&u, &gate(), Ok(()));
    assert_eq!(bot.journal.len(), 1);
}

#[test]
fn a_stop_between_queueing_and_confirming_is_harmless() {
    let mut bot = Bot::new();
    let u = file_update(50, 10);
    match judge(&u, &gate(), &bot.journal, &bot.status.saved) {
        Verdict::Fetch(job) => enqueue(&mut bot.journal, job),
        _ => panic!("not queued"),
    }
    // All stops here, and the update comes again.
    assert!(bot.receive(&u, &gate(), Ok(())));
    assert_eq!(bot.journal.len(), 1);
    assert_eq!(bot.offset, 51);
}

#[test]
fn a_file_over_the_limit_is_refused_on_the_public_api_only() {
    let mut bot = Bot::new();
    let u = file_update(50, 20_000_001);
    let verdict = judge(&u, &gate(), &bot.journal, &bot.status.saved);
    match verdict {
        Verdict::Refuse { note, reply } => {
            assert_eq!(
                note,
                "could not save file: v.mp4 is 20.0 MB — over the 20 MB Bot API limit; enable the local server to receive it — trip"
            );
            assert_eq!(
                reply,
                "⚠️ v.mp4 (20.0 MB) is over the 20 MB limit and was not saved."
            );
        }
        _ => panic!("not refused"),
    }
    bot.receive(&u, &gate(), Ok(()));
    assert_eq!(bot.status.saved, vec![50]);
    assert_eq!(bot.status.message_count, 0);
    assert_eq!(bot.offset, 51);

    let local = Gate {
        allowed_user_id: OWNER,
        capped: false,
    };
    assert!(matches!(
        judge(&u, &local, &Vec::new(), &Vec::new()),
        Verdict::Fetch(_)
    ));
    // Exactly at the limit it is fetched.
    assert!(matches!(
        judge(&file_update(51, 20_000_000), &gate(), &Vec::new(), &Vec::new()),
        Verdict::Fetch(_)
    ));
}

#[test]
fn a_file_without_an_update_id_is_left_alone() {
    let u = update(r#"{"message": {"from": {"id": 7}, "document": {"file_id": "D"}}}"#);
    let mut bot = Bot::new();
    assert!(matches!(
        judge(&u, &gate(), &bot.journal, &bot.status.saved),
        Verdict::Leave
    ));
    assert!(bot.receive(&u, &gate(), Ok(())));
    assert_eq!(bot.offset, 0);
    assert!(bot.journal.is_empty());
}

#[test]
fn the_offset_never_falls_back() {
    let mut bot = Bot::new();
    bot.receive(&text_update(41, OWNER, "a"), &gate(), Ok(()));
    bot.receive(&text_update(12, OWNER, "b"), &gate(), Ok(()));
    assert_eq!(bot.offset, 42);
    assert_eq!(bot.notes, vec!["a", "b"]);
}

#[test]
fn settling_says_what_to_do_next() {
    let mut offset = 0;
    let mut status = BotStatus::default();
    let write = Verdict::Write("a".into());
    let next = settle_now(&mut offset, &mut status, Some(1), &write, Ok(()));
    assert!(next.go_on && next.mark && !next.keep);
    // The time of day is the one there is.
    let at = status.last_message_at.clone().unwrap();
    assert_eq!(at.len(), 5);
    assert_eq!(at.as_bytes()[2], b':');
    let next = settle_now(&mut offset, &mut status, Some(2), &write, Err("e".into()));
    assert!(!next.go_on && !next.mark);
    let fetch = Verdict::Fetch(PendingDownload {
        update_id: 3,
        file_id: "F".into(),
        file_name: None,
        caption: String::new(),
        chat_id: 0,
        message_id: 0,
    });
    let next = settle_now(&mut offset, &mut status, Some(3), &fetch, Ok(()));
    assert!(next.go_on && !next.mark && next.keep);
    assert_eq!(status.offset, 4);
}

#[test]
fn a_batch_is_written_down_when_it_moved_the_offset() {
    let mut status = BotStatus {
        offset: 10,
        ..Default::default()
    };
    assert!(!close_batch(&mut status, 12, 12));
    assert_eq!(status.offset, 10);
    assert!(close_batch(&mut status, 12, 15));
    assert_eq!(status.offset, 15);
    assert!(close_batch(&mut status, 3, 4));
    assert_eq!(status.offset, 15);
}

#[test]
fn answers_to_polls_are_told_apart() {
    let refused = |text: &str| match read_updates_bytes(text.as_bytes(), "tok") {
        Updates::Refused { message, wait } => (message, wait),
        _ => panic!("not refused"),
    };
    assert_eq!(
        refused(r#"{"ok": false, "error_code": 409, "description": "Conflict"}"#),
        (
            "conflict: this token is already being polled elsewhere (Conflict)".to_string(),
            15
        )
    );
    assert_eq!(
        refused(r#"{"ok": false, "error_code": 502, "description": "Bad Gateway"}"#),
        ("Bad Gateway".to_string(), 5)
    );
    assert_eq!(refused("{}"), ("getUpdates error".to_string(), 5));
    assert_eq!(
        refused("<html>"),
        ("error decoding response body".to_string(), 5)
    );
    // The token shows in no message.
    match read_updates_bytes(b"<html>", "body") {
        Updates::Refused { message, .. } => {
            assert_eq!(message, "error decoding response <redacted>")
        }
        _ => panic!("not refused"),
    }
    assert!(matches!(
        read_updates_bytes(br#"{"ok": true}"#, "tok"),
        Updates::Nothing
    ));
    match read_updates_bytes(br#"{"ok": true, "result": [{"update_id": 1}, {"update_id": 2}]}"#, "tok")
    {
        Updates::Batch(updates) => {
            assert_eq!(updates.len(), 2);
            assert_eq!(updates[1].update_id, Some(2));
        }
        _ => panic!("no batch"),
    }
}

#[test]
fn a_poll_leaves_its_mark_on_the_status() {
    let mut status = BotStatus::default();
    let next = after_poll(
        &mut status,
        Updates::Refused {
            message: "no".into(),
            wait: 15,
        },
    );
    assert!(matches!(next, Polled::Wait(15)));
    assert_eq!(status.last_error.as_deref(), Some("no"));
    assert!(!status.running);
    assert!(matches!(
        after_poll(&mut status, Updates::Nothing),
        Polled::Work(u) if u.is_empty()
    ));
    assert_eq!(status.last_error, None);
    assert!(status.running);
    match after_poll(&mut status, Updates::Batch(vec![text_update(1, 2, "x")])) {
        Polled::Work(updates) => assert_eq!(updates[0].update_id, Some(1)),
        Polled::Wait(_) => panic!("nothing to wait for"),
    }

    assert_eq!(poll_failed(&mut status, true, "late".into(), "tok"), None);
    assert_eq!(status.last_error, None);
    assert_eq!(
        poll_failed(&mut status, false, "url /bottok/x".into(), "tok"),
        Some(5)
    );
    assert_eq!(
        status.last_error.as_deref(),
        Some("url /bot<redacted>/x")
    );
}

#[test]
fn a_bot_introduces_itself() {
    assert_eq!(
        read_me_bytes(br#"{"ok": true, "result": {"username": "ideas_bot"}}"#, "t"),
        Ok("ideas_bot".to_string())
    );
    assert_eq!(
        read_me_bytes(br#"{"ok": true, "result": {}}"#, "t"),
        Ok("unknown".to_string())
    );
    assert_eq!(
        read_me_bytes(br#"{"ok": false, "description": "Unauthorized"}"#, "t"),
        Err("Unauthorized".to_string())
    );
    assert_eq!(
        read_me_bytes(br#"{"ok": "true"}"#, "t"),
        Err("invalid token".to_string())
    );
    assert_eq!(
        read_me_bytes(b"", "?"),
        Err("error decoding response body".to_string())
    );

    let mut status = BotStatus::default();
    assert!(!greeted(&mut status, Err("Unauthorized".into())));
    assert!(status.running);
    assert_eq!(
        status.last_error.as_deref(),
        Some("getMe failed: Unauthorized")
    );
    assert!(!named(&mut status, Err("Unauthorized".into())));
    assert_eq!(status.username, None);
    assert!(named(&mut status, Ok("ideas_bot".into())));
    assert_eq!(status.username.as_deref(), Some("ideas_bot"));
    assert!(greeted(&mut status, Ok("tasks_bot".into())));
    assert_eq!(status.username.as_deref(), Some("tasks_bot"));
    assert_eq!(status.last_error, None);
}

#[test]
fn requests_say_what_is_wanted() {
    let query = updates_query(-12);
    assert_eq!(query[0], ("offset", "-12".to_string()));
    assert_eq!(query[1], ("timeout", "30".to_string()));
    assert_eq!(
        query[2],
        ("allowed_updates", "[\"message\"]".to_string())
    );

    let body = message_body(5, "hi");
    assert_eq!(body.at("chat_id").as_i64(), Some(5));
    assert_eq!(body.at("text").as_str(), Some("hi"));

    let body = reaction_body(5, 6);
    assert_eq!(body.at("message_id").as_i64(), Some(6));
    let reaction = body.at("reaction").as_array().unwrap();
    assert_eq!(reaction.len(), 1);
    assert_eq!(reaction[0].at("type").as_str(), Some("emoji"));
    assert_eq!(reaction[0].at("emoji").as_str(), Some("👍"));

    assert!(message_accepted(br#"{"ok": true}"#));
    assert!(!message_accepted(br#"{"ok": false}"#));
    assert!(!message_accepted(b"oops"));
}

#[test]
fn a_finished_job_leaves_the_others_in_order() {
    let job = |uid: i64| PendingDownload {
        update_id: uid,
        file_id: format!("F{uid}"),
        file_name: None,
        caption: String::new(),
        chat_id: 0,
        message_id: 0,
    };
    let mut journal = Vec::new();
    assert!(!has_file(&journal));
    for uid in [1, 2, 1, 3] {
        enqueue(&mut journal, job(uid));
    }
    assert!(is_queued(&journal, 1));
    finish(&mut journal, 1);
    assert!(!is_queued(&journal, 1));
    assert_eq!(
        journal.iter().map(|j| j.update_id).collect::<Vec<_>>(),
        vec![2, 3]
    );
    assert!(has_file(&journal));
}

#[test]
fn json_is_read_as_it_is_written() {
    let j = parse_json(
        r#"{"a": [1, -2, 2.5, "x"], "b": {"c": null, "d": true}, "n": 9223372036854775808}"#
            .as_bytes(),
    )
    .unwrap();
    let a = j.at("a").as_array().unwrap();
    assert_eq!(a[0].as_i64(), Some(1));
    assert_eq!(a[1].as_i64(), Some(-2));
    assert_eq!(a[2].as_i64(), None);
    assert_eq!(a[3].as_str(), Some("x"));
    assert_eq!(j.at("b").at("d").as_bool(), Some(true));
    assert!(j.at("b").get("c").is_some());
    assert!(j.get("c").is_none());
    assert_eq!(j.at("n").as_i64(), None);
    assert!(parse_json(b"{ not json").is_none());
    assert_eq!(parse_json(b"\"\\u00e9\"").unwrap().as_str(), Some("é"));
}
