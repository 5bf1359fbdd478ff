use msg2note::download::{
    check_status, download_name, is_local_copy, plan_download, read_file_path_bytes,
    DownloadError, Source,
};
use msg2note::journal::PendingDownload;
use msg2note::names::{first_free, last_part, unique_dest};
use msg2note::notes::{
    after_failed_lock, after_step, dropped_note, locked_message, note_line, timestamped_line, LockStep,
    ReplaceStep,
};
use msg2note::paths::{
    corrupt_backup, directory_to_create, file_name_or, join, journal_path, server_data_dir,
    sidecar_lock_path, temp_sibling,
};
use msg2note::status::BotStatus;
use msg2note::worker::{after_download, after_note, after_note_now, JobStep, Outcome};
use std::path::Path;

fn job(caption: &str) -> PendingDownload {
    PendingDownload {
        update_id: 50,
        file_id: "F".into(),
        file_name: None,
        caption: caption.into(),
        chat_id: 1,
        message_id: 2,
    }
}

fn saved() -> Outcome {
    Outcome::Saved {
        dest: "/inbox/20260625-143300_photo.jpg".into(),
        size: 2_600,
    }
}

fn note_of(step: JobStep) -> String {
    match step {
        JobStep::Note(note) => note,
        JobStep::Retry(_) => panic!("nothing to retry"),
    }
}

#[test]
fn a_saved_file_is_noted_with_its_caption() {
    let mut status = BotStatus::default();
    assert_eq!(
        note_of(after_download(&mut status, &job("vacation pic"), &saved())),
        "saved file: 20260625-143300_photo.jpg → /inbox/20260625-143300_photo.jpg — vacation pic"
    );
    assert_eq!(
        note_of(after_download(&mut status, &job(""), &saved())),
        "saved file: 20260625-143300_photo.jpg → /inbox/20260625-143300_photo.jpg"
    );
    let ack = after_note(&mut status, &job(""), &saved(), Ok(()), "14:33".into());
    assert_eq!(ack.reply, "✅ Saved 20260625-143300_photo.jpg (3 KB)");
    assert!(ack.done);
    assert_eq!(status.message_count, 1);
    assert_eq!(status.saved, vec![50]);
    assert_eq!(status.last_message_at.as_deref(), Some("14:33"));
}

#[test]
fn a_file_whose_note_failed_is_not_counted() {
    let mut status = BotStatus::default();
    let ack = after_note(
        &mut status,
        &job(""),
        &saved(),
        Err("disk full".into()),
        "14:33".into(),
    );
    assert_eq!(
        ack.reply,
        "⚠️ Downloaded 20260625-143300_photo.jpg (3 KB) but couldn't write its note to the file: disk full"
    );
    assert!(!ack.done);
    assert_eq!(status.message_count, 0);
    assert!(status.saved.is_empty());
    assert_eq!(
        status.last_error.as_deref(),
        Some("file saved but note write failed: disk full")
    );
}

#[test]
fn a_permanent_failure_is_noted_and_remembered() {
    let mut status = BotStatus::default();
    let outcome = Outcome::Failed(DownloadError::permanent("file is too big".into()));
    assert_eq!(
        note_of(after_download(&mut status, &job("trip"), &outcome)),
        "could not save file: file is too big — trip"
    );
    let ack = after_note_now(&mut status, &job("trip"), &outcome, Ok(()));
    assert_eq!(ack.reply, "⚠️ file is too big");
    assert!(!ack.done);
    assert_eq!(status.saved, vec![50]);
    assert_eq!(status.message_count, 0);
    assert_eq!(status.last_message_at, None);
}

#[test]
fn a_transient_failure_is_tried_again() {
    let mut status = BotStatus::default();
    let outcome = Outcome::Failed(DownloadError::transient("timed out".into()));
    assert!(matches!(
        after_download(&mut status, &job(""), &outcome),
        JobStep::Retry(10)
    ));
    assert_eq!(
        status.last_error.as_deref(),
        Some("file save failed: timed out")
    );
    assert!(status.saved.is_empty());
}

#[test]
fn an_acknowledged_file_has_the_time_of_day() {
    let mut status = BotStatus::default();
    after_note_now(&mut status, &job(""), &saved(), Ok(()));
    assert_eq!(status.last_message_at.unwrap().len(), 5);
}

#[test]
fn answers_to_get_file_are_told_apart() {
    assert_eq!(
        read_file_path_bytes(br#"{"ok": true, "result": {"file_path": "a/b.mp4"}}"#, "t")
            .map_err(|e| e.msg),
        Ok("a/b.mp4".to_string())
    );
    let failed = |text: &str| {
        let e = read_file_path_bytes(text.as_bytes(), "t0k").err().unwrap();
        (e.permanent, e.msg)
    };
    assert_eq!(
        failed(r#"{"ok": false, "description": "Bad Request: file is too big"}"#),
        (true, "Bad Request: file is too big".to_string())
    );
    assert_eq!(failed("{}"), (true, "getFile failed".to_string()));
    assert_eq!(
        failed(r#"{"ok": true, "result": {}}"#),
        (true, "getFile returned no file_path".to_string())
    );
    assert_eq!(
        failed("<html>"),
        (false, "error decoding response body".to_string())
    );
}

#[test]
fn failures_keep_the_token_to_themselves() {
    let e = DownloadError::network("error for url (https://h/bott0k/getFile)".into(), "t0k");
    assert!(!e.permanent);
    assert_eq!(e.msg, "error for url (https://h/bot<redacted>/getFile)");
    let e = DownloadError::unreadable_copy("no such file");
    assert!(e.permanent);
    assert_eq!(e.msg, "could not read local file: no such file");
}

#[test]
fn only_a_local_server_is_believed() {
    assert!(is_local_copy("http://127.0.0.1:8081", "/data/v.mp4"));
    assert!(is_local_copy("http://localhost:8081", "/data/v.mp4"));
    assert!(is_local_copy("http://[::1]:8081", "/data/v.mp4"));
    assert!(!is_local_copy("http://127.0.0.1:8081", "videos/v.mp4"));
    assert!(!is_local_copy("https://api.telegram.org", "/etc/passwd"));
    assert!(!is_local_copy("http://127.0.0.1.example.test", "/etc/passwd"));
}

#[test]
fn a_download_is_planned_from_the_answer() {
    let plan = plan_download(
        Ok("/data/videos/v.mp4".into()),
        "http://127.0.0.1:8081",
        "t",
        None,
    )
    .map_err(|e| e.msg)
    .unwrap();
    assert_eq!(plan.name, "v.mp4");
    assert!(matches!(plan.source, Source::Copy(p) if p == "/data/videos/v.mp4"));

    let plan = plan_download(
        Ok("/data/videos/v.mp4".into()),
        "https://api.telegram.org",
        "1:A",
        Some("mine.mp4"),
    )
    .map_err(|e| e.msg)
    .unwrap();
    assert_eq!(plan.name, "mine.mp4");
    assert!(
        matches!(plan.source, Source::Fetch(u) if u == "https://api.telegram.org/file/bot1:A//data/videos/v.mp4")
    );

    let refused = plan_download(
        Err(DownloadError::permanent("no".into())),
        "https://api.telegram.org",
        "t",
        None,
    );
    assert_eq!(refused.err().map(|e| e.msg), Some("no".to_string()));

    assert_eq!(download_name(None, "a/"), "file");
    assert_eq!(download_name(None, "a\\b"), "b");
    assert_eq!(last_part("plain"), "plain");
}

#[test]
fn http_statuses_are_told_apart() {
    let failed = |status: u16| {
        let e = check_status(status).err().unwrap();
        (e.permanent, e.msg)
    };
    assert!(check_status(200).is_ok());
    assert!(check_status(299).is_ok());
    assert_eq!(
        failed(404),
        (true, "file download returned HTTP 404".to_string())
    );
    assert_eq!(
        failed(503),
        (false, "file download returned HTTP 503".to_string())
    );
    assert_eq!(
        failed(302),
        (false, "file download returned HTTP 302".to_string())
    );
}

#[test]
fn the_first_free_name_is_taken() {
    let taken = |p: &str| p == "/d/a.tar.gz" || p == "/d/a.tar-1.gz";
    assert_eq!(
        first_free("/d", "a.tar.gz", taken),
        Some("/d/a.tar-2.gz".to_string())
    );
    assert_eq!(
        first_free("/d", "plain", |p: &str| p == "/d/plain"),
        Some("/d/plain-1".to_string())
    );
    let dest = unique_dest("/d", "../x y;z.txt", |_: &str| false).unwrap();
    // A stamp, an underscore, and the safe name.
    assert!(dest.starts_with("/d/"));
    assert!(dest.ends_with("_x y_z.txt"));
    let stamp = &dest["/d/".len()..dest.len() - "_x y_z.txt".len()];
    assert_eq!(stamp.len(), 15);
    assert_eq!(stamp.as_bytes()[8], b'-');
}

#[test]
fn a_note_is_one_timestamped_line() {
    assert_eq!(
        note_line("2026-06-25 14:30", "pick up dry cleaning"),
        "- [2026-06-25 14:30] pick up dry cleaning\n"
    );
    let line = timestamped_line("hello");
    assert!(line.starts_with("- ["));
    assert!(line.ends_with("] hello\n"));
    assert_eq!(line.len(), "- [2026-06-25 14:30] hello\n".len());
}

#[test]
fn the_lock_is_given_up_after_five_attempts() {
    assert_eq!(after_failed_lock(1), LockStep::Wait(100));
    assert_eq!(after_failed_lock(2), LockStep::Wait(200));
    assert_eq!(after_failed_lock(3), LockStep::Wait(300));
    assert_eq!(after_failed_lock(4), LockStep::Wait(400));
    assert_eq!(after_failed_lock(5), LockStep::GiveUp(5));
    assert_eq!(
        locked_message(5, "busy"),
        "file locked by another process after 5 attempts: busy"
    );
}

#[test]
fn a_file_is_replaced_whole_or_not_at_all() {
    let run = |went: [bool; 3]| {
        let mut step = ReplaceStep::Write;
        let mut steps = vec![step];
        for ok in went {
            step = after_step(step, ok);
            steps.push(step);
        }
        steps
    };
    assert_eq!(
        run([true, true, true]),
        vec![
            ReplaceStep::Write,
            ReplaceStep::Rename,
            ReplaceStep::Done,
            ReplaceStep::Done
        ]
    );
    assert_eq!(
        run([false, true, true]),
        vec![
            ReplaceStep::Write,
            ReplaceStep::Discard,
            ReplaceStep::Failed,
            ReplaceStep::Failed
        ]
    );
    assert_eq!(
        run([true, false, true]),
        vec![
            ReplaceStep::Write,
            ReplaceStep::Rename,
            ReplaceStep::Discard,
            ReplaceStep::Failed
        ]
    );
}

#[test]
fn paths_are_put_together() {
    assert_eq!(join("/a", "b"), "/a/b");
    assert_eq!(join("/a/", "b"), "/a/b");
    assert_eq!(join("", "b"), "b");
    assert_eq!(join("/a", "/b"), "/b");
    assert_eq!(directory_to_create("/a/b.md"), Some("/a".to_string()));
    assert_eq!(directory_to_create("b.md"), None);
    assert_eq!(
        journal_path("/cfg/status.json", "id-1"),
        "/cfg/pending-id-1.json"
    );
    assert_eq!(server_data_dir("/cfg/bots.json"), "/cfg/bot-api");
    assert_eq!(file_name_or("/a/b.md", "file"), "b.md");
    assert_eq!(file_name_or("/", "file"), "file");
}

#[test]
fn a_lock_lies_beside_its_note_wherever_that_is() {
    for path in [
        "n.md", "/n.md", "//n.md", "/./n.md", "./n.md", ".//n.md", "../n.md", "a./n.md",
        "/a./n.md", "a/./n.md", "a//n.md", "a/../n.md", "a/n.md/", "a/n.md/.", "a\\b", ".../n",
        "/a/..n", ". /.n",
    ] {
        let lock = sidecar_lock_path(path);
        assert_eq!(
            directory_to_create(&lock),
            directory_to_create(path),
            "{path}"
        );
        assert_eq!(Path::new(&lock).parent(), Path::new(path).parent());
        assert_ne!(lock, path);
        assert_eq!(
            file_name_or(&lock, ""),
            format!(".{}.lock", file_name_or(path, ""))
        );
    }
    assert_eq!(sidecar_lock_path("/n.md"), "/.n.md.lock");
    assert_eq!(sidecar_lock_path("/a./n.md"), "/a./.n.md.lock");
    // Spelled differently, one note has one lock.
    assert_eq!(
        sidecar_lock_path("a/./n.md/"),
        sidecar_lock_path("a//n.md")
    );
    assert_ne!(sidecar_lock_path("a/n.md"), sidecar_lock_path("a/m.md"));
    // Without a name there is still a lock.
    assert_eq!(sidecar_lock_path("/"), ".msg2note.lock");
    assert_eq!(sidecar_lock_path("a/.."), "a/.msg2note.lock");
}

#[test]
fn a_dropped_file_is_noted_like_a_received_one() {
    assert_eq!(
        dropped_note("/notes/attachments/20260625-143200_report.pdf"),
        "saved file: 20260625-143200_report.pdf → /notes/attachments/20260625-143200_report.pdf"
    );
}

#[test]
fn fresh_siblings_are_apart() {
    let a = temp_sibling("/cfg/bots.json");
    let b = temp_sibling("/cfg/bots.json");
    assert_ne!(a, b);
    assert!(a.starts_with("/cfg/bots.json.tmp-"));
    let id = &a["/cfg/bots.json.tmp-".len()..];
    assert_eq!(id.len(), 36);
    assert_eq!(id.as_bytes()[14], b'4');
    let backup = corrupt_backup("/cfg/bots.json");
    assert!(backup.starts_with("/cfg/bots.json.corrupt-"));
    assert_eq!(
        backup.len(),
        "/cfg/bots.json.corrupt-20260101-000000".len()
    );
}
