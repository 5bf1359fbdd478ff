use msg2note::chunk::{chunk_ranges, TELEGRAM_MSG_LIMIT};
use msg2note::daily::parse_hhmm;
use msg2note::endpoint::{resolve_api_base, DEFAULT_API_BASE};
use msg2note::json::{parse_json, Json};
use msg2note::names::{sanitize_filename, unique_dest};
use msg2note::paths::{resolve_save_dir, sidecar_lock_path};
use msg2note::poll::PUBLIC_DOWNLOAD_LIMIT;
use msg2note::redact::scrub;
use msg2note::size::human_size;
use msg2note::status::{remember_saved, BotStatus, RECENT_SAVED_MAX};
use msg2note::table::StatusTable;
use msg2note::telegram::extract_attachment;
use std::path::{Path, PathBuf};

fn json(text: &str) -> Json {
    parse_json(text.as_bytes()).unwrap()
}

#[test]
fn remember_saved_is_idempotent_and_bounded() {
    let mut st = BotStatus::default();
    for uid in 0..(RECENT_SAVED_MAX as i64 + 50) {
        remember_saved(&mut st, uid);
        remember_saved(&mut st, uid); // a replay must not grow the list
    }
    assert_eq!(st.saved.len(), RECENT_SAVED_MAX);
    // The oldest are dropped, the newest kept.
    assert!(!st.saved.contains(&0));
    assert!(st.saved.contains(&(RECENT_SAVED_MAX as i64 + 49)));
}

#[test]
fn chunk_ranges_tile_the_input_within_the_limit() {
    for text in [
        "",
        "one line",
        "a\nb\nc\n",
        &"x".repeat(TELEGRAM_MSG_LIMIT * 3 + 7),
        &format!("short\n{}\nshort\n", "y".repeat(TELEGRAM_MSG_LIMIT + 1)),
        &"line of text\n".repeat(900),
        "héllo ünicode ✅ 中文\n",
        &"✅".repeat(TELEGRAM_MSG_LIMIT),
    ] {
        let mut cursor = 0;
        for (a, b) in chunk_ranges(text) {
            assert_eq!(a, cursor, "chunks must be contiguous");
            assert!(b > a, "empty chunk");
            assert!(b - a <= TELEGRAM_MSG_LIMIT, "chunk over the limit");
            cursor = b;
        }
        assert_eq!(cursor, text.len(), "chunks must cover the whole input");
    }
}

#[test]
fn filenames_are_reduced_to_a_safe_basename() {
    assert_eq!(sanitize_filename("../../etc/passwd"), "passwd");
    assert_eq!(sanitize_filename("a/b\\c.txt"), "c.txt");
    assert_eq!(sanitize_filename("re;po rt.pdf"), "re_po rt.pdf");
    assert_eq!(sanitize_filename("  ...  "), "file");
    assert_eq!(sanitize_filename(""), "file");
    assert_eq!(sanitize_filename("/"), "file");
    // Non-ASCII letters are alphanumeric and are kept.
    assert_eq!(sanitize_filename("報告.pdf"), "報告.pdf");
}

#[test]
fn api_base_normalizes_to_a_bare_origin() {
    assert_eq!(resolve_api_base(None), DEFAULT_API_BASE);
    assert_eq!(resolve_api_base(Some("   ")), DEFAULT_API_BASE);
    assert_eq!(
        resolve_api_base(Some("https://api.telegram.org/")),
        DEFAULT_API_BASE
    );
    assert_eq!(
        resolve_api_base(Some("  http://127.0.0.1:8081//  ")),
        "http://127.0.0.1:8081"
    );
}

#[test]
fn save_dir_falls_back_to_attachments_beside_the_note() {
    assert_eq!(
        PathBuf::from(resolve_save_dir("/notes/ideas.md", Some("/inbox"))),
        PathBuf::from("/inbox")
    );
    assert_eq!(
        PathBuf::from(resolve_save_dir("/notes/ideas.md", Some("  "))),
        PathBuf::from("/notes/attachments")
    );
    assert_eq!(
        PathBuf::from(resolve_save_dir("/notes/ideas.md", None)),
        PathBuf::from("/notes/attachments")
    );
    assert_eq!(
        PathBuf::from(resolve_save_dir("ideas.md", None)),
        PathBuf::from("attachments")
    );
}

#[test]
fn lock_file_is_a_hidden_sidecar_next_to_the_note() {
    assert_eq!(
        PathBuf::from(sidecar_lock_path("/notes/ideas.md")),
        PathBuf::from("/notes/.ideas.md.lock")
    );
    assert_eq!(
        PathBuf::from(sidecar_lock_path("ideas.md")),
        PathBuf::from(".ideas.md.lock")
    );
}

#[test]
fn errors_never_carry_the_token() {
    let token = "123456:AA-secret";
    let msg = format!("error sending request for url (https://api.telegram.org/bot{token}/getMe)");
    let scrubbed = scrub(msg, token);
    assert!(!scrubbed.contains(token));
    assert!(scrubbed.contains("<redacted>"));
    // An empty token must not turn every message into redaction noise.
    assert_eq!(scrub("plain".to_string(), ""), "plain");
}

#[test]
fn persist_status_never_moves_a_bot_backwards() {
    // What another process already recorded.
    let mut ahead = StatusTable::new();
    ahead.put(
        "bot".to_string(),
        BotStatus {
            offset: 200,
            message_count: 20,
            saved: vec![199],
            ..Default::default()
        },
    );
    let mut on_disk = StatusTable::new();
    ahead.merge_into(&mut on_disk);

    // A writer that knows less must not erase what the file knows.
    let mut behind = StatusTable::new();
    behind.put(
        "bot".to_string(),
        BotStatus {
            offset: 100,
            message_count: 10,
            saved: vec![99],
            ..Default::default()
        },
    );
    behind.merge_into(&mut on_disk);

    let bot = on_disk.get("bot").expect("bot survived the merge");
    assert_eq!(bot.offset, 200);
    assert_eq!(bot.message_count, 20);
    assert_eq!(bot.saved, vec![99, 199]);
}

#[test]
fn sizes_use_decimal_units_matching_the_api_cap() {
    assert_eq!(human_size(0), "unknown size");
    assert_eq!(human_size(-1), "unknown size");
    assert_eq!(human_size(512), "512 B");
    assert_eq!(human_size(2_600), "3 KB");
    assert_eq!(human_size(20_000_000), "20.0 MB");
    assert_eq!(human_size(3_400_000_000), "3.4 GB");
    // A file just over the cap must not read as "19.x MB".
    assert_eq!(human_size(PUBLIC_DOWNLOAD_LIMIT + 1), "20.0 MB");
}

#[test]
fn daily_time_parsing_clamps_and_defaults() {
    assert_eq!(parse_hhmm("07:30"), (7, 30));
    assert_eq!(parse_hhmm(" 23:59 "), (23, 59));
    assert_eq!(parse_hhmm("25:70"), (23, 59));
    assert_eq!(parse_hhmm("nonsense"), (8, 0));
    assert_eq!(parse_hhmm(""), (8, 0));
    assert_eq!(parse_hhmm("9"), (9, 0));
}

#[test]
fn unique_dest_never_collides() {
    let a = unique_dest("/inbox", "report.pdf", |_: &str| false).unwrap();
    let second = a.clone();
    let b = unique_dest("/inbox", "report.pdf", move |p: &str| p == second).unwrap();
    assert_ne!(a, b);
    // The counter goes before the extension, not after it.
    assert_eq!(
        Path::new(&b).extension().and_then(|e| e.to_str()),
        Some("pdf")
    );
}

#[test]
fn attachment_extraction_prefers_documents_and_largest_photo() {
    let doc =
        json(r#"{ "document": { "file_id": "D", "file_name": "a.pdf", "file_size": 10 } }"#);
    let got = extract_attachment(&doc).unwrap();
    assert_eq!(got.file_id, "D");
    assert_eq!(got.file_name.as_deref(), Some("a.pdf"));
    assert_eq!(got.file_size, 10);

    let photo = json(
        r#"{
            "photo": [
                { "file_id": "small", "file_size": 1 },
                { "file_id": "large", "file_size": 99 }
            ]
        }"#,
    );
    assert_eq!(extract_attachment(&photo).unwrap().file_id, "large");

    let sticker = json(r#"{ "sticker": { "file_id": "S" } }"#);
    let got = extract_attachment(&sticker).unwrap();
    assert_eq!(got.file_id, "S");
    assert_eq!(got.file_size, 0);

    assert!(extract_attachment(&json(r#"{ "text": "hi" }"#)).is_none());
}
