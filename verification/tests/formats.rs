use msg2note::chunk::{chunk_ranges, TELEGRAM_MSG_CAP, TELEGRAM_MSG_LIMIT};
use msg2note::clock::{file_stamp, fresh_id, minute_stamp, time_of_day};
use msg2note::form::{ensure_token_unused, BotForm};
use msg2note::names::sanitize_filename;
use msg2note::number::{decimal_i64, decimal_text, parse_i64, parse_u32};
use msg2note::redact::scrub;
use msg2note::size::human_size;
use msg2note::status::{merge_status, trim_saved, BotStatus};
use msg2note::text::{starts_with, trim, trim_end_of, trim_of};

#[test]
fn numbers_survive_being_written_and_read() {
    for n in [0, 7, -7, 7_000_000_000, i64::MAX, i64::MIN] {
        assert_eq!(decimal_i64(n), n.to_string());
        assert_eq!(parse_i64(&decimal_i64(n)), Some(n));
    }
    assert_eq!(decimal_text(u64::MAX), u64::MAX.to_string());
    for text in ["", "+", "-", "--1", "1 ", "9223372036854775808", "１"] {
        assert_eq!(parse_i64(text), text.parse::<i64>().ok());
    }
    for text in ["", "+5", "-0", "007", "4294967295", "4294967296"] {
        assert_eq!(parse_u32(text), text.parse::<u32>().ok());
    }
}

#[test]
fn sizes_round_as_floating_point_does() {
    for bytes in [
        1, 999, 1_000, 1_499, 1_500, 2_500, 3_500, 999_499, 999_500, 999_999, 1_000_000, 1_050_000,
        1_150_000, 1_250_000, 1_350_000, 19_950_000, 999_949_999, 999_950_000, 999_999_999,
        1_000_000_000, 1_050_000_000, 1_250_000_000, 9_007_199_254_740_993, i64::MAX,
    ] {
        let b = bytes as f64;
        let want = if b >= 1e9 {
            format!("{:.1} GB", b / 1e9)
        } else if b >= 1e6 {
            format!("{:.1} MB", b / 1e6)
        } else if b >= 1e3 {
            format!("{:.0} KB", b / 1e3)
        } else {
            format!("{} B", bytes)
        };
        assert_eq!(human_size(bytes), want, "{bytes} bytes");
    }
    assert_eq!(human_size(2_500), "2 KB");
    assert_eq!(human_size(1_250_000), "1.2 MB");
}

#[test]
fn text_is_trimmed_as_unicode_has_it() {
    for text in ["", "  ", "\u{a0}x\u{3000}", " a b ", "\u{200b}x", "\u{85}\u{2029}é\n"] {
        assert_eq!(trim(text), text.trim());
    }
    assert_eq!(trim_of("..a.b..", '.'), "a.b");
    assert_eq!(trim_end_of("http://h//", '/'), "http://h");
    assert!(starts_with("abc", "ab"));
    assert!(!starts_with("a", "ab"));
}

#[test]
fn names_keep_letters_of_every_script() {
    assert_eq!(sanitize_filename("Ünï-코드_٣.txt"), "Ünï-코드_٣.txt");
    assert_eq!(sanitize_filename("a\u{0}b💥.c"), "a_b_.c");
    assert_eq!(sanitize_filename("..hidden.."), "hidden");
}

#[test]
fn a_token_is_redacted_wherever_it_stands() {
    assert_eq!(scrub("ababa".into(), "aba"), "<redacted>ba");
    assert_eq!(scrub("xx".into(), "x"), "<redacted><redacted>");
    assert_eq!(scrub("é-t-é".into(), "t"), "é-<redacted>-é");
}

#[test]
fn pieces_end_at_lines_where_they_can() {
    let line = "y".repeat(2_500);
    let text = format!("{line}\n{line}\n{line}");
    assert_eq!(
        chunk_ranges(&text),
        vec![(0, 2_501), (2_501, 5_002), (5_002, 7_502)]
    );
    // A long line is cut at the limit, on a character boundary.
    let text = format!("a{}", "é".repeat(3_000));
    assert_eq!(chunk_ranges(&text), vec![(0, 3_999), (3_999, 6_001)]);
    let text = "x".repeat(TELEGRAM_MSG_LIMIT);
    assert_eq!(chunk_ranges(&text), vec![(0, TELEGRAM_MSG_LIMIT)]);
    // As a message, every piece fits.
    let text = "💥é\u{ffff}\n".repeat(2_000);
    for (a, b) in chunk_ranges(&text) {
        assert!(text[a..b].encode_utf16().count() <= TELEGRAM_MSG_CAP);
    }
}

#[test]
fn the_clock_is_laid_out_in_three_ways() {
    let digits = |s: &str| s.chars().filter(|c| c.is_ascii_digit()).count();
    assert_eq!(digits(&time_of_day()), 4);
    assert_eq!(digits(&minute_stamp()), 12);
    assert_eq!(digits(&file_stamp()), 14);
    assert_eq!(minute_stamp().as_bytes()[10], b' ');
    assert_ne!(fresh_id(), fresh_id());
}

#[test]
fn a_merge_takes_the_further_of_both() {
    let mine = BotStatus {
        offset: 5,
        message_count: 9,
        saved: vec![3, 1],
        username: Some("me".into()),
        ..Default::default()
    };
    let on_disk = BotStatus {
        offset: 7,
        message_count: 2,
        saved: vec![2, 3],
        username: Some("other".into()),
        ..Default::default()
    };
    let merged = merge_status(&mine, &on_disk);
    assert_eq!(merged.offset, 7);
    assert_eq!(merged.message_count, 9);
    assert_eq!(merged.saved, vec![1, 2, 3]);
    assert_eq!(merged.username.as_deref(), Some("me"));

    let mut saved: Vec<i64> = (0..501).collect();
    trim_saved(&mut saved);
    assert_eq!(saved[0], 1);
    assert_eq!(saved.len(), 500);
}

#[test]
fn a_shared_token_is_refused_by_name() {
    let mut config = msg2note::config::Config::default();
    let form = |name: &str| BotForm {
        name: name.into(),
        token: String::new(),
        file: "/n.md".into(),
        read_file: None,
        files_dir: None,
        allowed_user_id: String::new(),
        api_base: None,
        enabled: false,
        shortcut: None,
        daily_send: false,
        daily_time: String::new(),
    };
    for (id, name) in [("a", "First"), ("b", "Second")] {
        config
            .bots
            .push(form(name).into_config(id.into(), "1:A".into()));
    }
    let refusal = ensure_token_unused(&config, "1:A", None).unwrap_err();
    assert!(refusal.contains("\"First\""));
    let refusal = ensure_token_unused(&config, "1:A", Some("a")).unwrap_err();
    assert!(refusal.contains("\"Second\""));
    assert!(ensure_token_unused(&config, "2:B", None).is_ok());
}
