use msg2note::commands::{
    after_file, bot_name, bot_views, check_dropped, check_edit, check_note_path, copy_failed, find_bot,
    new_bot, new_bot_now, next_file, note_failed, record_saved, record_saved_now, target_without, undo_token,
    wanted_hotkeys, with_added, with_edited, with_enabled, with_removed, DropStep, Dropped,
};
use msg2note::config::Config;
use msg2note::form::BotForm;
use msg2note::server::SecretUndo;
use msg2note::status::BotStatus;
use msg2note::table::StatusTable;
use msg2note::tray::{tray, tray_signature};

fn form(name: &str, token: &str) -> BotForm {
    BotForm {
        name: name.into(),
        token: token.into(),
        file: format!("/notes/{name}.md"),
        read_file: None,
        files_dir: None,
        allowed_user_id: "-7".into(),
        api_base: None,
        enabled: true,
        shortcut: None,
        daily_send: false,
        daily_time: "".into(),
    }
}

fn two_bots() -> Config {
    let mut config = Config::default();
    for (id, name, token) in [("a", "Ideas", "1:A"), ("b", "Tasks", "2:B")] {
        let bot = new_bot(&config, form(name, token), id.into()).ok().unwrap();
        config = with_added(&config, &bot);
    }
    config
}

fn error<T>(r: Result<T, String>) -> String {
    r.err().unwrap()
}

const SHARED: &str =
    "that token already belongs to \"Ideas\" — two bots on one token save every message twice";

#[test]
fn a_bot_is_added_only_when_everything_is_in_order() {
    let config = two_bots();
    assert_eq!(config.bots.len(), 2);
    assert_eq!(config.bots[1].id, "b");
    assert_eq!(config.bots[1].token, "2:B");
    assert_eq!(config.bots[1].allowed_user_id, -7);

    let mut no_file = form("x", "");
    no_file.file = " ".into();
    assert_eq!(
        error(new_bot_now(&config, no_file)),
        "a markdown file path is required"
    );
    assert_eq!(
        error(new_bot_now(&config, form("x", "  "))),
        "a bot token is required"
    );
    assert_eq!(error(new_bot_now(&config, form("x", " 1:A "))), SHARED);

    let bot = new_bot_now(&config, form("x", "3:C")).ok().unwrap();
    assert_eq!(bot.id.len(), 36);
    let other = new_bot_now(&config, form("x", "3:C")).ok().unwrap();
    assert_ne!(bot.id, other.id);
}

#[test]
fn an_edit_keeps_the_token_unless_there_is_a_new_one() {
    let config = two_bots();
    assert_eq!(check_edit(&config, &form("x", ""), "a"), Ok(None));
    assert_eq!(
        check_edit(&config, &form("x", "1:A"), "a"),
        Ok(Some("1:A".to_string()))
    );
    assert_eq!(
        check_edit(&config, &form("x", "1:A"), "b"),
        Err(SHARED.to_string())
    );
    let mut typo = form("x", "");
    typo.allowed_user_id = "me".into();
    assert!(check_edit(&config, &typo, "a").is_err());

    let change = with_edited(&config, "b", form("Chores", "")).ok().unwrap();
    assert_eq!(change.bot.name, "Chores");
    assert_eq!(change.bot.token, "2:B");
    assert_eq!(change.config.bots[1].name, "Chores");
    assert_eq!(change.config.bots[0].name, "Ideas");
    assert_eq!(config.bots[1].name, "Tasks");

    let change = with_edited(&config, "b", form("Chores", "9:Z")).ok().unwrap();
    assert_eq!(change.config.bots[1].token, "9:Z");
    assert_eq!(change.previous_token, "2:B");
    assert_eq!(
        error(with_edited(&config, "zz", form("x", ""))),
        "bot not found"
    );

    assert!(matches!(undo_token(false, "2:B"), SecretUndo::Keep));
    assert!(matches!(undo_token(true, "2:B"), SecretUndo::Restore(t) if t == "2:B"));
}

#[test]
fn bots_are_removed_and_switched_one_at_a_time() {
    let config = two_bots();
    let next = with_removed(&config, "a").ok().unwrap();
    assert_eq!(next.bots.len(), 1);
    assert_eq!(next.bots[0].id, "b");
    assert_eq!(error(with_removed(&config, "zz")), "bot not found");

    let (next, bot) = with_enabled(&config, "b", false).ok().unwrap();
    assert!(!bot.enabled);
    assert!(!next.bots[1].enabled);
    assert!(next.bots[0].enabled);
    assert_eq!(error(with_enabled(&config, "zz", true)), "bot not found");

    assert_eq!(find_bot(&config, "b").ok().unwrap().file, "/notes/Tasks.md");
    assert_eq!(error(find_bot(&config, "zz")), "bot not found");
    assert_eq!(bot_name(&config, "b"), "Tasks");
    assert_eq!(bot_name(&config, "zz"), "");
}

#[test]
fn the_window_sees_no_token() {
    let mut config = two_bots();
    config.bots[1].token = String::new();
    let mut table = StatusTable::new();
    table.put(
        "b".into(),
        BotStatus {
            message_count: 3,
            ..Default::default()
        },
    );
    let views = bot_views(&config, &table);
    assert_eq!(views.len(), 2);
    assert!(views[0].has_token);
    assert!(!views[1].has_token);
    assert_eq!(views[0].allowed_user_id, "-7");
    assert_eq!(views[0].status.message_count, 0);
    assert_eq!(views[1].status.message_count, 3);
    assert_eq!(views[1].daily_time, "08:00");
}

#[test]
fn local_notes_are_counted() {
    let mut status = BotStatus::default();
    record_saved(&mut status, 0, "10:00".into());
    assert_eq!(status.last_message_at, None);
    record_saved(&mut status, 2, "10:00".into());
    assert_eq!(status.message_count, 2);
    assert_eq!(status.last_message_at.as_deref(), Some("10:00"));
    record_saved_now(&mut status, 1);
    assert_eq!(status.message_count, 3);
    assert!(status.saved.is_empty());
}

#[test]
fn only_files_can_be_dropped() {
    assert_eq!(
        check_dropped("/home/me/a.pdf", &Dropped::File),
        Ok("a.pdf".to_string())
    );
    assert_eq!(check_dropped("/", &Dropped::File), Ok("file".to_string()));
    assert_eq!(
        check_dropped("/home/me", &Dropped::Folder),
        Err("me is a folder — drop individual files, not folders".to_string())
    );
    assert_eq!(
        check_dropped("/", &Dropped::Folder),
        Err("/ is a folder — drop individual files, not folders".to_string())
    );
    assert_eq!(
        check_dropped("/x", &Dropped::Unreadable("denied".into())),
        Err("can't read /x: denied".to_string())
    );
    assert_eq!(copy_failed("a", "full"), "could not copy a: full");
    assert_eq!(
        note_failed("a", "full"),
        "a copied but note write failed: full"
    );
    assert_eq!(check_note_path("/n.md"), Ok(()));
    assert_eq!(
        check_note_path("  "),
        Err("no file path set for this bot".to_string())
    );
}

#[test]
fn files_saved_before_a_failure_count() {
    assert!(matches!(next_file(0, 0), DropStep::Done(0)));
    assert!(matches!(next_file(0, 2), DropStep::Save(0)));
    assert!(matches!(after_file(0, 2, Ok(())), DropStep::Save(1)));
    assert!(matches!(after_file(1, 2, Ok(())), DropStep::Done(2)));
    assert!(
        matches!(after_file(1, 3, Err("full".into())), DropStep::Failed(1, e) if e == "full")
    );
}

#[test]
fn blank_hotkeys_are_not_registered() {
    let mut config = two_bots();
    config.bots[0].shortcut = Some("  ".into());
    assert!(wanted_hotkeys(&config).is_empty());
    config.bots[1].shortcut = Some("CmdOrCtrl+Shift+KeyI".into());
    assert_eq!(
        wanted_hotkeys(&config),
        vec![("CmdOrCtrl+Shift+KeyI".to_string(), "b".to_string())]
    );
}

#[test]
fn a_removed_bot_is_no_target() {
    let target = Some(("a".to_string(), "Ideas".to_string()));
    assert_eq!(target_without(target.clone(), "b"), target);
    assert_eq!(target_without(target, "a"), None);
    assert_eq!(target_without(None, "a"), None);
}

#[test]
fn the_menu_shows_each_bot_and_the_counts() {
    let mut config = two_bots();
    let mut table = StatusTable::new();
    table.put(
        "a".into(),
        BotStatus {
            running: true,
            message_count: 12,
            ..Default::default()
        },
    );
    let shown = tray(&config, &table);
    assert_eq!(
        shown.items[0],
        ("bot_a".to_string(), "🟢 Ideas  ·  12 saved".to_string())
    );
    assert_eq!(
        shown.items[1],
        ("bot_b".to_string(), "🟡 Tasks  ·  0 saved".to_string())
    );
    assert_eq!(shown.tooltip, "Msg2Note — 1 running, 0 error(s)");
    assert_eq!(
        tray_signature(&config, &table),
        "a|Ideas|true|true|false|false|12;b|Tasks|true|false|false|false|0;"
    );

    table.put(
        "b".into(),
        BotStatus {
            running: true,
            last_daily_error: Some("x".into()),
            ..Default::default()
        },
    );
    config.bots[0].enabled = false;
    let shown = tray(&config, &table);
    assert_eq!(shown.items[0].1, "⚪ Ideas  ·  12 saved");
    assert_eq!(shown.items[1].1, "🔴 Tasks  ·  0 saved");
    assert_eq!(shown.tooltip, "Msg2Note — 0 running, 1 error(s)");
}

#[test]
fn a_changed_count_changes_the_signature() {
    let config = two_bots();
    let mut table = StatusTable::new();
    let before = tray_signature(&config, &table);
    table.put(
        "b".into(),
        BotStatus {
            message_count: 1,
            ..Default::default()
        },
    );
    assert_ne!(tray_signature(&config, &table), before);
    // What the menu does not show does not count.
    let now = tray_signature(&config, &table);
    table.put(
        "b".into(),
        BotStatus {
            message_count: 1,
            offset: 9,
            ..Default::default()
        },
    );
    assert_eq!(tray_signature(&config, &table), now);
}

#[test]
fn a_table_keeps_one_status_for_each_bot() {
    let mut table = StatusTable::new();
    table.mark_stopped("a");
    assert!(table.get("a").is_none());
    table.mark_started("a");
    assert!(table.get("a").unwrap().running);
    table.put(
        "b".into(),
        BotStatus {
            saved: vec![4],
            ..Default::default()
        },
    );
    table.mark_stopped("a");
    assert!(!table.status_of("a").running);
    assert_eq!(table.entries().len(), 2);
    assert!(table.already_saved("b", 4));
    assert!(!table.already_saved("b", 5));
    assert!(!table.already_saved("zz", 4));
    table.remove("a");
    table.remove("zz");
    assert_eq!(table.entries().len(), 1);
    assert_eq!(table.status_of("a").offset, 0);
}

#[test]
fn a_removed_bot_leaves_the_status_file() {
    let status = |offset: i64| BotStatus {
        offset,
        ..Default::default()
    };
    let mut on_disk = StatusTable::new();
    on_disk.put("gone".into(), status(5));
    on_disk.put("kept".into(), status(6));
    on_disk.put("other".into(), status(7));
    let mut mine = StatusTable::new();
    mine.put("gone".into(), status(8));
    mine.put("kept".into(), status(9));
    mine.merge_without(&mut on_disk, "gone");
    assert!(on_disk.get("gone").is_none());
    assert_eq!(on_disk.get("kept").unwrap().offset, 9);
    assert_eq!(on_disk.get("other").unwrap().offset, 7);
    // A merge alone would keep it.
    mine.merge_into(&mut on_disk);
    assert_eq!(on_disk.get("gone").unwrap().offset, 8);
}

#[test]
fn a_merge_keeps_what_only_one_side_knows() {
    let mut on_disk = StatusTable::new();
    on_disk.put(
        "old".into(),
        BotStatus {
            offset: 5,
            ..Default::default()
        },
    );
    let mut mine = StatusTable::new();
    mine.put(
        "new".into(),
        BotStatus {
            saved: vec![9, 2],
            ..Default::default()
        },
    );
    mine.merge_into(&mut on_disk);
    assert_eq!(on_disk.get("old").unwrap().offset, 5);
    assert_eq!(on_disk.get("new").unwrap().saved, vec![2, 9]);
    // The newest ids survive.
    let many: Vec<i64> = (0..600).collect();
    let mut full = StatusTable::new();
    full.put(
        "new".into(),
        BotStatus {
            saved: many,
            ..Default::default()
        },
    );
    full.merge_into(&mut on_disk);
    let saved = &on_disk.get("new").unwrap().saved;
    assert_eq!(saved.len(), 500);
    assert_eq!(saved[0], 100);
    assert_eq!(saved[499], 599);
}
