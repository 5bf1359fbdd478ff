use msg2note::config::{default_port, BotConfig, Config, ServerConfig};
use msg2note::paths::sibling;
use std::path::PathBuf;

fn bot() -> BotConfig {
    BotConfig {
        id: "id-1".into(),
        name: "Ideas".into(),
        token: "123456:SUPER-SECRET".into(),
        file: "/notes/ideas.md".into(),
        read_file: None,
        files_dir: None,
        allowed_user_id: 42,
        api_base: None,
        enabled: true,
        shortcut: None,
        daily_send: false,
        daily_time: "08:00".into(),
    }
}

#[test]
fn temp_and_backup_names_keep_the_original_extension() {
    let p = "/cfg/bots.json";
    assert_eq!(
        PathBuf::from(sibling(p, "tmp", "abc")),
        PathBuf::from("/cfg/bots.json.tmp-abc")
    );
    assert_eq!(
        PathBuf::from(sibling(p, "corrupt", "20260101-000000")),
        PathBuf::from("/cfg/bots.json.corrupt-20260101-000000")
    );
}

#[test]
fn read_path_falls_back_to_the_written_file() {
    let mut b = BotConfig {
        id: "i".into(),
        name: "n".into(),
        token: String::new(),
        file: "/notes/inbox.md".into(),
        read_file: None,
        files_dir: None,
        allowed_user_id: 0,
        api_base: None,
        enabled: true,
        shortcut: None,
        daily_send: false,
        daily_time: "08:00".into(),
    };
    assert_eq!(b.read_path(), "/notes/inbox.md");
    b.read_file = Some("   ".into());
    assert_eq!(b.read_path(), "/notes/inbox.md");
    b.read_file = Some(" /notes/plan.md ".into());
    assert_eq!(b.read_path(), "/notes/plan.md");
}

#[test]
fn a_zero_port_falls_back_to_the_default() {
    let mut s = ServerConfig::default();
    assert_eq!(s.effective_port(), default_port());
    s.port = 0;
    assert_eq!(s.effective_port(), default_port());
    s.port = 9000;
    assert_eq!(s.effective_port(), 9000);
}

#[test]
fn what_goes_to_disk_holds_no_secret_and_everything_else() {
    let mut cfg = Config::default();
    cfg.bots.push(bot());
    cfg.server.api_hash = "hash-secret".into();
    cfg.server.api_id = 7;
    let disk = cfg.without_secrets();
    assert_eq!(disk.bots.len(), 1);
    assert!(disk.bots[0].token.is_empty());
    assert!(disk.server.api_hash.is_empty());
    assert_eq!(disk.bots[0].allowed_user_id, 42);
    assert_eq!(disk.bots[0].name, "Ideas");
    assert_eq!(disk.bots[0].file, "/notes/ideas.md");
    assert_eq!(disk.server.api_id, 7);
    // The config in memory keeps what it has.
    assert_eq!(cfg.bots[0].token, "123456:SUPER-SECRET");
}

#[test]
fn an_empty_config_has_no_bots_and_no_server() {
    let cfg = Config::default();
    assert!(cfg.bots.is_empty());
    assert!(!cfg.server.enabled);
    assert_eq!(cfg.server.port, default_port());
    assert_eq!(cfg.position("id-1"), None);
}
