use msg2note::config::ServerConfig;
use msg2note::endpoint::{file_url, is_capped, is_loopback_server, method_url};
use msg2note::server::{
    after_look, after_probe, apply_form, check_credentials, local_url, locate_binary, log_failed,
    log_path, port_in_use, server_args, server_env, server_view, submitted_hash, temp_dir,
    undo_hash, with_details, Child, SecretUndo, ServerForm, WaitStep,
};

fn config() -> ServerConfig {
    ServerConfig {
        enabled: true,
        bin_path: Some("/opt/bot-api".into()),
        port: 0,
        api_id: -12,
        api_hash: "  h4sh ".into(),
    }
}

fn form(api_hash: Option<&str>) -> ServerForm {
    ServerForm {
        enabled: false,
        bin_path: Some("  ".into()),
        port: 9000,
        api_id: 5,
        api_hash: api_hash.map(|s| s.to_string()),
    }
}

fn failure(step: WaitStep) -> String {
    match step {
        WaitStep::Failed(e) => e,
        _ => panic!("did not fail"),
    }
}

#[test]
fn a_configured_binary_is_the_only_one_tried() {
    assert_eq!(
        locate_binary(Some(" /x "), |p: &str| p == "/x", || panic!("no search")),
        Some("/x".to_string())
    );
    assert_eq!(
        locate_binary(Some("/x"), |p: &str| p != "/x", || Some("/y".to_string())),
        None
    );
}

#[test]
fn the_usual_places_come_before_a_search() {
    assert_eq!(
        locate_binary(Some("  "), |_: &str| true, || None),
        Some("/opt/homebrew/bin/telegram-bot-api".to_string())
    );
    assert_eq!(
        locate_binary(None, |p: &str| p.starts_with("/usr/"), || None),
        Some("/usr/local/bin/telegram-bot-api".to_string())
    );
    assert_eq!(
        locate_binary(None, |p: &str| p.starts_with("/usr/bin/"), || None),
        Some("/usr/bin/telegram-bot-api".to_string())
    );
    assert_eq!(
        locate_binary(None, |_: &str| false, || Some("/somewhere/bin\n".to_string())),
        Some("/somewhere/bin".to_string())
    );
    assert_eq!(
        locate_binary(None, |_: &str| false, || Some(" \n".to_string())),
        None
    );
    assert_eq!(locate_binary(None, |_: &str| false, || None), None);
}

#[test]
fn the_server_needs_both_credentials() {
    let missing = Err("api_id and api_hash are required to run the local server".to_string());
    let mut cfg = config();
    assert_eq!(check_credentials(&cfg), Ok(()));
    cfg.api_id = 0;
    assert_eq!(check_credentials(&cfg), missing);
    let mut cfg = config();
    cfg.api_hash = " ".into();
    assert_eq!(check_credentials(&cfg), missing);
}

#[test]
fn credentials_go_through_the_environment() {
    let args = server_args(8081, "/cfg/bot-api");
    assert_eq!(
        args,
        vec![
            "--local",
            "--http-ip-address=127.0.0.1",
            "--http-port=8081",
            "--dir=/cfg/bot-api",
            "--temp-dir=/cfg/bot-api/temp",
        ]
    );
    let env = server_env(&config());
    assert_eq!(env[0], ("TELEGRAM_API_ID", "-12".to_string()));
    assert_eq!(env[1], ("TELEGRAM_API_HASH", "h4sh".to_string()));
    assert_eq!(temp_dir("/d"), "/d/temp");
    assert_eq!(log_path("/d"), "/d/server.log");
}

#[test]
fn a_server_is_waited_for() {
    assert!(matches!(after_look(&Child::Running, 1), WaitStep::Probe));
    assert_eq!(
        failure(after_look(&Child::Exited("exit status: 1".into()), 8081)),
        "telegram-bot-api exited immediately (exit status: 1) — usually a wrong api_id/api_hash, or port 8081 is already in use"
    );
    assert_eq!(
        failure(after_look(&Child::Unknown("gone".into()), 8081)),
        "could not check on telegram-bot-api: gone"
    );
    assert!(matches!(after_probe(true, true, 1), WaitStep::Ready));
    assert!(matches!(after_probe(false, false, 1), WaitStep::Sleep));
    assert_eq!(
        failure(after_probe(false, true, 8081)),
        "telegram-bot-api did not start listening on port 8081 within 10s"
    );
}

#[test]
fn failures_say_where_to_look() {
    assert_eq!(
        port_in_use(80, "taken"),
        "port 80 is already in use (taken) - stop whatever is listening on it, or choose another port in server settings"
    );
    assert_eq!(
        log_failed("/d/server.log", "denied"),
        "could not open the server log at /d/server.log: denied"
    );
    assert_eq!(
        with_details("it broke", "/d/server.log"),
        "it broke (details in /d/server.log)"
    );
}

#[test]
fn the_window_sees_no_api_hash() {
    let view = server_view(&config(), Some("/bin".into()), true, None);
    assert!(view.enabled && view.running && view.has_api_hash);
    assert_eq!(view.port, 8081);
    assert_eq!(view.api_id, -12);
    assert_eq!(view.bin_path.as_deref(), Some("/opt/bot-api"));
    assert_eq!(view.detected_bin.as_deref(), Some("/bin"));
    let view = server_view(&ServerConfig::default(), None, false, Some("down".into()));
    assert!(!view.has_api_hash);
    assert_eq!(view.last_error.as_deref(), Some("down"));
}

#[test]
fn a_blank_hash_keeps_the_stored_one() {
    assert_eq!(submitted_hash(&form(Some("  "))), None);
    assert_eq!(submitted_hash(&form(Some(" new "))), Some("new".to_string()));
    let next = apply_form(&config(), &form(None));
    assert_eq!(next.api_hash, "  h4sh ");
    assert_eq!(next.bin_path, None);
    assert_eq!(next.port, 9000);
    assert_eq!(next.api_id, 5);
    assert!(!next.enabled);
    assert_eq!(apply_form(&config(), &form(Some("new"))).api_hash, "new");
}

#[test]
fn a_failed_save_takes_the_hash_back() {
    assert!(matches!(
        undo_hash(&config(), &form(None)),
        SecretUndo::Keep
    ));
    assert!(
        matches!(undo_hash(&config(), &form(Some("new"))), SecretUndo::Restore(h) if h == "  h4sh ")
    );
    assert!(matches!(
        undo_hash(&ServerConfig::default(), &form(Some("new"))),
        SecretUndo::Clear
    ));
}

#[test]
fn addresses_are_put_together() {
    assert_eq!(local_url(9099), "http://127.0.0.1:9099");
    assert!(is_loopback_server(&local_url(9099)));
    assert!(is_capped("https://api.telegram.org"));
    assert!(!is_capped("http://127.0.0.1:8081"));
    assert_eq!(
        method_url("https://h", "1:A", "getMe"),
        "https://h/bot1:A/getMe"
    );
    assert_eq!(
        file_url("https://h", "1:A", "a/b"),
        "https://h/file/bot1:A/a/b"
    );
}
