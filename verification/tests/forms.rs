use msg2note::config::ServerConfig;
use msg2note::endpoint::effective_api_base;
use msg2note::form::{norm, validate_form, BotForm};

fn full_form() -> BotForm {
    BotForm {
        name: "  Ideas  ".into(),
        token: "  123456:ABC  ".into(),
        file: "  /notes/ideas.md  ".into(),
        read_file: Some("   ".into()),
        files_dir: Some("  /inbox  ".into()),
        allowed_user_id: " 7000000000 ".into(),
        api_base: Some("".into()),
        enabled: true,
        shortcut: Some("  ".into()),
        daily_send: true,
        daily_time: "  07:30  ".into(),
    }
}

#[test]
fn form_trims_every_field_and_drops_blank_overrides() {
    let cfg = full_form().into_config("id-1".into(), "tok".into());
    assert_eq!(cfg.id, "id-1");
    assert_eq!(cfg.name, "Ideas");
    assert_eq!(cfg.token, "tok");
    assert_eq!(cfg.file, "/notes/ideas.md");
    // Blank overrides become `None`, not `Some("")`.
    assert_eq!(cfg.read_file, None);
    assert_eq!(cfg.api_base, None);
    assert_eq!(cfg.shortcut, None);
    assert_eq!(cfg.files_dir.as_deref(), Some("/inbox"));
    assert_eq!(cfg.daily_time, "07:30");
    // A 64-bit user id survives the string round trip intact.
    assert_eq!(cfg.allowed_user_id, 7_000_000_000);
}

#[test]
fn form_defaults_a_blank_name_and_time() {
    let mut form = full_form();
    form.name = "   ".into();
    form.daily_time = "".into();
    let cfg = form.into_config("i".into(), "t".into());
    assert_eq!(cfg.name, "Untitled");
    assert_eq!(cfg.daily_time, "08:00");
}

#[test]
fn an_unparseable_user_id_is_rejected() {
    let mut form = full_form();
    form.allowed_user_id = "not a number".into();
    // Rejected at the command boundary rather than silently folded to the
    // 0 = "allow anyone" sentinel.
    assert!(validate_form(&form).is_err());
    let mut form = full_form();
    form.allowed_user_id = "".into();
    assert_eq!(
        form.into_config("i".into(), "t".into()).allowed_user_id,
        0
    );
}

#[test]
fn a_blank_token_field_means_keep_the_stored_one() {
    let mut form = full_form();
    form.token = "   ".into();
    assert!(form.token().is_none());
    assert_eq!(full_form().token(), Some("123456:ABC"));
}

#[test]
fn bots_only_route_to_a_local_server_that_is_actually_listening() {
    let mut server = ServerConfig::default();

    // Disabled server, no override: the public API.
    assert_eq!(effective_api_base(None, &server, None), None);

    // Enabled but not listening: still the public API, never a dead port.
    server.enabled = true;
    assert_eq!(effective_api_base(None, &server, None), None);

    // Enabled and listening: the port the process actually bound.
    assert_eq!(
        effective_api_base(None, &server, Some(9099)),
        Some("http://127.0.0.1:9099".to_string())
    );

    // An explicit per-bot override always wins…
    assert_eq!(
        effective_api_base(Some(" https://example.test "), &server, Some(9099)),
        Some("https://example.test".to_string())
    );
    // …but a blank override is not an override.
    assert_eq!(
        effective_api_base(Some("   "), &server, Some(9099)),
        Some("http://127.0.0.1:9099".to_string())
    );
}

#[test]
fn norm_maps_blank_to_absent() {
    assert_eq!(norm(None), None);
    assert_eq!(norm(Some(String::new())), None);
    assert_eq!(norm(Some("  \t ".into())), None);
    assert_eq!(norm(Some("  x  ".into())), Some("x".to_string()));
}

#[test]
fn a_form_says_what_is_wrong_with_it() {
    let mut form = full_form();
    form.file = "  ".into();
    form.allowed_user_id = "@me".into();
    assert_eq!(
        validate_form(&form),
        Err("a markdown file path is required".to_string())
    );
    form.file = "/n.md".into();
    assert_eq!(
        validate_form(&form),
        Err("the Telegram user ID must be a number (leave it blank to allow anyone)".to_string())
    );
    form.allowed_user_id = "-9223372036854775808".into();
    assert_eq!(validate_form(&form), Ok(()));
    form.allowed_user_id = "9223372036854775808".into();
    assert!(validate_form(&form).is_err());
}
