//! The tray: what it shows, what it asks for, how it looks.
use dicta::tray::app::{
    command_error, complaint_of, filter_provider_report_for_tray, first_switchable_provider,
    handle_panel_message, live_worker_log_name, provider_label, provider_switchable,
    provider_visible_in_tray, report_current_switchable, sanitize_log_name,
    unavailable_provider_status, AppConfig, Environment, MenuEntry, ProviderListEntry,
    ProviderListReport, TrayApp, TrayAsk, TrayCommand,
};
use dicta::tray::look::{
    fallback_anchor, macos_major_at_least, monitor_bounds, panel_position, panel_update_script,
    render_panel_html, rounded_rect_contains, tray_icon_image, Extent, Monitor, Spot, ICON_SIZE,
};
use dicta::tray::state::{read_panel_message, read_provider_list};

fn provider(name: &str, live: bool, local_config_ok: bool) -> ProviderListEntry {
    ProviderListEntry {
        name: name.to_owned(),
        kind: "external".to_owned(),
        selected: false,
        live,
        local_config_ok,
        local_config_error: None,
        model: "m".to_owned(),
    }
}

fn provider_report(current: Option<&str>) -> ProviderListReport {
    ProviderListReport {
        current: current.map(ToOwned::to_owned),
        providers: vec![
            provider("apple", true, false),
            ProviderListEntry {
                selected: current == Some("live-asr"),
                ..provider("live-asr", true, true)
            },
            provider("openai", false, true),
        ],
    }
}

fn ready_app() -> TrayApp {
    let mut app = TrayApp::new();
    assert_eq!(app.refresh(), TrayAsk::List);
    assert_eq!(app.on_list(Ok(provider_report(Some("live-asr")))), TrayAsk::Nothing);
    app
}

#[test]
fn current_provider_is_switchable_only_when_live_ready() {
    let report = provider_report(Some("live-asr"));

    assert!(report_current_switchable(&report));
}

#[test]
fn batch_only_current_provider_is_not_switchable() {
    let report = provider_report(Some("openai"));

    assert!(!report_current_switchable(&report));
    assert_eq!(first_switchable_provider(&report).as_deref(), Some("live-asr"));
}

#[test]
fn missing_current_provider_falls_back_to_first_switchable_provider() {
    let report = provider_report(None);

    assert!(!report_current_switchable(&report));
    assert_eq!(first_switchable_provider(&report).as_deref(), Some("live-asr"));
}

#[test]
fn tray_hides_batch_only_providers() {
    let report = filter_provider_report_for_tray(provider_report(Some("openai")));

    assert!(report.providers.iter().any(|provider| provider.name == "apple"));
    assert!(report.providers.iter().any(|provider| provider.name == "live-asr"));
    assert!(!report.providers.iter().any(|provider| provider.name == "openai"));
    assert_eq!(first_switchable_provider(&report).as_deref(), Some("live-asr"));
}

#[test]
fn providers_are_labelled_with_what_they_lack() {
    assert_eq!(provider_label(&provider("a", true, true)), "a (external, m)");
    assert_eq!(provider_label(&provider("a", false, true)), "a (external, m) - no live");
    assert_eq!(provider_label(&provider("a", true, false)), "a (external, m) - config needed");
    let told = ProviderListEntry {
        local_config_error: Some("no key".to_owned()),
        ..provider("a", true, false)
    };
    assert_eq!(provider_label(&told), "a (external, m) - no key");
    assert_eq!(unavailable_provider_status(&told), "no key");
    assert_eq!(unavailable_provider_status(&provider("a", true, false)), "a is not ready");
    assert_eq!(
        unavailable_provider_status(&provider("a", false, true)),
        "a does not support live mode"
    );
    assert!(provider_switchable(&provider("a", true, true)));
    assert!(provider_visible_in_tray(&provider("a", true, false)));
}

#[test]
fn live_worker_starts_and_ends() {
    let mut app = ready_app();
    assert_eq!(app.selected_provider().as_deref(), Some("live-asr"));
    assert!(app.selected_provider_ready());
    assert_eq!(app.start_live(), TrayAsk::Start("live-asr".to_owned()));
    assert_eq!(app.on_started(Ok(())), TrayAsk::Nothing);
    assert!(app.running);
    assert_eq!(app.tray_title(), "dicta *");
    assert_eq!(app.poll_after(), Some(2));
    assert!(!app.reap_live(None));
    assert!(app.reap_live(Some(Ok("exit status: 0".to_owned()))));
    assert!(!app.running);
    assert_eq!(app.tray_title(), "dicta");
    assert_eq!(app.poll_after(), None);
}

#[test]
fn batch_only_providers_are_replaced_when_the_list_comes() {
    let mut app = TrayApp::new();
    app.refresh();
    assert_eq!(
        app.on_list(Ok(provider_report(Some("openai")))),
        TrayAsk::Remember("live-asr".to_owned())
    );
    assert_eq!(app.on_remembered(Ok(())), TrayAsk::List);
}

#[test]
fn switching_restarts_a_running_worker() {
    let mut app = ready_app();
    app.start_live();
    app.on_started(Ok(()));
    assert_eq!(app.set_provider("live-asr"), TrayAsk::Remember("live-asr".to_owned()));
    assert_eq!(app.on_remembered(Ok(())), TrayAsk::Stop);
    assert_eq!(app.on_stopped(Ok(())), TrayAsk::List);
    assert_eq!(
        app.on_list(Ok(provider_report(Some("live-asr")))),
        TrayAsk::Start("live-asr".to_owned())
    );
}

#[test]
fn stopping_leads_to_what_was_meant() {
    let mut app = ready_app();
    assert_eq!(app.stop_live(), TrayAsk::Nothing);
    assert_eq!(app.status, "Live is not running");
    assert_eq!(app.start_live(), TrayAsk::Start("live-asr".to_owned()));
    app.on_started(Ok(()));
    assert_eq!(app.stop_live(), TrayAsk::Stop);
    assert_eq!(app.on_stopped(Ok(())), TrayAsk::Nothing);
    assert_eq!(app.status, "Live stopped");

    app.start_live();
    app.on_started(Ok(()));
    assert_eq!(app.restart_live(), TrayAsk::Stop);
    assert_eq!(
        app.on_stopped(Err("gone".to_owned())),
        TrayAsk::Start("live-asr".to_owned())
    );
}

#[test]
fn unready_providers_are_not_chosen() {
    let mut app = ready_app();
    assert_eq!(app.set_provider("apple"), TrayAsk::Nothing);
    assert_eq!(app.status, "apple is not ready");
}

#[test]
fn menu_and_panel_ask_for_the_same_things() {
    let app = ready_app();
    let menu = app.build_menu();
    assert!(menu.iter().any(|entry| matches!(
        entry,
        MenuEntry::Check { label, checked: true, .. } if label.starts_with("live-asr")
    )));
    assert_eq!(app.on_menu("start"), TrayCommand::Start);
    assert_eq!(app.on_menu("quit"), TrayCommand::Quit);
    assert_eq!(app.on_menu("nonsense"), TrayCommand::Ignore);
    assert_eq!(handle_panel_message("start_live", &None), TrayCommand::Start);
    assert_eq!(handle_panel_message("hide_panel", &None), TrayCommand::Hide);
    assert_eq!(
        handle_panel_message("set_provider", &Some("x".to_owned())),
        TrayCommand::Choose("x".to_owned())
    );
    assert_eq!(handle_panel_message("set_provider", &None), TrayCommand::Ignore);
    assert_eq!(app.tooltip(), format!("dicta: live-asr ({})", app.status));
}

#[test]
fn environment_configures_the_tray() {
    let none = Environment {
        dicta_bin: None,
        live_args: None,
        provider_config: None,
        provider_state: None,
        autostart: None,
        native_glass: None,
    };
    let config = AppConfig::from_env(&none);
    assert_eq!(config.dicta_bin, "dicta");
    assert!(!config.autostart);
    let given = AppConfig::from_env(&Environment {
        dicta_bin: Some("/bin/dicta".to_owned()),
        autostart: Some("1".to_owned()),
        native_glass: Some("0".to_owned()),
        provider_config: Some("  ".to_owned()),
        ..none
    });
    assert_eq!(given.dicta_bin, "/bin/dicta");
    assert!(given.autostart && !given.native_glass);
    assert_eq!(given.provider_config, None);
}

#[test]
fn complaints_of_commands_are_trimmed() {
    assert_eq!(command_error(&b" why \n".to_vec()), "why");
    assert_eq!(command_error(&vec![]), "command exited with an error");
    assert_eq!(command_error(&vec![b'a', 0xff]), "a\u{fffd}");
    assert_eq!(complaint_of("  "), "command exited with an error");
}

#[test]
fn log_names_are_plain() {
    let name = sanitize_log_name("a/b c?");
    assert!(name.chars().all(|c| c.is_ascii_alphanumeric() || c == '-' || c == '_' || c == '.'));
    assert_eq!(
        live_worker_log_name("live-asr", 7),
        format!("dicta-tray-live-{}-7.log", sanitize_log_name("live-asr"))
    );
}

#[test]
fn icon_is_a_square_of_pixels() {
    assert_eq!(tray_icon_image().len(), ICON_SIZE * ICON_SIZE * 4);
    assert!(rounded_rect_contains(5, 5, 0, 0, 10, 10, 3));
    assert!(!rounded_rect_contains(0, 0, 0, 0, 10, 10, 3));
    assert!(!rounded_rect_contains(10, 5, 0, 0, 10, 10, 3));
    assert!(rounded_rect_contains(1_000_000, 5, 0, 0, 2_000_000, 10, 3));
    assert!(!rounded_rect_contains(3_000_000, 5, 0, 0, 2_000_000, 10, 3));
}

#[test]
fn panel_stays_on_the_monitor() {
    let panel = Extent { width: 300, height: 400 };
    let bounds =
        monitor_bounds(Some(Monitor { x: 0, y: 0, width: 1000, height: 800 }), panel);
    let at = panel_position(Spot { x: 990, y: 790 }, panel, bounds);
    assert!(at.x <= bounds.max.x && at.y <= bounds.max.y);
    assert!(at.x >= bounds.min.x && at.y >= bounds.min.y);
    let anchor = fallback_anchor(bounds);
    let placed = panel_position(anchor, panel, bounds);
    assert!(placed.x >= bounds.min.x && placed.x <= bounds.max.x);
}

#[test]
fn state_in_the_page_holds_no_tag() {
    let state = "{\"a\":\"</script>\"}";
    let page = render_panel_html("<html>__DICTA_INITIAL_STATE__</html>", "css", "js", true, state);
    assert!(!page.contains("</script>"));
    assert!(panel_update_script("{}").contains("{}"));
}

#[test]
fn macos_is_known_by_its_major_version() {
    assert!(macos_major_at_least("26.0.1", 26));
    assert!(!macos_major_at_least("15.6", 26));
    assert!(!macos_major_at_least("", 26));
}

#[test]
fn panel_sees_the_state_as_json() {
    let mut app = TrayApp::new();
    app.status = "idle".to_owned();
    assert_eq!(
        app.panel_state(),
        r#"{"status":"idle","current":null,"live_running":false,"selected_ready":false,"providers":[]}"#
    );
    let mut app = ready_app();
    app.status = "ready".to_owned();
    assert!(app.panel_state().contains(
        r#"{"name":"live-asr","kind":"external","selected":true,"live":true,"local_config_ok":true,"local_config_error":null,"model":"m"}"#
    ));
}

#[test]
fn list_of_the_tool_is_read() {
    let report = read_provider_list(
        r#"{"current":"a","state_path":null,"providers":[{"name":"a","kind":"k","model":"m","live":true,"notes":[]}]}"#,
    )
    .unwrap();
    assert_eq!(report.current.as_deref(), Some("a"));
    assert!(report.providers[0].live && !report.providers[0].selected);
    assert_eq!(
        read_provider_list("oops").unwrap_err(),
        "failed to parse provider list JSON"
    );
    assert!(read_provider_list(r#"{"providers":[{"name":"a"}]}"#).is_err());
    assert!(read_provider_list("[]").is_err());
}

#[test]
fn messages_of_the_panel_are_read() {
    assert_eq!(
        read_panel_message(r#"{"action":"set_provider","provider":"a"}"#),
        Some(("set_provider".to_owned(), Some("a".to_owned())))
    );
    assert_eq!(
        read_panel_message(r#"{"action":"quit"}"#),
        Some(("quit".to_owned(), None))
    );
    assert_eq!(read_panel_message(r#"{"provider":"a"}"#), None);
    assert_eq!(read_panel_message("quit"), None);
}
