use rustcraft::assets::{get_asset, Asset, AssetStore};
use rustcraft::config::{config_from_fields, configuration_text, default_config, parse_configuration};
use rustcraft::notice::notice_for;
use rustcraft::scheduler::StartAction;
use rustcraft::state::{RustCraft, StatusImage};
use rustcraft::styling::{MinecraftButton, MinecraftSlider, Rgb};

#[test]
fn parses_stored_settings() {
    let c = parse_configuration(
        "{\"minecraft_directory\": \"C:\\\\saves\", \"backup_directory\": \"/b\", \"backup_frequency\": 6}",
    );
    assert_eq!(c.source_dir.as_deref(), Some("C:\\saves"));
    assert_eq!(c.backup_dir.as_deref(), Some("/b"));
    assert_eq!(c.interval_hours, 6);
}

#[test]
fn missing_settings_use_defaults() {
    let c = parse_configuration("{\"minecraft_directory\": null}");
    assert_eq!(c.source_dir, None);
    assert_eq!(c.backup_dir, None);
    assert_eq!(c.interval_hours, 24);
    let d = default_config();
    assert_eq!(d.source_dir, None);
    assert_eq!(d.interval_hours, 24);
}

#[test]
fn unreadable_text_uses_defaults() {
    let c = parse_configuration("not json");
    assert_eq!(c.source_dir, None);
    assert_eq!(c.interval_hours, 24);
}

#[test]
fn out_of_range_interval_uses_default() {
    assert_eq!(config_from_fields(None, None, Some(-3)).interval_hours, 24);
    assert_eq!(config_from_fields(None, None, Some(5_000_000_000)).interval_hours, 24);
    assert_eq!(config_from_fields(None, None, Some(0)).interval_hours, 0);
    let c = config_from_fields(Some(String::new()), None, None);
    assert_eq!(c.source_dir, Some(String::new()));
}

#[test]
fn notices() {
    let ok = notice_for(true, Some("ignored")).unwrap();
    assert_eq!(ok.body, "Your Minecraft worlds have been successfully saved.");
    assert_eq!(ok.icon, "./assets/icon.ico");
    assert_eq!(ok.app_name, "RustCraft");
    let bad = notice_for(false, Some("Backup failed: x")).unwrap();
    assert_eq!(bad.body, "Backup failed: x");
    assert_eq!(bad.icon, "./assets/error.png");
    assert!(notice_for(false, None).is_none());
}

#[test]
fn asset_lookup_by_name() {
    let store = AssetStore {
        entries: vec![
            Asset { name: "icon.ico".to_string(), data: vec![1, 2, 3] },
            Asset { name: "error.png".to_string(), data: vec![9] },
            Asset { name: "icon.ico".to_string(), data: vec![7] },
        ],
    };
    assert_eq!(get_asset(&store, "icon.ico"), Some(vec![1, 2, 3]));
    assert_eq!(get_asset(&store, "error.png"), Some(vec![9]));
    assert_eq!(get_asset(&store, "missing.png"), None);
}

#[test]
fn button_and_slider_looks() {
    let b = MinecraftButton;
    let active = b.active();
    assert_eq!(active.background, Rgb { r: 0x3a, g: 0x7a, b: 0x3a });
    assert_eq!(active.border_width, 1);
    assert!(active.shadow.is_some());
    let hovered = b.hovered();
    assert_eq!(hovered.background, Rgb { r: 0x4a, g: 0x8b, b: 0x4a });
    assert_eq!(hovered.border_color, active.border_color);
    let pressed = b.pressed();
    assert_eq!(pressed.shadow, None);
    assert_eq!(pressed.background, hovered.background);
    let s = MinecraftSlider;
    assert_eq!(s.active().handle.width, 10);
    assert_eq!(s.hovered().handle.color, Rgb { r: 0x6e, g: 0xc1, b: 0x6e });
    assert_eq!(s.dragging().handle.color, Rgb { r: 0x5e, g: 0xb1, b: 0x5e });
    assert_eq!(s.dragging().rail, s.active().rail);
}

#[test]
fn window_state_flow() {
    let mut app = RustCraft::new(config_from_fields(None, None, Some(2)));
    assert!(!app.start_enabled());
    assert_eq!(app.start_pressed(0), StartAction::Ignored);
    app.source_selected(Some("/saves".to_string()));
    app.backup_selected(Some("/backups".to_string()));
    assert!(app.start_enabled());
    assert!(app.pickers_enabled());
    assert_eq!(app.start_pressed(10), StartAction::SpawnWorker { period_secs: 7200 });
    assert_eq!(app.image, StatusImage::Active);
    assert_eq!(app.image.path(), "assets/active.png");
    assert!(!app.pickers_enabled());
    assert_eq!(app.tick(20).hours, 1);
    assert_eq!(app.start_pressed(30), StartAction::StopWorker);
    assert_eq!(app.image.path(), "assets/normal.png");
    assert!(!app.schedule_changed(0));
    assert_eq!(app.start_pressed(40), StartAction::RunOnce);
    app.one_shot_finished(false);
    assert_eq!(app.image.path(), "assets/error.png");
    let saved = app.settings();
    assert_eq!(saved.source_dir.as_deref(), Some("/saves"));
    assert_eq!(saved.interval_hours, 0);
    app.toggle_theme();
    assert!(app.dark_theme);
}

#[test]
fn failed_scheduled_run_shows_error() {
    let mut app = RustCraft::new(config_from_fields(Some("a".to_string()), Some("b".to_string()), None));
    app.start_pressed(0);
    assert!(app.scheduled_run_failed());
    assert!(!app.schedule.is_active());
    assert_eq!(app.image, StatusImage::Error);
}

#[test]
fn stored_settings_load_back() {
    let c = config_from_fields(Some("C:\\Users\\me \"x\"\n".to_string()), None, Some(7));
    let text = configuration_text(&c);
    assert!(text.contains("backup_frequency"));
    let back = parse_configuration(&text);
    assert_eq!(back.source_dir, c.source_dir);
    assert_eq!(back.backup_dir, None);
    assert_eq!(back.interval_hours, 7);
}
