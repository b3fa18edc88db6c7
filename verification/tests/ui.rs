use slintlauncher::config::{Account, Config, Instance};
use slintlauncher::mojang::{LatestVersions, VersionInfo, VersionManifest};
use slintlauncher::ui::{
    account_rows, display_version, format_played, hero, played_label, instance_rows, parse_num, pull_settings,
    settings_form, version_visible, visible_versions, SettingsForm, MAX_LISTED,
};

fn info(id: &str, kind: &str) -> VersionInfo {
    VersionInfo {
        id: id.into(),
        kind: kind.into(),
        url: String::new(),
        release_time: "2024-06-13T08:24:03+00:00".into(),
        sha1: String::new(),
    }
}

fn manifest() -> VersionManifest {
    VersionManifest {
        latest: LatestVersions { release: "1.21".into(), snapshot: "24w33a".into() },
        versions: vec![
            info("24w33a", "snapshot"),
            info("1.21", "release"),
            info("1.20.6", "release"),
            info("b1.7.3", "old_beta"),
            info("a1.2.6", "old_alpha"),
        ],
    }
}

#[test]
fn numbers_are_read_from_their_digits() {
    assert_eq!(parse_num("1920", 1280), 1920);
    assert_eq!(parse_num(" 1 9 2 0 px", 1280), 1920);
    assert_eq!(parse_num("", 1280), 1280);
    assert_eq!(parse_num("wide", 720), 720);
    assert_eq!(parse_num("99999999999", 720), 720);
    assert_eq!(parse_num("-5", 7), 5);
}

#[test]
fn versions_are_filtered_by_kind_and_query() {
    let m = manifest();
    assert!(version_visible(&m.versions[1], 0, ""));
    assert!(!version_visible(&m.versions[0], 0, ""));
    assert!(version_visible(&m.versions[0], 1, ""));
    assert!(version_visible(&m.versions[3], 2, ""));
    assert!(version_visible(&m.versions[4], 2, ""));
    assert!(!version_visible(&m.versions[1], 2, ""));
    assert!(version_visible(&m.versions[0], 3, ""));
    assert!(version_visible(&m.versions[0], -1, "w33"));
    assert!(!version_visible(&m.versions[0], -1, "1.21"));
    assert!(version_visible(&info("1.21-Pre1", "snapshot"), 1, "pre"));
}

#[test]
fn the_version_list_keeps_order_and_lowercases_the_query() {
    let m = manifest();
    assert_eq!(visible_versions(&m.versions, 0, ""), vec![1, 2]);
    assert_eq!(visible_versions(&m.versions, 9, "W33"), vec![0]);
    assert_eq!(visible_versions(&m.versions, 2, "1."), vec![3, 4]);
    assert!(visible_versions(&m.versions, 0, "nothing").is_empty());
}

#[test]
fn the_version_list_shows_at_most_four_hundred() {
    let versions: Vec<VersionInfo> = (0..450).map(|k| info(&format!("1.{k}"), "release")).collect();
    let shown = visible_versions(&versions, 0, "");
    assert_eq!(shown.len(), MAX_LISTED);
    assert_eq!(shown[0], 0);
    assert_eq!(shown[399], 399);
}

#[test]
fn latest_aliases_are_shown_through_the_manifest() {
    let m = manifest();
    let i = Instance::vanilla("A", "latest-release");
    assert_eq!(display_version(&i, Some(&m)), "1.21");
    assert_eq!(display_version(&i, None), "latest-release");
    let s = Instance::vanilla("B", "latest-snapshot");
    assert_eq!(display_version(&s, Some(&m)), "24w33a");
    assert_eq!(display_version(&s, None), "latest-snapshot");
    let f = Instance::vanilla("C", "1.8.9");
    assert_eq!(display_version(&f, Some(&m)), "1.8.9");
}

#[test]
fn play_times_are_shown_in_utc() {
    assert_eq!(format_played(0), "ещё не запускался");
    assert_eq!(format_played(-5), "ещё не запускался");
    assert_eq!(format_played(86_400), "02.01.1970 00:00");
    assert_eq!(format_played(1_700_000_000), "14.11.2023 22:13");
    assert_eq!(format_played(i64::MAX), "—");
    assert_eq!(played_label(0, Some("01.01.2000 00:00".into())), "ещё не запускался");
    assert_eq!(played_label(5, Some("01.01.1970 00:00".into())), "01.01.1970 00:00");
    assert_eq!(played_label(5, None), "—");
}

#[test]
fn the_settings_form_round_trips() {
    let mut cfg = Config::default();
    cfg.width = 1920;
    cfg.height = 1080;
    cfg.java_path = "/usr/bin/java".into();
    let form = settings_form(&cfg);
    assert_eq!(form.ram_mb, 4096);
    assert_eq!(form.width_text, "1920");
    assert_eq!(form.height_text, "1080");
    let before = cfg.clone();
    pull_settings(&mut cfg, &form);
    assert_eq!(cfg.ram_mb, before.ram_mb);
    assert_eq!(cfg.width, 1920);
    assert_eq!(cfg.height, 1080);
    assert_eq!(cfg.java_path, before.java_path);
    assert_eq!(cfg.jvm_args, before.jvm_args);
    assert_eq!(cfg.active_instance, before.active_instance);
}

#[test]
fn the_settings_form_is_clamped() {
    let mut cfg = Config::default();
    let form = SettingsForm {
        ram_mb: 100,
        java_path: "java".into(),
        jvm_args: "-Xss1M".into(),
        width_text: "100".into(),
        height_text: "tall".into(),
        fullscreen: true,
        close_on_launch: true,
        show_snapshots: true,
        show_old: false,
    };
    pull_settings(&mut cfg, &form);
    assert_eq!(cfg.ram_mb, 1024);
    assert_eq!(cfg.width, 640);
    assert_eq!(cfg.height, 720);
    assert!(cfg.fullscreen && cfg.close_on_launch && cfg.show_snapshots && !cfg.show_old);
    assert_eq!(cfg.jvm_args, "-Xss1M");
    let big = SettingsForm { ram_mb: 100_000, width_text: "99999".into(), height_text: "99999".into(), ..form };
    pull_settings(&mut cfg, &big);
    assert_eq!((cfg.ram_mb, cfg.width, cfg.height), (32768, 7680, 4320));
}

#[test]
fn the_summary_names_the_active_instance_and_account() {
    let m = manifest();
    let cfg = Config::from_loaded(None);
    let h = hero(&cfg, Some(&m));
    assert_eq!(h.instance, "Ванилла");
    assert_eq!(h.version, "1.21");
    assert_eq!(h.loader, "Vanilla");
    assert_eq!(h.account, "Player");
    assert_eq!(h.ram_mb, 4096);
    let mut empty = Config::default();
    empty.instances.clear();
    empty.accounts.clear();
    let h = hero(&empty, None);
    assert_eq!((h.instance.as_str(), h.version.as_str(), h.loader.as_str()), ("Инстанс", "—", "Vanilla"));
    assert_eq!(h.account, "Player");
}

#[test]
fn list_rows_mark_the_active_entries() {
    let mut cfg = Config::from_loaded(None);
    cfg.accounts.push(Account::offline("Alex"));
    cfg.instances.push(Instance::vanilla("Second", "1.20.1"));
    let rows = account_rows(&cfg);
    assert_eq!(rows.len(), 2);
    assert!(rows[0].selected && !rows[1].selected);
    assert_eq!(rows[1].name, "Alex");
    assert_eq!(rows[1].kind, "офлайн");
    let rows = instance_rows(&cfg);
    assert_eq!(rows.len(), 2);
    assert!(rows[0].selected && !rows[1].selected);
    assert_eq!(rows[0].version, "latest-release");
    assert_eq!(rows[1].last_played, "ещё не запускался");
    assert_eq!(rows[1].loader, "Vanilla");
}
