use slintlauncher::config::{name_uuid, offline_uuid, sanitize_name, Account, AccountKind, Config, Instance};

#[test]
fn offline_uuid_matches_java() {
    let uuid = offline_uuid("Steve");
    assert_eq!(uuid.len(), 36);
    assert_eq!(&uuid[14..15], "3");
}

#[test]
fn offline_uuid_is_the_java_name_uuid() {
    assert_eq!(offline_uuid("Steve"), "5627dd98-e6be-3c21-b8a8-e92344183641");
}

#[test]
fn digests_become_version_three_uuids() {
    let digest: Vec<u8> = (0u8..16).collect();
    assert_eq!(name_uuid(&digest), "00010203-0405-3607-8809-0a0b0c0d0e0f");
    assert_eq!(name_uuid(&vec![0xff; 16]), "ffffffff-ffff-3fff-bfff-ffffffffffff");
}

#[test]
fn player_names_are_cleaned() {
    assert_eq!(sanitize_name("  Alex  "), "Alex");
    assert_eq!(sanitize_name("a b!c"), "abc");
    assert_eq!(sanitize_name("???"), "Player");
    assert_eq!(sanitize_name("abcdefghijklmnopqrstuvwxyz"), "abcdefghijklmnop");
    assert_eq!(sanitize_name("Dev_01"), "Dev_01");
    for raw in ["  Alex  ", "a b!c", "???", "abcdefghijklmnopqrstuvwxyz", "Ünïcödé_name", ""] {
        let once = sanitize_name(raw);
        assert_eq!(sanitize_name(&once), once);
        assert!((1..=16).contains(&once.len()));
        assert!(once.chars().all(|c| c.is_ascii_alphanumeric() || c == '_'));
    }
}

#[test]
fn offline_accounts_have_the_java_uuid() {
    let a = Account::offline(" Steve ");
    assert_eq!(a.name, "Steve");
    assert_eq!(a.uuid, "5627dd98-e6be-3c21-b8a8-e92344183641");
    assert_eq!(a.kind, AccountKind::Offline);
    assert_eq!(a.access_token, "0");
    assert_eq!(a.user_type(), "legacy");
    assert_eq!(a.kind_label(), "офлайн");
    assert_eq!(a.id.len(), 36);
}

#[test]
fn default_config_shape() {
    let c = Config::default();
    assert_eq!(c.ram_mb, 4096);
    assert_eq!((c.width, c.height), (1280, 720));
    assert_eq!(c.language, "ru");
    assert_eq!(c.accounts.len(), 1);
    assert_eq!(c.accounts[0].name, "Player");
    assert_eq!(c.instances.len(), 1);
    assert_eq!(c.instances[0].name, "Ванилла");
    assert_eq!(c.instances[0].version, "latest-release");
    assert_eq!(c.active_instance, c.instances[0].id);
    assert!(c.active_account.is_empty());
}

#[test]
fn repair_fills_in_what_is_missing() {
    let mut c = Config::default();
    c.instances.clear();
    c.accounts.clear();
    c.ram_mb = 100;
    c.active_instance = "gone".into();
    let r = c.repair();
    assert_eq!(r.instances.len(), 1);
    assert_eq!(r.active_instance, r.instances[0].id);
    assert_eq!(r.accounts.len(), 1);
    assert_eq!(r.active_account, r.accounts[0].id);
    assert_eq!(r.ram_mb, 1024);
    let mut big = Config::default();
    big.ram_mb = 100_000;
    assert_eq!(big.repair().ram_mb, 32768);
}

#[test]
fn repair_of_a_repaired_config_changes_nothing() {
    let r = Config::from_loaded(None);
    let again = r.clone().repair();
    assert_eq!(again.active_instance, r.active_instance);
    assert_eq!(again.active_account, r.active_account);
    assert_eq!(again.instances.len(), r.instances.len());
    assert_eq!(again.accounts.len(), r.accounts.len());
    assert_eq!(again.ram_mb, r.ram_mb);
}

#[test]
fn repair_points_a_stale_active_instance_at_the_first() {
    let mut c = Config::default();
    let second = Instance::vanilla("Two", "1.20.1");
    c.instances.push(second.clone());
    c.active_instance = "missing".into();
    let r = c.repair();
    assert_eq!(r.active_instance, r.instances[0].id);
    let mut c = Config::default();
    c.instances.push(second.clone());
    c.active_instance = second.id.clone();
    assert_eq!(c.repair().active_instance, second.id);
}

#[test]
fn instance_labels_and_versions() {
    let mut i = Instance::vanilla("Mods", "1.20.1");
    assert_eq!(i.loader, "vanilla");
    assert_eq!(i.loader_label(), "Vanilla");
    assert_eq!(i.launch_version(), "1.20.1");
    i.loader = "fabric".into();
    assert_eq!(i.launch_version(), "1.20.1");
    i.fabric_loader = "0.15.11".into();
    assert_eq!(i.launch_version(), "1.20.1-fabric-0.15.11");
    assert_eq!(i.loader_label(), "Fabric 0.15.11");
    assert_eq!(i.ram_mb(4096), 4096);
    i.ram_override = 512;
    assert_eq!(i.ram_mb(4096), 4096);
    i.ram_override = 2048;
    assert_eq!(i.ram_mb(4096), 2048);
}
