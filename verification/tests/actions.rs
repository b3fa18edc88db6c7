use slintlauncher::actions::{
    add_offline_account, create_instance, delete_active_account, delete_active_instance,
    launched_message, pin_fabric_loader, play_plan, record_launch, select_version,
    sign_in_step, store_refreshed_account, store_signed_in_account, LoaderStep, SignInStep,
};
use slintlauncher::config::{Account, AccountKind, Config, Instance};
use slintlauncher::mojang::{LatestVersions, VersionManifest};

fn manifest() -> VersionManifest {
    VersionManifest {
        latest: LatestVersions { release: "1.21".into(), snapshot: "24w33a".into() },
        versions: Vec::new(),
    }
}

fn microsoft(id: &str, uuid: &str, name: &str) -> Account {
    Account {
        id: id.into(),
        kind: AccountKind::Microsoft,
        name: name.into(),
        uuid: uuid.into(),
        access_token: "token".into(),
        refresh_token: "refresh".into(),
        xuid: "42".into(),
        expires_at: 10,
    }
}

#[test]
fn choosing_a_version_resets_the_loader() {
    let mut cfg = Config::from_loaded(None);
    cfg.instances[0].loader = "fabric".into();
    cfg.instances[0].fabric_loader = "0.15.11".into();
    select_version(&mut cfg, "1.20.1");
    assert_eq!(cfg.instances[0].version, "1.20.1");
    assert_eq!(cfg.instances[0].loader, "vanilla");
    assert!(cfg.instances[0].fabric_loader.is_empty());
    let mut none = Config::from_loaded(None);
    none.active_instance = "missing".into();
    select_version(&mut none, "1.20.1");
    assert_eq!(none.instances[0].version, "latest-release");
}

#[test]
fn new_instances_are_added_and_made_active() {
    let mut cfg = Config::from_loaded(None);
    create_instance(&mut cfg, "  Mods ", " 1.20.1 ", 1);
    assert_eq!(cfg.instances.len(), 2);
    let made = &cfg.instances[1];
    assert_eq!(made.name, "Mods");
    assert_eq!(made.version, "1.20.1");
    assert_eq!(made.loader, "fabric");
    assert_eq!(cfg.active_instance, made.id);
    create_instance(&mut cfg, "   ", "", 0);
    let made = &cfg.instances[2];
    assert_eq!(made.name, "Инстанс");
    assert_eq!(made.version, "latest-release");
    assert_eq!(made.loader, "vanilla");
}

#[test]
fn the_last_instance_is_never_deleted() {
    let mut cfg = Config::from_loaded(None);
    let before = cfg.instances[0].id.clone();
    assert_eq!(delete_active_instance(&mut cfg), Err("Нельзя удалить последний инстанс".to_string()));
    assert_eq!(cfg.instances.len(), 1);
    assert_eq!(cfg.instances[0].id, before);
}

#[test]
fn deleting_an_instance_activates_the_first_left() {
    let mut cfg = Config::from_loaded(None);
    let first = cfg.instances[0].id.clone();
    create_instance(&mut cfg, "Second", "1.20.1", 0);
    assert_eq!(delete_active_instance(&mut cfg), Ok(()));
    assert_eq!(cfg.instances.len(), 1);
    assert_eq!(cfg.instances[0].id, first);
    assert_eq!(cfg.active_instance, first);
}

#[test]
fn offline_accounts_are_added_and_made_active() {
    let mut cfg = Config::from_loaded(None);
    add_offline_account(&mut cfg, "Alex");
    assert_eq!(cfg.accounts.len(), 2);
    assert_eq!(cfg.accounts[1].name, "Alex");
    assert_eq!(cfg.active_account, cfg.accounts[1].id);
}

#[test]
fn the_last_account_is_never_deleted() {
    let mut cfg = Config::from_loaded(None);
    assert!(!delete_active_account(&mut cfg));
    assert_eq!(cfg.accounts.len(), 1);
    add_offline_account(&mut cfg, "Alex");
    assert!(delete_active_account(&mut cfg));
    assert_eq!(cfg.accounts.len(), 1);
    assert_eq!(cfg.accounts[0].name, "Player");
    assert_eq!(cfg.active_account, cfg.accounts[0].id);
}

#[test]
fn a_signed_in_account_replaces_the_one_with_its_uuid() {
    let mut cfg = Config::from_loaded(None);
    store_signed_in_account(&mut cfg, microsoft("m1", "u1", "Old"));
    assert_eq!(cfg.accounts.len(), 2);
    assert_eq!(cfg.active_account, "m1");
    store_signed_in_account(&mut cfg, microsoft("m2", "u1", "New"));
    assert_eq!(cfg.accounts.len(), 2);
    assert_eq!(cfg.accounts[1].name, "New");
    assert_eq!(cfg.active_account, "m2");
}

#[test]
fn a_refreshed_account_replaces_the_one_with_its_id() {
    let mut cfg = Config::from_loaded(None);
    store_signed_in_account(&mut cfg, microsoft("m1", "u1", "Old"));
    let mut fresh = microsoft("m1", "u1", "Old");
    fresh.access_token = "new-token".into();
    store_refreshed_account(&mut cfg, fresh);
    assert_eq!(cfg.accounts[1].access_token, "new-token");
    store_refreshed_account(&mut cfg, microsoft("other", "u9", "X"));
    assert_eq!(cfg.accounts.len(), 2);
}

#[test]
fn launches_and_loader_choices_are_recorded() {
    let mut cfg = Config::from_loaded(None);
    let id = cfg.instances[0].id.clone();
    record_launch(&mut cfg, &id, 1_700_000_000, "1.21");
    assert_eq!(cfg.instances[0].last_played, 1_700_000_000);
    assert_eq!(cfg.instances[0].version, "1.21");
    pin_fabric_loader(&mut cfg, &id, "0.16.0", "1.21");
    assert_eq!(cfg.instances[0].fabric_loader, "0.16.0");
    record_launch(&mut cfg, "missing", 5, "x");
    assert_eq!(cfg.instances[0].last_played, 1_700_000_000);
}

#[test]
fn the_play_plan_resolves_aliases_and_loaders() {
    let m = manifest();
    let offline = Account::offline("Steve");
    let mut inst = Instance::vanilla("A", "latest-release");
    let plan = play_plan(&inst, &offline, &m);
    assert_eq!(plan.version, "1.21");
    assert!(!plan.refresh_session);
    assert!(matches!(plan.loader, LoaderStep::Vanilla));
    inst.version = "latest-snapshot".into();
    inst.loader = "fabric".into();
    let plan = play_plan(&inst, &microsoft("m", "u", "N"), &m);
    assert_eq!(plan.version, "24w33a");
    assert!(plan.refresh_session);
    assert!(matches!(plan.loader, LoaderStep::FabricLatest));
    inst.fabric_loader = "0.16.0".into();
    inst.version = "1.20.1".into();
    let plan = play_plan(&inst, &offline, &m);
    assert_eq!(plan.version, "1.20.1");
    match plan.loader {
        LoaderStep::FabricPinned(l) => assert_eq!(l, "0.16.0"),
        other => panic!("unexpected {other:?}"),
    }
}

#[test]
fn sign_in_waits_until_cancelled_or_expired() {
    assert_eq!(sign_in_step(true, 0, 0, 900), SignInStep::Cancelled);
    assert_eq!(sign_in_step(false, 10, 0, 900), SignInStep::Poll);
    assert_eq!(sign_in_step(false, 900, 0, 900), SignInStep::Poll);
    assert_eq!(sign_in_step(false, 900, 1, 900), SignInStep::Expired);
    assert_eq!(sign_in_step(false, 901, 0, 900), SignInStep::Expired);
}

#[test]
fn the_launch_status_names_the_process() {
    assert_eq!(launched_message(4242), "Minecraft запущен (pid 4242)");
}
