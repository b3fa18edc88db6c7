use slintlauncher::config::{Account, Config, Instance};
use slintlauncher::error::Error;
use slintlauncher::launch::{check_java, prepare};
use slintlauncher::mojang::{JavaVersion, VersionMeta};
use slintlauncher::paths::DataDir;
use slintlauncher::platform::{Host, TargetArch, TargetOs};

fn linux() -> Host {
    Host { os: TargetOs::Linux, arch: TargetArch::X86_64, pointer_width_64: true }
}

fn legacy_meta() -> VersionMeta {
    VersionMeta {
        id: "1.12.2".into(),
        kind: "release".into(),
        main_class: "net.minecraft.client.main.Main".into(),
        arguments: None,
        minecraft_arguments: Some("--username ${auth_player_name} --version ${version_name} --uuid ${auth_uuid}".into()),
        libraries: Vec::new(),
        downloads: None,
        asset_index: None,
        assets: None,
        java_version: None,
        inherits_from: None,
        logging: None,
    }
}

#[test]
fn a_legacy_version_gets_its_command_line() {
    let host = linux();
    let d = DataDir::new("/d".into(), &host);
    let mut cfg = Config::default();
    cfg.jvm_args = "-Xss1M".into();
    cfg.fullscreen = true;
    let instance = Instance::vanilla("A", "1.12.2");
    let account = Account::offline("Steve");
    let plan = prepare(&cfg, &instance, &account, &legacy_meta(), "/usr/bin/java".into(), &d, &host, true, "0.1.0").unwrap();
    assert_eq!(plan.java, "/usr/bin/java");
    assert_eq!(plan.cwd, format!("/d/instances/{}/minecraft", instance.id));
    let expected: Vec<String> = [
        "-Xms1024M",
        "-Xmx4096M",
        "-Xss1M",
        "-Djava.library.path=/d/minecraft/versions/1.12.2/natives",
        "-Dminecraft.launcher.brand=SlintLauncher",
        "-Dminecraft.launcher.version=0.1.0",
        "-cp",
        "/d/minecraft/versions/1.12.2/1.12.2.jar",
        "net.minecraft.client.main.Main",
        "--username",
        "Steve",
        "--version",
        "1.12.2",
        "--uuid",
        "5627dd98e6be3c21b8a8e92344183641",
        "--fullscreen",
    ]
    .iter()
    .map(|s| s.to_string())
    .collect();
    assert_eq!(plan.args, expected);
}

#[test]
fn a_version_without_arguments_cannot_start() {
    let host = linux();
    let d = DataDir::new("/d".into(), &host);
    let mut meta = legacy_meta();
    meta.minecraft_arguments = None;
    let result = prepare(
        &Config::default(),
        &Instance::vanilla("A", "x"),
        &Account::offline("Steve"),
        &meta,
        "java".into(),
        &d,
        &host,
        false,
        "0.1.0",
    );
    assert!(matches!(result, Err(Error::Message(m)) if m == "в манифесте версии нет аргументов запуска"));
}

#[test]
fn an_old_java_is_refused() {
    let mut meta = legacy_meta();
    assert!(check_java(&meta, Some(8)).is_ok());
    meta.java_version = Some(JavaVersion { component: "java-runtime-delta".into(), major_version: 21 });
    assert!(matches!(check_java(&meta, Some(17)), Err(Error::Message(m)) if m == "нужна Java 21+, найдена 17"));
    assert!(check_java(&meta, Some(21)).is_ok());
    assert!(check_java(&meta, None).is_ok());
}
