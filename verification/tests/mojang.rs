use slintlauncher::error::Error;
use slintlauncher::mojang::{
    argument_strings, cached_meta_usable, check_meta_bytes, find_version, library_allowed,
    merge_meta, native_classifier, resolve_alias, ArgItem, ArgValue, Arguments, LatestVersions,
    Library, VersionInfo, VersionManifest, VersionMeta,
};
use slintlauncher::platform::{Host, TargetArch, TargetOs};
use slintlauncher::rules::{Features, OsRule, Rule};

fn linux() -> Host {
    Host { os: TargetOs::Linux, arch: TargetArch::X86_64, pointer_width_64: true }
}

fn info(id: &str, sha1: &str) -> VersionInfo {
    VersionInfo {
        id: id.into(),
        kind: "release".into(),
        url: format!("https://example.invalid/{id}.json"),
        release_time: "2024-06-13T08:24:03+00:00".into(),
        sha1: sha1.into(),
    }
}

fn meta(id: &str) -> VersionMeta {
    VersionMeta {
        id: id.into(),
        kind: "release".into(),
        main_class: String::new(),
        arguments: None,
        minecraft_arguments: None,
        libraries: Vec::new(),
        downloads: None,
        asset_index: None,
        assets: None,
        java_version: None,
        inherits_from: None,
        logging: None,
    }
}

fn lib(name: &str) -> Library {
    Library { name: name.into(), downloads: None, rules: Vec::new(), natives: None, extract: None, url: None }
}

#[test]
fn versions_are_found_by_id() {
    let m = VersionManifest {
        latest: LatestVersions { release: "1.21".into(), snapshot: "24w33a".into() },
        versions: vec![info("1.21", ""), info("1.20.6", "")],
    };
    assert_eq!(find_version(&m, "1.20.6").unwrap().id, "1.20.6");
    assert!(matches!(find_version(&m, "0.0"), Err(Error::VersionNotFound(v)) if v == "0.0"));
    assert_eq!(resolve_alias(&m, "latest-release"), "1.21");
    assert_eq!(resolve_alias(&m, "latest-snapshot"), "24w33a");
    assert_eq!(resolve_alias(&m, "1.8.9"), "1.8.9");
    assert_eq!(info("x", "").kind_label(), "релиз");
    assert_eq!(info("x", "").date_short(), "2024-06-13");
}

#[test]
fn cached_version_files_are_checked() {
    let sum = "a9993e364706816aba3e25717850c26c9cd0d89d";
    assert!(cached_meta_usable(&info("v", sum), b"abc"));
    assert!(!cached_meta_usable(&info("v", sum), b"abd"));
    assert!(!cached_meta_usable(&info("v", ""), b"abc"));
    assert!(check_meta_bytes(&info("v", ""), b"anything", "/v.json").is_ok());
    assert!(check_meta_bytes(&info("v", sum), b"abc", "/v.json").is_ok());
    assert!(matches!(check_meta_bytes(&info("v", sum), b"x", "/v.json"), Err(Error::Checksum { path }) if path == "/v.json"));
}

#[test]
fn a_child_version_is_laid_over_its_parent() {
    let mut parent = meta("1.21");
    parent.main_class = "net.minecraft.client.main.Main".into();
    parent.libraries = vec![lib("a:parent:1")];
    parent.assets = Some("17".into());
    parent.arguments = Some(Arguments { game: vec![ArgItem::Text("--p".into())], jvm: Vec::new() });
    let mut child = meta("fabric-loader-0.16.0-1.21");
    child.main_class = "net.fabricmc.loader.impl.launch.knot.KnotClient".into();
    child.libraries = vec![lib("b:child:2")];
    child.inherits_from = Some("1.21".into());
    child.arguments = Some(Arguments { game: vec![ArgItem::Text("--c".into())], jvm: Vec::new() });
    let merged = merge_meta(parent, child);
    assert_eq!(merged.id, "fabric-loader-0.16.0-1.21");
    assert_eq!(merged.main_class, "net.fabricmc.loader.impl.launch.knot.KnotClient");
    assert_eq!(merged.libraries.len(), 2);
    assert_eq!(merged.libraries[0].name, "a:parent:1");
    assert_eq!(merged.libraries[1].name, "b:child:2");
    assert_eq!(merged.assets.as_deref(), Some("17"));
    assert!(merged.inherits_from.is_none());
    let args = merged.arguments.unwrap();
    assert_eq!(args.game.len(), 2);
}

#[test]
fn arguments_follow_their_rules() {
    let items = vec![
        ArgItem::Text("--username".into()),
        ArgItem::Conditional {
            rules: vec![Rule {
                action: "allow".into(),
                os: Some(OsRule { name: Some("windows".into()), ..Default::default() }),
                ..Default::default()
            }],
            value: ArgValue::Text("-XstartOnFirstThread".into()),
        },
        ArgItem::Conditional {
            rules: Vec::new(),
            value: ArgValue::List(vec![Some("--width".into()), None, Some("1280".into())]),
        },
        ArgItem::Other,
    ];
    assert_eq!(argument_strings(&items, &Features::default(), &linux()), vec!["--username", "--width", "1280"]);
}

#[test]
fn natives_are_looked_up_by_system() {
    let mut l = lib("org.lwjgl:lwjgl-platform:2.9.4");
    assert_eq!(native_classifier(&l, &linux()), None);
    l.natives = Some(vec![("windows".into(), "natives-windows".into()), ("linux".into(), "natives-linux".into())]);
    assert_eq!(native_classifier(&l, &linux()), Some("natives-linux".to_string()));
    assert!(library_allowed(&l, &Features::default(), &linux()));
    l.rules = vec![Rule { action: "disallow".into(), ..Default::default() }];
    assert!(!library_allowed(&l, &Features::default(), &linux()));
}
