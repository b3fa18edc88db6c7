use slintlauncher::minecraft::install::{download_start_status, download_status, resolve_libraries, Paths};
use slintlauncher::mojang::artifact_path;
use slintlauncher::minecraft::manifest::{
    maven_to_path, rules_allow, Downloads, Library, OsRule, Rule, VersionDetail,
};
use slintlauncher::minecraft::launch::{build_command, LaunchSpec, Settings};
use slintlauncher::ely;
use slintlauncher::platform::{Host, TargetArch, TargetOs};

fn linux() -> Host {
    Host { os: TargetOs::Linux, arch: TargetArch::X86_64, pointer_width_64: true }
}

fn lib(name: &str) -> Library {
    Library { name: name.into(), downloads: None, rules: None, natives: None, extract: None, url: None }
}

fn detail(libraries: Vec<Library>) -> VersionDetail {
    VersionDetail {
        id: "1.21".into(),
        kind: "release".into(),
        main_class: "net.minecraft.client.main.Main".into(),
        libraries,
        downloads: Downloads { client: None, server: None },
        asset_index: None,
        assets: None,
        arguments: None,
        minecraft_arguments: None,
        java_version: None,
        inherits_from: None,
        logging: None,
    }
}

#[test]
fn a_library_path_is_on_the_classpath_once() {
    let paths = Paths::new("/game".into(), '/');
    let d = detail(vec![lib("com.example:lib:1.0"), lib("org.other:x:2"), lib("com.example:lib:1.0")]);
    let resolved = resolve_libraries(&paths, &d, &linux());
    assert_eq!(
        resolved.classpath,
        vec![
            "/game/libraries/com/example/lib/1.0/lib-1.0.jar".to_string(),
            "/game/libraries/org/other/x/2/x-2.jar".to_string(),
        ]
    );
    assert!(resolved.natives.is_empty());
}

#[test]
fn libraries_for_other_systems_are_left_out() {
    let paths = Paths::new("/game".into(), '/');
    let mut mac_only = lib("ca.weblite:java-objc-bridge:1.1");
    mac_only.rules = Some(vec![Rule {
        action: "allow".into(),
        os: Some(OsRule { name: Some("osx".into()), arch: None, version: None }),
        features: None,
    }]);
    let d = detail(vec![mac_only, lib("a:b:1")]);
    let resolved = resolve_libraries(&paths, &d, &linux());
    assert_eq!(resolved.classpath, vec!["/game/libraries/a/b/1/b-1.jar".to_string()]);
    assert!(rules_allow(&None, &Vec::new(), &linux()));
    assert!(rules_allow(&Some(Vec::new()), &Vec::new(), &linux()));
}

#[test]
fn maven_coordinates_become_paths() {
    assert_eq!(maven_to_path("org.lwjgl:lwjgl:3.3.3"), Some("org/lwjgl/lwjgl/3.3.3/lwjgl-3.3.3.jar".to_string()));
    assert_eq!(maven_to_path("a:b:1:natives-linux"), Some("a/b/1/b-1-natives-linux.jar".to_string()));
}

fn ely_account() -> ely::Account {
    ely::Account {
        id: "0123456789abcdef0123456789abcdef".into(),
        username: "Steve".into(),
        uuid: "01234567-89ab-cdef-0123-456789abcdef".into(),
        kind: "ely".into(),
        access_token: "at".into(),
        client_token: "ct".into(),
        skin_url: String::new(),
    }
}

#[test]
fn an_ely_launch_gets_the_agent_and_the_window_size() {
    let paths = Paths::new("/g".into(), '/');
    let mut d = detail(Vec::new());
    d.id = "1.8.9".into();
    d.minecraft_arguments = Some("--username ${auth_player_name} --uuid ${auth_uuid}".into());
    let account = ely_account();
    let settings = Settings {
        java_path: String::new(),
        max_memory: 4096,
        jvm_args: "-Xss1M".into(),
        fullscreen: false,
        window_width: 1280,
        window_height: 720,
    };
    let spec = LaunchSpec {
        paths: &paths,
        detail: &d,
        instance_dir: "/g/instances/one".into(),
        account: &account,
        settings: &settings,
        authlib_injector: Some("/g/libraries/authlib-injector/authlib-injector-1.2.8.jar".into()),
    };
    let cmd = build_command(&spec, Some("/usr/bin/java".into()), &Vec::new(), &linux(), "0.1.0").unwrap();
    assert_eq!(cmd.program, "/usr/bin/java");
    assert_eq!(cmd.cwd, "/g/instances/one");
    let expected: Vec<String> = [
        "-javaagent:/g/libraries/authlib-injector/authlib-injector-1.2.8.jar=ely.by",
        "-Dauthlibinjector.side=client",
        "-Dauthlibinjector.noShowServerName",
        "-Xmx4096M",
        "-Xms1024M",
        "-Xss1M",
        "-Djava.library.path=/g/versions/1.8.9/natives",
        "-cp",
        "/g/versions/1.8.9/1.8.9.jar",
        "net.minecraft.client.main.Main",
        "--username",
        "Steve",
        "--uuid",
        "0123456789abcdef0123456789abcdef",
        "--width",
        "1280",
        "--height",
        "720",
    ]
    .iter()
    .map(|s| s.to_string())
    .collect();
    assert_eq!(cmd.args, expected);
}

#[test]
fn an_ely_launch_needs_java_and_the_agent() {
    let paths = Paths::new("/g".into(), '/');
    let d = detail(Vec::new());
    let account = ely_account();
    let settings = Settings { java_path: String::new(), max_memory: 100, jvm_args: String::new(), fullscreen: true, window_width: 1, window_height: 1 };
    let without_agent = LaunchSpec {
        paths: &paths,
        detail: &d,
        instance_dir: "/g/i".into(),
        account: &account,
        settings: &settings,
        authlib_injector: None,
    };
    assert_eq!(
        build_command(&without_agent, Some("java".into()), &Vec::new(), &linux(), "0.1.0").unwrap_err(),
        "authlib-injector is required for Ely.by accounts but is missing"
    );
    assert_eq!(
        build_command(&without_agent, None, &Vec::new(), &linux(), "0.1.0").unwrap_err(),
        "Java не найдена. Укажите путь в настройках. / Java not found — set the path in settings."
    );
}

#[test]
fn launcher_and_core_library_paths_agree() {
    for name in ["org.lwjgl:lwjgl:3.3.3", "a.b:c:1:natives-linux"] {
        assert_eq!(maven_to_path(name), Some(artifact_path(name, None)));
    }
    assert_eq!(
        artifact_path("org.lwjgl:lwjgl:3.3.3", Some("natives-linux")),
        artifact_path("org.lwjgl:lwjgl:3.3.3:natives-linux", None)
    );
}

#[test]
fn downloads_report_every_eighth_file() {
    assert_eq!(download_start_status(20), "Загрузка файлов: 0/20");
    assert_eq!(download_status(3, 20), None);
    assert_eq!(download_status(8, 20), Some("Загрузка файлов / Downloading: 8/20".to_string()));
    assert_eq!(download_status(20, 20), Some("Загрузка файлов / Downloading: 20/20".to_string()));
}
