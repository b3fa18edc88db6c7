use slintlauncher::install::{
    check_artifact_bytes, checksum_verdict, file_check, hash_matches, native_entry_wanted, progress_after,
    rsplit_last, sha1_hex, FileCheck,
};
use slintlauncher::java::{describe_output, first_line, major_from_output, parse_major, resolve_java};
use slintlauncher::install::{
    classpath, client_progress_begin, install_steps, library_jobs, progress_begin, progress_done, InstallStep,
};
use slintlauncher::launch::instance_dirs;
use slintlauncher::mojang::{artifact_path, Artifact, Library, LibraryDownloads, VersionMeta};
use slintlauncher::paths::DataDir;
use slintlauncher::platform::{Host, TargetArch, TargetOs};
use slintlauncher::error::Error;
use slintlauncher::config::{offline_uuid, Account, Instance};

#[test]
fn digests_are_the_standard_ones() {
    assert_eq!(sha1_hex(b"abc"), "a9993e364706816aba3e25717850c26c9cd0d89d");
    assert_eq!(sha1_hex(b""), "da39a3ee5e6b4b0d3255bfef95601890afd80709");
    assert_eq!(offline_uuid("Steve"), "5627dd98-e6be-3c21-b8a8-e92344183641");
    assert!(hash_matches(b"abc", "a9993e364706816aba3e25717850c26c9cd0d89d"));
    assert!(!hash_matches(b"abd", "a9993e364706816aba3e25717850c26c9cd0d89d"));
}

#[test]
fn fresh_uuids_are_version_four() {
    let a = Account::offline("Steve").id;
    let b = Instance::vanilla("A", "1.21").id;
    assert_eq!(a.len(), 36);
    assert_eq!(&a[14..15], "4");
    assert_eq!(&b[14..15], "4");
    assert_eq!(a.matches('-').count(), 4);
    assert_ne!(a, b);
}

#[test]
fn downloaded_bytes_are_checked() {
    assert!(check_artifact_bytes(None, b"x", "/f").is_ok());
    assert!(check_artifact_bytes(Some(""), b"x", "/f").is_ok());
    assert!(check_artifact_bytes(Some("a9993e364706816aba3e25717850c26c9cd0d89d"), b"abc", "/f").is_ok());
    assert!(matches!(check_artifact_bytes(Some("00"), b"abc", "/f"), Err(Error::Checksum { path }) if path == "/f"));
    assert!(checksum_verdict(None, "ab", "/f").is_ok());
    assert!(checksum_verdict(Some("ab"), "ab", "/f").is_ok());
    assert!(matches!(checksum_verdict(Some("ab"), "AB", "/g"), Err(Error::Checksum { path }) if path == "/g"));
}

#[test]
fn files_on_disk_are_judged() {
    assert!(matches!(file_check(10, None, Some(11)), FileCheck::Stale));
    assert!(matches!(file_check(0, None, None), FileCheck::Stale));
    assert!(matches!(file_check(10, None, Some(0)), FileCheck::Fresh));
    assert!(matches!(file_check(10, Some("ab"), Some(10)), FileCheck::HashAgainst(h) if h == "ab"));
}

#[test]
fn progress_is_reported_every_eighth_file() {
    assert!(progress_after("Библиотеки", 3, 10).is_none());
    let p = progress_after("Библиотеки", 8, 10).unwrap();
    assert_eq!(p.detail, "8 / 10");
    assert_eq!(progress_after("x", 10, 10).unwrap().detail, "10 / 10");
}

#[test]
fn native_archive_entries_are_filtered() {
    let exclude = vec!["META-INF/".to_string(), "tmp/".to_string()];
    assert_eq!(native_entry_wanted("lwjgl.dll", &exclude), Some("lwjgl.dll".to_string()));
    assert_eq!(native_entry_wanted("sub\\lib.so", &exclude), Some("sub/lib.so".to_string()));
    assert_eq!(native_entry_wanted("META-INF/MANIFEST.MF", &exclude), None);
    assert_eq!(native_entry_wanted("tmp/x.so", &exclude), None);
    assert_eq!(native_entry_wanted("dir/", &exclude), None);
}

#[test]
fn maven_names_become_paths() {
    assert_eq!(artifact_path("org.lwjgl:lwjgl:3.3.3", None), "org/lwjgl/lwjgl/3.3.3/lwjgl-3.3.3.jar");
    assert_eq!(artifact_path("org.lwjgl:lwjgl:3.3.3", Some("natives-linux")), "org/lwjgl/lwjgl/3.3.3/lwjgl-3.3.3-natives-linux.jar");
    assert_eq!(artifact_path("a:b:1:c", None), "a/b/1/b-1-c.jar");
    assert_eq!(artifact_path("odd", None), "odd.jar");
    assert_eq!(rsplit_last("https://x/y/client-1.12.xml"), "client-1.12.xml");
}

#[test]
fn java_versions_are_read() {
    assert_eq!(parse_major("openjdk version \"17.0.8\" 2023-07-18"), Some(17));
    assert_eq!(parse_major("java version \"1.8.0_381\""), Some(8));
    assert_eq!(parse_major("no quotes"), None);
    assert_eq!(major_from_output("", "openjdk version \"21\""), Some(21));
    assert_eq!(first_line("a\r\nb"), Some("a".to_string()));
    assert_eq!(first_line(""), None);
    assert_eq!(describe_output("", " openjdk 21 \nmore"), "openjdk 21");
    assert_eq!(describe_output("", ""), "Java");
}

#[test]
fn the_first_existing_java_is_used() {
    let c = vec!["/a/java".to_string(), "/b/java".to_string()];
    assert_eq!(resolve_java(&c, &vec![false, true]).unwrap(), "/b/java");
    assert!(matches!(resolve_java(&c, &vec![false, false]), Err(Error::JavaMissing)));
}

#[test]
fn every_classpath_jar_is_downloaded() {
    let host = Host { os: TargetOs::Linux, arch: TargetArch::X86_64, pointer_width_64: true };
    let d = DataDir::new("/d".into(), &host);
    let with_artifact = Library {
        name: "com.mojang:brigadier:1.2.9".into(),
        downloads: Some(LibraryDownloads {
            artifact: Some(Artifact {
                path: Some("com/mojang/brigadier/1.2.9/brigadier-1.2.9.jar".into()),
                sha1: Some("73e324f2ee541493a5179abf367237faa782ed21".into()),
                size: Some(79955),
                url: Some("https://libraries.minecraft.net/com/mojang/brigadier/1.2.9/brigadier-1.2.9.jar".into()),
            }),
            classifiers: None,
        }),
        rules: Vec::new(),
        natives: None,
        extract: None,
        url: None,
    };
    let plain = Library {
        name: "net.fabricmc:fabric-loader:0.16.0".into(),
        downloads: None,
        rules: Vec::new(),
        natives: None,
        extract: None,
        url: Some("https://maven.fabricmc.net/".into()),
    };
    let meta = VersionMeta {
        id: "fabric".into(),
        kind: "release".into(),
        main_class: String::new(),
        arguments: None,
        minecraft_arguments: None,
        libraries: vec![with_artifact, plain],
        downloads: None,
        asset_index: None,
        assets: None,
        java_version: None,
        inherits_from: None,
        logging: None,
    };
    let cp = classpath(&meta, &d, &host, false);
    assert_eq!(
        cp,
        "/d/minecraft/libraries/com/mojang/brigadier/1.2.9/brigadier-1.2.9.jar:/d/minecraft/libraries/net/fabricmc/fabric-loader/0.16.0/fabric-loader-0.16.0.jar"
    );
    let jobs = library_jobs(&meta, &d, &host);
    assert_eq!(jobs.len(), 2);
    for entry in cp.split(':') {
        assert!(jobs.iter().any(|j| j.dest == entry));
    }
    assert_eq!(jobs[1].url, "https://maven.fabricmc.net/net/fabricmc/fabric-loader/0.16.0/fabric-loader-0.16.0.jar");
    assert_eq!(jobs[0].size, 79955);
}

#[test]
fn stages_open_and_close_their_progress() {
    let p = progress_begin("Ресурсы", 12);
    assert_eq!((p.stage.as_str(), p.current, p.total, p.detail.as_str()), ("Ресурсы", 0, 12, "0 / 12"));
    let p = progress_done("Ресурсы", 12);
    assert_eq!((p.current, p.total, p.detail.as_str()), (12, 12, "готово"));
    let p = client_progress_begin("1.21");
    assert_eq!((p.stage.as_str(), p.current, p.total, p.detail.as_str()), ("Клиент", 0, 1, "1.21.jar"));
}

#[test]
fn instances_get_their_folders() {
    assert_eq!(
        instance_dirs("/d/instances/a/minecraft", '/'),
        vec![
            "/d/instances/a/minecraft/saves",
            "/d/instances/a/minecraft/mods",
            "/d/instances/a/minecraft/resourcepacks",
            "/d/instances/a/minecraft/shaderpacks",
            "/d/instances/a/minecraft/screenshots",
            "/d/instances/a/minecraft/logs",
        ]
    );
}

#[test]
fn a_version_is_installed_in_stages() {
    let mut meta = VersionMeta {
        id: "v".into(),
        kind: "release".into(),
        main_class: String::new(),
        arguments: None,
        minecraft_arguments: None,
        libraries: Vec::new(),
        downloads: None,
        asset_index: None,
        assets: None,
        java_version: None,
        inherits_from: None,
        logging: None,
    };
    assert_eq!(install_steps(&meta), vec![InstallStep::Libraries]);
    meta.downloads = Some(slintlauncher::mojang::Downloads {
        client: Some(Artifact { path: None, sha1: None, size: None, url: Some("u".into()) }),
    });
    meta.asset_index = Some(slintlauncher::mojang::AssetIndexInfo {
        id: "17".into(),
        sha1: String::new(),
        size: 0,
        total_size: 0,
        url: "u".into(),
    });
    assert_eq!(install_steps(&meta), vec![InstallStep::Client, InstallStep::Libraries, InstallStep::Assets]);
}
