use slintlauncher::platform::{Host, TargetArch, TargetOs};
use slintlauncher::text::replace;
use slintlauncher::util::{
    after_failed_attempt, classpath_separator, download_checksum, file_ok, sanitize_folder_name, wants_hash,
};

#[test]
fn folder_names_are_made_safe() {
    assert_eq!(sanitize_folder_name("My World"), "My World");
    assert_eq!(sanitize_folder_name("a/b:c"), "a_b_c");
    assert_eq!(sanitize_folder_name("  ..hidden.. "), "hidden");
    assert_eq!(sanitize_folder_name("..."), "instance");
    assert_eq!(sanitize_folder_name(""), "instance");
    assert_eq!(sanitize_folder_name("Мир-1_v.2"), "Мир-1_v.2");
    assert_eq!(sanitize_folder_name(" a ."), "a ");
    assert_eq!(sanitize_folder_name("..My/World:1.."), "My_World_1");
}

#[test]
fn downloaded_files_are_checked_against_their_sum() {
    assert!(download_checksum("u", None, "ab").is_ok());
    assert!(download_checksum("u", Some(""), "ab").is_ok());
    assert!(download_checksum("u", Some("AB"), "ab").is_ok());
    assert_eq!(download_checksum("http://x/y", Some("cd"), "ab").unwrap_err(), "checksum mismatch for http://x/y: ab != cd");
}

#[test]
fn replace_with_an_empty_pattern_fills_every_gap() {
    assert_eq!(replace("ab", "", "-"), "-a-b-");
    assert_eq!(replace("", "", "-"), "-");
    assert_eq!(replace("a.b.c", ".", "/"), "a/b/c");
}

#[test]
fn files_are_checked_by_size_and_hash() {
    assert!(!file_ok(false, 10, None, None, None));
    assert!(file_ok(true, 10, None, None, None));
    assert!(!file_ok(true, 10, None, Some(11), None));
    assert!(file_ok(true, 10, Some(""), Some(10), None));
    assert!(file_ok(true, 10, Some("ABCDEF"), None, Some("abcdef")));
    assert!(!file_ok(true, 10, Some("abcdef"), None, Some("abcde0")));
    assert!(!file_ok(true, 10, Some("abcdef"), None, None));
    assert!(wants_hash(Some("a")));
    assert!(!wants_hash(Some("")));
    assert!(!wants_hash(None));
}

#[test]
fn downloads_are_retried_with_growing_pauses() {
    assert_eq!(after_failed_attempt(0), (400, true));
    assert_eq!(after_failed_attempt(1), (800, true));
    assert_eq!(after_failed_attempt(2), (1200, false));
}

#[test]
fn classpath_separator_follows_the_os() {
    let win = Host { os: TargetOs::Windows, arch: TargetArch::X86_64, pointer_width_64: true };
    let lin = Host { os: TargetOs::Linux, arch: TargetArch::X86_64, pointer_width_64: true };
    assert_eq!(classpath_separator(&win), ";");
    assert_eq!(classpath_separator(&lin), ":");
}
