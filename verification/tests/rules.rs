use slintlauncher::platform::{Host, TargetArch, TargetOs};
use slintlauncher::rules::{current_arch, current_os, rules_allow, FeatureRule, Features, OsRule, Rule};

fn linux() -> Host {
    Host { os: TargetOs::Linux, arch: TargetArch::X86_64, pointer_width_64: true }
}

fn windows() -> Host {
    Host { os: TargetOs::Windows, arch: TargetArch::X86_64, pointer_width_64: true }
}

fn allow() -> Rule {
    Rule { action: "allow".into(), ..Default::default() }
}

fn on_os(action: &str, os: &str) -> Rule {
    Rule {
        action: action.into(),
        os: Some(OsRule { name: Some(os.into()), ..Default::default() }),
        ..Default::default()
    }
}

#[test]
fn empty_rules_allow() {
    assert!(rules_allow(&[], &Features::default(), &linux()));
}

#[test]
fn linux_disallow_windows() {
    let rules = vec![
        Rule { action: "allow".into(), ..Default::default() },
        Rule {
            action: "disallow".into(),
            os: Some(OsRule { name: Some("windows".into()), ..Default::default() }),
            ..Default::default()
        },
    ];
    let host = linux();
    if current_os(&host) == "linux" {
        assert!(rules_allow(&rules, &Features::default(), &host));
    }
}

#[test]
fn last_applying_rule_decides_on_windows() {
    let rules = vec![allow(), on_os("disallow", "windows")];
    assert!(!rules_allow(&rules, &Features::default(), &windows()));
}

#[test]
fn rule_that_does_not_apply_alone_disallows() {
    let rules = vec![on_os("allow", "osx")];
    assert!(!rules_allow(&rules, &Features::default(), &linux()));
    let host = Host { os: TargetOs::MacOs, arch: TargetArch::Aarch64, pointer_width_64: true };
    assert!(rules_allow(&rules, &Features::default(), &host));
}

#[test]
fn x64_names_the_x86_64_architecture() {
    let rule = Rule {
        action: "allow".into(),
        os: Some(OsRule { arch: Some("x64".into()), ..Default::default() }),
        ..Default::default()
    };
    assert!(rules_allow(&[rule.clone()], &Features::default(), &linux()));
    let host = Host { os: TargetOs::Linux, arch: TargetArch::Aarch64, pointer_width_64: true };
    assert!(!rules_allow(&[rule], &Features::default(), &host));
    assert_eq!(current_arch(&host), "arm64");
}

#[test]
fn feature_rules_follow_the_offered_features() {
    let rule = Rule {
        action: "allow".into(),
        features: Some(FeatureRule { has_custom_resolution: Some(true), ..Default::default() }),
        ..Default::default()
    };
    let none = Features::default();
    let custom = Features { demo: false, custom_resolution: true };
    assert!(!rules_allow(&[rule.clone()], &none, &linux()));
    assert!(rules_allow(&[rule], &custom, &linux()));
    let quick = Rule {
        action: "allow".into(),
        features: Some(FeatureRule { is_quick_play_realms: Some(true), ..Default::default() }),
        ..Default::default()
    };
    assert!(!rules_allow(&[quick], &custom, &linux()));
}
