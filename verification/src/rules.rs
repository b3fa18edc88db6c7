use vstd::prelude::*;

use crate::platform::{spec_current_arch, spec_current_os, Host, TargetArch, TargetOs};
use crate::text;

verus! {

/// The operating-system condition of a rule.
#[derive(Debug, Clone, Default)]
pub struct OsRule {
    pub name: Option<String>,
    pub arch: Option<String>,
    pub version: Option<String>,
}

/// The feature conditions of a rule.
#[derive(Debug, Clone, Copy, Default)]
pub struct FeatureRule {
    pub is_demo_user: Option<bool>,
    pub has_custom_resolution: Option<bool>,
    pub has_quick_plays_support: Option<bool>,
    pub is_quick_play_singleplayer: Option<bool>,
    pub is_quick_play_multiplayer: Option<bool>,
    pub is_quick_play_realms: Option<bool>,
}

/// One `allow`/`disallow` entry of a Mojang rule list.
#[derive(Debug, Clone, Default)]
pub struct Rule {
    pub action: String,
    pub os: Option<OsRule>,
    pub features: Option<FeatureRule>,
}

/// The launch features the launcher offers.
#[derive(Debug, Clone, Copy, Default)]
pub struct Features {
    pub demo: bool,
    pub custom_resolution: bool,
}

/// Mojang's name for the host operating system.
pub fn current_os(host: &Host) -> (res: &'static str)
    ensures
        res@ == spec_current_os(*host),
{
    match host.os {
        TargetOs::Windows => "windows",
        TargetOs::MacOs => "osx",
        TargetOs::Linux => "linux",
    }
}

/// Mojang's name for the host architecture.
pub fn current_arch(host: &Host) -> (res: &'static str)
    ensures
        res@ == spec_current_arch(*host),
{
    match host.arch {
        TargetArch::X86_64 => "x86_64",
        TargetArch::X86 => "x86",
        TargetArch::Aarch64 => "arm64",
        TargetArch::Other => "unknown",
    }
}

/// An architecture named by a rule fits ours: the same name, or `x64` for `x86_64`.
pub open spec fn arch_fits(arch: Seq<char>, ours: Seq<char>) -> bool {
    ||| arch == ours
    ||| (arch == "x86"@ && ours == "x86"@)
    ||| (arch == "x64"@ && ours == "x86_64"@)
}

/// The operating-system part of a rule holds on this host.
pub open spec fn os_fits(os: OsRule, host: Host) -> bool {
    &&& (os.name matches Some(n) ==> n@ == spec_current_os(host))
    &&& (os.arch matches Some(a) ==> arch_fits(a@, spec_current_arch(host)))
}

/// A feature condition holds: it is absent, or it equals the actual value.
pub open spec fn spec_feature_ok(expected: Option<bool>, actual: bool) -> bool {
    match expected {
        Some(v) => v == actual,
        None => true,
    }
}

/// The feature part of a rule holds: demo and custom-resolution conditions
/// equal the offered features, and no quick-play feature is required.
pub open spec fn features_fit(f: FeatureRule, features: Features) -> bool {
    &&& spec_feature_ok(f.is_demo_user, features.demo)
    &&& spec_feature_ok(f.has_custom_resolution, features.custom_resolution)
    &&& f.has_quick_plays_support != Some(true)
    &&& f.is_quick_play_singleplayer != Some(true)
    &&& f.is_quick_play_multiplayer != Some(true)
    &&& f.is_quick_play_realms != Some(true)
}

/// A rule applies on this host with these features.
pub open spec fn spec_rule_matches(rule: Rule, features: Features, host: Host) -> bool {
    &&& (rule.os matches Some(os) ==> os_fits(os, host))
    &&& (rule.features matches Some(f) ==> features_fit(f, features))
}

/// The action of the last applying rule is `allow`; `false` when no rule applies.
pub open spec fn last_applying_allows(rules: Seq<Rule>, features: Features, host: Host) -> bool
    decreases rules.len(),
{
    if rules.len() == 0 {
        false
    } else if spec_rule_matches(rules.last(), features, host) {
        rules.last().action@ == "allow"@
    } else {
        last_applying_allows(rules.drop_last(), features, host)
    }
}

/// An empty rule list allows; otherwise the last applying rule decides.
pub open spec fn spec_rules_allow(rules: Seq<Rule>, features: Features, host: Host) -> bool {
    rules.len() == 0 || last_applying_allows(rules, features, host)
}

/// Evaluates a rule list on this host.
pub fn rules_allow(rules: &[Rule], features: &Features, host: &Host) -> (res: bool)
    ensures
        res == spec_rules_allow(rules@, *features, *host),
{
    if rules.len() == 0 {
        return true;
    }
    let mut allow = false;
    let n = rules.len();
    let mut i: usize = 0;
    while i < n
        invariant
            n == rules@.len(),
            i <= n,
            allow == last_applying_allows(rules@.take(i as int), *features, *host),
        decreases n - i,
    {
        let rule = &rules[i];
        assert(rules@.take(i as int + 1).drop_last() =~= rules@.take(i as int));
        if rule_matches(rule, features, host) {
            allow = text::eq(rule.action.as_str(), "allow");
        }
        i = i + 1;
    }
    assert(rules@.take(n as int) =~= rules@);
    allow
}

fn rule_matches(rule: &Rule, features: &Features, host: &Host) -> (res: bool)
    ensures
        res == spec_rule_matches(*rule, *features, *host),
{
    if let Some(os) = &rule.os {
        if let Some(name) = &os.name {
            if !text::eq(name.as_str(), current_os(host)) {
                return false;
            }
        }
        if let Some(arch) = &os.arch {
            let ours = current_arch(host);
            let ok = text::eq(arch.as_str(), ours) || (text::eq(arch.as_str(), "x86")
                && text::eq(ours, "x86")) || (text::eq(arch.as_str(), "x64") && text::eq(
                ours,
                "x86_64",
            ));
            if !ok {
                return false;
            }
        }
    }
    if let Some(feat) = &rule.features {
        if !feature_ok(feat.is_demo_user, features.demo) {
            return false;
        }
        if !feature_ok(feat.has_custom_resolution, features.custom_resolution) {
            return false;
        }
        if feat.has_quick_plays_support == Some(true) || feat.is_quick_play_singleplayer == Some(
            true,
        ) || feat.is_quick_play_multiplayer == Some(true) || feat.is_quick_play_realms == Some(
            true,
        ) {
            return false;
        }
    }
    true
}

fn feature_ok(expected: Option<bool>, actual: bool) -> (res: bool)
    ensures
        res == spec_feature_ok(expected, actual),
{
    match expected {
        Some(value) => value == actual,
        None => true,
    }
}

/// An empty rule list allows, whatever the host and features.
pub proof fn law_empty_rules_allow(features: Features, host: Host)
    ensures
        spec_rules_allow(Seq::empty(), features, host),
{
}

/// A rule that applies, appended to a list, decides alone: the list allows
/// exactly when that rule's action is `allow`.
pub proof fn law_last_applying_rule_decides(rules: Seq<Rule>, rule: Rule, features: Features, host: Host)
    requires
        spec_rule_matches(rule, features, host),
    ensures
        spec_rules_allow(rules.push(rule), features, host) == (rule.action@ == "allow"@),
{
    assert(rules.push(rule).last() == rule);
}

/// A rule that does not apply, appended to a non-empty list, changes nothing;
/// alone in a list it makes the list disallow.
pub proof fn law_rule_that_does_not_apply_is_ignored(
    rules: Seq<Rule>,
    rule: Rule,
    features: Features,
    host: Host,
)
    requires
        !spec_rule_matches(rule, features, host),
    ensures
        rules.len() > 0 ==> spec_rules_allow(rules.push(rule), features, host) == spec_rules_allow(
            rules,
            features,
            host,
        ),
        !spec_rules_allow(seq![rule], features, host),
{
    assert(rules.push(rule).drop_last() =~= rules);
    assert(seq![rule].drop_last() =~= Seq::<Rule>::empty());
    assert(seq![rule].last() == rule);
    assert(!last_applying_allows(seq![rule].drop_last(), features, host));
}

/// A rule applies only where each of its conditions holds: a named operating
/// system is the host's, a named architecture fits the host's, a demo or
/// custom-resolution condition equals what the launch offers, and no
/// quick-play feature is asked for. A rule without conditions always applies.
pub proof fn law_rule_conditions_must_hold(rule: Rule, features: Features, host: Host)
    ensures
        spec_rule_matches(rule, features, host) ==> (rule.os matches Some(os) ==> (os.name matches Some(
            n,
        ) ==> n@ == spec_current_os(host))),
        spec_rule_matches(rule, features, host) ==> (rule.os matches Some(os) ==> (os.arch matches Some(
            a,
        ) ==> (a@ == spec_current_arch(host) || (a@ == "x64"@ && spec_current_arch(host)
            == "x86_64"@)))),
        spec_rule_matches(rule, features, host) ==> (rule.features matches Some(f) ==> (
        f.is_demo_user matches Some(v) ==> v == features.demo)),
        spec_rule_matches(rule, features, host) ==> (rule.features matches Some(f) ==> (
        f.has_custom_resolution matches Some(v) ==> v == features.custom_resolution)),
        spec_rule_matches(rule, features, host) ==> (rule.features matches Some(f) ==> (
        f.has_quick_plays_support != Some(true) && f.is_quick_play_singleplayer != Some(true)
            && f.is_quick_play_multiplayer != Some(true) && f.is_quick_play_realms != Some(true))),
        rule.os is None && rule.features is None ==> spec_rule_matches(rule, features, host),
{
}

/// A rule applies wherever each of its conditions holds: the named operating
/// system is the host's, the named architecture is the host's (or `x64` on
/// `x86_64`), the demo and custom-resolution conditions equal what the launch
/// offers, and no quick-play feature is asked for.
pub proof fn law_rule_applies_when_conditions_hold(rule: Rule, features: Features, host: Host)
    requires
        rule.os matches Some(os) ==> (os.name matches Some(n) ==> n@ == spec_current_os(host)),
        rule.os matches Some(os) ==> (os.arch matches Some(a) ==> (a@ == spec_current_arch(host) || (
        a@ == "x64"@ && spec_current_arch(host) == "x86_64"@))),
        rule.features matches Some(f) ==> (f.is_demo_user matches Some(v) ==> v == features.demo),
        rule.features matches Some(f) ==> (f.has_custom_resolution matches Some(v) ==> v
            == features.custom_resolution),
        rule.features matches Some(f) ==> (f.has_quick_plays_support != Some(true)
            && f.is_quick_play_singleplayer != Some(true) && f.is_quick_play_multiplayer != Some(true)
            && f.is_quick_play_realms != Some(true)),
    ensures
        spec_rule_matches(rule, features, host),
{
}

/// A list whose only rule allows a demo user does not allow a launch that is
/// not a demo, and does allow one that is, where nothing else is asked.
pub proof fn law_demo_rule_needs_demo(rule: Rule, features: Features, host: Host)
    requires
        rule.action@ == "allow"@,
        rule.os is None,
        rule.features matches Some(f) && f.is_demo_user == Some(true)
            && f.has_custom_resolution is None && f.has_quick_plays_support is None
            && f.is_quick_play_singleplayer is None && f.is_quick_play_multiplayer is None
            && f.is_quick_play_realms is None,
    ensures
        spec_rules_allow(seq![rule], features, host) == features.demo,
{
    assert(seq![rule].last() == rule);
    assert(seq![rule].drop_last() =~= Seq::<Rule>::empty());
    assert(!last_applying_allows(Seq::<Rule>::empty(), features, host));
}

} // verus!
