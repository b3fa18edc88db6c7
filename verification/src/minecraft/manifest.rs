use vstd::prelude::*;

use crate::mojang::{find_key, lookup, spec_artifact_path};
use crate::platform::{spec_current_arch, spec_current_os, Host, TargetArch, TargetOs};
use crate::text::{self, first_index_of, spec_replace, spec_split, views};

verus! {

/// Where the version list is read from.
pub const VERSION_MANIFEST: &'static str = "https://launchermeta.mojang.com/mc/game/version_manifest_v2.json";

/// Where asset objects are downloaded from.
pub const RESOURCES_BASE: &'static str = "https://resources.download.minecraft.net";

/// One entry of Mojang's version list.
#[derive(Debug, Clone)]
pub struct ManifestEntry {
    pub id: String,
    pub kind: String,
    pub url: String,
    pub release_time: String,
    pub sha1: String,
}

/// Mojang's version list.
#[derive(Debug, Clone)]
pub struct VersionManifest {
    pub latest: Latest,
    pub versions: Vec<ManifestEntry>,
}

/// The newest release and snapshot.
#[derive(Debug, Clone)]
pub struct Latest {
    pub release: String,
    pub snapshot: String,
}

/// A downloadable file.
#[derive(Debug, Clone)]
pub struct Artifact {
    pub path: Option<String>,
    pub sha1: String,
    pub size: u64,
    pub url: String,
}

/// Where a library's files come from.
#[derive(Debug, Clone)]
pub struct LibraryDownloads {
    pub artifact: Option<Artifact>,
    /// Classifier to artifact.
    pub classifiers: Vec<(String, Artifact)>,
}

/// The operating-system condition of a rule.
#[derive(Debug, Clone)]
pub struct OsRule {
    pub name: Option<String>,
    pub arch: Option<String>,
    pub version: Option<String>,
}

/// One `allow`/`disallow` entry of a rule list.
#[derive(Debug, Clone)]
pub struct Rule {
    pub action: String,
    pub os: Option<OsRule>,
    /// Feature name to the value it must have.
    pub features: Option<Vec<(String, bool)>>,
}

/// A library of a version.
#[derive(Debug, Clone)]
pub struct Library {
    pub name: String,
    pub downloads: Option<LibraryDownloads>,
    pub rules: Option<Vec<Rule>>,
    /// Operating system name to native classifier template.
    pub natives: Option<Vec<(String, String)>>,
    pub extract: Option<Extract>,
    /// Base URL of a library that has no `downloads` block.
    pub url: Option<String>,
}

/// Paths to leave out when unpacking natives.
#[derive(Debug, Clone)]
pub struct Extract {
    pub exclude: Vec<String>,
}

/// The asset index a version uses.
#[derive(Debug, Clone)]
pub struct AssetIndexRef {
    pub id: String,
    pub sha1: String,
    pub size: u64,
    pub total_size: u64,
    pub url: String,
}

/// The client and server downloads of a version.
#[derive(Debug, Clone)]
pub struct Downloads {
    pub client: Option<Artifact>,
    pub server: Option<Artifact>,
}

/// The Java version a version asks for.
#[derive(Debug, Clone)]
pub struct JavaVersion {
    pub component: String,
    pub major_version: u32,
}

/// One element of an argument list.
#[derive(Debug, Clone)]
pub enum ArgItem {
    /// A plain string.
    Text(String),
    /// An object with an optional rule list (`None` when absent or unreadable)
    /// and a value.
    Conditional { rules: Option<Vec<Rule>>, value: crate::mojang::ArgValue },
    /// Anything else.
    Other,
}

/// A version's argument lists.
#[derive(Debug, Clone)]
pub struct Arguments {
    pub game: Vec<ArgItem>,
    pub jvm: Vec<ArgItem>,
}

/// A version's metadata.
#[derive(Debug, Clone)]
pub struct VersionDetail {
    pub id: String,
    pub kind: String,
    pub main_class: String,
    pub libraries: Vec<Library>,
    pub downloads: Downloads,
    pub asset_index: Option<AssetIndexRef>,
    pub assets: Option<String>,
    pub arguments: Option<Arguments>,
    pub minecraft_arguments: Option<String>,
    pub java_version: Option<JavaVersion>,
    pub inherits_from: Option<String>,
    /// The version's `logging` object, kept as JSON text.
    pub logging: Option<String>,
}

/// One asset object.
#[derive(Debug, Clone)]
pub struct AssetObject {
    pub hash: String,
    pub size: u64,
}

/// An asset index: asset name to object.
#[derive(Debug, Clone)]
pub struct AssetIndex {
    pub objects: Vec<(String, AssetObject)>,
    pub map_to_resources: bool,
    pub is_virtual: bool,
}

/// Mojang's name for the host operating system.
pub fn current_os(host: &Host) -> (res: &'static str)
    ensures
        res@ == spec_current_os(*host),
{
    match host.os {
        TargetOs::Windows => "windows",
        TargetOs::MacOs => "osx",
        TargetOs::Linux => "linux",
    }
}

/// Mojang's name for the host architecture.
pub fn current_arch(host: &Host) -> (res: &'static str)
    ensures
        res@ == spec_current_arch(*host),
{
    match host.arch {
        TargetArch::X86_64 => "x86_64",
        TargetArch::Aarch64 => "arm64",
        TargetArch::X86 => "x86",
        TargetArch::Other => "unknown",
    }
}

/// The natives key of a library on this host: its template for the host's
/// operating system with `${arch}` as the pointer width (`64` or `32`).
pub open spec fn spec_natives_key(natives: Seq<(String, String)>, host: Host) -> Option<Seq<char>> {
    match lookup(natives, spec_current_os(host)) {
        Some(t) => Some(spec_replace(t@, "${arch}"@, if host.pointer_width_64 {
            "64"@
        } else {
            "32"@
        })),
        None => None,
    }
}

/// The natives key of a library on this host.
pub fn natives_key(natives: &Vec<(String, String)>, host: &Host) -> (res: Option<String>)
    ensures
        match res {
            Some(k) => spec_natives_key(natives@, *host) == Some(k@),
            None => spec_natives_key(natives@, *host) is None,
        },
{
    match find_key(natives, current_os(host)) {
        Some(i) => {
            proof {
                reveal_strlit("${arch}");
            }
            let width = if host.pointer_width_64 {
                "64"
            } else {
                "32"
            };
            Some(text::replace(natives[i].1.as_str(), "${arch}", width))
        },
        None => None,
    }
}

/// An architecture named by a rule fits the host's.
pub open spec fn arch_matches(arch: Seq<char>, ours: Seq<char>) -> bool {
    if arch == "x86"@ {
        ours == "x86"@
    } else if arch == "x86_64"@ || arch == "x64"@ {
        ours == "x86_64"@
    } else if arch == "arm64"@ || arch == "aarch64"@ {
        ours == "aarch64"@ || ours == "arm64"@
    } else {
        arch == ours
    }
}

/// The operating-system condition holds on this host (the version regex is
/// not checked).
pub open spec fn spec_os_matches(os: OsRule, host: Host) -> bool {
    &&& (os.name matches Some(n) ==> n@ == spec_current_os(host))
    &&& (os.arch matches Some(a) ==> arch_matches(a@, spec_current_arch(host)))
}

fn os_matches(os: &OsRule, host: &Host) -> (res: bool)
    ensures
        res == spec_os_matches(*os, *host),
{
    if let Some(name) = &os.name {
        if !text::eq(name.as_str(), current_os(host)) {
            return false;
        }
    }
    if let Some(arch) = &os.arch {
        let ours = current_arch(host);
        let a = arch.as_str();
        let ok = if text::eq(a, "x86") {
            text::eq(ours, "x86")
        } else if text::eq(a, "x86_64") || text::eq(a, "x64") {
            text::eq(ours, "x86_64")
        } else if text::eq(a, "arm64") || text::eq(a, "aarch64") {
            text::eq(ours, "aarch64") || text::eq(ours, "arm64")
        } else {
            text::eq(a, ours)
        };
        if !ok {
            return false;
        }
    }
    true
}

/// The value of a feature: the first entry with its name, else `false`.
pub open spec fn feature_value(features: Seq<(String, bool)>, key: Seq<char>) -> bool {
    match lookup(features, key) {
        Some(v) => v,
        None => false,
    }
}

/// Every required feature has the required value.
pub open spec fn features_hold(required: Seq<(String, bool)>, features: Seq<(String, bool)>) -> bool {
    forall|i: int|
        0 <= i < required.len() ==> feature_value(features, (#[trigger] required[i]).0@)
            == required[i].1
}

/// A rule applies on this host with these features.
pub open spec fn rule_applies(rule: Rule, features: Seq<(String, bool)>, host: Host) -> bool {
    &&& (rule.os matches Some(os) ==> spec_os_matches(os, host))
    &&& (rule.features matches Some(req) ==> features_hold(req@, features))
}

/// The action of the last applying rule is `allow`; `false` when none applies.
pub open spec fn last_allows(rules: Seq<Rule>, features: Seq<(String, bool)>, host: Host) -> bool
    decreases rules.len(),
{
    if rules.len() == 0 {
        false
    } else if rule_applies(rules.last(), features, host) {
        rules.last().action@ == "allow"@
    } else {
        last_allows(rules.drop_last(), features, host)
    }
}

/// No rule list, or an empty one, allows; otherwise the last applying rule decides.
pub open spec fn spec_rules_allow(rules: Option<Vec<Rule>>, features: Seq<(String, bool)>, host: Host) -> bool {
    match rules {
        None => true,
        Some(r) => r@.len() == 0 || last_allows(r@, features, host),
    }
}

fn feature_of(features: &Vec<(String, bool)>, key: &str) -> (res: bool)
    ensures
        res == feature_value(features@, key@),
{
    match find_key(features, key) {
        Some(i) => features[i].1,
        None => false,
    }
}

fn applies(rule: &Rule, features: &Vec<(String, bool)>, host: &Host) -> (res: bool)
    ensures
        res == rule_applies(*rule, features@, *host),
{
    let mut ok = true;
    if let Some(os) = &rule.os {
        ok = ok && os_matches(os, host);
    }
    if let Some(required) = &rule.features {
        let n = required.len();
        let mut i: usize = 0;
        let ghost ok0 = ok;
        while i < n
            invariant
                n == required@.len(),
                i <= n,
                ok == (ok0 && forall|k: int|
                    0 <= k < i ==> feature_value(features@, (#[trigger] required@[k]).0@)
                        == required@[k].1),
            decreases n - i,
        {
            let have = feature_of(features, required[i].0.as_str());
            ok = ok && have == required[i].1;
            i = i + 1;
        }
    }
    ok
}

/// Evaluates Mojang's allow/disallow rule list.
pub fn rules_allow(rules: &Option<Vec<Rule>>, features: &Vec<(String, bool)>, host: &Host) -> (res: bool)
    ensures
        res == spec_rules_allow(*rules, features@, *host),
{
    let rules = match rules {
        Some(r) => r,
        None => {
            return true;
        },
    };
    if rules.len() == 0 {
        return true;
    }
    let mut allowed = false;
    let n = rules.len();
    let mut i: usize = 0;
    while i < n
        invariant
            n == rules@.len(),
            i <= n,
            allowed == last_allows(rules@.take(i as int), features@, *host),
        decreases n - i,
    {
        assert(rules@.take(i as int + 1).drop_last() =~= rules@.take(i as int));
        if applies(&rules[i], features, host) {
            allowed = text::eq(rules[i].action.as_str(), "allow");
        }
        i = i + 1;
    }
    assert(rules@.take(n as int) =~= rules@);
    allowed
}

/// The library path of a Maven coordinate `group:artifact:version[:classifier]`,
/// where the version may carry `@extension` (default `jar`):
/// `group-with-slashes/artifact/version/artifact-version[-classifier].extension`.
/// `None` when there are fewer than three parts.
pub open spec fn spec_maven_to_path(coord: Seq<char>) -> Option<Seq<char>> {
    let parts = spec_split(coord, ':');
    if parts.len() < 3 {
        None
    } else {
        let group = spec_replace(parts[0], "."@, "/"@);
        let artifact = parts[1];
        let (version, extension) = match first_index_of(parts[2], '@') {
            Some(i) => (parts[2].take(i), parts[2].skip(i + 1)),
            None => (parts[2], "jar"@),
        };
        let file = if parts.len() > 3 {
            artifact + "-"@ + version + "-"@ + parts[3] + "."@ + extension
        } else {
            artifact + "-"@ + version + "."@ + extension
        };
        Some(group + "/"@ + artifact + "/"@ + version + "/"@ + file)
    }
}

/// The library path of a Maven coordinate.
pub fn maven_to_path(coord: &str) -> (res: Option<String>)
    ensures
        match res {
            Some(p) => spec_maven_to_path(coord@) == Some(p@),
            None => spec_maven_to_path(coord@) is None,
        },
{
    let parts = text::split_char(coord, ':');
    assert(views(parts@).len() == parts@.len());
    if parts.len() < 3 {
        return None;
    }
    proof {
        reveal_strlit(".");
    }
    assert(views(parts@)[0] == parts@[0]@);
    assert(views(parts@)[1] == parts@[1]@);
    assert(views(parts@)[2] == parts@[2]@);
    let group = text::replace(parts[0].as_str(), ".", "/");
    let artifact = parts[1].as_str();
    let vchars = text::to_chars(parts[2].as_str());
    let (version, extension) = match text::find_char(&vchars, '@') {
        Some(i) => (text::from_chars(&text::slice_chars(&vchars, 0, i)), text::from_chars(
            &text::slice_chars(&vchars, i + 1, vchars.len()),
        )),
        None => (parts[2].clone(), text::owned("jar")),
    };
    proof {
        assert(vchars@.subrange(0, vchars@.len() as int) =~= vchars@);
        match first_index_of(parts@[2]@, '@') {
            Some(i) => {
                assert(vchars@.subrange(0, i) =~= vchars@.take(i));
                assert(vchars@.subrange(i + 1, vchars@.len() as int) =~= vchars@.skip(i + 1));
            },
            None => {},
        }
    }
    let mut file = String::new();
    text::push_str(&mut file, artifact);
    text::push_str(&mut file, "-");
    text::push_str(&mut file, version.as_str());
    if parts.len() > 3 {
        assert(views(parts@)[3] == parts@[3]@);
        text::push_str(&mut file, "-");
        text::push_str(&mut file, parts[3].as_str());
    }
    text::push_str(&mut file, ".");
    text::push_str(&mut file, extension.as_str());
    let mut out = String::new();
    text::push_str(&mut out, group.as_str());
    text::push_str(&mut out, "/");
    text::push_str(&mut out, artifact);
    text::push_str(&mut out, "/");
    text::push_str(&mut out, version.as_str());
    text::push_str(&mut out, "/");
    text::push_str(&mut out, file.as_str());
    proof {
        if parts@.len() > 3 {
            assert(file@ =~= artifact@ + "-"@ + version@ + "-"@ + parts@[3]@ + "."@ + extension@);
        } else {
            assert(file@ =~= artifact@ + "-"@ + version@ + "."@ + extension@);
        }
        assert(out@ =~= group@ + "/"@ + artifact@ + "/"@ + version@ + "/"@ + file@);
    }
    Some(out)
}

/// No rule list, and an empty one, allow, whatever the host and features.
pub proof fn law_absent_rules_allow(features: Seq<(String, bool)>, host: Host)
    ensures
        spec_rules_allow(None, features, host),
        forall|v: Vec<Rule>| v@.len() == 0 ==> spec_rules_allow(Some(v), features, host),
{
}

/// A rule that applies, last in a list, decides alone: the list allows exactly
/// when that rule's action is `allow`.
pub proof fn law_last_rule_that_applies_decides(
    rules: Vec<Rule>,
    features: Seq<(String, bool)>,
    host: Host,
)
    requires
        rules@.len() > 0,
        rule_applies(rules@.last(), features, host),
    ensures
        spec_rules_allow(Some(rules), features, host) == (rules@.last().action@ == "allow"@),
{
}

/// The launcher's library path of a Maven name (`mojang::artifact_path`) is
/// the core's Maven path of it, for a name without `@` that has three parts, or
/// more with a non-empty classifier as the fourth.
pub proof fn law_artifact_path_is_maven_path(name: Seq<char>)
    requires
        forall|j: int| 0 <= j < name.len() ==> name[j] != '@',
        spec_split(name, ':').len() >= 3,
        spec_split(name, ':').len() == 3 || spec_split(name, ':')[3].len() > 0,
    ensures
        spec_maven_to_path(name) == Some(spec_artifact_path(name, None)),
{
    let parts = spec_split(name, ':');
    text::lemma_split_pieces_avoid(name, ':', '@');
    text::lemma_first_index_of(parts[2], '@');
    if first_index_of(parts[2], '@') is Some {
        let i = first_index_of(parts[2], '@')->0;
        assert(parts[2][i] == '@');
    }
    reveal_strlit(".");
    reveal_strlit("jar");
    reveal_strlit(".jar");
    let group = spec_replace(parts[0], "."@, "/"@);
    let dir = group + "/"@ + parts[1] + "/"@ + parts[2] + "/"@ + parts[1] + "-"@ + parts[2];
    if parts.len() > 3 {
        assert(group + "/"@ + parts[1] + "/"@ + parts[2] + "/"@ + (parts[1] + "-"@ + parts[2] + "-"@
            + parts[3] + "."@ + "jar"@) =~= dir + "-"@ + parts[3] + ".jar"@);
    } else {
        assert(group + "/"@ + parts[1] + "/"@ + parts[2] + "/"@ + (parts[1] + "-"@ + parts[2] + "."@
            + "jar"@) =~= dir + ".jar"@);
    }
}

/// A classifier given apart to `mojang::artifact_path` gives the path of the
/// name that carries it as its fourth part, when it is not empty and holds no
/// `:`.
pub proof fn law_classifier_apart_is_fourth_part(name: Seq<char>, c: Seq<char>)
    requires
        spec_split(name, ':').len() >= 3,
        c.len() > 0,
        forall|j: int| 0 <= j < c.len() ==> c[j] != ':',
    ensures
        ({
            let p = spec_split(name, ':');
            spec_artifact_path(name, Some(c)) == spec_artifact_path(
                p[0] + seq![':'] + p[1] + seq![':'] + p[2] + seq![':'] + c,
                None,
            )
        }),
{
    let p = spec_split(name, ':');
    text::lemma_split_pieces_avoid(name, ':', ':');
    assert(forall|j: int| 0 <= j < p[0].len() ==> p[0][j] != ':');
    assert(forall|j: int| 0 <= j < p[1].len() ==> p[1][j] != ':');
    assert(forall|j: int| 0 <= j < p[2].len() ==> p[2][j] != ':');
    text::lemma_split_of_four(p[0], p[1], p[2], c, ':');
}

} // verus!
