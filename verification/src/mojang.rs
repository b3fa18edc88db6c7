use vstd::prelude::*;

use crate::error::Error;
use crate::platform::{spec_current_os, Host};
use crate::rules::{self, rules_allow, spec_rules_allow, Features, Rule};
use crate::text::{self, spec_replace, spec_split, views};

verus! {

/// Where Mojang publishes its version list.
pub const MANIFEST_URL: &'static str = "https://piston-meta.mojang.com/mc/game/version_manifest_v2.json";

/// Where Mojang publishes the Java patch notes.
pub const NEWS_URL: &'static str = "https://launchercontent.mojang.com/javaPatchNotes.json";

/// Mojang's version list.
#[derive(Debug, Clone)]
pub struct VersionManifest {
    pub latest: LatestVersions,
    pub versions: Vec<VersionInfo>,
}

/// The newest release and snapshot ids.
#[derive(Debug, Clone)]
pub struct LatestVersions {
    pub release: String,
    pub snapshot: String,
}

/// One entry of the version list.
#[derive(Debug, Clone)]
pub struct VersionInfo {
    pub id: String,
    pub kind: String,
    pub url: String,
    pub release_time: String,
    pub sha1: String,
}

/// One element of a version's `arguments.game` or `arguments.jvm` list.
#[derive(Debug, Clone)]
pub enum ArgItem {
    /// A plain string argument.
    Text(String),
    /// An object with a rule list and a `value`; rules that could not be read
    /// count as no rules.
    Conditional { rules: Vec<Rule>, value: ArgValue },
    /// Anything else, which contributes nothing.
    Other,
}

/// The `value` of a conditional argument.
#[derive(Debug, Clone)]
pub enum ArgValue {
    Text(String),
    /// An array; elements that are not strings are `None`.
    List(Vec<Option<String>>),
    /// Missing, or neither a string nor an array.
    Missing,
}

/// The version's argument lists.
#[derive(Debug, Clone)]
pub struct Arguments {
    pub game: Vec<ArgItem>,
    pub jvm: Vec<ArgItem>,
}

/// A version's metadata (its version JSON).
#[derive(Debug, Clone)]
pub struct VersionMeta {
    pub id: String,
    pub kind: String,
    pub main_class: String,
    pub arguments: Option<Arguments>,
    pub minecraft_arguments: Option<String>,
    pub libraries: Vec<Library>,
    pub downloads: Option<Downloads>,
    pub asset_index: Option<AssetIndexInfo>,
    pub assets: Option<String>,
    pub java_version: Option<JavaVersion>,
    pub inherits_from: Option<String>,
    pub logging: Option<Logging>,
}

/// A library the game needs.
#[derive(Debug, Clone)]
pub struct Library {
    pub name: String,
    pub downloads: Option<LibraryDownloads>,
    pub rules: Vec<Rule>,
    /// Operating system name to native classifier.
    pub natives: Option<Vec<(String, String)>>,
    pub extract: Option<Extract>,
    pub url: Option<String>,
}

/// Where a library's files come from.
#[derive(Debug, Clone)]
pub struct LibraryDownloads {
    pub artifact: Option<Artifact>,
    /// Classifier to artifact.
    pub classifiers: Option<Vec<(String, Artifact)>>,
}

/// A downloadable file.
#[derive(Debug, Clone)]
pub struct Artifact {
    pub path: Option<String>,
    pub sha1: Option<String>,
    pub size: Option<u64>,
    pub url: Option<String>,
}

/// Paths to leave out when unpacking natives.
#[derive(Debug, Clone)]
pub struct Extract {
    pub exclude: Vec<String>,
}

/// The client download of a version.
#[derive(Debug, Clone)]
pub struct Downloads {
    pub client: Option<Artifact>,
}

/// The asset index a version uses.
#[derive(Debug, Clone)]
pub struct AssetIndexInfo {
    pub id: String,
    pub sha1: String,
    pub size: u64,
    pub total_size: u64,
    pub url: String,
}

/// The Java version a version asks for.
#[derive(Debug, Clone)]
pub struct JavaVersion {
    pub component: String,
    pub major_version: u32,
}

/// Logging configuration of a version.
#[derive(Debug, Clone)]
pub struct Logging {
    pub client: Option<LoggingClient>,
}

/// The client logging argument and its configuration file.
#[derive(Debug, Clone)]
pub struct LoggingClient {
    pub argument: String,
    pub file: Artifact,
}

/// An asset index: asset name to object.
#[derive(Debug, Clone)]
pub struct AssetIndex {
    pub objects: Vec<(String, AssetObject)>,
    pub map_to_resources: bool,
    pub virtual_dir: bool,
    pub virtual_flag: bool,
}

/// One asset object, stored under its hash.
#[derive(Debug, Clone)]
pub struct AssetObject {
    pub hash: String,
    pub size: u64,
}

/// The value stored under the first key equal to `key`.
pub open spec fn lookup<T>(pairs: Seq<(String, T)>, key: Seq<char>) -> Option<T>
    decreases pairs.len(),
{
    if pairs.len() == 0 {
        None
    } else if pairs[0].0@ == key {
        Some(pairs[0].1)
    } else {
        lookup(pairs.drop_first(), key)
    }
}

/// The index of the first key equal to `key`.
pub fn find_key<T>(pairs: &Vec<(String, T)>, key: &str) -> (res: Option<usize>)
    ensures
        match res {
            Some(i) => i < pairs@.len() && lookup(pairs@, key@) == Some(pairs@[i as int].1),
            None => lookup(pairs@, key@) is None,
        },
{
    let n = pairs.len();
    let mut i: usize = 0;
    assert(pairs@.skip(0) =~= pairs@);
    while i < n
        invariant
            n == pairs@.len(),
            i <= n,
            lookup(pairs@, key@) == lookup(pairs@.skip(i as int), key@),
        decreases n - i,
    {
        assert(pairs@.skip(i as int).drop_first() =~= pairs@.skip(i as int + 1));
        if text::eq(pairs[i].0.as_str(), key) {
            return Some(i);
        }
        i = i + 1;
    }
    None
}

impl VersionInfo {
    /// The kind of version as shown in the version list.
    pub fn kind_label(&self) -> (res: &str)
        ensures
            res@ == (if self.kind@ == "release"@ {
                "релиз"@
            } else if self.kind@ == "snapshot"@ {
                "снимок"@
            } else if self.kind@ == "old_beta"@ {
                "бета"@
            } else if self.kind@ == "old_alpha"@ {
                "альфа"@
            } else {
                self.kind@
            }),
    {
        let k = self.kind.as_str();
        if text::eq(k, "release") {
            "релиз"
        } else if text::eq(k, "snapshot") {
            "снимок"
        } else if text::eq(k, "old_beta") {
            "бета"
        } else if text::eq(k, "old_alpha") {
            "альфа"
        } else {
            k
        }
    }

    /// The date part of the release time: its first 10 bytes when they end on
    /// a character boundary, else the whole text.
    pub fn date_short(&self) -> (res: String)
        ensures
            vstd::utf8::encode_utf8(res@) == (if vstd::utf8::is_char_boundary(
                vstd::utf8::encode_utf8(self.release_time@),
                10,
            ) {
                vstd::utf8::encode_utf8(self.release_time@).subrange(0, 10)
            } else {
                vstd::utf8::encode_utf8(self.release_time@)
            }),
    {
        let t = self.release_time.as_str();
        if t.is_char_boundary(10) {
            let (head, _) = t.split_at(10);
            text::owned(head)
        } else {
            text::owned(t)
        }
    }
}

/// Whether a library applies on this host.
pub fn library_allowed(lib: &Library, features: &Features, host: &Host) -> (res: bool)
    ensures
        res == spec_rules_allow(lib.rules@, *features, *host),
{
    rules_allow(lib.rules.as_slice(), features, host)
}

/// The native classifier of a library for this host's operating system.
pub open spec fn spec_native_classifier(lib: Library, host: Host) -> Option<Seq<char>> {
    match lib.natives {
        Some(n) => match lookup(n@, spec_current_os(host)) {
            Some(c) => Some(c@),
            None => None,
        },
        None => None,
    }
}

/// The native classifier of a library for this host's operating system.
pub fn native_classifier(lib: &Library, host: &Host) -> (res: Option<String>)
    ensures
        match res {
            Some(c) => spec_native_classifier(*lib, *host) == Some(c@),
            None => spec_native_classifier(*lib, *host) is None,
        },
{
    match &lib.natives {
        Some(n) => match find_key(n, rules::current_os(host)) {
            Some(i) => Some(n[i].1.clone()),
            None => None,
        },
        None => None,
    }
}

/// The library path of a Maven name `group:artifact:version[:classifier]`:
/// `group` with dots as slashes, then `artifact/version/artifact-version[-classifier].jar`;
/// the given classifier wins over the name's own, and an empty one counts as
/// none. A name with fewer than three parts becomes `<name>.jar`.
pub open spec fn spec_artifact_path(name: Seq<char>, classifier: Option<Seq<char>>) -> Seq<char> {
    let parts = spec_split(name, ':');
    if parts.len() < 3 {
        name + ".jar"@
    } else {
        let group = spec_replace(parts[0], "."@, "/"@);
        let artifact = parts[1];
        let version = parts[2];
        let c = match classifier {
            Some(c) => Some(c),
            None => if parts.len() > 3 {
                Some(parts[3])
            } else {
                None
            },
        };
        let dir = group + "/"@ + artifact + "/"@ + version + "/"@ + artifact + "-"@ + version;
        match c {
            Some(c) => if c.len() > 0 {
                dir + "-"@ + c + ".jar"@
            } else {
                dir + ".jar"@
            },
            None => dir + ".jar"@,
        }
    }
}

/// The library path of a Maven name.
pub fn artifact_path(name: &str, classifier: Option<&str>) -> (res: String)
    ensures
        res@ == spec_artifact_path(
            name@,
            match classifier {
                Some(c) => Some(c@),
                None => None,
            },
        ),
{
    let parts = text::split_char(name, ':');
    assert(views(parts@).len() == parts@.len());
    if parts.len() < 3 {
        return text::concat2(name, ".jar");
    }
    proof {
        reveal_strlit(".");
    }
    assert(views(parts@)[0] == parts@[0]@);
    assert(views(parts@)[1] == parts@[1]@);
    assert(views(parts@)[2] == parts@[2]@);
    let group = text::replace(parts[0].as_str(), ".", "/");
    let artifact = parts[1].as_str();
    let version = parts[2].as_str();
    let c: Option<&str> = match classifier {
        Some(c) => Some(c),
        None => if parts.len() > 3 {
            assert(views(parts@)[3] == parts@[3]@);
            Some(parts[3].as_str())
        } else {
            None
        },
    };
    let mut out = String::new();
    text::push_str(&mut out, group.as_str());
    text::push_str(&mut out, "/");
    text::push_str(&mut out, artifact);
    text::push_str(&mut out, "/");
    text::push_str(&mut out, version);
    text::push_str(&mut out, "/");
    text::push_str(&mut out, artifact);
    text::push_str(&mut out, "-");
    text::push_str(&mut out, version);
    match c {
        Some(c) => {
            if !c.is_empty() {
                text::push_str(&mut out, "-");
                text::push_str(&mut out, c);
            }
        },
        None => {},
    }
    text::push_str(&mut out, ".jar");
    proof {
        let ghost dir = group@ + "/"@ + artifact@ + "/"@ + version@ + "/"@ + artifact@ + "-"@
            + version@;
        match c {
            Some(cc) => {
                if cc@.len() > 0 {
                    assert(out@ =~= dir + "-"@ + cc@ + ".jar"@);
                } else {
                    assert(out@ =~= dir + ".jar"@);
                }
            },
            None => {
                assert(out@ =~= dir + ".jar"@);
            },
        }
    }
    out
}


/// The strings in an array value, in order; elements that are not strings are skipped.
pub open spec fn present_strings(v: Seq<Option<String>>) -> Seq<Seq<char>>
    decreases v.len(),
{
    if v.len() == 0 {
        Seq::empty()
    } else {
        match v.last() {
            Some(s) => present_strings(v.drop_last()).push(s@),
            None => present_strings(v.drop_last()),
        }
    }
}

/// The strings that one argument element contributes.
pub open spec fn item_strings(item: ArgItem, features: Features, host: Host) -> Seq<Seq<char>> {
    match item {
        ArgItem::Text(s) => seq![s@],
        ArgItem::Conditional { rules, value } => if spec_rules_allow(rules@, features, host) {
            match value {
                ArgValue::Text(s) => seq![s@],
                ArgValue::List(v) => present_strings(v@),
                ArgValue::Missing => Seq::empty(),
            }
        } else {
            Seq::empty()
        },
        ArgItem::Other => Seq::empty(),
    }
}

/// The strings of an argument list: each element's strings, in order.
pub open spec fn spec_argument_strings(items: Seq<ArgItem>, features: Features, host: Host) -> Seq<
    Seq<char>,
>
    decreases items.len(),
{
    if items.len() == 0 {
        Seq::empty()
    } else {
        spec_argument_strings(items.drop_last(), features, host) + item_strings(
            items.last(),
            features,
            host,
        )
    }
}

fn push_value_strings(out: &mut Vec<String>, v: &Vec<Option<String>>)
    ensures
        views(final(out)@) == views(old(out)@) + present_strings(v@),
{
    let n = v.len();
    let mut i: usize = 0;
    let ghost start = views(out@);
    while i < n
        invariant
            n == v@.len(),
            i <= n,
            views(out@) == start + present_strings(v@.take(i as int)),
        decreases n - i,
    {
        assert(v@.take(i as int + 1).drop_last() =~= v@.take(i as int));
        match &v[i] {
            Some(s) => {
                let ghost before = out@;
                out.push(s.clone());
                assert(views(out@) =~= views(before).push(s@));
                assert(start + present_strings(v@.take(i as int + 1)) =~= (start
                    + present_strings(v@.take(i as int))).push(s@));
            },
            None => {},
        }
        i = i + 1;
    }
    assert(v@.take(n as int) =~= v@);
}

/// The argument strings that apply on this host with these features.
pub fn argument_strings(items: &Vec<ArgItem>, features: &Features, host: &Host) -> (res: Vec<
    String,
>)
    ensures
        views(res@) == spec_argument_strings(items@, *features, *host),
{
    let mut out: Vec<String> = Vec::new();
    let n = items.len();
    let mut i: usize = 0;
    while i < n
        invariant
            n == items@.len(),
            i <= n,
            views(out@) == spec_argument_strings(items@.take(i as int), *features, *host),
        decreases n - i,
    {
        assert(items@.take(i as int + 1).drop_last() =~= items@.take(i as int));
        let ghost before = views(out@);
        match &items[i] {
            ArgItem::Text(s) => {
                let ghost b = out@;
                out.push(s.clone());
                assert(views(out@) =~= views(b).push(s@));
            },
            ArgItem::Conditional { rules, value } => {
                if rules_allow(rules.as_slice(), features, host) {
                    match value {
                        ArgValue::Text(s) => {
                            let ghost b = out@;
                            out.push(s.clone());
                            assert(views(out@) =~= views(b).push(s@));
                        },
                        ArgValue::List(v) => {
                            push_value_strings(&mut out, v);
                        },
                        ArgValue::Missing => {},
                    }
                }
            },
            ArgItem::Other => {},
        }
        assert(views(out@) =~= before + item_strings(items@[i as int], *features, *host));
        i = i + 1;
    }
    assert(items@.take(n as int) =~= items@);
    out
}

/// The first of two optional values that is present.
pub open spec fn or_else<T>(first: Option<T>, second: Option<T>) -> Option<T> {
    if first is Some {
        first
    } else {
        second
    }
}

/// `res` is `child` laid over `parent`: the child's id; its main class when it
/// has one; argument lists joined parent first; the child's legacy arguments,
/// downloads, asset index, Java version and logging when present; the parent's
/// libraries followed by the child's; the parent's kind and assets; and no
/// parent left.
pub open spec fn is_merge_of(parent: VersionMeta, child: VersionMeta, res: VersionMeta) -> bool {
    &&& res.id == child.id
    &&& res.kind == parent.kind
    &&& res.main_class == (if child.main_class@.len() > 0 {
        child.main_class
    } else {
        parent.main_class
    })
    &&& res.libraries@ == parent.libraries@ + child.libraries@
    &&& match (parent.arguments, child.arguments) {
        (Some(p), Some(c)) => res.arguments matches Some(a) && a.game@ == p.game@ + c.game@
            && a.jvm@ == p.jvm@ + c.jvm@,
        (p, c) => res.arguments == or_else(c, p),
    }
    &&& res.minecraft_arguments == or_else(child.minecraft_arguments, parent.minecraft_arguments)
    &&& res.downloads == or_else(child.downloads, parent.downloads)
    &&& res.asset_index == or_else(child.asset_index, parent.asset_index)
    &&& res.assets == parent.assets
    &&& res.java_version == or_else(child.java_version, parent.java_version)
    &&& res.inherits_from is None
    &&& res.logging == or_else(child.logging, parent.logging)
}

/// Lays a child version over the version it inherits from.
pub fn merge_meta(parent: VersionMeta, child: VersionMeta) -> (res: VersionMeta)
    ensures
        is_merge_of(parent, child, res),
{
    let mut parent = parent;
    let child = child;
    parent.id = child.id;
    if !child.main_class.as_str().is_empty() {
        parent.main_class = child.main_class;
    }
    match child.arguments {
        Some(src) => {
            match parent.arguments {
                Some(dst) => {
                    let mut game = dst.game;
                    let mut jvm = dst.jvm;
                    let mut g2 = src.game;
                    let mut j2 = src.jvm;
                    game.append(&mut g2);
                    jvm.append(&mut j2);
                    parent.arguments = Some(Arguments { game, jvm });
                },
                None => {
                    parent.arguments = Some(src);
                },
            }
        },
        None => {},
    }
    if child.minecraft_arguments.is_some() {
        parent.minecraft_arguments = child.minecraft_arguments;
    }
    let mut libs = child.libraries;
    parent.libraries.append(&mut libs);
    if child.downloads.is_some() {
        parent.downloads = child.downloads;
    }
    if child.asset_index.is_some() {
        parent.asset_index = child.asset_index;
    }
    if child.java_version.is_some() {
        parent.java_version = child.java_version;
    }
    if child.logging.is_some() {
        parent.logging = child.logging;
    }
    parent.inherits_from = None;
    parent
}


/// What a child version does not say it takes from the version it inherits
/// from, and what it does say wins: for the legacy arguments, downloads,
/// asset index, Java version and logging, a child value that is present is
/// kept and an absent one leaves the parent's in place; the parent's
/// libraries come first, then the child's; the id is the child's.
pub proof fn law_child_overrides_parent(parent: VersionMeta, child: VersionMeta, res: VersionMeta)
    requires
        is_merge_of(parent, child, res),
    ensures
        res.id@ == child.id@,
        child.asset_index is Some ==> res.asset_index == child.asset_index,
        child.asset_index is None ==> res.asset_index == parent.asset_index,
        child.downloads is Some ==> res.downloads == child.downloads,
        child.downloads is None ==> res.downloads == parent.downloads,
        child.java_version is Some ==> res.java_version == child.java_version,
        child.java_version is None ==> res.java_version == parent.java_version,
        child.logging is Some ==> res.logging == child.logging,
        child.logging is None ==> res.logging == parent.logging,
        child.minecraft_arguments is Some ==> res.minecraft_arguments == child.minecraft_arguments,
        child.minecraft_arguments is None ==> res.minecraft_arguments == parent.minecraft_arguments,
        child.main_class@.len() == 0 ==> res.main_class == parent.main_class,
        child.main_class@.len() > 0 ==> res.main_class == child.main_class,
        res.kind == parent.kind,
        res.inherits_from is None,
        child.arguments is None ==> res.arguments == parent.arguments,
        parent.arguments is None ==> res.arguments == child.arguments,
        parent.arguments matches Some(p) ==> (child.arguments matches Some(c) ==> (
        res.arguments matches Some(a) && a.game@ == p.game@ + c.game@ && a.jvm@ == p.jvm@
            + c.jvm@)),
        res.assets == parent.assets,
        res.libraries@.len() == parent.libraries@.len() + child.libraries@.len(),
        forall|i: int| 0 <= i < parent.libraries@.len() ==> res.libraries@[i] == parent.libraries@[i],
        forall|i: int|
            0 <= i < child.libraries@.len() ==> res.libraries@[parent.libraries@.len() + i]
                == child.libraries@[i],
{
}

/// The version id an instance names: the latest release or snapshot for the
/// aliases `latest-release` and `latest-snapshot`, else the id itself.
pub open spec fn spec_resolve_alias(manifest: VersionManifest, id: Seq<char>) -> Seq<char> {
    if id == "latest-release"@ {
        manifest.latest.release@
    } else if id == "latest-snapshot"@ {
        manifest.latest.snapshot@
    } else {
        id
    }
}

/// The version id an instance names.
pub fn resolve_alias<'a>(manifest: &'a VersionManifest, id: &'a str) -> (res: &'a str)
    ensures
        res@ == spec_resolve_alias(*manifest, id@),
{
    if text::eq(id, "latest-release") {
        manifest.latest.release.as_str()
    } else if text::eq(id, "latest-snapshot") {
        manifest.latest.snapshot.as_str()
    } else {
        id
    }
}

/// Position `i` holds the first version with id `id`.
pub open spec fn first_version(v: Seq<VersionInfo>, id: Seq<char>, i: int) -> bool {
    &&& 0 <= i < v.len()
    &&& v[i].id@ == id
    &&& forall|j: int| 0 <= j < i ==> (#[trigger] v[j]).id@ != id
}

/// The manifest entry of a version id; `VersionNotFound` when it is not listed.
pub fn find_version<'a>(manifest: &'a VersionManifest, id: &str) -> (res: Result<&'a VersionInfo, Error>)
    ensures
        match res {
            Ok(info) => exists|i: int|
                first_version(manifest.versions@, id@, i) && *info == manifest.versions@[i],
            Err(e) => e matches Error::VersionNotFound(v) && v@ == id@ && forall|j: int|
                0 <= j < manifest.versions@.len() ==> (#[trigger] manifest.versions@[j]).id@ != id@,
        },
{
    let n = manifest.versions.len();
    let mut i: usize = 0;
    while i < n
        invariant
            n == manifest.versions@.len(),
            i <= n,
            forall|j: int| 0 <= j < i ==> (#[trigger] manifest.versions@[j]).id@ != id@,
        decreases n - i,
    {
        if text::eq(manifest.versions[i].id.as_str(), id) {
            assert(first_version(manifest.versions@, id@, i as int));
            return Ok(&manifest.versions[i]);
        }
        i = i + 1;
    }
    Err(Error::VersionNotFound(text::owned(id)))
}

/// A cached version JSON may be used: the entry has a checksum and the cached
/// bytes hash to it.
pub fn cached_meta_usable(info: &VersionInfo, raw: &[u8]) -> (res: bool)
    ensures
        res == (info.sha1@.len() > 0 && text::spec_hex_lower(crate::digest::spec_sha1(raw@))
            == info.sha1@),
{
    if info.sha1.as_str().is_empty() {
        return false;
    }
    let h = crate::install::sha1_hex(raw);
    text::eq(h.as_str(), info.sha1.as_str())
}

/// Checks downloaded version JSON against the entry's checksum: a `Checksum`
/// error at `path` when the entry has one and the bytes do not hash to it.
pub fn check_meta_bytes(info: &VersionInfo, bytes: &[u8], path: &str) -> (res: Result<(), Error>)
    ensures
        res is Ok <==> (info.sha1@.len() == 0 || text::spec_hex_lower(
            crate::digest::spec_sha1(bytes@),
        ) == info.sha1@),
        res matches Err(e) ==> e matches Error::Checksum { path: p } && p@ == path@,
{
    if info.sha1.as_str().is_empty() {
        return Ok(());
    }
    let h = crate::install::sha1_hex(bytes);
    crate::install::checksum_verdict(Some(info.sha1.as_str()), h.as_str(), path)
}

} // verus!
