use vstd::prelude::*;

use crate::platform::{Host, TargetOs};
use crate::text;

verus! {

/// The launcher's data directory and the path separator of the host.
#[derive(Debug, Clone)]
pub struct DataDir {
    pub root: String,
    pub sep: char,
}

/// `Path::join` of a relative part: the part is appended after one separator
/// (none is added when `base` is empty or already ends with one); a part that
/// starts with the separator replaces `base`.
pub open spec fn spec_join(base: Seq<char>, part: Seq<char>, sep: char) -> Seq<char> {
    if part.len() > 0 && part[0] == sep {
        part
    } else if base.len() == 0 || base.last() == sep {
        base + part
    } else {
        base.push(sep) + part
    }
}

/// `Path::join`.
pub fn join(base: &str, part: &str, sep: char) -> (res: String)
    ensures
        res@ == spec_join(base@, part@, sep),
{
    let b = text::to_chars(base);
    let p = text::to_chars(part);
    if p.len() > 0 && p[0] == sep {
        return text::owned(part);
    }
    let mut out = text::owned(base);
    if !(b.len() == 0 || b[b.len() - 1] == sep) {
        text::push_char(&mut out, sep);
    }
    text::push_str(&mut out, part);
    out
}

/// The separator that `Path::join` uses on the host.
pub open spec fn spec_sep(host: Host) -> char {
    if host.os == TargetOs::Windows {
        '\\'
    } else {
        '/'
    }
}

impl DataDir {
    /// The data directory rooted at `root` on `host`.
    pub fn new(root: String, host: &Host) -> (res: DataDir)
        ensures
            res.root == root,
            res.sep == spec_sep(*host),
    {
        let sep = if host.os == TargetOs::Windows {
            '\\'
        } else {
            '/'
        };
        DataDir { root, sep }
    }
}

pub open spec fn spec_config_path(d: DataDir) -> Seq<char> {
    spec_join(d.root@, "config.json"@, d.sep)
}

pub open spec fn spec_minecraft_dir(d: DataDir) -> Seq<char> {
    spec_join(d.root@, "minecraft"@, d.sep)
}

pub open spec fn spec_versions_dir(d: DataDir) -> Seq<char> {
    spec_join(spec_minecraft_dir(d), "versions"@, d.sep)
}

pub open spec fn spec_libraries_dir(d: DataDir) -> Seq<char> {
    spec_join(spec_minecraft_dir(d), "libraries"@, d.sep)
}

pub open spec fn spec_assets_dir(d: DataDir) -> Seq<char> {
    spec_join(spec_minecraft_dir(d), "assets"@, d.sep)
}

pub open spec fn spec_instances_dir(d: DataDir) -> Seq<char> {
    spec_join(d.root@, "instances"@, d.sep)
}

pub open spec fn spec_instance_game_dir(d: DataDir, id: Seq<char>) -> Seq<char> {
    spec_join(spec_join(spec_instances_dir(d), id, d.sep), "minecraft"@, d.sep)
}

pub open spec fn spec_version_dir(d: DataDir, id: Seq<char>) -> Seq<char> {
    spec_join(spec_versions_dir(d), id, d.sep)
}

pub open spec fn spec_version_json(d: DataDir, id: Seq<char>) -> Seq<char> {
    spec_join(spec_version_dir(d, id), id + ".json"@, d.sep)
}

pub open spec fn spec_version_jar(d: DataDir, id: Seq<char>) -> Seq<char> {
    spec_join(spec_version_dir(d, id), id + ".jar"@, d.sep)
}

pub open spec fn spec_natives_dir(d: DataDir, id: Seq<char>) -> Seq<char> {
    spec_join(spec_version_dir(d, id), "natives"@, d.sep)
}

/// `<data>/config.json`.
pub fn config_path(d: &DataDir) -> (res: String)
    ensures
        res@ == spec_config_path(*d),
{
    join(d.root.as_str(), "config.json", d.sep)
}

/// `<data>/minecraft`.
pub fn minecraft_dir(d: &DataDir) -> (res: String)
    ensures
        res@ == spec_minecraft_dir(*d),
{
    join(d.root.as_str(), "minecraft", d.sep)
}

/// `<data>/minecraft/versions`.
pub fn versions_dir(d: &DataDir) -> (res: String)
    ensures
        res@ == spec_versions_dir(*d),
{
    let m = minecraft_dir(d);
    join(m.as_str(), "versions", d.sep)
}

/// `<data>/minecraft/libraries`.
pub fn libraries_dir(d: &DataDir) -> (res: String)
    ensures
        res@ == spec_libraries_dir(*d),
{
    let m = minecraft_dir(d);
    join(m.as_str(), "libraries", d.sep)
}

/// `<data>/minecraft/assets`.
pub fn assets_dir(d: &DataDir) -> (res: String)
    ensures
        res@ == spec_assets_dir(*d),
{
    let m = minecraft_dir(d);
    join(m.as_str(), "assets", d.sep)
}

/// `<data>/instances`.
pub fn instances_dir(d: &DataDir) -> (res: String)
    ensures
        res@ == spec_instances_dir(*d),
{
    join(d.root.as_str(), "instances", d.sep)
}

/// `<data>/instances/<id>/minecraft`.
pub fn instance_game_dir(d: &DataDir, instance_id: &str) -> (res: String)
    ensures
        res@ == spec_instance_game_dir(*d, instance_id@),
{
    let i = instances_dir(d);
    let g = join(i.as_str(), instance_id, d.sep);
    join(g.as_str(), "minecraft", d.sep)
}

/// `<data>/minecraft/versions/<id>`.
pub fn version_dir(d: &DataDir, version_id: &str) -> (res: String)
    ensures
        res@ == spec_version_dir(*d, version_id@),
{
    let v = versions_dir(d);
    join(v.as_str(), version_id, d.sep)
}

/// `<data>/minecraft/versions/<id>/<id>.json`.
pub fn version_json(d: &DataDir, version_id: &str) -> (res: String)
    ensures
        res@ == spec_version_json(*d, version_id@),
{
    let dir = version_dir(d, version_id);
    let file = text::concat2(version_id, ".json");
    join(dir.as_str(), file.as_str(), d.sep)
}

/// `<data>/minecraft/versions/<id>/<id>.jar`.
pub fn version_jar(d: &DataDir, version_id: &str) -> (res: String)
    ensures
        res@ == spec_version_jar(*d, version_id@),
{
    let dir = version_dir(d, version_id);
    let file = text::concat2(version_id, ".jar");
    join(dir.as_str(), file.as_str(), d.sep)
}

/// `<data>/minecraft/versions/<id>/natives`.
pub fn natives_dir(d: &DataDir, version_id: &str) -> (res: String)
    ensures
        res@ == spec_natives_dir(*d, version_id@),
{
    let dir = version_dir(d, version_id);
    join(dir.as_str(), "natives", d.sep)
}

/// The separator between classpath entries: `;` on Windows, `:` elsewhere.
pub open spec fn spec_classpath_sep(host: Host) -> Seq<char> {
    if host.os == TargetOs::Windows {
        ";"@
    } else {
        ":"@
    }
}

/// The separator between classpath entries on the host.
pub fn classpath_sep(host: &Host) -> (res: &'static str)
    ensures
        res@ == spec_classpath_sep(*host),
{
    if host.os == TargetOs::Windows {
        ";"
    } else {
        ":"
    }
}

} // verus!
