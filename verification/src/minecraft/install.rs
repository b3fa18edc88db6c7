use vstd::prelude::*;

use crate::error::Error;
use crate::minecraft::manifest::{
    maven_to_path, natives_key, rules_allow, spec_maven_to_path, spec_natives_key,
    spec_rules_allow, Arguments, AssetIndex, Library, VersionDetail,
};
use crate::mojang::{find_key, lookup, or_else};
use crate::paths::{join, spec_join};
use crate::platform::Host;
use crate::text::{self, views};
use vstd::utf8::{encode_utf8, is_char_boundary};

verus! {

/// The directory layout of a game root.
#[derive(Debug, Clone)]
pub struct Paths {
    pub root: String,
    pub sep: char,
}

impl Paths {
    pub fn new(root: String, sep: char) -> (res: Paths)
        ensures
            res.root == root,
            res.sep == sep,
    {
        Paths { root, sep }
    }

    pub open spec fn spec_versions(self) -> Seq<char> {
        spec_join(self.root@, "versions"@, self.sep)
    }

    pub open spec fn spec_version_dir(self, id: Seq<char>) -> Seq<char> {
        spec_join(self.spec_versions(), id, self.sep)
    }

    pub open spec fn spec_version_jar(self, id: Seq<char>) -> Seq<char> {
        spec_join(self.spec_version_dir(id), id + ".jar"@, self.sep)
    }

    pub open spec fn spec_libraries(self) -> Seq<char> {
        spec_join(self.root@, "libraries"@, self.sep)
    }

    pub open spec fn spec_assets(self) -> Seq<char> {
        spec_join(self.root@, "assets"@, self.sep)
    }

    pub open spec fn spec_asset_objects(self) -> Seq<char> {
        spec_join(self.spec_assets(), "objects"@, self.sep)
    }

    /// `<root>/versions`.
    pub fn versions(&self) -> (res: String)
        ensures
            res@ == self.spec_versions(),
    {
        join(self.root.as_str(), "versions", self.sep)
    }

    /// `<root>/versions/<id>`.
    pub fn version_dir(&self, id: &str) -> (res: String)
        ensures
            res@ == self.spec_version_dir(id@),
    {
        let v = self.versions();
        join(v.as_str(), id, self.sep)
    }

    /// `<root>/versions/<id>/<id>.json`.
    pub fn version_json(&self, id: &str) -> (res: String)
        ensures
            res@ == spec_join(self.spec_version_dir(id@), id@ + ".json"@, self.sep),
    {
        let dir = self.version_dir(id);
        let f = text::concat2(id, ".json");
        join(dir.as_str(), f.as_str(), self.sep)
    }

    /// `<root>/versions/<id>/<id>.jar`.
    pub fn version_jar(&self, id: &str) -> (res: String)
        ensures
            res@ == self.spec_version_jar(id@),
    {
        let dir = self.version_dir(id);
        let f = text::concat2(id, ".jar");
        join(dir.as_str(), f.as_str(), self.sep)
    }

    /// `<root>/libraries`.
    pub fn libraries(&self) -> (res: String)
        ensures
            res@ == self.spec_libraries(),
    {
        join(self.root.as_str(), "libraries", self.sep)
    }

    /// `<root>/versions/<id>/natives`.
    pub fn natives(&self, id: &str) -> (res: String)
        ensures
            res@ == spec_join(self.spec_version_dir(id@), "natives"@, self.sep),
    {
        let dir = self.version_dir(id);
        join(dir.as_str(), "natives", self.sep)
    }

    /// `<root>/assets`.
    pub fn assets(&self) -> (res: String)
        ensures
            res@ == self.spec_assets(),
    {
        join(self.root.as_str(), "assets", self.sep)
    }

    /// `<root>/assets/indexes`.
    pub fn asset_indexes(&self) -> (res: String)
        ensures
            res@ == spec_join(self.spec_assets(), "indexes"@, self.sep),
    {
        let a = self.assets();
        join(a.as_str(), "indexes", self.sep)
    }

    /// `<root>/assets/objects`.
    pub fn asset_objects(&self) -> (res: String)
        ensures
            res@ == self.spec_asset_objects(),
    {
        let a = self.assets();
        join(a.as_str(), "objects", self.sep)
    }

    /// `<root>/instances`.
    pub fn instances(&self) -> (res: String)
        ensures
            res@ == spec_join(self.root@, "instances"@, self.sep),
    {
        join(self.root.as_str(), "instances", self.sep)
    }
}

/// `res` is `child` laid over `parent`: the child's id and main class; the
/// child's kind unless empty; the child's libraries followed by the parent's;
/// argument lists joined parent first; the child's downloads when it has a
/// client download; the child's asset index, assets, legacy arguments, Java
/// version and logging when present; and no parent left.
pub open spec fn is_merge_of(parent: VersionDetail, child: VersionDetail, res: VersionDetail) -> bool {
    &&& res.id == child.id
    &&& res.kind == (if child.kind@.len() == 0 {
        parent.kind
    } else {
        child.kind
    })
    &&& res.main_class == child.main_class
    &&& res.libraries@ == child.libraries@ + parent.libraries@
    &&& match (child.arguments, parent.arguments) {
        (Some(c), Some(p)) => res.arguments matches Some(a) && a.game@ == p.game@ + c.game@
            && a.jvm@ == p.jvm@ + c.jvm@,
        (c, p) => res.arguments == or_else(c, p),
    }
    &&& res.downloads == (if child.downloads.client is Some {
        child.downloads
    } else {
        parent.downloads
    })
    &&& res.asset_index == or_else(child.asset_index, parent.asset_index)
    &&& res.assets == or_else(child.assets, parent.assets)
    &&& res.minecraft_arguments == or_else(child.minecraft_arguments, parent.minecraft_arguments)
    &&& res.java_version == or_else(child.java_version, parent.java_version)
    &&& res.inherits_from is None
    &&& res.logging == or_else(child.logging, parent.logging)
}

/// Lays a version over the version it inherits from.
pub fn merge_versions(parent: VersionDetail, child: VersionDetail) -> (res: VersionDetail)
    ensures
        is_merge_of(parent, child, res),
{
    let mut libraries = child.libraries;
    let mut plibs = parent.libraries;
    libraries.append(&mut plibs);
    let arguments = match (child.arguments, parent.arguments) {
        (Some(c), Some(p)) => {
            let mut game = p.game;
            let mut cg = c.game;
            game.append(&mut cg);
            let mut jvm = p.jvm;
            let mut cj = c.jvm;
            jvm.append(&mut cj);
            Some(Arguments { game, jvm })
        },
        (Some(c), None) => Some(c),
        (None, p) => p,
    };
    let kind = if child.kind.as_str().is_empty() {
        parent.kind
    } else {
        child.kind
    };
    let downloads = if child.downloads.client.is_some() {
        child.downloads
    } else {
        parent.downloads
    };
    VersionDetail {
        id: child.id,
        kind,
        main_class: child.main_class,
        libraries,
        downloads,
        asset_index: if child.asset_index.is_some() {
            child.asset_index
        } else {
            parent.asset_index
        },
        assets: if child.assets.is_some() {
            child.assets
        } else {
            parent.assets
        },
        arguments,
        minecraft_arguments: if child.minecraft_arguments.is_some() {
            child.minecraft_arguments
        } else {
            parent.minecraft_arguments
        },
        java_version: if child.java_version.is_some() {
            child.java_version
        } else {
            parent.java_version
        },
        inherits_from: None,
        logging: if child.logging.is_some() {
            child.logging
        } else {
            parent.logging
        },
    }
}


/// The classpath and native jars a version needs on this host.
#[derive(Debug, Clone)]
pub struct ResolvedLibs {
    pub classpath: Vec<String>,
    /// Native jar paths with the entry prefixes to leave out.
    pub natives: Vec<(String, Vec<String>)>,
}

/// The natives key of a library on this host, when it has natives.
pub open spec fn native_key_of(lib: Library, host: Host) -> Option<Seq<char>> {
    match lib.natives {
        Some(m) => spec_natives_key(m@, host),
        None => None,
    }
}

/// The excluded prefixes of a library.
pub open spec fn excludes_of(lib: Library) -> Seq<Seq<char>> {
    match lib.extract {
        Some(e) => views(e.exclude@),
        None => Seq::empty(),
    }
}

/// The native jar of a library whose natives key is `key`: the classifier
/// artifact's path, else the Maven path of `name:key`, under the libraries.
pub open spec fn native_entry_of(lib: Library, key: Seq<char>, p: Paths) -> Option<(Seq<char>, Seq<Seq<char>>)> {
    match lib.downloads {
        Some(dl) => match lookup(dl.classifiers@, key) {
            Some(a) => {
                let rel = match a.path {
                    Some(r) => Some(r@),
                    None => spec_maven_to_path(lib.name@ + ":"@ + key),
                };
                match rel {
                    Some(r) => Some((spec_join(p.spec_libraries(), r, p.sep), excludes_of(lib))),
                    None => None,
                }
            },
            None => None,
        },
        None => None,
    }
}

/// The path of a library's jar relative to the libraries directory.
pub open spec fn classpath_rel_of(lib: Library) -> Option<Seq<char>> {
    let path = match lib.downloads {
        Some(dl) => match dl.artifact {
            Some(a) => match a.path {
                Some(r) => Some(r@),
                None => None,
            },
            None => None,
        },
        None => None,
    };
    match path {
        Some(r) => Some(r),
        None => spec_maven_to_path(lib.name@),
    }
}

/// The classpath paths (relative, first occurrence only) and the native jars
/// of the libraries that apply, scanning in order; a library with natives for
/// this host contributes only its native jar.
pub open spec fn resolve_state(libs: Seq<Library>, p: Paths, host: Host) -> (Seq<Seq<char>>, Seq<(Seq<char>, Seq<Seq<char>>)>)
    decreases libs.len(),
{
    if libs.len() == 0 {
        (Seq::empty(), Seq::empty())
    } else {
        let (rels, natv) = resolve_state(libs.drop_last(), p, host);
        let lib = libs.last();
        if !spec_rules_allow(lib.rules, Seq::empty(), host) {
            (rels, natv)
        } else {
            match native_key_of(lib, host) {
                Some(k) => match native_entry_of(lib, k, p) {
                    Some(e) => (rels, natv.push(e)),
                    None => (rels, natv),
                },
                None => match classpath_rel_of(lib) {
                    Some(r) => if rels.contains(r) {
                        (rels, natv)
                    } else {
                        (rels.push(r), natv)
                    },
                    None => (rels, natv),
                },
            }
        }
    }
}

/// Relative library paths made absolute under the libraries directory.
pub open spec fn under_libraries(rels: Seq<Seq<char>>, p: Paths) -> Seq<Seq<char>> {
    rels.map_values(|r: Seq<char>| spec_join(p.spec_libraries(), r, p.sep))
}

/// A native jar entry as plain sequences.
pub open spec fn native_view(j: (String, Vec<String>)) -> (Seq<char>, Seq<Seq<char>>) {
    (j.0@, views(j.1@))
}

fn excludes(lib: &Library) -> (res: Vec<String>)
    ensures
        views(res@) == excludes_of(*lib),
{
    match &lib.extract {
        Some(e) => {
            let v = e.exclude.clone();
            proof {
                assert forall|k: int| 0 <= k < v@.len() implies v@[k] == e.exclude@[k] by {
                    assert(cloned::<String>(e.exclude@[k], v@[k]));
                }
                assert(v@ =~= e.exclude@);
            }
            v
        },
        None => {
            let v: Vec<String> = Vec::new();
            assert(views(v@) =~= Seq::<Seq<char>>::empty());
            v
        },
    }
}

/// Works out which libraries apply on this host and where they live.
pub fn resolve_libraries(paths: &Paths, detail: &VersionDetail, host: &Host) -> (res: ResolvedLibs)
    ensures
        views(res.classpath@) == under_libraries(resolve_state(detail.libraries@, *paths, *host).0, *paths),
        res.natives@.map_values(|j: (String, Vec<String>)| native_view(j)) == resolve_state(
            detail.libraries@,
            *paths,
            *host,
        ).1,
{
    let features: Vec<(String, bool)> = Vec::new();
    let libs_dir = paths.libraries();
    let mut classpath: Vec<String> = Vec::new();
    let mut natives: Vec<(String, Vec<String>)> = Vec::new();
    let mut seen: Vec<String> = Vec::new();
    let n = detail.libraries.len();
    let mut i: usize = 0;
    while i < n
        invariant
            n == detail.libraries@.len(),
            i <= n,
            features@ == Seq::<(String, bool)>::empty(),
            libs_dir@ == paths.spec_libraries(),
            views(seen@) == resolve_state(detail.libraries@.take(i as int), *paths, *host).0,
            views(classpath@) == under_libraries(views(seen@), *paths),
            natives@.map_values(|j: (String, Vec<String>)| native_view(j)) == resolve_state(
                detail.libraries@.take(i as int),
                *paths,
                *host,
            ).1,
        decreases n - i,
    {
        let lib = &detail.libraries[i];
        assert(detail.libraries@.take(i as int + 1).drop_last() =~= detail.libraries@.take(i as int));
        let ghost nat_before = natives@.map_values(|j: (String, Vec<String>)| native_view(j));
        if rules_allow(&lib.rules, &features, host) {
            let key: Option<String> = match &lib.natives {
                Some(m) => natives_key(m, host),
                None => None,
            };
            match key {
                Some(k) => {
                    if let Some(dl) = &lib.downloads {
                        if let Some(ci) = find_key(&dl.classifiers, k.as_str()) {
                            let a = &dl.classifiers[ci].1;
                            let rel: Option<String> = match &a.path {
                                Some(r) => Some(r.clone()),
                                None => {
                                    let coord = text::concat3(lib.name.as_str(), ":", k.as_str());
                                    maven_to_path(coord.as_str())
                                },
                            };
                            if let Some(rel) = rel {
                                let entry = (join(libs_dir.as_str(), rel.as_str(), paths.sep), excludes(lib));
                                natives.push(entry);
                                assert(natives@.map_values(|j: (String, Vec<String>)| native_view(j)) =~= nat_before.push(native_view(entry)));
                            }
                        }
                    }
                },
                None => {
                    let path: Option<String> = match &lib.downloads {
                        Some(dl) => match &dl.artifact {
                            Some(a) => match &a.path {
                                Some(r) => Some(r.clone()),
                                None => None,
                            },
                            None => None,
                        },
                        None => None,
                    };
                    let rel = match path {
                        Some(r) => Some(r),
                        None => maven_to_path(lib.name.as_str()),
                    };
                    if let Some(rel) = rel {
                        if !text::contains_str(&seen, rel.as_str()) {
                            let ghost seen_before = views(seen@);
                            let ghost cp_before = views(classpath@);
                            let e = join(libs_dir.as_str(), rel.as_str(), paths.sep);
                            seen.push(rel);
                            classpath.push(e);
                            assert(views(seen@) =~= seen_before.push(rel@));
                            assert(views(classpath@) =~= cp_before.push(e@));
                            assert(under_libraries(views(seen@), *paths) =~= under_libraries(seen_before, *paths).push(e@));
                        }
                    }
                },
            }
        }
        i = i + 1;
    }
    assert(detail.libraries@.take(n as int) =~= detail.libraries@);
    ResolvedLibs { classpath, natives }
}


/// A file to download.
#[derive(Debug, Clone)]
pub struct Job {
    pub url: String,
    pub dest: String,
    pub sha1: Option<String>,
    pub size: Option<u64>,
}

/// A job as plain values: URL, destination, checksum and size.
pub open spec fn job_view(j: Job) -> (Seq<char>, Seq<char>, Option<Seq<char>>, Option<u64>) {
    (
        j.url@,
        j.dest@,
        match j.sha1 {
            Some(s) => Some(s@),
            None => None,
        },
        j.size,
    )
}

/// The download jobs of one library: its artifact (path, else Maven path) and
/// its host native (only when the classifier artifact names a path); a library
/// without `downloads` is fetched from its base URL when it has one.
pub open spec fn lib_install_jobs(lib: Library, p: Paths, host: Host) -> Seq<(Seq<char>, Seq<char>, Option<Seq<char>>, Option<u64>)> {
    let libs = p.spec_libraries();
    match lib.downloads {
        Some(dl) => {
            let art = match dl.artifact {
                Some(a) => {
                    let rel = match a.path {
                        Some(r) => Some(r@),
                        None => spec_maven_to_path(lib.name@),
                    };
                    match rel {
                        Some(r) => seq![(a.url@, spec_join(libs, r, p.sep), Some(a.sha1@), Some(a.size))],
                        None => Seq::empty(),
                    }
                },
                None => Seq::empty(),
            };
            let native = match native_key_of(lib, host) {
                Some(k) => match lookup(dl.classifiers@, k) {
                    Some(a) => match a.path {
                        Some(r) => seq![(a.url@, spec_join(libs, r@, p.sep), Some(a.sha1@), Some(a.size))],
                        None => Seq::empty(),
                    },
                    None => Seq::empty(),
                },
                None => Seq::empty(),
            };
            art + native
        },
        None => match (lib.url, spec_maven_to_path(lib.name@)) {
            (Some(base), Some(rel)) => seq![
                (text::trim_end_char(base@, '/') + "/"@ + rel, spec_join(libs, rel, p.sep), None, None),
            ],
            _ => Seq::empty(),
        },
    }
}

/// The jobs of all libraries that apply, in order.
pub open spec fn libs_install_jobs(libs: Seq<Library>, p: Paths, host: Host) -> Seq<(Seq<char>, Seq<char>, Option<Seq<char>>, Option<u64>)>
    decreases libs.len(),
{
    if libs.len() == 0 {
        Seq::empty()
    } else if spec_rules_allow(libs.last().rules, Seq::empty(), host) {
        libs_install_jobs(libs.drop_last(), p, host) + lib_install_jobs(libs.last(), p, host)
    } else {
        libs_install_jobs(libs.drop_last(), p, host)
    }
}

fn push_job(out: &mut Vec<Job>, j: Job)
    ensures
        final(out)@.map_values(|x: Job| job_view(x)) == old(out)@.map_values(|x: Job| job_view(x)).push(job_view(j)),
{
    out.push(j);
    assert(final(out)@.map_values(|x: Job| job_view(x)) =~= old(out)@.map_values(|x: Job| job_view(x)).push(job_view(j)));
}

fn library_install_jobs(out: &mut Vec<Job>, lib: &Library, p: &Paths, host: &Host)
    ensures
        final(out)@.map_values(|x: Job| job_view(x)) == old(out)@.map_values(|x: Job| job_view(x)) + lib_install_jobs(*lib, *p, *host),
{
    let libs = p.libraries();
    let ghost start = old(out)@.map_values(|x: Job| job_view(x));
    match &lib.downloads {
        Some(dl) => {
            if let Some(a) = &dl.artifact {
                let rel = match &a.path {
                    Some(r) => Some(r.clone()),
                    None => maven_to_path(lib.name.as_str()),
                };
                if let Some(rel) = rel {
                    push_job(out, Job {
                        url: a.url.clone(),
                        dest: join(libs.as_str(), rel.as_str(), p.sep),
                        sha1: Some(a.sha1.clone()),
                        size: Some(a.size),
                    });
                }
            }
            let ghost mid = out@.map_values(|x: Job| job_view(x));
            let key: Option<String> = match &lib.natives {
                Some(m) => natives_key(m, host),
                None => None,
            };
            if let Some(k) = key {
                if let Some(ci) = find_key(&dl.classifiers, k.as_str()) {
                    let a = &dl.classifiers[ci].1;
                    if let Some(r) = &a.path {
                        push_job(out, Job {
                            url: a.url.clone(),
                            dest: join(libs.as_str(), r.as_str(), p.sep),
                            sha1: Some(a.sha1.clone()),
                            size: Some(a.size),
                        });
                    }
                }
            }
            assert(out@.map_values(|x: Job| job_view(x)) =~= start + lib_install_jobs(*lib, *p, *host));
        },
        None => {
            if let Some(base) = &lib.url {
                if let Some(rel) = maven_to_path(lib.name.as_str()) {
                    let b = text::trim_end_matches(base.as_str(), '/');
                    push_job(out, Job {
                        url: text::concat3(b.as_str(), "/", rel.as_str()),
                        dest: join(libs.as_str(), rel.as_str(), p.sep),
                        sha1: None,
                        size: None,
                    });
                }
            }
            assert(out@.map_values(|x: Job| job_view(x)) =~= start + lib_install_jobs(*lib, *p, *host));
        },
    }
}

/// The downloads of a version other than its assets: the client jar, then
/// each applying library's files. An error when there is no client download.
pub fn install_jobs(p: &Paths, detail: &VersionDetail, host: &Host) -> (res: Result<Vec<Job>, Error>)
    ensures
        match detail.downloads.client {
            Some(c) => res matches Ok(jobs) && jobs@.map_values(|x: Job| job_view(x)) == seq![
                (c.url@, p.spec_version_jar(detail.id@), Some(c.sha1@), Some(c.size)),
            ] + libs_install_jobs(detail.libraries@, *p, *host),
            None => res matches Err(e) && e matches Error::Message(m) && m@ == "version "@
                + detail.id@ + " has no client download"@,
        },
{
    let client = match &detail.downloads.client {
        Some(c) => c,
        None => {
            return Err(Error::msg(text::concat3("version ", detail.id.as_str(), " has no client download")));
        },
    };
    let features: Vec<(String, bool)> = Vec::new();
    let mut jobs: Vec<Job> = Vec::new();
    assert(jobs@.map_values(|x: Job| job_view(x)) =~= Seq::empty());
    push_job(&mut jobs, Job {
        url: client.url.clone(),
        dest: p.version_jar(detail.id.as_str()),
        sha1: Some(client.sha1.clone()),
        size: Some(client.size),
    });
    let ghost head = jobs@.map_values(|x: Job| job_view(x));
    let n = detail.libraries.len();
    let mut i: usize = 0;
    while i < n
        invariant
            n == detail.libraries@.len(),
            i <= n,
            features@ == Seq::<(String, bool)>::empty(),
            jobs@.map_values(|x: Job| job_view(x)) == head + libs_install_jobs(detail.libraries@.take(i as int), *p, *host),
        decreases n - i,
    {
        let lib = &detail.libraries[i];
        assert(detail.libraries@.take(i as int + 1).drop_last() =~= detail.libraries@.take(i as int));
        let ghost before = jobs@.map_values(|x: Job| job_view(x));
        if rules_allow(&lib.rules, &features, host) {
            library_install_jobs(&mut jobs, lib, p, host);
            assert(head + libs_install_jobs(detail.libraries@.take(i as int + 1), *p, *host) =~= before + lib_install_jobs(*lib, *p, *host));
        }
        i = i + 1;
    }
    assert(detail.libraries@.take(n as int) =~= detail.libraries@);
    Ok(jobs)
}

/// Every asset hash can be cut after its second byte.
pub open spec fn hashes_cuttable(objects: Seq<(String, crate::minecraft::manifest::AssetObject)>) -> bool {
    forall|i: int|
        0 <= i < objects.len() ==> is_char_boundary(encode_utf8((#[trigger] objects[i]).1.hash@), 2)
}

/// The first two bytes of a hash, as characters.
pub open spec fn is_hash_prefix(prefix: Seq<char>, hash: Seq<char>) -> bool {
    encode_utf8(prefix) == encode_utf8(hash).subrange(0, 2)
}

/// The job of one asset object: `<prefix>/<hash>` on the resource server and
/// under `assets/objects`, checked against the hash and size.
pub open spec fn asset_job_is(obj: crate::minecraft::manifest::AssetObject, p: Paths, j: Job) -> bool {
    exists|prefix: Seq<char>|
        {
            &&& is_hash_prefix(prefix, obj.hash@)
            &&& job_view(j) == (
                "https://resources.download.minecraft.net/"@ + prefix + "/"@ + obj.hash@,
                spec_join(spec_join(p.spec_asset_objects(), prefix, p.sep), obj.hash@, p.sep),
                Some(obj.hash@),
                Some(obj.size),
            )
        }
}

/// The download jobs of all objects of an asset index, in index order.
pub fn asset_object_jobs(p: &Paths, index: &AssetIndex) -> (res: Vec<Job>)
    requires
        hashes_cuttable(index.objects@),
    ensures
        res@.len() == index.objects@.len(),
        forall|i: int| 0 <= i < res@.len() ==> asset_job_is(index.objects@[i].1, *p, #[trigger] res@[i]),
{
    let objects = p.asset_objects();
    let mut jobs: Vec<Job> = Vec::new();
    let n = index.objects.len();
    let mut i: usize = 0;
    while i < n
        invariant
            n == index.objects@.len(),
            i <= n,
            hashes_cuttable(index.objects@),
            objects@ == p.spec_asset_objects(),
            jobs@.len() == i,
            forall|k: int| 0 <= k < i ==> asset_job_is(index.objects@[k].1, *p, #[trigger] jobs@[k]),
        decreases n - i,
    {
        let obj = &index.objects[i].1;
        let h = obj.hash.as_str();
        assert(is_char_boundary(encode_utf8(index.objects@[i as int].1.hash@), 2));
        let (prefix, _) = h.split_at(2);
        let dir = join(objects.as_str(), prefix, p.sep);
        let mut url = text::owned("https://resources.download.minecraft.net/");
        text::push_str(&mut url, prefix);
        text::push_str(&mut url, "/");
        text::push_str(&mut url, h);
        let job = Job {
            url,
            dest: join(dir.as_str(), h, p.sep),
            sha1: Some(obj.hash.clone()),
            size: Some(obj.size),
        };
        proof {
            assert(url@ =~= "https://resources.download.minecraft.net/"@ + prefix@ + "/"@ + obj.hash@);
            assert(is_hash_prefix(prefix@, obj.hash@));
            assert(asset_job_is(*obj, *p, job));
        }
        jobs.push(job);
        i = i + 1;
    }
    jobs
}


/// Where a legacy asset index wants its files: `resources` under the root
/// when mapped to resources, else `assets/virtual/<index id>`; `None` when the
/// index is neither virtual nor mapped.
pub open spec fn legacy_target(p: Paths, index_id: Seq<char>, index: AssetIndex) -> Option<Seq<char>> {
    if index.map_to_resources {
        Some(spec_join(p.root@, "resources"@, p.sep))
    } else if index.is_virtual {
        Some(spec_join(spec_join(p.spec_assets(), "virtual"@, p.sep), index_id, p.sep))
    } else {
        None
    }
}

/// One legacy copy: from the hashed object store to the asset's name under `target`.
pub open spec fn legacy_copy_is(entry: (String, crate::minecraft::manifest::AssetObject), p: Paths, target: Seq<char>, copy: (String, String)) -> bool {
    exists|prefix: Seq<char>|
        {
            &&& is_hash_prefix(prefix, entry.1.hash@)
            &&& copy.0@ == spec_join(spec_join(p.spec_asset_objects(), prefix, p.sep), entry.1.hash@, p.sep)
            &&& copy.1@ == spec_join(target, entry.0@, p.sep)
        }
}

/// The copies that lay out a legacy asset index, in index order.
pub fn legacy_asset_copies(p: &Paths, index_id: &str, index: &AssetIndex) -> (res: Option<Vec<(String, String)>>)
    requires
        hashes_cuttable(index.objects@),
    ensures
        match legacy_target(*p, index_id@, *index) {
            None => res is None,
            Some(t) => res matches Some(v) && v@.len() == index.objects@.len() && forall|i: int|
                0 <= i < v@.len() ==> legacy_copy_is(index.objects@[i], *p, t, #[trigger] v@[i]),
        },
{
    let target = if index.map_to_resources {
        join(p.root.as_str(), "resources", p.sep)
    } else if index.is_virtual {
        let a = p.assets();
        let v = join(a.as_str(), "virtual", p.sep);
        join(v.as_str(), index_id, p.sep)
    } else {
        return None;
    };
    let objects = p.asset_objects();
    let mut copies: Vec<(String, String)> = Vec::new();
    let n = index.objects.len();
    let mut i: usize = 0;
    while i < n
        invariant
            n == index.objects@.len(),
            i <= n,
            hashes_cuttable(index.objects@),
            objects@ == p.spec_asset_objects(),
            legacy_target(*p, index_id@, *index) == Some(target@),
            copies@.len() == i,
            forall|k: int| 0 <= k < i ==> legacy_copy_is(index.objects@[k], *p, target@, #[trigger] copies@[k]),
        decreases n - i,
    {
        let name = &index.objects[i].0;
        let h = index.objects[i].1.hash.as_str();
        assert(is_char_boundary(encode_utf8(index.objects@[i as int].1.hash@), 2));
        let (prefix, _) = h.split_at(2);
        let dir = join(objects.as_str(), prefix, p.sep);
        let copy = (join(dir.as_str(), h, p.sep), join(target.as_str(), name.as_str(), p.sep));
        assert(is_hash_prefix(prefix@, h@));
        assert(legacy_copy_is(index.objects@[i as int], *p, target@, copy));
        copies.push(copy);
        i = i + 1;
    }
    Some(copies)
}

/// The name of a native archive entry, with backslashes as slashes, when it is
/// to be unpacked: not a directory, not under `META-INF/`, not under any
/// excluded prefix (trailing slashes dropped), and a native binary (`.dll`,
/// `.so`, `.so.`, `.dylib` or `.jnilib`).
pub open spec fn spec_native_entry(name: Seq<char>, exclude: Seq<Seq<char>>) -> Option<Seq<char>> {
    let n = text::spec_replace(name, "\\"@, "/"@);
    if text::spec_ends_with(n, "/"@) || text::spec_starts_with(n, "META-INF/"@) {
        None
    } else if exists|i: int| 0 <= i < exclude.len() && text::spec_starts_with(n, text::trim_end_char(#[trigger] exclude[i], '/')) {
        None
    } else if text::spec_ends_with(n, ".dll"@) || text::spec_ends_with(n, ".so"@) || text::spec_contains(n, ".so."@)
        || text::spec_ends_with(n, ".dylib"@) || text::spec_ends_with(n, ".jnilib"@) {
        Some(n)
    } else {
        None
    }
}

/// Whether a native archive entry is to be unpacked, and its normalized name.
pub fn native_entry(name: &str, exclude: &Vec<String>) -> (res: Option<String>)
    ensures
        match res {
            Some(n) => spec_native_entry(name@, views(exclude@)) == Some(n@),
            None => spec_native_entry(name@, views(exclude@)) is None,
        },
{
    proof {
        reveal_strlit("\\");
    }
    let n = text::replace(name, "\\", "/");
    if text::ends_with(n.as_str(), "/") || text::starts_with(n.as_str(), "META-INF/") {
        return None;
    }
    let m = exclude.len();
    let mut i: usize = 0;
    while i < m
        invariant
            m == exclude@.len(),
            i <= m,
            n@ == text::spec_replace(name@, "\\"@, "/"@),
            forall|k: int| 0 <= k < i ==> !text::spec_starts_with(n@, text::trim_end_char(#[trigger] views(exclude@)[k], '/')),
        decreases m - i,
    {
        let pfx = text::trim_end_matches(exclude[i].as_str(), '/');
        if text::starts_with(n.as_str(), pfx.as_str()) {
            assert(views(exclude@)[i as int] == exclude@[i as int]@);
            assert(text::spec_starts_with(n@, text::trim_end_char(views(exclude@)[i as int], '/')));
            return None;
        }
        i = i + 1;
    }
    let s = n.as_str();
    if text::ends_with(s, ".dll") || text::ends_with(s, ".so") || text::contains(s, ".so.")
        || text::ends_with(s, ".dylib") || text::ends_with(s, ".jnilib") {
        Some(n)
    } else {
        None
    }
}

/// A library path lands on the classpath at most once, however many libraries
/// name it.
pub proof fn law_classpath_has_no_duplicates(libs: Seq<Library>, p: Paths, host: Host)
    ensures
        resolve_state(libs, p, host).0.no_duplicates(),
    decreases libs.len(),
{
    if libs.len() > 0 {
        law_classpath_has_no_duplicates(libs.drop_last(), p, host);
        let rels = resolve_state(libs.drop_last(), p, host).0;
        assert forall|r: Seq<char>| !rels.contains(r) implies #[trigger] rels.push(r).no_duplicates() by {
            assert forall|i: int, j: int|
                0 <= i < rels.push(r).len() && 0 <= j < rels.push(r).len() && i != j implies rels.push(r)[i]
                != rels.push(r)[j] by {
                if i == rels.len() {
                    assert(rels[j] == rels.push(r)[j]);
                } else if j == rels.len() {
                    assert(rels[i] == rels.push(r)[i]);
                }
            }
        }
    }
}

/// The status shown while the asset index is fetched.
pub const FETCHING_ASSET_INDEX: &'static str = "Скачивание индекса ресурсов / Fetching asset index";

/// The status shown while legacy assets are laid out.
pub const PREPARING_LEGACY_ASSETS: &'static str = "Подготовка ресурсов / Preparing legacy assets";

/// The status shown when the installation is done.
pub const INSTALL_DONE: &'static str = "Готово / Done";

/// The status shown before `total` files are downloaded.
pub fn download_start_status(total: u64) -> (res: String)
    ensures
        res@ == "Загрузка файлов: 0/"@ + text::dec(total as nat),
{
    text::concat2("Загрузка файлов: 0/", text::u64_to_string(total).as_str())
}

/// The status shown after `n` of `total` files were downloaded: at every
/// eighth file and at the last.
pub fn download_status(n: u64, total: u64) -> (res: Option<String>)
    ensures
        match res {
            Some(m) => (n % 8 == 0 || n == total) && m@ == "Загрузка файлов / Downloading: "@
                + text::dec(n as nat) + "/"@ + text::dec(total as nat),
            None => !(n % 8 == 0 || n == total),
        },
{
    if n % 8 == 0 || n == total {
        let a = text::concat3("Загрузка файлов / Downloading: ", text::u64_to_string(n).as_str(), "/");
        Some(text::concat2(a.as_str(), text::u64_to_string(total).as_str()))
    } else {
        None
    }
}

} // verus!
