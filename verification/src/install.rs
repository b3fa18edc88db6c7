use vstd::prelude::*;

use crate::digest::{sha1_digest, spec_sha1};
use crate::error::Error;
use crate::mojang::{
    artifact_path, library_allowed, native_classifier, spec_artifact_path, spec_native_classifier,
    lookup, find_key, Artifact, AssetIndex, Library, LoggingClient, VersionMeta,
};
use crate::paths::{
    assets_dir, join, libraries_dir, spec_assets_dir, spec_join, spec_libraries_dir,
    spec_version_jar, version_jar, DataDir,
};
use vstd::utf8::{encode_utf8, is_char_boundary};
use crate::platform::{Host, TargetArch};
use crate::rules::{spec_rules_allow, Features};
use crate::text::{self, spec_hex_lower, spec_replace, views};

verus! {

/// The lowercase hexadecimal SHA-1 of `data`.
pub fn sha1_hex(data: &[u8]) -> (res: String)
    ensures
        res@ == spec_hex_lower(spec_sha1(data@)),
{
    let d = sha1_digest(data);
    text::hex_lower(d.as_slice())
}


/// Where asset objects are downloaded from.
pub const ASSET_CDN: &'static str = "https://resources.download.minecraft.net";

/// Where libraries are downloaded from when no URL is given.
pub const LIB_CDN: &'static str = "https://libraries.minecraft.net";

/// Progress of an installation stage.
#[derive(Debug, Clone)]
pub struct Progress {
    pub stage: String,
    pub current: u64,
    pub total: u64,
    pub detail: String,
}

/// One file to download.
#[derive(Debug, Clone)]
pub struct DownloadJob {
    pub dest: String,
    pub url: String,
    pub sha1: String,
    pub size: u64,
}

/// The token that replaces `${arch}` in native classifiers: `32` on x86, else `64`.
pub open spec fn spec_native_arch_token(host: Host) -> Seq<char> {
    if host.arch == TargetArch::X86 {
        "32"@
    } else {
        "64"@
    }
}

/// The token that replaces `${arch}` in native classifiers.
pub fn native_arch_token(host: &Host) -> (res: &'static str)
    ensures
        res@ == spec_native_arch_token(*host),
{
    if host.arch == TargetArch::X86 {
        "32"
    } else {
        "64"
    }
}

/// A string field or the empty string.
pub open spec fn text_or_empty(o: Option<String>) -> Seq<char> {
    match o {
        Some(s) => s@,
        None => Seq::empty(),
    }
}

/// A size field or zero.
pub open spec fn size_or_zero(o: Option<u64>) -> u64 {
    match o {
        Some(n) => n,
        None => 0,
    }
}

/// The URL of a library file: the artifact's own, else under the library CDN.
pub open spec fn cdn_url(url: Option<String>, rel: Seq<char>) -> Seq<char> {
    match url {
        Some(u) => u@,
        None => LIB_CDN@ + "/"@ + rel,
    }
}

fn url_or_cdn(url: &Option<String>, rel: &str) -> (res: String)
    ensures
        res@ == cdn_url(*url, rel@),
{
    match url {
        Some(u) => u.clone(),
        None => text::concat3(LIB_CDN, "/", rel),
    }
}

fn text_or_default(o: &Option<String>) -> (res: String)
    ensures
        res@ == text_or_empty(*o),
{
    match o {
        Some(s) => s.clone(),
        None => String::new(),
    }
}

/// A download job described by its parts.
pub open spec fn job_is(j: DownloadJob, dest: Seq<char>, url: Seq<char>, sha1: Seq<char>, size: u64) -> bool {
    j.dest@ == dest && j.url@ == url && j.sha1@ == sha1 && j.size == size
}

/// The job for a library's main jar: from its `artifact` entry when present
/// (path defaulting to the Maven path); none for a native-only library; else
/// the Maven path under the library's base URL or the library CDN.
pub open spec fn library_job_spec(lib: Library, d: DataDir, j: Option<DownloadJob>) -> bool {
    let libs = spec_libraries_dir(d);
    let art = match lib.downloads {
        Some(dl) => dl.artifact,
        None => None,
    };
    match art {
        Some(a) => {
            let rel = match a.path {
                Some(p) => p@,
                None => spec_artifact_path(lib.name@, None),
            };
            j matches Some(job) && job_is(
                job,
                spec_join(libs, rel, d.sep),
                cdn_url(a.url, rel),
                text_or_empty(a.sha1),
                size_or_zero(a.size),
            )
        },
        None => if lib.natives is Some && lib.downloads is Some {
            j is None
        } else {
            let rel = spec_artifact_path(lib.name@, None);
            let base = match lib.url {
                Some(u) => u@,
                None => LIB_CDN@ + "/"@,
            };
            let url = if base.len() > 0 && base.last() == '/' {
                base + rel
            } else {
                base + "/"@ + rel
            };
            j matches Some(job) && job_is(
                job,
                spec_join(libs, rel, d.sep),
                url,
                Seq::empty(),
                0,
            )
        },
    }
}

/// The download job for a library's main jar.
pub fn library_artifact_job(lib: &Library, d: &DataDir) -> (res: Option<DownloadJob>)
    ensures
        library_job_spec(*lib, *d, res),
{
    let libs = libraries_dir(d);
    let art: Option<&Artifact> = match &lib.downloads {
        Some(dl) => match &dl.artifact {
            Some(a) => Some(a),
            None => None,
        },
        None => None,
    };
    if let Some(a) = art {
        let rel = match &a.path {
            Some(p) => p.clone(),
            None => artifact_path(lib.name.as_str(), None),
        };
        let dest = join(libs.as_str(), rel.as_str(), d.sep);
        return Some(
            DownloadJob {
                dest,
                url: url_or_cdn(&a.url, rel.as_str()),
                sha1: text_or_default(&a.sha1),
                size: match a.size {
                    Some(n) => n,
                    None => 0,
                },
            },
        );
    }
    if lib.natives.is_some() && lib.downloads.is_some() {
        return None;
    }
    let rel = artifact_path(lib.name.as_str(), None);
    let base = match &lib.url {
        Some(u) => u.clone(),
        None => text::concat2(LIB_CDN, "/"),
    };
    let url = if text::ends_with(base.as_str(), "/") {
        text::concat2(base.as_str(), rel.as_str())
    } else {
        text::concat3(base.as_str(), "/", rel.as_str())
    };
    proof {
        reveal_strlit("/");
        let b = base@;
        if b.len() > 0 && b.last() == '/' {
            assert(b.subrange(b.len() - 1, b.len() as int) =~= "/"@);
        }
        if text::spec_ends_with(b, "/"@) {
            assert(b.last() == b.subrange(b.len() - 1, b.len() as int)[0]);
        }
    }
    Some(
        DownloadJob {
            dest: join(libs.as_str(), rel.as_str(), d.sep),
            url,
            sha1: String::new(),
            size: 0,
        },
    )
}


/// The host's native classifier of a library, with `${arch}` replaced.
pub open spec fn spec_host_classifier(lib: Library, host: Host) -> Option<Seq<char>> {
    match spec_native_classifier(lib, host) {
        Some(c) => Some(spec_replace(c, "${arch}"@, spec_native_arch_token(host))),
        None => None,
    }
}

/// The classifier artifacts of a library.
pub open spec fn classifiers_of(lib: Library) -> Option<Vec<(String, Artifact)>> {
    match lib.downloads {
        Some(dl) => dl.classifiers,
        None => None,
    }
}

/// The job for a library's native jar, when it has a classifier for this host:
/// from the matching classifier artifact (path defaulting to the Maven path
/// with the classifier), else the Maven path on the library CDN.
pub open spec fn native_job_spec(lib: Library, d: DataDir, host: Host, j: Option<DownloadJob>) -> bool {
    let libs = spec_libraries_dir(d);
    match spec_host_classifier(lib, host) {
        None => j is None,
        Some(c) => {
            let found = match classifiers_of(lib) {
                Some(cl) => lookup(cl@, c),
                None => None,
            };
            match found {
                Some(a) => {
                    let rel = match a.path {
                        Some(p) => p@,
                        None => spec_artifact_path(lib.name@, Some(c)),
                    };
                    j matches Some(job) && job_is(
                        job,
                        spec_join(libs, rel, d.sep),
                        cdn_url(a.url, rel),
                        text_or_empty(a.sha1),
                        size_or_zero(a.size),
                    )
                },
                None => {
                    let rel = spec_artifact_path(lib.name@, Some(c));
                    j matches Some(job) && job_is(
                        job,
                        spec_join(libs, rel, d.sep),
                        LIB_CDN@ + "/"@ + rel,
                        Seq::empty(),
                        0,
                    )
                },
            }
        },
    }
}

/// The host's native classifier of a library, with `${arch}` replaced.
pub fn host_classifier(lib: &Library, host: &Host) -> (res: Option<String>)
    ensures
        match res {
            Some(c) => spec_host_classifier(*lib, *host) == Some(c@),
            None => spec_host_classifier(*lib, *host) is None,
        },
{
    match native_classifier(lib, host) {
        Some(c) => {
            proof {
                reveal_strlit("${arch}");
            }
            Some(text::replace(c.as_str(), "${arch}", native_arch_token(host)))
        },
        None => None,
    }
}

/// The download job for a library's native jar on this host.
pub fn native_artifact_job(lib: &Library, d: &DataDir, host: &Host) -> (res: Option<DownloadJob>)
    ensures
        native_job_spec(*lib, *d, *host, res),
{
    let classifier = match host_classifier(lib, host) {
        Some(c) => c,
        None => {
            return None;
        },
    };
    let libs = libraries_dir(d);
    let found: Option<&Artifact> = match &lib.downloads {
        Some(dl) => match &dl.classifiers {
            Some(cl) => match find_key(cl, classifier.as_str()) {
                Some(i) => Some(&cl[i].1),
                None => None,
            },
            None => None,
        },
        None => None,
    };
    if let Some(a) = found {
        let rel = match &a.path {
            Some(p) => p.clone(),
            None => artifact_path(lib.name.as_str(), Some(classifier.as_str())),
        };
        return Some(
            DownloadJob {
                dest: join(libs.as_str(), rel.as_str(), d.sep),
                url: url_or_cdn(&a.url, rel.as_str()),
                sha1: text_or_default(&a.sha1),
                size: match a.size {
                    Some(n) => n,
                    None => 0,
                },
            },
        );
    }
    let rel = artifact_path(lib.name.as_str(), Some(classifier.as_str()));
    Some(
        DownloadJob {
            dest: join(libs.as_str(), rel.as_str(), d.sep),
            url: text::concat3(LIB_CDN, "/", rel.as_str()),
            sha1: String::new(),
            size: 0,
        },
    )
}

/// The artifact a job downloads: no path, the checksum and size when given
/// (empty checksum and zero size count as none), and the URL.
pub fn job_as_artifact(job: &DownloadJob) -> (res: Artifact)
    ensures
        res.path is None,
        match res.sha1 {
            Some(s) => job.sha1@.len() > 0 && s@ == job.sha1@,
            None => job.sha1@.len() == 0,
        },
        res.size == (if job.size == 0 {
            None
        } else {
            Some(job.size)
        }),
        res.url matches Some(u) && u@ == job.url@,
{
    Artifact {
        path: None,
        sha1: if job.sha1.as_str().is_empty() {
            None
        } else {
            Some(job.sha1.clone())
        },
        size: if job.size == 0 {
            None
        } else {
            Some(job.size)
        },
        url: Some(job.url.clone()),
    }
}

/// The jobs that one library contributes: its main jar, then its native jar.
pub open spec fn lib_jobs(lib: Library, d: DataDir, host: Host, jobs: Seq<DownloadJob>) -> bool {
    exists|a: Option<DownloadJob>, n: Option<DownloadJob>|
        {
            &&& library_job_spec(lib, d, a)
            &&& native_job_spec(lib, d, host, n)
            &&& jobs == opt_seq(a) + opt_seq(n)
        }
}

/// An optional value as a sequence of zero or one elements.
pub open spec fn opt_seq<T>(o: Option<T>) -> Seq<T> {
    match o {
        Some(x) => seq![x],
        None => Seq::empty(),
    }
}

/// The jobs of all libraries that apply on this host, library by library.
pub open spec fn libraries_jobs(
    libs: Seq<Library>,
    d: DataDir,
    host: Host,
    features: Features,
    jobs: Seq<DownloadJob>,
) -> bool
    decreases libs.len(),
{
    if libs.len() == 0 {
        jobs.len() == 0
    } else if !spec_rules_allow(libs.last().rules@, features, host) {
        libraries_jobs(libs.drop_last(), d, host, features, jobs)
    } else {
        exists|k: int|
            0 <= k <= jobs.len() && libraries_jobs(
                libs.drop_last(),
                d,
                host,
                features,
                jobs.take(k),
            ) && lib_jobs(libs.last(), d, host, jobs.skip(k))
    }
}

fn push_opt(out: &mut Vec<DownloadJob>, o: Option<DownloadJob>)
    ensures
        final(out)@ == old(out)@ + opt_seq(o),
{
    match o {
        Some(j) => {
            out.push(j);
        },
        None => {},
    }
    assert(final(out)@ =~= old(out)@ + opt_seq(o));
}

/// The library and native downloads of a version, for the libraries that
/// apply with no special features.
pub fn library_jobs(meta: &VersionMeta, d: &DataDir, host: &Host) -> (res: Vec<DownloadJob>)
    ensures
        libraries_jobs(meta.libraries@, *d, *host, Features { demo: false, custom_resolution: false }, res@),
{
    let features = Features { demo: false, custom_resolution: false };
    let mut jobs: Vec<DownloadJob> = Vec::new();
    let n = meta.libraries.len();
    let mut i: usize = 0;
    while i < n
        invariant
            n == meta.libraries@.len(),
            i <= n,
            features == (Features { demo: false, custom_resolution: false }),
            libraries_jobs(meta.libraries@.take(i as int), *d, *host, features, jobs@),
        decreases n - i,
    {
        let lib = &meta.libraries[i];
        assert(meta.libraries@.take(i as int + 1).drop_last() =~= meta.libraries@.take(i as int));
        let ghost before = jobs@;
        if library_allowed(lib, &features, host) {
            let a = library_artifact_job(lib, d);
            let nj = native_artifact_job(lib, d, host);
            let ghost ga = a;
            let ghost gn = nj;
            push_opt(&mut jobs, a);
            push_opt(&mut jobs, nj);
            proof {
                let k = before.len() as int;
                assert(jobs@.take(k) =~= before);
                assert(jobs@.skip(k) =~= opt_seq(ga) + opt_seq(gn));
                assert(lib_jobs(*lib, *d, *host, jobs@.skip(k)));
            }
        }
        i = i + 1;
    }
    assert(meta.libraries@.take(n as int) =~= meta.libraries@);
    jobs
}


/// Every asset hash can be cut after its second byte.
pub open spec fn hashes_cuttable(objects: Seq<(String, crate::mojang::AssetObject)>) -> bool {
    forall|i: int|
        0 <= i < objects.len() ==> is_char_boundary(encode_utf8((#[trigger] objects[i]).1.hash@), 2)
}

/// The download job of one asset object: `<prefix>/<hash>` under
/// `assets/objects` and on the asset CDN, where the prefix is the hash's first
/// two bytes.
pub open spec fn asset_job_spec(obj: crate::mojang::AssetObject, d: DataDir, j: DownloadJob) -> bool {
    exists|prefix: Seq<char>|
        {
            &&& encode_utf8(prefix) == encode_utf8(obj.hash@).subrange(0, 2)
            &&& job_is(
                j,
                spec_join(
                    spec_join(spec_assets_dir(d), "objects"@, d.sep),
                    prefix + "/"@ + obj.hash@,
                    d.sep,
                ),
                ASSET_CDN@ + "/"@ + prefix + "/"@ + obj.hash@,
                obj.hash@,
                obj.size,
            )
        }
}

/// The download jobs of all objects of an asset index, in index order.
pub fn asset_jobs(index: &AssetIndex, d: &DataDir) -> (res: Vec<DownloadJob>)
    requires
        hashes_cuttable(index.objects@),
    ensures
        res@.len() == index.objects@.len(),
        forall|i: int|
            0 <= i < res@.len() ==> asset_job_spec(index.objects@[i].1, *d, #[trigger] res@[i]),
{
    let assets = assets_dir(d);
    let objects = join(assets.as_str(), "objects", d.sep);
    let mut jobs: Vec<DownloadJob> = Vec::new();
    let n = index.objects.len();
    let mut i: usize = 0;
    while i < n
        invariant
            n == index.objects@.len(),
            i <= n,
            hashes_cuttable(index.objects@),
            objects@ == spec_join(spec_assets_dir(*d), "objects"@, d.sep),
            jobs@.len() == i,
            forall|k: int|
                0 <= k < i ==> asset_job_spec(index.objects@[k].1, *d, #[trigger] jobs@[k]),
        decreases n - i,
    {
        let obj = &index.objects[i].1;
        let h = obj.hash.as_str();
        assert(is_char_boundary(encode_utf8(index.objects@[i as int].1.hash@), 2));
        let (prefix, _) = h.split_at(2);
        let rel = text::concat3(prefix, "/", h);
        let job = DownloadJob {
            dest: join(objects.as_str(), rel.as_str(), d.sep),
            url: text::concat3(ASSET_CDN, "/", rel.as_str()),
            sha1: obj.hash.clone(),
            size: obj.size,
        };
        proof {
            assert(job.url@ =~= ASSET_CDN@ + "/"@ + prefix@ + "/"@ + obj.hash@);
            assert(asset_job_spec(*obj, *d, job));
        }
        jobs.push(job);
        i = i + 1;
    }
    jobs
}

/// A library's entry on the classpath: its artifact path (or Maven path)
/// under the libraries directory; a native-only library has none.
pub open spec fn classpath_entry(lib: Library, d: DataDir) -> Option<Seq<char>> {
    let art = match lib.downloads {
        Some(dl) => dl.artifact,
        None => None,
    };
    match art {
        Some(a) => Some(
            spec_join(
                spec_libraries_dir(d),
                match a.path {
                    Some(p) => p@,
                    None => spec_artifact_path(lib.name@, None),
                },
                d.sep,
            ),
        ),
        None => if lib.natives is Some {
            None
        } else {
            Some(spec_join(spec_libraries_dir(d), spec_artifact_path(lib.name@, None), d.sep))
        },
    }
}

/// The classpath entries of the libraries that apply, in order.
pub open spec fn classpath_entries(libs: Seq<Library>, d: DataDir, host: Host) -> Seq<Seq<char>>
    decreases libs.len(),
{
    if libs.len() == 0 {
        Seq::empty()
    } else {
        let rest = classpath_entries(libs.drop_last(), d, host);
        if spec_rules_allow(
            libs.last().rules@,
            Features { demo: false, custom_resolution: false },
            host,
        ) {
            match classpath_entry(libs.last(), d) {
                Some(e) => rest.push(e),
                None => rest,
            }
        } else {
            rest
        }
    }
}

/// Some job of `jobs` downloads to `dest`.
pub open spec fn downloads_to(jobs: Seq<DownloadJob>, dest: Seq<char>) -> bool {
    exists|j: int| 0 <= j < jobs.len() && (#[trigger] jobs[j]).dest@ == dest
}

/// Every library jar on the classpath is one that the library downloads fetch:
/// for the libraries that apply, each classpath entry is the destination of a
/// library job.
pub proof fn law_classpath_jars_are_downloaded(libs: Seq<Library>, d: DataDir, host: Host, jobs: Seq<DownloadJob>)
    requires
        libraries_jobs(libs, d, host, Features { demo: false, custom_resolution: false }, jobs),
    ensures
        forall|i: int|
            0 <= i < classpath_entries(libs, d, host).len() ==> downloads_to(
                jobs,
                #[trigger] classpath_entries(libs, d, host)[i],
            ),
    decreases libs.len(),
{
    let f = Features { demo: false, custom_resolution: false };
    if libs.len() > 0 {
        let rest = libs.drop_last();
        let lib = libs.last();
        if !spec_rules_allow(lib.rules@, f, host) {
            law_classpath_jars_are_downloaded(rest, d, host, jobs);
            assert(classpath_entries(libs, d, host) == classpath_entries(rest, d, host));
        } else {
            let k = choose|k: int|
                0 <= k <= jobs.len() && libraries_jobs(rest, d, host, f, jobs.take(k)) && lib_jobs(
                    lib,
                    d,
                    host,
                    jobs.skip(k),
                );
            law_classpath_jars_are_downloaded(rest, d, host, jobs.take(k));
            let before = classpath_entries(rest, d, host);
            let all = classpath_entries(libs, d, host);
            assert forall|i: int| 0 <= i < all.len() implies downloads_to(jobs, #[trigger] all[i]) by {
                if i < before.len() {
                    assert(all[i] == before[i]);
                    assert(downloads_to(jobs.take(k), before[i]));
                    let j = choose|j: int| 0 <= j < jobs.take(k).len() && (#[trigger] jobs.take(k)[j]).dest@ == before[i];
                    assert(jobs[j] == jobs.take(k)[j]);
                } else {
                    let (a, n) = choose|a: Option<DownloadJob>, n: Option<DownloadJob>|
                        {
                            &&& library_job_spec(lib, d, a)
                            &&& native_job_spec(lib, d, host, n)
                            &&& jobs.skip(k) == opt_seq(a) + opt_seq(n)
                        };
                    assert(classpath_entry(lib, d) is Some);
                    assert(a is Some);
                    let job = a->0;
                    assert(jobs.skip(k)[0] == job);
                    assert(jobs.skip(k).len() > 0);
                    assert(k < jobs.len());
                    assert(jobs.skip(k)[0] == jobs[k]);
                    assert(job.dest@ == all[i]);
                    assert(jobs[k].dest@ == all[i]);
                }
            }
        }
    }
}

/// The game classpath: the library entries, then the version jar when it
/// exists, else the inherited version's jar when there is a parent.
pub open spec fn spec_classpath(
    meta: VersionMeta,
    d: DataDir,
    host: Host,
    jar_exists: bool,
    sep: Seq<char>,
) -> Seq<char> {
    let libs = classpath_entries(meta.libraries@, d, host);
    let all = if jar_exists {
        libs.push(spec_version_jar(d, meta.id@))
    } else {
        match meta.inherits_from {
            Some(p) => libs.push(spec_version_jar(d, p@)),
            None => libs,
        }
    };
    text::seq_join(all, sep)
}

/// The game classpath; `jar_exists` says whether the version's own jar is on disk.
pub fn classpath(meta: &VersionMeta, d: &DataDir, host: &Host, jar_exists: bool) -> (res: String)
    ensures
        res@ == spec_classpath(*meta, *d, *host, jar_exists, crate::paths::spec_classpath_sep(*host)),
{
    let features = Features { demo: false, custom_resolution: false };
    let libs = libraries_dir(d);
    let mut entries: Vec<String> = Vec::new();
    let n = meta.libraries.len();
    let mut i: usize = 0;
    while i < n
        invariant
            n == meta.libraries@.len(),
            i <= n,
            features == (Features { demo: false, custom_resolution: false }),
            libs@ == spec_libraries_dir(*d),
            views(entries@) == classpath_entries(meta.libraries@.take(i as int), *d, *host),
        decreases n - i,
    {
        let lib = &meta.libraries[i];
        assert(meta.libraries@.take(i as int + 1).drop_last() =~= meta.libraries@.take(i as int));
        if library_allowed(lib, &features, host) {
            let art: Option<&Artifact> = match &lib.downloads {
                Some(dl) => match &dl.artifact {
                    Some(a) => Some(a),
                    None => None,
                },
                None => None,
            };
            let ghost before = entries@;
            match art {
                Some(a) => {
                    let rel = match &a.path {
                        Some(p) => p.clone(),
                        None => artifact_path(lib.name.as_str(), None),
                    };
                    let e = join(libs.as_str(), rel.as_str(), d.sep);
                    entries.push(e);
                    assert(views(entries@) =~= views(before).push(e@));
                },
                None => {
                    if lib.natives.is_none() {
                        let rel = artifact_path(lib.name.as_str(), None);
                        let e = join(libs.as_str(), rel.as_str(), d.sep);
                        entries.push(e);
                        assert(views(entries@) =~= views(before).push(e@));
                    }
                },
            }
        }
        i = i + 1;
    }
    assert(meta.libraries@.take(n as int) =~= meta.libraries@);
    let ghost lib_entries = views(entries@);
    if jar_exists {
        let jar = version_jar(d, meta.id.as_str());
        entries.push(jar);
        assert(views(entries@) =~= lib_entries.push(jar@));
    } else if let Some(parent) = &meta.inherits_from {
        let jar = version_jar(d, parent.as_str());
        entries.push(jar);
        assert(views(entries@) =~= lib_entries.push(jar@));
    }
    text::join(&entries, crate::paths::classpath_sep(host))
}

/// The native jars of a version on this host, with the paths to leave out of
/// each: for every applying library with a native classifier, the classifier
/// artifact's path (or the Maven path with the classifier).
pub open spec fn native_jar_entry(lib: Library, d: DataDir, host: Host) -> Option<(Seq<char>, Seq<Seq<char>>)> {
    match spec_host_classifier(lib, host) {
        None => None,
        Some(c) => {
            let found = match classifiers_of(lib) {
                Some(cl) => lookup(cl@, c),
                None => None,
            };
            let rel = match found {
                Some(a) => match a.path {
                    Some(p) => p@,
                    None => spec_artifact_path(lib.name@, Some(c)),
                },
                None => spec_artifact_path(lib.name@, Some(c)),
            };
            let exclude = match lib.extract {
                Some(e) => views(e.exclude@),
                None => Seq::empty(),
            };
            Some((spec_join(spec_libraries_dir(d), rel, d.sep), exclude))
        },
    }
}

/// The native jars of the libraries that apply, in order.
pub open spec fn native_jar_entries(libs: Seq<Library>, d: DataDir, host: Host) -> Seq<(Seq<char>, Seq<Seq<char>>)>
    decreases libs.len(),
{
    if libs.len() == 0 {
        Seq::empty()
    } else {
        let rest = native_jar_entries(libs.drop_last(), d, host);
        if spec_rules_allow(
            libs.last().rules@,
            Features { demo: false, custom_resolution: false },
            host,
        ) {
            match native_jar_entry(libs.last(), d, host) {
                Some(e) => rest.push(e),
                None => rest,
            }
        } else {
            rest
        }
    }
}

/// A jar path with its exclusions, as plain sequences.
pub open spec fn jar_view(j: (String, Vec<String>)) -> (Seq<char>, Seq<Seq<char>>) {
    (j.0@, views(j.1@))
}

/// The native jars to unpack for a version on this host.
pub fn native_jars(meta: &VersionMeta, d: &DataDir, host: &Host) -> (res: Vec<(String, Vec<String>)>)
    ensures
        res@.map_values(|j: (String, Vec<String>)| jar_view(j)) == native_jar_entries(meta.libraries@, *d, *host),
{
    let features = Features { demo: false, custom_resolution: false };
    let libs = libraries_dir(d);
    let mut out: Vec<(String, Vec<String>)> = Vec::new();
    let n = meta.libraries.len();
    let mut i: usize = 0;
    while i < n
        invariant
            n == meta.libraries@.len(),
            i <= n,
            features == (Features { demo: false, custom_resolution: false }),
            libs@ == spec_libraries_dir(*d),
            out@.map_values(|j: (String, Vec<String>)| jar_view(j)) == native_jar_entries(meta.libraries@.take(i as int), *d, *host),
        decreases n - i,
    {
        let lib = &meta.libraries[i];
        assert(meta.libraries@.take(i as int + 1).drop_last() =~= meta.libraries@.take(i as int));
        if library_allowed(lib, &features, host) {
            if let Some(c) = host_classifier(lib, host) {
                let found: Option<&Artifact> = match &lib.downloads {
                    Some(dl) => match &dl.classifiers {
                        Some(cl) => match find_key(cl, c.as_str()) {
                            Some(k) => Some(&cl[k].1),
                            None => None,
                        },
                        None => None,
                    },
                    None => None,
                };
                let rel = match found {
                    Some(a) => match &a.path {
                        Some(p) => p.clone(),
                        None => artifact_path(lib.name.as_str(), Some(c.as_str())),
                    },
                    None => artifact_path(lib.name.as_str(), Some(c.as_str())),
                };
                let exclude: Vec<String> = match &lib.extract {
                    Some(e) => e.exclude.clone(),
                    None => Vec::new(),
                };
                proof {
                    let ex = lib.extract;
                    if ex is Some {
                        let e = ex->0;
                        assert forall|k: int| 0 <= k < exclude@.len() implies exclude@[k] == e.exclude@[k] by {
                            assert(cloned::<String>(e.exclude@[k], exclude@[k]));
                        }
                        assert(exclude@ =~= e.exclude@);
                    } else {
                        assert(views(exclude@) =~= Seq::<Seq<char>>::empty());
                    }
                }
                let jar = join(libs.as_str(), rel.as_str(), d.sep);
                let ghost before = out@;
                assert(jar_view((jar, exclude)) == native_jar_entry(*lib, *d, *host).unwrap());
                out.push((jar, exclude));
                assert(out@.map_values(|j: (String, Vec<String>)| jar_view(j)) =~= before.map_values(|j: (String, Vec<String>)| jar_view(j)).push(jar_view((jar, exclude))));
            }
        }
        i = i + 1;
    }
    assert(meta.libraries@.take(n as int) =~= meta.libraries@);
    out
}


/// The archive entry name with backslashes as slashes, when the entry is to be
/// unpacked: not a directory, not under `META-INF`, and not under any excluded prefix.
pub open spec fn spec_entry_wanted(name: Seq<char>, exclude: Seq<Seq<char>>) -> Option<Seq<char>> {
    let n = spec_replace(name, "\\"@, "/"@);
    if text::spec_ends_with(n, "/"@) || text::spec_starts_with(n, "META-INF"@) {
        None
    } else if exists|i: int| 0 <= i < exclude.len() && text::spec_starts_with(n, #[trigger] exclude[i]) {
        None
    } else {
        Some(n)
    }
}

/// Whether a native archive entry is to be unpacked, and its normalized name.
pub fn native_entry_wanted(name: &str, exclude: &Vec<String>) -> (res: Option<String>)
    ensures
        match res {
            Some(n) => spec_entry_wanted(name@, views(exclude@)) == Some(n@),
            None => spec_entry_wanted(name@, views(exclude@)) is None,
        },
{
    proof {
        reveal_strlit("\\");
    }
    let n = text::replace(name, "\\", "/");
    if text::ends_with(n.as_str(), "/") || text::starts_with(n.as_str(), "META-INF") {
        return None;
    }
    let m = exclude.len();
    let mut i: usize = 0;
    while i < m
        invariant
            m == exclude@.len(),
            i <= m,
            n@ == spec_replace(name@, "\\"@, "/"@),
            !text::spec_ends_with(n@, "/"@),
            !text::spec_starts_with(n@, "META-INF"@),
            forall|k: int| 0 <= k < i ==> !text::spec_starts_with(n@, #[trigger] views(exclude@)[k]),
        decreases m - i,
    {
        if text::starts_with(n.as_str(), exclude[i].as_str()) {
            assert(views(exclude@)[i as int] == exclude@[i as int]@);
            assert(text::spec_starts_with(n@, views(exclude@)[i as int]));
            return None;
        }
        i = i + 1;
    }
    Some(n)
}

/// A step of installing a version.
#[derive(Debug, Clone, Copy, PartialEq, Eq, Structural)]
pub enum InstallStep {
    Client,
    Libraries,
    Assets,
    Logging,
}

/// The steps of installing a version, in order: the client jar when there is
/// one, the libraries, the assets when there is an asset index, and the
/// logging configuration when there is one.
pub open spec fn spec_install_steps(meta: VersionMeta) -> Seq<InstallStep> {
    let client = match meta.downloads {
        Some(dl) => dl.client is Some,
        None => false,
    };
    let logging = match meta.logging {
        Some(l) => l.client is Some,
        None => false,
    };
    (if client { seq![InstallStep::Client] } else { Seq::empty() }) + seq![InstallStep::Libraries]
        + (if meta.asset_index is Some { seq![InstallStep::Assets] } else { Seq::empty() })
        + (if logging { seq![InstallStep::Logging] } else { Seq::empty() })
}

/// The steps of installing a version (see `spec_install_steps`).
pub fn install_steps(meta: &VersionMeta) -> (res: Vec<InstallStep>)
    ensures
        res@ == spec_install_steps(*meta),
{
    let mut out: Vec<InstallStep> = Vec::new();
    let client = match &meta.downloads {
        Some(dl) => dl.client.is_some(),
        None => false,
    };
    if client {
        out.push(InstallStep::Client);
    }
    out.push(InstallStep::Libraries);
    if meta.asset_index.is_some() {
        out.push(InstallStep::Assets);
    }
    let logging = match &meta.logging {
        Some(l) => l.client.is_some(),
        None => false,
    };
    if logging {
        out.push(InstallStep::Logging);
    }
    assert(out@ =~= spec_install_steps(*meta));
    out
}

/// The place of a step in the order of an install.
pub open spec fn step_rank(s: InstallStep) -> int {
    match s {
        InstallStep::Client => 0,
        InstallStep::Libraries => 1,
        InstallStep::Assets => 2,
        InstallStep::Logging => 3,
    }
}

/// An install always fetches the libraries; it fetches the client jar exactly
/// when the version has one, the assets exactly when it has an asset index,
/// and the logging configuration exactly when it names one for the client;
/// the steps come in the order client, libraries, assets, logging, each once.
pub proof fn law_install_steps(meta: VersionMeta)
    ensures
        spec_install_steps(meta).contains(InstallStep::Libraries),
        spec_install_steps(meta).contains(InstallStep::Client) <==> (meta.downloads matches Some(
            dl,
        ) && dl.client is Some),
        spec_install_steps(meta).contains(InstallStep::Assets) <==> meta.asset_index is Some,
        spec_install_steps(meta).contains(InstallStep::Logging) <==> (meta.logging matches Some(l)
            && l.client is Some),
        forall|i: int, j: int|
            0 <= i < j < spec_install_steps(meta).len() ==> step_rank(
                #[trigger] spec_install_steps(meta)[i],
            ) < step_rank(#[trigger] spec_install_steps(meta)[j]),
{
    let s = spec_install_steps(meta);
    let client = match meta.downloads {
        Some(dl) => dl.client is Some,
        None => false,
    };
    let logging = match meta.logging {
        Some(l) => l.client is Some,
        None => false,
    };
    let a: Seq<InstallStep> = if client { seq![InstallStep::Client] } else { Seq::empty() };
    let b: Seq<InstallStep> = if meta.asset_index is Some { seq![InstallStep::Assets] } else { Seq::empty() };
    let c: Seq<InstallStep> = if logging { seq![InstallStep::Logging] } else { Seq::empty() };
    assert(s == a + seq![InstallStep::Libraries] + b + c);
    let k = a.len() as int;
    assert(s[k] == InstallStep::Libraries);
    if client {
        assert(s[0] == InstallStep::Client);
    } else {
        assert(forall|i: int| 0 <= i < s.len() ==> s[i] != InstallStep::Client);
    }
    if meta.asset_index is Some {
        assert(s[k + 1] == InstallStep::Assets);
    } else {
        assert(forall|i: int| 0 <= i < s.len() ==> s[i] != InstallStep::Assets);
    }
    if logging {
        assert(s[s.len() - 1] == InstallStep::Logging);
    } else {
        assert(forall|i: int| 0 <= i < s.len() ==> s[i] != InstallStep::Logging);
    }
    assert forall|i: int, j: int| 0 <= i < j < s.len() implies step_rank(#[trigger] s[i]) < step_rank(
        #[trigger] s[j],
    ) by {
        assert(forall|m: int| 0 <= m < s.len() ==> step_rank(s[m]) >= 0 && step_rank(s[m]) <= 3);
    }
}

/// The stage that downloads the client jar.
pub const STAGE_CLIENT: &'static str = "Клиент";

/// The stage that downloads the libraries.
pub const STAGE_LIBRARIES: &'static str = "Библиотеки";

/// The stage that downloads the asset objects.
pub const STAGE_ASSETS: &'static str = "Ресурсы";

/// The progress shown when a stage of `total` files starts: `0 / total`.
pub fn progress_begin(stage: &str, total: u64) -> (res: Progress)
    ensures
        res.stage@ == stage@,
        res.current == 0,
        res.total == total,
        res.detail@ == "0 / "@ + text::dec(total as nat),
{
    let t = text::u64_to_string(total);
    Progress { stage: text::owned(stage), current: 0, total, detail: text::concat2("0 / ", t.as_str()) }
}

/// The progress shown when a stage of `total` files is done: `готово`.
pub fn progress_done(stage: &str, total: u64) -> (res: Progress)
    ensures
        res.stage@ == stage@,
        res.current == total,
        res.total == total,
        res.detail@ == "готово"@,
{
    Progress { stage: text::owned(stage), current: total, total, detail: text::owned("готово") }
}

/// The progress shown when the client jar of version `id` starts downloading:
/// the jar's file name.
pub fn client_progress_begin(id: &str) -> (res: Progress)
    ensures
        res.stage@ == STAGE_CLIENT@,
        res.current == 0,
        res.total == 1,
        res.detail@ == id@ + ".jar"@,
{
    Progress { stage: text::owned(STAGE_CLIENT), current: 0, total: 1, detail: text::concat2(id, ".jar") }
}

/// Installation progress shown after `current` of `total` files: reported at
/// the last file and at every eighth.
pub fn progress_after(stage: &str, current: u64, total: u64) -> (res: Option<Progress>)
    ensures
        match res {
            Some(p) => (current == total || current % 8 == 0) && p.stage@ == stage@ && p.current
                == current && p.total == total && p.detail@ == text::dec(current as nat) + " / "@
                + text::dec(total as nat),
            None => !(current == total || current % 8 == 0),
        },
{
    if current == total || current % 8 == 0 {
        let c = text::u64_to_string(current);
        let t = text::u64_to_string(total);
        Some(
            Progress {
                stage: text::owned(stage),
                current,
                total,
                detail: text::concat3(c.as_str(), " / ", t.as_str()),
            },
        )
    } else {
        None
    }
}

/// What is known of a file on disk before hashing it.
#[derive(Debug, Clone)]
pub enum FileCheck {
    /// The file must be downloaded again.
    Stale,
    /// The file is good.
    Fresh,
    /// The file is good when its SHA-1 is this.
    HashAgainst(String),
}

/// Judges a file of `len` bytes: a wrong expected size (when one above zero
/// is given) makes it stale; a non-empty checksum must then be compared;
/// otherwise a non-empty file is good.
pub fn file_check(len: u64, sha1: Option<&str>, expected_size: Option<u64>) -> (res: FileCheck)
    ensures
        match res {
            FileCheck::Stale => (expected_size matches Some(e) && e > 0 && len != e) || (!(
            sha1 matches Some(s) && s@.len() > 0) && len == 0),
            FileCheck::Fresh => !(expected_size matches Some(e) && e > 0 && len != e) && !(
            sha1 matches Some(s) && s@.len() > 0) && len > 0,
            FileCheck::HashAgainst(h) => !(expected_size matches Some(e) && e > 0 && len != e)
                && (sha1 matches Some(s) && s@.len() > 0 && h@ == s@),
        },
{
    if let Some(expected) = expected_size {
        if expected > 0 && len != expected {
            return FileCheck::Stale;
        }
    }
    if let Some(sum) = sha1 {
        if !sum.is_empty() {
            return FileCheck::HashAgainst(text::owned(sum));
        }
    }
    if len > 0 {
        FileCheck::Fresh
    } else {
        FileCheck::Stale
    }
}

/// Whether `data` hashes to the lowercase hexadecimal SHA-1 `sum`.
pub fn hash_matches(data: &[u8], sum: &str) -> (res: bool)
    ensures
        res == (spec_hex_lower(spec_sha1(data@)) == sum@),
{
    let h = sha1_hex(data);
    text::eq(h.as_str(), sum)
}

/// The URL to fetch an artifact from; an error naming `dest` when it has none.
pub fn artifact_url(artifact: &Artifact, dest: &str) -> (res: Result<String, Error>)
    ensures
        match artifact.url {
            Some(u) => res matches Ok(r) && r@ == u@,
            None => res matches Err(e) && e matches Error::Message(m) && m@ == "нет URL для "@
                + dest@,
        },
{
    match &artifact.url {
        Some(u) => Ok(u.clone()),
        None => Err(Error::msg(text::concat2("нет URL для ", dest))),
    }
}

/// Judges a file whose lowercase hexadecimal SHA-1 is `actual` against an
/// expected checksum: a `Checksum` error at `dest` when there is a non-empty
/// checksum and `actual` differs from it.
pub fn checksum_verdict(sha1: Option<&str>, actual: &str, dest: &str) -> (res: Result<(), Error>)
    ensures
        res is Ok <==> !(sha1 matches Some(s) && s@.len() > 0 && actual@ != s@),
        res matches Err(e) ==> e matches Error::Checksum { path } && path@ == dest@,
{
    if let Some(sum) = sha1 {
        if !sum.is_empty() && !text::eq(actual, sum) {
            return Err(Error::Checksum { path: text::owned(dest) });
        }
    }
    Ok(())
}

/// Checks downloaded bytes against an artifact's checksum: a `Checksum` error
/// at `dest` when there is a non-empty checksum and the bytes do not hash to it.
pub fn check_artifact_bytes(sha1: Option<&str>, bytes: &[u8], dest: &str) -> (res: Result<(), Error>)
    ensures
        res is Ok <==> !(sha1 matches Some(s) && s@.len() > 0 && spec_hex_lower(spec_sha1(bytes@))
            != s@),
        res matches Err(e) ==> e matches Error::Checksum { path } && path@ == dest@,
{
    match sha1 {
        Some(sum) => if sum.is_empty() {
            Ok(())
        } else {
            let actual = sha1_hex(bytes);
            checksum_verdict(sha1, actual.as_str(), dest)
        },
        None => Ok(()),
    }
}

/// The text after the last `/` (all of it when there is none).
pub open spec fn last_segment(s: Seq<char>) -> Seq<char> {
    text::spec_split(s, '/').last()
}

/// The text after the last `/`, as `rsplit('/').next()`.
pub fn rsplit_last(s: &str) -> (res: String)
    ensures
        res@ == last_segment(s@),
{
    let parts = text::split_char(s, '/');
    assert(views(parts@).len() == parts@.len());
    assert(text::spec_split(s@, '/').len() > 0);
    let k = parts.len() - 1;
    assert(views(parts@)[k as int] == parts@[k as int]@);
    parts[k].clone()
}

/// The file name of a logging configuration: its path, else the last segment
/// of its URL, else `client.xml`.
pub open spec fn spec_logging_file_name(file: Artifact) -> Seq<char> {
    match file.path {
        Some(p) => p@,
        None => match file.url {
            Some(u) => last_segment(u@),
            None => "client.xml"@,
        },
    }
}

/// The file name of a logging configuration.
pub fn logging_file_name(logging: &LoggingClient) -> (res: String)
    ensures
        res@ == spec_logging_file_name(logging.file),
{
    match &logging.file.path {
        Some(p) => p.clone(),
        None => match &logging.file.url {
            Some(u) => rsplit_last(u.as_str()),
            None => text::owned("client.xml"),
        },
    }
}

} // verus!
