use vstd::prelude::*;

use crate::error::Error;
use crate::paths::{join, spec_join};
use crate::platform::{Host, TargetOs};
use crate::text::{self, first_index_of, spec_parse_u32, spec_split, spec_starts_with, spec_trim, views};

verus! {

/// The Java executable name: `java.exe` on Windows, `java` elsewhere.
pub open spec fn spec_java_bin(host: Host) -> Seq<char> {
    if host.os == TargetOs::Windows {
        "java.exe"@
    } else {
        "java"@
    }
}

/// The Java executable name.
pub fn java_bin(host: &Host) -> (res: &'static str)
    ensures
        res@ == spec_java_bin(*host),
{
    if host.os == TargetOs::Windows {
        "java.exe"
    } else {
        "java"
    }
}

/// Well-known Java locations of each operating system, in the order they are tried.
pub open spec fn spec_extra_locations(host: Host) -> Seq<Seq<char>> {
    match host.os {
        TargetOs::Windows => seq![
            "C:\\Program Files\\Eclipse Adoptium\\jdk-21\\bin\\java.exe"@,
            "C:\\Program Files\\Java\\jdk-21\\bin\\java.exe"@,
        ],
        TargetOs::MacOs => seq!["/Library/Java/JavaVirtualMachines/temurin-21.jdk/Contents/Home/bin/java"@],
        TargetOs::Linux => seq![
            "/usr/lib/jvm/java-21-openjdk/bin/java"@,
            "/usr/lib/jvm/java-21-openjdk-amd64/bin/java"@,
            "/usr/lib/jvm/java-17-openjdk/bin/java"@,
            "/usr/lib/jvm/java-17-openjdk-amd64/bin/java"@,
            "/usr/bin/java"@,
        ],
    }
}

fn push_text(out: &mut Vec<String>, t: String)
    ensures
        views(final(out)@) == views(old(out)@).push(t@),
{
    out.push(t);
    assert(views(final(out)@) =~= views(old(out)@).push(t@));
}

/// Well-known Java locations of the host's operating system.
pub fn extra_locations(host: &Host) -> (res: Vec<String>)
    ensures
        views(res@) == spec_extra_locations(*host),
{
    let mut out: Vec<String> = Vec::new();
    assert(views(out@) =~= Seq::empty());
    match host.os {
        TargetOs::Windows => {
            push_text(&mut out, text::owned("C:\\Program Files\\Eclipse Adoptium\\jdk-21\\bin\\java.exe"));
            push_text(&mut out, text::owned("C:\\Program Files\\Java\\jdk-21\\bin\\java.exe"));
        },
        TargetOs::MacOs => {
            push_text(&mut out, text::owned("/Library/Java/JavaVirtualMachines/temurin-21.jdk/Contents/Home/bin/java"));
        },
        TargetOs::Linux => {
            push_text(&mut out, text::owned("/usr/lib/jvm/java-21-openjdk/bin/java"));
            push_text(&mut out, text::owned("/usr/lib/jvm/java-21-openjdk-amd64/bin/java"));
            push_text(&mut out, text::owned("/usr/lib/jvm/java-17-openjdk/bin/java"));
            push_text(&mut out, text::owned("/usr/lib/jvm/java-17-openjdk-amd64/bin/java"));
            push_text(&mut out, text::owned("/usr/bin/java"));
        },
    }
    out
}

/// The places to look for Java, in order: the configured path (trimmed, when
/// not empty), `$JAVA_HOME/bin`, each `PATH` directory, then the well-known
/// locations.
pub open spec fn spec_java_candidates(
    host: Host,
    configured: Seq<char>,
    java_home: Option<Seq<char>>,
    path_dirs: Seq<Seq<char>>,
    sep: char,
) -> Seq<Seq<char>> {
    let c = spec_trim(configured);
    let first = if c.len() > 0 {
        seq![c]
    } else {
        Seq::empty()
    };
    let home = match java_home {
        Some(h) => seq![spec_join(spec_join(h, "bin"@, sep), spec_java_bin(host), sep)],
        None => Seq::empty(),
    };
    first + home + path_dirs.map_values(|d: Seq<char>| spec_join(d, spec_java_bin(host), sep))
        + spec_extra_locations(host)
}

/// The configured Java path, trimmed, is tried before anything else when it is
/// not blank; then `$JAVA_HOME/bin/java`, then `java` in each `PATH`
/// directory in order, then the well-known locations, and nothing more.
pub proof fn law_java_candidates_order(
    host: Host,
    configured: Seq<char>,
    java_home: Option<Seq<char>>,
    path_dirs: Seq<Seq<char>>,
    sep: char,
)
    ensures
        ({
            let cands = spec_java_candidates(host, configured, java_home, path_dirs, sep);
            let c = spec_trim(configured);
            let k: int = if c.len() > 0 { 1 } else { 0 };
            let h: int = if java_home is Some { 1 } else { 0 };
            &&& cands.len() == k + h + path_dirs.len() + spec_extra_locations(host).len()
            &&& c.len() > 0 ==> cands[0] == c
            &&& java_home matches Some(home) ==> cands[k] == spec_join(
                spec_join(home, "bin"@, sep),
                spec_java_bin(host),
                sep,
            )
            &&& forall|i: int|
                0 <= i < path_dirs.len() ==> #[trigger] cands[k + h + i] == spec_join(
                    path_dirs[i],
                    spec_java_bin(host),
                    sep,
                )
            &&& forall|i: int|
                0 <= i < spec_extra_locations(host).len() ==> #[trigger] cands[k + h + path_dirs.len()
                    + i] == spec_extra_locations(host)[i]
        }),
{
}

/// The places to look for Java, in order.
pub fn java_candidates(
    host: &Host,
    configured: &str,
    java_home: Option<&str>,
    path_dirs: &Vec<String>,
    sep: char,
) -> (res: Vec<String>)
    ensures
        views(res@) == spec_java_candidates(
            *host,
            configured@,
            match java_home {
                Some(h) => Some(h@),
                None => None,
            },
            views(path_dirs@),
            sep,
        ),
{
    let mut out: Vec<String> = Vec::new();
    assert(views(out@) =~= Seq::empty());
    let c = text::trim(configured);
    if !c.as_str().is_empty() {
        push_text(&mut out, c);
    }
    let exe = java_bin(host);
    if let Some(h) = java_home {
        let b = join(h, "bin", sep);
        push_text(&mut out, join(b.as_str(), exe, sep));
    }
    let ghost head = views(out@);
    let n = path_dirs.len();
    let mut i: usize = 0;
    while i < n
        invariant
            n == path_dirs@.len(),
            i <= n,
            exe@ == spec_java_bin(*host),
            views(out@) == head + views(path_dirs@).take(i as int).map_values(|d: Seq<char>| spec_join(d, spec_java_bin(*host), sep)),
        decreases n - i,
    {
        let ghost before = views(out@);
        push_text(&mut out, join(path_dirs[i].as_str(), exe, sep));
        assert(views(path_dirs@).take(i as int + 1).map_values(|d: Seq<char>| spec_join(d, spec_java_bin(*host), sep))
            =~= views(path_dirs@).take(i as int).map_values(|d: Seq<char>| spec_join(d, spec_java_bin(*host), sep)).push(spec_join(path_dirs@[i as int]@, spec_java_bin(*host), sep)));
        i = i + 1;
    }
    assert(views(path_dirs@).take(n as int) =~= views(path_dirs@));
    let ghost mid = views(out@);
    let mut extra = extra_locations(host);
    out.append(&mut extra);
    assert(views(out@) =~= mid + spec_extra_locations(*host));
    out
}

/// The first candidate that exists; `JavaMissing` when none does.
pub fn resolve_java(candidates: &Vec<String>, exists: &Vec<bool>) -> (res: Result<String, Error>)
    requires
        exists@.len() == candidates@.len(),
    ensures
        match res {
            Ok(p) => exists|i: int|
                0 <= i < candidates@.len() && exists@[i] && p == candidates@[i] && forall|j: int|
                    0 <= j < i ==> !exists@[j],
            Err(e) => e == Error::JavaMissing && forall|j: int| 0 <= j < exists@.len() ==> !exists@[j],
        },
{
    let n = candidates.len();
    let mut i: usize = 0;
    while i < n
        invariant
            n == candidates@.len(),
            n == exists@.len(),
            i <= n,
            forall|j: int| 0 <= j < i ==> !exists@[j],
        decreases n - i,
    {
        if exists[i] {
            return Ok(candidates[i].clone());
        }
        i = i + 1;
    }
    Err(Error::JavaMissing)
}

/// The major Java version in `java -version` output: the text between the
/// first two double quotes, without a leading `1.`, up to its first dot, read
/// as a number.
pub open spec fn spec_parse_major(t: Seq<char>) -> Option<u32> {
    match first_index_of(t, '"') {
        None => None,
        Some(i) => {
            let rest = t.skip(i + 1);
            match first_index_of(rest, '"') {
                None => None,
                Some(j) => {
                    let ver = rest.take(j);
                    let body = if spec_starts_with(ver, "1."@) {
                        ver.skip(2)
                    } else {
                        ver
                    };
                    spec_parse_u32(spec_split(body, '.')[0])
                },
            }
        },
    }
}

/// Reads the major Java version from `java -version` output.
pub fn parse_major(t: &str) -> (res: Option<u32>)
    ensures
        res == spec_parse_major(t@),
{
    let v = text::to_chars(t);
    let i = match text::find_char(&v, '"') {
        Some(i) => i,
        None => {
            return None;
        },
    };
    let rest = text::slice_chars(&v, i + 1, v.len());
    assert(rest@ =~= v@.skip(i + 1));
    let j = match text::find_char(&rest, '"') {
        Some(j) => j,
        None => {
            return None;
        },
    };
    let ver = text::slice_chars(&rest, 0, j);
    assert(ver@ =~= rest@.take(j as int));
    let vs = text::from_chars(&ver);
    proof {
        reveal_strlit("1.");
    }
    let body = if text::starts_with(vs.as_str(), "1.") {
        let b = text::slice_chars(&ver, 2, ver.len());
        assert(b@ =~= ver@.skip(2));
        text::from_chars(&b)
    } else {
        vs
    };
    let pieces = text::split_char(body.as_str(), '.');
    assert(views(pieces@).len() == pieces@.len());
    assert(spec_split(body@, '.').len() > 0);
    assert(views(pieces@)[0] == pieces@[0]@);
    text::parse_u32(pieces[0].as_str())
}

/// The major Java version from the output of `java -version`: from its error
/// output, else from its standard output.
pub fn major_from_output(stderr: &str, stdout: &str) -> (res: Option<u32>)
    ensures
        res == (match spec_parse_major(stderr@) {
            Some(v) => Some(v),
            None => spec_parse_major(stdout@),
        }),
{
    match parse_major(stderr) {
        Some(v) => Some(v),
        None => parse_major(stdout),
    }
}

/// The first line of a text, as `str::lines().next()`: `None` for an empty
/// text; else the text up to the first newline, without a trailing `\r`.
pub open spec fn spec_first_line(t: Seq<char>) -> Option<Seq<char>> {
    if t.len() == 0 {
        None
    } else {
        let l = spec_split(t, '\n')[0];
        if l.len() > 0 && l.last() == '\r' {
            Some(l.drop_last())
        } else {
            Some(l)
        }
    }
}

/// The first line of a text.
pub fn first_line(t: &str) -> (res: Option<String>)
    ensures
        match res {
            Some(l) => spec_first_line(t@) == Some(l@),
            None => spec_first_line(t@) is None,
        },
{
    if t.is_empty() {
        return None;
    }
    let pieces = text::split_char(t, '\n');
    assert(views(pieces@).len() == pieces@.len());
    assert(spec_split(t@, '\n').len() > 0);
    assert(views(pieces@)[0] == pieces@[0]@);
    let v = text::to_chars(pieces[0].as_str());
    if v.len() > 0 && v[v.len() - 1] == '\r' {
        let w = text::slice_chars(&v, 0, v.len() - 1);
        assert(w@ =~= v@.drop_last());
        Some(text::from_chars(&w))
    } else {
        Some(pieces[0].clone())
    }
}

/// How a Java installation describes itself: the first line of its error
/// output (or of its standard output when the error output is empty),
/// trimmed; `Java` when there is no line.
pub fn describe_output(stdout: &str, stderr: &str) -> (res: String)
    ensures
        res@ == spec_trim(
            match spec_first_line(if stderr@.len() == 0 {
                stdout@
            } else {
                stderr@
            }) {
                Some(l) => l,
                None => "Java"@,
            },
        ),
{
    let t = if stderr.is_empty() {
        stdout
    } else {
        stderr
    };
    match first_line(t) {
        Some(l) => text::trim(l.as_str()),
        None => text::trim("Java"),
    }
}

} // verus!
