use vstd::prelude::*;

use crate::platform::{Host, TargetOs};
use crate::text::{self, is_ascii_alnum, spec_lowercase, spec_trim, spec_trim_matches};

verus! {

/// The separator between classpath entries: `;` on Windows, `:` elsewhere.
pub fn classpath_separator(host: &Host) -> (res: &'static str)
    ensures
        res@ == crate::paths::spec_classpath_sep(*host),
{
    if host.os == TargetOs::Windows {
        ";"
    } else {
        ":"
    }
}

/// Whether a character is alphabetic or numeric in the Unicode sense.
pub uninterp spec fn spec_is_alphanumeric(c: char) -> bool;

/// `char::is_alphanumeric`: true of the characters with the Unicode
/// `Alphabetic` property or a numeric general category. Its result is named by
/// `spec_is_alphanumeric`; of ASCII characters the contract states the
/// documented answer (letters and digits), of the others only the name.
#[verifier::external_body]
fn is_alphanumeric(c: char) -> (res: bool)
    ensures
        res == spec_is_alphanumeric(c),
        (c as u32) < 128 ==> res == is_ascii_alnum(c),
{
    c.is_alphanumeric()
}

/// Whether a character is alphanumeric: for ASCII, a letter or a digit.
pub open spec fn alphanumeric(c: char) -> bool {
    if (c as u32) < 128 {
        is_ascii_alnum(c)
    } else {
        spec_is_alphanumeric(c)
    }
}

/// A character of a folder name as it is kept: letters, digits, `-`, `_`,
/// `.` and spaces stay, anything else becomes `_`.
pub open spec fn folder_char(c: char) -> char {
    if alphanumeric(c) || c == '-' || c == '_' || c == '.' || c == ' ' {
        c
    } else {
        '_'
    }
}

/// The folder name made from `name`: each character mapped by `folder_char`,
/// whitespace and then dots trimmed from both ends, `instance` if nothing is left.
pub open spec fn spec_sanitize_folder_name(name: Seq<char>) -> Seq<char> {
    let t = spec_trim_matches(spec_trim(name.map_values(|c: char| folder_char(c))), '.');
    if t.len() == 0 {
        "instance"@
    } else {
        t
    }
}

/// Makes a string safe to use as a folder name (see `spec_sanitize_folder_name`).
pub fn sanitize_folder_name(name: &str) -> (res: String)
    ensures
        res@ == spec_sanitize_folder_name(name@),
        res@.len() > 0,
{
    let v = text::to_chars(name);
    let n = v.len();
    let mut out: Vec<char> = Vec::new();
    let mut i: usize = 0;
    while i < n
        invariant
            n == v@.len(),
            v@ == name@,
            i <= n,
            out@ == v@.take(i as int).map_values(|c: char| folder_char(c)),
        decreases n - i,
    {
        let c = v[i];
        let keep = is_alphanumeric(c) || c == '-' || c == '_' || c == '.' || c == ' ';
        out.push(
            if keep {
                c
            } else {
                '_'
            },
        );
        assert(v@.take(i as int + 1).map_values(|c: char| folder_char(c)) =~= v@.take(
            i as int,
        ).map_values(|c: char| folder_char(c)).push(folder_char(c)));
        i = i + 1;
    }
    assert(v@.take(n as int) =~= v@);
    let cleaned = text::from_chars(&out);
    let trimmed = text::trim(cleaned.as_str());
    let t = text::trim_matches(trimmed.as_str(), '.');
    if t.as_str().is_empty() {
        proof {
            reveal_strlit("instance");
        }
        text::owned("instance")
    } else {
        t
    }
}

/// Whether checking a file needs its SHA-1: a non-empty expected hash was given.
pub fn wants_hash(sha1: Option<&str>) -> (res: bool)
    ensures
        res == (sha1 matches Some(e) && e@.len() > 0),
{
    match sha1 {
        Some(e) => !e.is_empty(),
        None => false,
    }
}

/// Whether a file on disk can be kept: it is a regular file, its length is the
/// expected size where one was given, and where a non-empty hash was given the
/// file's SHA-1 (`actual`, `None` when it could not be read) equals it up to
/// ASCII case.
pub fn file_ok(
    is_file: bool,
    len: u64,
    sha1: Option<&str>,
    size: Option<u64>,
    actual: Option<&str>,
) -> (res: bool)
    ensures
        res == (is_file && !(size matches Some(n) && len != n) && match sha1 {
            Some(e) => e@.len() > 0 ==> (actual matches Some(a) && spec_lowercase(a@)
                == spec_lowercase(e@)),
            None => true,
        }),
{
    if !is_file {
        return false;
    }
    if let Some(n) = size {
        if len != n {
            return false;
        }
    }
    match sha1 {
        Some(expected) => {
            if expected.is_empty() {
                true
            } else {
                match actual {
                    Some(a) => text::eq_ignore_ascii_case(a, expected),
                    None => false,
                }
            }
        },
        None => true,
    }
}

/// The verdict on a downloaded file whose SHA-1 is `actual`: accepted when no
/// non-empty checksum was expected or it equals `actual` up to ASCII case; else
/// the message that names the URL and both sums.
pub fn download_checksum(url: &str, expected: Option<&str>, actual: &str) -> (res: Result<(), String>)
    ensures
        res is Ok <==> match expected {
            Some(e) => e@.len() == 0 || spec_lowercase(actual@) == spec_lowercase(e@),
            None => true,
        },
        res matches Err(m) ==> (expected matches Some(e) && m@ == "checksum mismatch for "@ + url@
            + ": "@ + actual@ + " != "@ + e@),
{
    match expected {
        Some(e) => {
            if e.is_empty() || text::eq_ignore_ascii_case(actual, e) {
                Ok(())
            } else {
                let mut m = text::concat3("checksum mismatch for ", url, ": ");
                text::push_str(&mut m, actual);
                text::push_str(&mut m, " != ");
                text::push_str(&mut m, e);
                Err(m)
            }
        },
        None => Ok(()),
    }
}

/// How many times a download is tried.
pub const DOWNLOAD_ATTEMPTS: u32 = 3;

/// After attempt `attempt` (from 0) of a download failed: the pause before
/// going on, 400 ms times the attempt's number, and whether another attempt
/// follows.
pub fn after_failed_attempt(attempt: u32) -> (res: (u64, bool))
    requires
        attempt < DOWNLOAD_ATTEMPTS,
    ensures
        res.0 == 400 * (attempt + 1),
        res.1 == (attempt + 1 < DOWNLOAD_ATTEMPTS),
{
    (400 * (attempt as u64 + 1), attempt + 1 < DOWNLOAD_ATTEMPTS)
}

} // verus!
