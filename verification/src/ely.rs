use vstd::prelude::*;

use crate::install::DownloadJob;
use crate::paths::{join, spec_join};
use crate::text::{self, is_ascii_alnum, spec_contains, spec_lowercase, spec_trim};

verus! {

/// The Ely.by authentication server.
pub const AUTH_SERVER: &'static str = "https://authserver.ely.by";

/// The authlib-injector argument that points the game at Ely.by.
pub const API_ROOT: &'static str = "ely.by";

/// The authlib-injector release the launcher uses.
pub const AUTHLIB_INJECTOR_VERSION: &'static str = "1.2.8";

/// Where that release is downloaded from.
pub const AUTHLIB_INJECTOR_URL: &'static str = "https://github.com/yushijinhun/authlib-injector/releases/download/v1.2.8/authlib-injector-1.2.8.jar";

/// An Ely.by account.
#[derive(Debug, Clone)]
pub struct Account {
    pub id: String,
    pub username: String,
    pub uuid: String,
    pub kind: String,
    pub access_token: String,
    pub client_token: String,
    pub skin_url: String,
}

impl Account {
    /// Whether this account signs in through Ely.by.
    pub fn is_ely(&self) -> (res: bool)
        ensures
            res == (self.kind@ == "ely"@),
    {
        text::eq(self.kind.as_str(), "ely")
    }
}

/// The result of a login attempt.
#[derive(Debug, Clone)]
pub struct LoginOutcome {
    pub account: Account,
    /// Set when Ely.by asks for a one-time 2FA code.
    pub needs_totp: bool,
}

/// A Minecraft profile of an Ely.by account.
#[derive(Debug, Clone)]
pub struct AuthProfile {
    pub id: String,
    pub name: String,
}

/// A successful authentication reply.
#[derive(Debug, Clone)]
pub struct AuthResponse {
    pub access_token: String,
    pub client_token: String,
    pub selected_profile: Option<AuthProfile>,
    pub available_profiles: Option<Vec<AuthProfile>>,
}

/// An error reply of the authentication server.
#[derive(Debug, Clone)]
pub struct AuthError {
    pub error: String,
    pub error_message: String,
}

/// A 32-character id with dashes after characters 8, 12, 16 and 20.
pub open spec fn spec_with_dashes(s: Seq<char>) -> Seq<char> {
    s.subrange(0, 8) + "-"@ + s.subrange(8, 12) + "-"@ + s.subrange(12, 16) + "-"@ + s.subrange(
        16,
        20,
    ) + "-"@ + s.subrange(20, 32)
}

/// Writes a 32-character id with dashes.
pub fn with_dashes(v: &Vec<char>) -> (res: String)
    requires
        v@.len() == 32,
    ensures
        res@ == spec_with_dashes(v@),
{
    let mut out = String::new();
    text::push_str(&mut out, text::from_chars(&text::slice_chars(v, 0, 8)).as_str());
    text::push_str(&mut out, "-");
    text::push_str(&mut out, text::from_chars(&text::slice_chars(v, 8, 12)).as_str());
    text::push_str(&mut out, "-");
    text::push_str(&mut out, text::from_chars(&text::slice_chars(v, 12, 16)).as_str());
    text::push_str(&mut out, "-");
    text::push_str(&mut out, text::from_chars(&text::slice_chars(v, 16, 20)).as_str());
    text::push_str(&mut out, "-");
    text::push_str(&mut out, text::from_chars(&text::slice_chars(v, 20, 32)).as_str());
    assert(out@ =~= spec_with_dashes(v@));
    out
}

/// The characters of `s` that satisfy `keep`, in order.
pub open spec fn keep_chars(s: Seq<char>, keep: spec_fn(char) -> bool) -> Seq<char>
    decreases s.len(),
{
    if s.len() == 0 {
        Seq::empty()
    } else if keep(s.last()) {
        keep_chars(s.drop_last(), keep).push(s.last())
    } else {
        keep_chars(s.drop_last(), keep)
    }
}

/// An id with dashes: the ASCII letters and digits of `raw` when there are
/// exactly 32 of them, with dashes inserted; else `raw` unchanged.
pub open spec fn spec_dashed_uuid(raw: Seq<char>) -> Seq<char> {
    let clean = keep_chars(raw, |c: char| is_ascii_alnum(c));
    if clean.len() != 32 {
        raw
    } else {
        spec_with_dashes(clean)
    }
}

/// Writes an undashed UUID with dashes.
pub fn dashed_uuid(raw: &str) -> (res: String)
    ensures
        res@ == spec_dashed_uuid(raw@),
{
    let v = text::to_chars(raw);
    let n = v.len();
    let mut clean: Vec<char> = Vec::new();
    let mut i: usize = 0;
    while i < n
        invariant
            n == v@.len(),
            v@ == raw@,
            i <= n,
            clean@ == keep_chars(v@.take(i as int), |c: char| is_ascii_alnum(c)),
        decreases n - i,
    {
        assert(v@.take(i as int + 1).drop_last() =~= v@.take(i as int));
        if text::ascii_alnum(v[i]) {
            clean.push(v[i]);
        }
        i = i + 1;
    }
    assert(v@.take(n as int) =~= v@);
    if clean.len() != 32 {
        return text::owned(raw);
    }
    with_dashes(&clean)
}

/// The offline UUID of a name, by the scheme Mojang uses: Java's
/// `UUID.nameUUIDFromBytes("OfflinePlayer:" + name)`, so the same name always
/// gives the same UUID.
pub fn offline_uuid(username: &str) -> (res: String)
    ensures
        res@ == crate::config::spec_offline_uuid(username@),
{
    crate::config::offline_uuid(username)
}

/// The message shown for an authentication error.
pub open spec fn spec_friendly_error(err: AuthError) -> Seq<char> {
    let msg = spec_trim(err.error_message@);
    if spec_contains(msg, "Invalid credentials"@) {
        "Неверный логин или пароль / Invalid login or password"@
    } else if spec_contains(msg, "Account protected with two factor auth"@) {
        "Нужен код 2FA / Two-factor code required"@
    } else if spec_contains(msg, "banned"@) {
        "Аккаунт заблокирован / Account is banned"@
    } else if msg.len() == 0 {
        "Ely.by error: "@ + err.error@
    } else {
        msg
    }
}

/// The message shown for an authentication error.
pub fn friendly_error(err: &AuthError) -> (res: String)
    ensures
        res@ == spec_friendly_error(*err),
{
    let msg = text::trim(err.error_message.as_str());
    let m = msg.as_str();
    if text::contains(m, "Invalid credentials") {
        text::owned("Неверный логин или пароль / Invalid login or password")
    } else if text::contains(m, "Account protected with two factor auth") {
        text::owned("Нужен код 2FA / Two-factor code required")
    } else if text::contains(m, "banned") {
        text::owned("Аккаунт заблокирован / Account is banned")
    } else if m.is_empty() {
        text::concat2("Ely.by error: ", err.error.as_str())
    } else {
        msg
    }
}

/// Ely.by is asking for a two-factor code: the message mentions two-factor
/// auth or `totp` (in any case), or the error is a forbidden operation on an
/// account protected with two-factor auth.
pub open spec fn spec_needs_totp(err: AuthError) -> bool {
    ||| spec_contains(err.error_message@, "two factor auth"@)
    ||| spec_contains(spec_lowercase(err.error_message@), "totp"@)
    ||| (err.error@ == "ForbiddenOperationException"@ && spec_contains(
        err.error_message@,
        "Account protected with two factor auth"@,
    ))
}

/// Whether an authentication error asks for a two-factor code. (`totp` has
/// only ASCII letters, and no other character lowercases to one of them, so
/// ASCII lowercasing finds it exactly where full lowercasing would.)
pub fn needs_totp(err: &AuthError) -> (res: bool)
    ensures
        res == spec_needs_totp(*err),
{
    let m = err.error_message.as_str();
    let lower = text::to_ascii_lowercase(m);
    text::contains(m, "two factor auth") || text::contains(lower.as_str(), "totp") || (text::eq(
        err.error.as_str(),
        "ForbiddenOperationException",
    ) && text::contains(m, "Account protected with two factor auth"))
}

/// The login name and password to send: the trimmed login, and the password
/// with `:<code>` appended when a (trimmed) two-factor code is given. An
/// error when the login or the password is empty.
pub fn login_credentials(login: &str, password: &str, totp: &str) -> (res: Result<(String, String), String>)
    ensures
        match res {
            Ok((l, p)) => spec_trim(login@).len() > 0 && password@.len() > 0 && l@ == spec_trim(login@)
                && p@ == (if spec_trim(totp@).len() == 0 {
                    password@
                } else {
                    password@ + ":"@ + spec_trim(totp@)
                }),
            Err(e) => (spec_trim(login@).len() == 0 || password@.len() == 0) && e@ == "Empty credentials"@,
        },
{
    let login = text::trim(login);
    if login.as_str().is_empty() || password.is_empty() {
        return Err(text::owned("Empty credentials"));
    }
    let code = text::trim(totp);
    let effective = if code.as_str().is_empty() {
        text::owned(password)
    } else {
        text::concat3(password, ":", code.as_str())
    };
    Ok((login, effective))
}

/// The outcome of a refused login: a pending outcome that asks for the
/// two-factor code (keeping the client token), or the message to show.
pub fn login_refused(err: &AuthError, client_token: &str) -> (res: Result<LoginOutcome, String>)
    ensures
        match res {
            Ok(o) => spec_needs_totp(*err) && o.needs_totp && o.account.kind@ == "ely"@
                && o.account.client_token@ == client_token@ && o.account.id@.len() == 0
                && o.account.username@.len() == 0 && o.account.uuid@.len() == 0
                && o.account.access_token@.len() == 0 && o.account.skin_url@.len() == 0,
            Err(m) => !spec_needs_totp(*err) && m@ == spec_friendly_error(*err),
        },
{
    if needs_totp(err) {
        Ok(
            LoginOutcome {
                account: Account {
                    id: String::new(),
                    username: String::new(),
                    uuid: String::new(),
                    kind: text::owned("ely"),
                    access_token: String::new(),
                    client_token: text::owned(client_token),
                    skin_url: String::new(),
                },
                needs_totp: true,
            },
        )
    } else {
        Err(friendly_error(err))
    }
}

/// The outcome of an accepted login: an Ely.by account for the selected
/// profile, else the first available one; an error when there is none.
pub fn login_accepted(auth: AuthResponse) -> (res: Result<LoginOutcome, String>)
    ensures
        ({
            let profile = match auth.selected_profile {
                Some(p) => Some(p),
                None => match auth.available_profiles {
                    Some(v) => if v@.len() > 0 {
                        Some(v@[0])
                    } else {
                        None
                    },
                    None => None,
                },
            };
            match profile {
                Some(p) => res matches Ok(o) && !o.needs_totp && o.account.id == p.id
                    && o.account.username == p.name && o.account.uuid@ == spec_dashed_uuid(p.id@)
                    && o.account.kind@ == "ely"@ && o.account.access_token == auth.access_token
                    && o.account.client_token == auth.client_token && o.account.skin_url@.len() == 0,
                None => res matches Err(m) && m@ == "Ely.by returned no Minecraft profile for this account"@,
            }
        }),
{
    let profile = match auth.selected_profile {
        Some(p) => Some(p),
        None => match auth.available_profiles {
            Some(mut v) => if v.len() > 0 {
                Some(v.remove(0))
            } else {
                None
            },
            None => None,
        },
    };
    match profile {
        Some(p) => {
            let uuid = dashed_uuid(p.id.as_str());
            Ok(
                LoginOutcome {
                    account: Account {
                        id: p.id,
                        username: p.name,
                        uuid,
                        kind: text::owned("ely"),
                        access_token: auth.access_token,
                        client_token: auth.client_token,
                        skin_url: String::new(),
                    },
                    needs_totp: false,
                },
            )
        },
        None => Err(text::owned("Ely.by returned no Minecraft profile for this account")),
    }
}

/// What must be on disk before an Ely.by launch: authlib-injector, kept under
/// `libraries/authlib-injector` of the data directory, from its release URL,
/// with no hash or size to check it against.
pub fn ensure_authlib_injector(data_dir: &str, sep: char) -> (res: DownloadJob)
    ensures
        res.dest@ == spec_join(
            spec_join(spec_join(data_dir@, "libraries"@, sep), "authlib-injector"@, sep),
            "authlib-injector-"@ + AUTHLIB_INJECTOR_VERSION@ + ".jar"@,
            sep,
        ),
        res.url@ == AUTHLIB_INJECTOR_URL@,
        res.sha1@ == Seq::<char>::empty(),
        res.size == 0,
{
    let a = join(data_dir, "libraries", sep);
    let b = join(a.as_str(), "authlib-injector", sep);
    let f = text::concat3("authlib-injector-", AUTHLIB_INJECTOR_VERSION, ".jar");
    DownloadJob {
        dest: join(b.as_str(), f.as_str(), sep),
        url: text::owned(AUTHLIB_INJECTOR_URL),
        sha1: String::new(),
        size: 0,
    }
}

/// The Ely.by skin URL of a player.
pub fn skin_url(username: &str) -> (res: String)
    ensures
        res@ == "http://skinsystem.ely.by/skins/"@ + username@ + ".png"@,
{
    text::concat3("http://skinsystem.ely.by/skins/", username, ".png")
}

} // verus!
