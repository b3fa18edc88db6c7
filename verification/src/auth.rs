use vstd::prelude::*;

use crate::config::{Account, AccountKind};
use crate::ely::{keep_chars, spec_with_dashes, with_dashes};
use crate::error::Error;
use crate::text::{self, is_ascii_hex};

verus! {

/// The public Azure application used when none is configured.
pub const DEFAULT_CLIENT_ID: &'static str = "1ce6e35a-126f-48fd-97fb-54d143ac6d45";

/// A pending Microsoft device-code sign-in.
#[derive(Debug, Clone)]
pub struct DeviceCode {
    pub user_code: String,
    pub device_code: String,
    pub verification_uri: String,
    pub interval: u64,
    pub expires_in: u64,
}

/// The device-code endpoint's reply.
#[derive(Debug, Clone)]
pub struct DeviceCodeResponse {
    pub user_code: String,
    pub device_code: String,
    pub verification_uri: Option<String>,
    pub verification_url: Option<String>,
    pub interval: Option<u64>,
    pub expires_in: Option<u64>,
    pub error: Option<String>,
    pub error_description: Option<String>,
}

/// The token endpoint's reply.
#[derive(Debug, Clone)]
pub struct TokenResponse {
    pub access_token: Option<String>,
    pub refresh_token: Option<String>,
    pub expires_in: Option<i64>,
    pub error: Option<String>,
    pub error_description: Option<String>,
}

/// An Xbox Live user claim.
#[derive(Debug, Clone)]
pub struct XboxUser {
    pub uhs: String,
    pub xid: Option<String>,
}

/// An Xbox Live or XSTS reply.
#[derive(Debug, Clone)]
pub struct XboxResponse {
    pub token: String,
    pub xui: Vec<XboxUser>,
}

/// A Minecraft Java profile.
#[derive(Debug, Clone)]
pub struct McProfile {
    pub id: String,
    pub name: String,
}

/// The Azure client id: the configured one, else the default.
pub fn client_id(configured: Option<String>) -> (res: String)
    ensures
        res@ == (match configured {
            Some(c) => c@,
            None => DEFAULT_CLIENT_ID@,
        }),
{
    match configured {
        Some(c) => c,
        None => text::owned(DEFAULT_CLIENT_ID),
    }
}

/// The text of an OAuth error: its description, else its code.
pub open spec fn error_text(code: String, description: Option<String>) -> Seq<char> {
    match description {
        Some(d) => d@,
        None => code@,
    }
}

/// A device code from the endpoint's reply: an `Auth` error when it carries an
/// error; else the codes, the verification URI (else URL, else Microsoft's
/// link page), the polling interval (default 5, at least 1) and lifetime
/// (default 900).
pub fn device_code_from(body: DeviceCodeResponse) -> (res: Result<DeviceCode, Error>)
    ensures
        match body.error {
            Some(err) => res matches Err(e) && e matches Error::Auth(m) && m@ == error_text(err, body.error_description),
            None => res matches Ok(d) && d.user_code == body.user_code && d.device_code == body.device_code
                && d.verification_uri@ == (match body.verification_uri {
                    Some(u) => u@,
                    None => match body.verification_url {
                        Some(u) => u@,
                        None => "https://www.microsoft.com/link"@,
                    },
                }) && d.interval == (match body.interval {
                    Some(i) => if i > 1 {
                        i
                    } else {
                        1
                    },
                    None => 5,
                }) && d.expires_in == (match body.expires_in {
                    Some(e) => e,
                    None => 900,
                }),
        },
{
    if let Some(err) = body.error {
        return Err(Error::Auth(match body.error_description {
            Some(d) => d,
            None => err,
        }));
    }
    let uri = match body.verification_uri {
        Some(u) => u,
        None => match body.verification_url {
            Some(u) => u,
            None => text::owned("https://www.microsoft.com/link"),
        },
    };
    let interval = match body.interval {
        Some(i) => if i > 1 {
            i
        } else {
            1
        },
        None => 5,
    };
    Ok(
        DeviceCode {
            user_code: body.user_code,
            device_code: body.device_code,
            verification_uri: uri,
            interval,
            expires_in: match body.expires_in {
                Some(e) => e,
                None => 900,
            },
        },
    )
}

/// Microsoft tokens to exchange for a Minecraft session.
#[derive(Debug, Clone)]
pub struct MsaTokens {
    pub access: String,
    pub refresh: String,
    pub expires_in: i64,
}

/// What one poll of the token endpoint means: `None` while the user has not
/// signed in yet (`authorization_pending`, `slow_down`); the tokens once they
/// came; an `Auth` error for any other error or a reply without an access
/// token.
pub fn poll_outcome(token: TokenResponse) -> (res: Result<Option<MsaTokens>, Error>)
    ensures
        match token.error {
            Some(err) => if err@ == "authorization_pending"@ || err@ == "slow_down"@ {
                res matches Ok(None)
            } else {
                res matches Err(e) && e matches Error::Auth(m) && m@ == error_text(err, token.error_description)
            },
            None => match token.access_token {
                None => res matches Err(e) && e matches Error::Auth(m) && m@ == "нет access_token"@,
                Some(a) => res matches Ok(Some(t)) && t.access == a && t.refresh@ == (match token.refresh_token {
                    Some(r) => r@,
                    None => Seq::empty(),
                }) && t.expires_in == (match token.expires_in {
                    Some(e) => e,
                    None => 3600,
                }),
            },
        },
{
    if let Some(err) = token.error {
        if text::eq(err.as_str(), "authorization_pending") || text::eq(err.as_str(), "slow_down") {
            return Ok(None);
        }
        return Err(Error::Auth(match token.error_description {
            Some(d) => d,
            None => err,
        }));
    }
    let access = match token.access_token {
        Some(a) => a,
        None => {
            return Err(Error::Auth(text::owned("нет access_token")));
        },
    };
    Ok(
        Some(
            MsaTokens {
                access,
                refresh: match token.refresh_token {
                    Some(r) => r,
                    None => String::new(),
                },
                expires_in: match token.expires_in {
                    Some(e) => e,
                    None => 3600,
                },
            },
        ),
    )
}

/// Whether an account's session can be refreshed: a Microsoft account with a
/// refresh token. Other accounts are used as they are.
pub fn can_refresh(account: &Account) -> (res: bool)
    ensures
        res == (account.kind == AccountKind::Microsoft && account.refresh_token@.len() > 0),
{
    account.kind == AccountKind::Microsoft && !account.refresh_token.as_str().is_empty()
}

/// The tokens from a refresh reply: an `Auth` error for an error or a missing
/// access token; the old refresh token is kept when no new one came.
pub fn refresh_outcome(token: TokenResponse, old_refresh: &str) -> (res: Result<MsaTokens, Error>)
    ensures
        match token.error {
            Some(err) => res matches Err(e) && e matches Error::Auth(m) && m@ == error_text(err, token.error_description),
            None => match token.access_token {
                None => res matches Err(e) && e matches Error::Auth(m) && m@ == "refresh не вернул токен"@,
                Some(a) => res matches Ok(t) && t.access == a && t.refresh@ == (match token.refresh_token {
                    Some(r) => r@,
                    None => old_refresh@,
                }) && t.expires_in == (match token.expires_in {
                    Some(e) => e,
                    None => 3600,
                }),
            },
        },
{
    if let Some(err) = token.error {
        return Err(Error::Auth(match token.error_description {
            Some(d) => d,
            None => err,
        }));
    }
    let access = match token.access_token {
        Some(a) => a,
        None => {
            return Err(Error::Auth(text::owned("refresh не вернул токен")));
        },
    };
    Ok(
        MsaTokens {
            access,
            refresh: match token.refresh_token {
                Some(r) => r,
                None => text::owned(old_refresh),
            },
            expires_in: match token.expires_in {
                Some(e) => e,
                None => 3600,
            },
        },
    )
}

/// The user hash of the first Xbox Live claim; an `Auth` error when there is none.
pub fn first_uhs(xbox: &XboxResponse) -> (res: Result<String, Error>)
    ensures
        xbox.xui@.len() > 0 ==> res == Ok::<String, Error>(xbox.xui@[0].uhs),
        xbox.xui@.len() == 0 ==> (res matches Err(e) && e matches Error::Auth(m) && m@ == "Xbox Live не вернул uhs"@),
{
    if xbox.xui.len() > 0 {
        Ok(xbox.xui[0].uhs.clone())
    } else {
        Err(Error::Auth(text::owned("Xbox Live не вернул uhs")))
    }
}

/// The Xbox user id of the first XSTS claim, else `0`.
pub fn xuid_of(xsts: &XboxResponse) -> (res: String)
    ensures
        res@ == (if xsts.xui@.len() > 0 && xsts.xui@[0].xid is Some {
            xsts.xui@[0].xid->0@
        } else {
            "0"@
        }),
{
    if xsts.xui.len() > 0 {
        if let Some(x) = &xsts.xui[0].xid {
            return x.clone();
        }
    }
    text::owned("0")
}

/// The Xbox identity token for the Minecraft login: `XBL3.0 x=<uhs>;<token>`.
pub fn identity_token(uhs: &str, xsts_token: &str) -> (res: String)
    ensures
        res@ == "XBL3.0 x="@ + uhs@ + ";"@ + xsts_token@,
{
    let mut s = text::concat3("XBL3.0 x=", uhs, ";");
    text::push_str(&mut s, xsts_token);
    s
}

/// The RPS ticket of a Microsoft access token: `d=<token>`.
pub fn rps_ticket(msa_token: &str) -> (res: String)
    ensures
        res@ == "d="@ + msa_token@,
{
    text::concat2("d=", msa_token)
}

/// What the status of the Minecraft profile reply means: success goes on; 404
/// means the account owns no Java Edition (an `Auth` error); any other status
/// is an `Http` error naming it.
pub fn profile_status(status: u16) -> (res: Result<(), Error>)
    ensures
        200 <= status < 300 ==> res is Ok,
        status == 404 ==> (res matches Err(e) && e matches Error::Auth(m) && m@
            == "у этого Microsoft-аккаунта нет профиля Java Edition"@),
        !(200 <= status < 300) && status != 404 ==> (res matches Err(e) && e matches Error::Http(m)
            && m@ == "HTTP "@ + text::dec(status as nat)),
{
    if status == 404 {
        Err(Error::Auth(text::owned("у этого Microsoft-аккаунта нет профиля Java Edition")))
    } else if 200 <= status && status < 300 {
        Ok(())
    } else {
        Err(Error::Http(text::concat2("HTTP ", text::u64_to_string(status as u64).as_str())))
    }
}

/// A profile id with dashes: its 32 hexadecimal digits with dashes inserted,
/// or the id unchanged when it does not have exactly 32 of them.
pub open spec fn spec_format_uuid(raw: Seq<char>) -> Seq<char> {
    let hex = keep_chars(raw, |c: char| is_ascii_hex(c));
    if hex.len() != 32 {
        raw
    } else {
        spec_with_dashes(hex)
    }
}

/// Writes a profile id with dashes.
pub fn format_uuid(raw: &str) -> (res: String)
    ensures
        res@ == spec_format_uuid(raw@),
{
    let v = text::to_chars(raw);
    let n = v.len();
    let mut hex: Vec<char> = Vec::new();
    let mut i: usize = 0;
    while i < n
        invariant
            n == v@.len(),
            v@ == raw@,
            i <= n,
            hex@ == keep_chars(v@.take(i as int), |c: char| is_ascii_hex(c)),
        decreases n - i,
    {
        assert(v@.take(i as int + 1).drop_last() =~= v@.take(i as int));
        if text::ascii_hex(v[i]) {
            hex.push(v[i]);
        }
        i = i + 1;
    }
    assert(v@.take(n as int) =~= v@);
    if hex.len() != 32 {
        return text::owned(raw);
    }
    with_dashes(&hex)
}

/// The Microsoft account of a Minecraft profile: id and UUID are the dashed
/// profile id; the session expires `expires_in` seconds (default 86400) after `now`.
pub fn microsoft_account(
    profile: McProfile,
    mc_token: String,
    expires_in: Option<i64>,
    refresh: &str,
    xuid: String,
    now: i64,
) -> (res: Account)
    requires
        i64::MIN <= now + (match expires_in {
            Some(e) => e,
            None => 86400,
        }) <= i64::MAX,
    ensures
        res.id@ == spec_format_uuid(profile.id@),
        res.uuid@ == spec_format_uuid(profile.id@),
        res.kind == AccountKind::Microsoft,
        res.name == profile.name,
        res.access_token == mc_token,
        res.refresh_token@ == refresh@,
        res.xuid == xuid,
        res.expires_at == now + (match expires_in {
            Some(e) => e,
            None => 86400,
        }),
{
    let uuid = format_uuid(profile.id.as_str());
    let e: i64 = match expires_in {
        Some(e) => e,
        None => 86400,
    };
    Account {
        id: uuid.clone(),
        kind: AccountKind::Microsoft,
        name: profile.name,
        uuid,
        access_token: mc_token,
        refresh_token: text::owned(refresh),
        xuid,
        expires_at: now + e,
    }
}

} // verus!
