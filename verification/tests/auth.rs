use slintlauncher::auth::{
    client_id, device_code_from, first_uhs, format_uuid, identity_token, microsoft_account,
    poll_outcome, profile_status, refresh_outcome, rps_ticket, xuid_of, DeviceCodeResponse, McProfile,
    TokenResponse, XboxResponse, XboxUser, DEFAULT_CLIENT_ID,
};
use slintlauncher::config::AccountKind;
use slintlauncher::error::{io_err, Error};
use slintlauncher::fabric::{latest_loader, loader_list_url, profile_id, profile_url, LoaderInfo, LoaderVersion};

fn token() -> TokenResponse {
    TokenResponse { access_token: None, refresh_token: None, expires_in: None, error: None, error_description: None }
}

#[test]
fn the_client_id_can_be_configured() {
    assert_eq!(client_id(None), DEFAULT_CLIENT_ID);
    assert_eq!(client_id(Some("mine".into())), "mine");
}

#[test]
fn device_codes_get_defaults() {
    let body = DeviceCodeResponse {
        user_code: "ABCD".into(),
        device_code: "dc".into(),
        verification_uri: None,
        verification_url: None,
        interval: Some(0),
        expires_in: None,
        error: None,
        error_description: None,
    };
    let d = device_code_from(body).unwrap();
    assert_eq!(d.verification_uri, "https://www.microsoft.com/link");
    assert_eq!(d.interval, 1);
    assert_eq!(d.expires_in, 900);
    let failed = DeviceCodeResponse {
        user_code: String::new(),
        device_code: String::new(),
        verification_uri: None,
        verification_url: None,
        interval: None,
        expires_in: None,
        error: Some("invalid_client".into()),
        error_description: None,
    };
    assert!(matches!(device_code_from(failed), Err(Error::Auth(m)) if m == "invalid_client"));
}

#[test]
fn polls_wait_until_tokens_arrive() {
    let pending = TokenResponse { error: Some("authorization_pending".into()), ..token() };
    assert!(matches!(poll_outcome(pending), Ok(None)));
    let slow = TokenResponse { error: Some("slow_down".into()), ..token() };
    assert!(matches!(poll_outcome(slow), Ok(None)));
    let denied = TokenResponse { error: Some("access_denied".into()), error_description: Some("no".into()), ..token() };
    assert!(matches!(poll_outcome(denied), Err(Error::Auth(m)) if m == "no"));
    assert!(matches!(poll_outcome(token()), Err(Error::Auth(m)) if m == "нет access_token"));
    let ok = TokenResponse { access_token: Some("a".into()), ..token() };
    let t = poll_outcome(ok).unwrap().unwrap();
    assert_eq!((t.access.as_str(), t.refresh.as_str(), t.expires_in), ("a", "", 3600));
}

#[test]
fn refreshes_keep_the_old_refresh_token() {
    let ok = TokenResponse { access_token: Some("a".into()), expires_in: Some(60), ..token() };
    let t = refresh_outcome(ok, "old").unwrap();
    assert_eq!((t.access.as_str(), t.refresh.as_str(), t.expires_in), ("a", "old", 60));
    assert!(matches!(refresh_outcome(token(), "old"), Err(Error::Auth(m)) if m == "refresh не вернул токен"));
}

#[test]
fn xbox_claims_are_read() {
    let xbox = XboxResponse { token: "t".into(), xui: vec![XboxUser { uhs: "h".into(), xid: Some("77".into()) }] };
    assert_eq!(first_uhs(&xbox).unwrap(), "h");
    assert_eq!(xuid_of(&xbox), "77");
    let empty = XboxResponse { token: "t".into(), xui: Vec::new() };
    assert!(matches!(first_uhs(&empty), Err(Error::Auth(m)) if m == "Xbox Live не вернул uhs"));
    assert_eq!(xuid_of(&empty), "0");
    assert_eq!(identity_token("h", "xsts"), "XBL3.0 x=h;xsts");
    assert_eq!(rps_ticket("tok"), "d=tok");
}

#[test]
fn profile_ids_get_dashes() {
    assert_eq!(format_uuid("069a79f444e94726a5befca90e38aaf5"), "069a79f4-44e9-4726-a5be-fca90e38aaf5");
    assert_eq!(format_uuid("xyz"), "xyz");
    let acc = microsoft_account(
        McProfile { id: "069a79f444e94726a5befca90e38aaf5".into(), name: "Notch".into() },
        "mc".into(),
        None,
        "r",
        "1".into(),
        1000,
    );
    assert_eq!(acc.id, "069a79f4-44e9-4726-a5be-fca90e38aaf5");
    assert_eq!(acc.kind, AccountKind::Microsoft);
    assert_eq!(acc.expires_at, 1000 + 86400);
    assert_eq!(acc.user_type(), "msa");
}

#[test]
fn fabric_prefers_a_stable_loader() {
    let v = |s: &str, stable: bool| LoaderVersion { loader: LoaderInfo { version: s.into(), stable } };
    assert_eq!(latest_loader(&vec![v("0.16.1", false), v("0.16.0", true)], "1.21").unwrap(), "0.16.0");
    assert_eq!(latest_loader(&vec![v("0.16.1", false)], "1.21").unwrap(), "0.16.1");
    assert!(matches!(latest_loader(&Vec::new(), "1.0"), Err(Error::Message(m)) if m == "Fabric не поддерживает 1.0"));
    assert_eq!(loader_list_url("1.21"), "https://meta.fabricmc.net/v2/versions/loader/1.21");
    assert_eq!(profile_url("1.21", "0.16.0"), "https://meta.fabricmc.net/v2/versions/loader/1.21/0.16.0/profile/json");
    assert_eq!(profile_id("fabric-loader-0.16.0-1.21".into()).unwrap(), "fabric-loader-0.16.0-1.21");
    assert!(matches!(profile_id(String::new()), Err(Error::Message(m)) if m == "Fabric вернул пустой профиль"));
}

#[test]
fn errors_read_as_messages() {
    assert_eq!(Error::NoAccount.message(), "нет активного аккаунта");
    assert_eq!(Error::VersionNotFound("9.9".into()).message(), "версия 9.9 не найдена в манифесте Mojang");
    assert_eq!(io_err("/x".into(), "denied".into()).message(), "ввод/вывод /x: denied");
    assert_eq!(Error::Auth("t".into()).message(), "вход Microsoft: t");
    assert_eq!(Error::msg("plain".into()).message(), "plain");
}

#[test]
fn the_profile_reply_status_is_judged() {
    assert!(profile_status(200).is_ok());
    assert!(matches!(profile_status(404), Err(Error::Auth(m)) if m == "у этого Microsoft-аккаунта нет профиля Java Edition"));
    assert!(matches!(profile_status(500), Err(Error::Http(m)) if m == "HTTP 500"));
}
