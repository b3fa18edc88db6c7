use slintlauncher::ely::{
    dashed_uuid, ensure_authlib_injector, friendly_error, login_accepted, login_credentials,
    login_refused, needs_totp, offline_uuid, skin_url, AuthError, AuthProfile, AuthResponse,
    AUTHLIB_INJECTOR_URL,
};

fn err(kind: &str, msg: &str) -> AuthError {
    AuthError { error: kind.into(), error_message: msg.into() }
}

#[test]
fn undashed_ids_get_dashes() {
    assert_eq!(dashed_uuid("0123456789abcdef0123456789abcdef"), "01234567-89ab-cdef-0123-456789abcdef");
    assert_eq!(dashed_uuid("01234567-89ab-cdef-0123-456789abcdef"), "01234567-89ab-cdef-0123-456789abcdef");
    assert_eq!(dashed_uuid("short"), "short");
}

#[test]
fn ely_offline_uuids_use_the_mojang_scheme() {
    assert_eq!(offline_uuid("Steve"), "5627dd98-e6be-3c21-b8a8-e92344183641");
    assert_eq!(offline_uuid("Alex"), slintlauncher::config::offline_uuid("Alex"));
}

#[test]
fn errors_are_explained() {
    assert_eq!(friendly_error(&err("x", " Invalid credentials. ")), "Неверный логин или пароль / Invalid login or password");
    assert_eq!(friendly_error(&err("x", "Account protected with two factor auth.")), "Нужен код 2FA / Two-factor code required");
    assert_eq!(friendly_error(&err("x", "You are banned")), "Аккаунт заблокирован / Account is banned");
    assert_eq!(friendly_error(&err("IllegalArgumentException", "  ")), "Ely.by error: IllegalArgumentException");
    assert_eq!(friendly_error(&err("x", " Something else ")), "Something else");
}

#[test]
fn two_factor_requests_are_recognised() {
    assert!(needs_totp(&err("x", "enter TOTP")));
    assert!(needs_totp(&err("x", "two factor auth needed")));
    assert!(!needs_totp(&err("x", "Invalid credentials")));
    let pending = login_refused(&err("x", "totp required"), "client").unwrap();
    assert!(pending.needs_totp);
    assert_eq!(pending.account.client_token, "client");
    assert_eq!(pending.account.kind, "ely");
    assert_eq!(login_refused(&err("x", "Invalid credentials"), "c").err().unwrap(), "Неверный логин или пароль / Invalid login or password");
}

#[test]
fn credentials_carry_the_code() {
    assert_eq!(login_credentials(" me ", "pw", "").unwrap(), ("me".to_string(), "pw".to_string()));
    assert_eq!(login_credentials("me", "pw", " 123456 ").unwrap(), ("me".to_string(), "pw:123456".to_string()));
    assert_eq!(login_credentials("  ", "pw", "").unwrap_err(), "Empty credentials");
    assert_eq!(login_credentials("me", "", "").unwrap_err(), "Empty credentials");
}

#[test]
fn accepted_logins_use_the_selected_profile() {
    let profile = AuthProfile { id: "0123456789abcdef0123456789abcdef".into(), name: "Steve".into() };
    let auth = AuthResponse {
        access_token: "at".into(),
        client_token: "ct".into(),
        selected_profile: None,
        available_profiles: Some(vec![profile]),
    };
    let outcome = login_accepted(auth).unwrap();
    assert!(!outcome.needs_totp);
    assert_eq!(outcome.account.username, "Steve");
    assert_eq!(outcome.account.uuid, "01234567-89ab-cdef-0123-456789abcdef");
    assert!(outcome.account.is_ely());
    let empty = AuthResponse { access_token: "at".into(), client_token: "ct".into(), selected_profile: None, available_profiles: None };
    assert_eq!(login_accepted(empty).unwrap_err(), "Ely.by returned no Minecraft profile for this account");
}

#[test]
fn authlib_injector_lives_under_libraries() {
    let job = ensure_authlib_injector("/data", '/');
    assert_eq!(job.dest, "/data/libraries/authlib-injector/authlib-injector-1.2.8.jar");
    assert_eq!(job.url, AUTHLIB_INJECTOR_URL);
    assert!(job.sha1.is_empty());
    assert_eq!(job.size, 0);
    assert_eq!(skin_url("Steve"), "http://skinsystem.ely.by/skins/Steve.png");
}
