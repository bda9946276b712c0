use cubic::auth::{
    account_info, device_code_error, ensure_owns_game, entitlements_status, first_user_hash,
    initial_poll_interval, insert_uuid_dashes, login_code_payload, normalize_offline_session,
    offline_session, offline_uuid, poll_decision, profile_status, require_client_id,
    restore_outcome, rps_ticket, service_failure, session_from_profile, token_from_json,
    validate_username, xbl_identity_token, AuthSession, OAuthTokenJson, PollOutcome,
    RestoreOutcome, SignIn, SignInEvent, SignInPhase, SignInStep, StatusVerdict,
};
use cubic::error::AppError;

fn message_of(e: &AppError) -> String {
    e.message()
}

fn token_json(
    access: Option<&str>,
    refresh: Option<&str>,
    error: Option<&str>,
    desc: Option<&str>,
) -> OAuthTokenJson {
    OAuthTokenJson {
        access_token: access.map(|s| s.to_string()),
        refresh_token: refresh.map(|s| s.to_string()),
        error: error.map(|s| s.to_string()),
        error_description: desc.map(|s| s.to_string()),
    }
}

fn session(token: &str) -> AuthSession {
    AuthSession {
        access_token: token.to_string(),
        refresh_token: None,
        uuid: "b50ad385-829d-3141-a216-7e7d7539ba7f".to_string(),
        username: "Notch".to_string(),
        xuid: None,
        offline: false,
    }
}

#[test]
fn offline_uuid_matches_java_name_uuid() {
    assert_eq!(offline_uuid("Notch"), "b50ad385-829d-3141-a216-7e7d7539ba7f");
    assert_eq!(offline_uuid("Steve"), "5627dd98-e6be-3c21-b8a8-e92344183641");
    assert_eq!(offline_uuid("jeb_"), "a762f560-4fce-3236-812a-b80efff0b62b");
}

#[test]
fn offline_uuid_is_version_three() {
    for name in ["Notch", "Steve", "jeb_", "x"] {
        let u = offline_uuid(name);
        let parts: Vec<&str> = u.split('-').collect();
        assert_eq!(parts.len(), 5);
        assert!(parts[2].starts_with('3'));
        let variant = parts[3].chars().next().unwrap();
        assert!(matches!(variant, '8' | '9' | 'a' | 'b'));
    }
}

#[test]
fn usernames_are_trimmed_and_checked() {
    assert_eq!(validate_username("  Steve  ").unwrap(), "Steve");
    let e = validate_username("   ").unwrap_err();
    assert_eq!(message_of(&e), "Username must be 1–16 characters");
    let e = validate_username("abcdefghijklmnopq").unwrap_err();
    assert_eq!(message_of(&e), "Username must be 1–16 characters");
    assert_eq!(validate_username("abcdefghijklmnop").unwrap(), "abcdefghijklmnop");
    let e = validate_username("a b").unwrap_err();
    assert_eq!(message_of(&e), "Username cannot contain spaces");
    let e = validate_username("a\tb").unwrap_err();
    assert_eq!(message_of(&e), "Username cannot contain spaces");
}

#[test]
fn offline_session_of_a_name() {
    let s = offline_session(" Notch ").unwrap();
    assert_eq!(s.username, "Notch");
    assert_eq!(s.uuid, "b50ad385-829d-3141-a216-7e7d7539ba7f");
    assert_eq!(s.access_token, "0");
    assert!(s.offline);
    assert!(s.refresh_token.is_none());
    assert!(s.xuid.is_none());
    assert!(offline_session("").is_err());
}

#[test]
fn restored_offline_sessions_are_normalised() {
    let mut s = session("");
    s.offline = false;
    let n = normalize_offline_session(s);
    assert!(n.offline);
    assert_eq!(n.access_token, "0");
    let n = normalize_offline_session(session("tok"));
    assert_eq!(n.access_token, "tok");
    assert!(n.offline);
}

#[test]
fn account_info_copies_the_session() {
    let info = account_info(&session("t"));
    assert_eq!(info.uuid, "b50ad385-829d-3141-a216-7e7d7539ba7f");
    assert_eq!(info.username, "Notch");
    assert!(!info.offline);
}

#[test]
fn client_id_must_not_be_blank() {
    assert!(matches!(require_client_id("   "), Err(AppError::MissingClientId)));
    assert_eq!(require_client_id("  abc-123 ").unwrap(), "abc-123");
    assert_eq!(
        message_of(&AppError::MissingClientId),
        "Cubic needs its own Microsoft app ID. Create an Entra app named \"Cubic\", enable public client flows, paste the Application (client) ID in Settings, then submit it at https://aka.ms/mce-reviewappid"
    );
}

#[test]
fn token_replies() {
    let t = token_from_json(token_json(Some("a"), Some("r"), None, None)).unwrap();
    assert_eq!(t.access_token, "a");
    assert_eq!(t.refresh_token.as_deref(), Some("r"));
    match token_from_json(token_json(None, None, Some("invalid_grant"), Some("expired"))) {
        Err(AppError::OAuth(m)) => assert_eq!(m, "invalid_grant: expired"),
        other => panic!("unexpected {:?}", other),
    }
    match token_from_json(token_json(None, None, Some("invalid_grant"), None)) {
        Err(AppError::OAuth(m)) => assert_eq!(m, "invalid_grant: "),
        other => panic!("unexpected {:?}", other),
    }
    match token_from_json(token_json(None, None, None, None)) {
        Err(AppError::OAuth(m)) => assert_eq!(m, "Token response missing access_token"),
        other => panic!("unexpected {:?}", other),
    }
}

#[test]
fn first_poll_interval() {
    assert_eq!(initial_poll_interval(None), 5);
    assert_eq!(initial_poll_interval(Some(0)), 1);
    assert_eq!(initial_poll_interval(Some(9)), 9);
}

#[test]
fn poll_decisions() {
    assert!(matches!(
        poll_decision(5, token_json(None, None, Some("authorization_pending"), None)),
        PollOutcome::Wait(5)
    ));
    assert!(matches!(
        poll_decision(5, token_json(None, None, Some("slow_down"), None)),
        PollOutcome::Wait(10)
    ));
    match poll_decision(5, token_json(None, None, Some("expired_token"), None)) {
        PollOutcome::Finished(Err(AppError::OAuth(m))) => {
            assert_eq!(m, "Microsoft sign-in code expired. Try again.")
        }
        _ => panic!("expected expiry"),
    }
    match poll_decision(5, token_json(None, None, Some("access_denied"), None)) {
        PollOutcome::Finished(Err(AppError::OAuth(m))) => {
            assert_eq!(m, "Microsoft sign-in was cancelled.")
        }
        _ => panic!("expected cancel"),
    }
    match poll_decision(5, token_json(None, None, Some("bad"), Some("worse"))) {
        PollOutcome::Finished(Err(AppError::OAuth(m))) => assert_eq!(m, "bad: worse"),
        _ => panic!("expected failure"),
    }
    match poll_decision(5, token_json(Some("acc"), None, None, None)) {
        PollOutcome::Finished(Ok(t)) => {
            assert_eq!(t.access_token, "acc");
            assert!(t.refresh_token.is_none());
        }
        _ => panic!("expected tokens"),
    }
}

#[test]
fn device_code_replies() {
    assert!(device_code_error(&None, &None).is_none());
    match device_code_error(&Some("unauthorized_client".into()), &Some("nope".into())) {
        Some(AppError::OAuth(m)) => assert_eq!(m, "unauthorized_client: nope"),
        other => panic!("unexpected {:?}", other),
    }
    let p = login_code_payload("ABCD", "https://microsoft.com/link", &None);
    assert_eq!(p.message, "Open https://microsoft.com/link and enter code ABCD");
    assert_eq!(p.user_code, "ABCD");
    assert_eq!(p.verification_uri, "https://microsoft.com/link");
    let p = login_code_payload("ABCD", "u", &Some("Go there".into()));
    assert_eq!(p.message, "Go there");
}

#[test]
fn xbox_tokens() {
    assert_eq!(rps_ticket("tok"), "d=tok");
    assert_eq!(xbl_identity_token("uhs1", "xsts"), "XBL3.0 x=uhs1;xsts");
    assert_eq!(first_user_hash(&vec!["h1".to_string(), "h2".to_string()]).unwrap(), "h1");
    match first_user_hash(&Vec::new()) {
        Err(AppError::Auth(m)) => assert_eq!(m, "Xbox XSTS response missing user hash"),
        other => panic!("unexpected {:?}", other),
    }
    match service_failure("Minecraft login", "500 Internal Server Error", "oops") {
        AppError::Auth(m) => assert_eq!(m, "Minecraft login failed (500 Internal Server Error): oops"),
        other => panic!("unexpected {:?}", other),
    }
}

#[test]
fn status_verdicts() {
    assert_eq!(entitlements_status(200), StatusVerdict::Proceed);
    assert_eq!(entitlements_status(401), StatusVerdict::NotOwned);
    assert_eq!(entitlements_status(404), StatusVerdict::NotOwned);
    assert_eq!(entitlements_status(500), StatusVerdict::Failed);
    assert_eq!(profile_status(204), StatusVerdict::Proceed);
    assert_eq!(profile_status(404), StatusVerdict::NotOwned);
    assert_eq!(profile_status(401), StatusVerdict::Failed);
    assert_eq!(profile_status(302), StatusVerdict::Failed);
}

#[test]
fn ownership_needs_a_minecraft_entitlement() {
    assert!(ensure_owns_game(&vec![None, Some("product_minecraft".into())]).is_ok());
    assert!(ensure_owns_game(&vec![Some("game_minecraft".into())]).is_ok());
    assert!(matches!(
        ensure_owns_game(&vec![Some("product_dungeons".into()), None]),
        Err(AppError::GameNotOwned)
    ));
    assert!(matches!(ensure_owns_game(&Vec::new()), Err(AppError::GameNotOwned)));
    assert_eq!(
        message_of(&AppError::GameNotOwned),
        "This Microsoft account does not own Minecraft: Java Edition."
    );
}

#[test]
fn profile_ids_get_dashes() {
    assert_eq!(
        insert_uuid_dashes("069a79f444e94726a5befca90e38aaf5").unwrap(),
        "069a79f4-44e9-4726-a5be-fca90e38aaf5"
    );
    match insert_uuid_dashes("abc") {
        Err(AppError::Auth(m)) => assert_eq!(m, "Unexpected profile UUID: abc"),
        other => panic!("unexpected {:?}", other),
    }
}

#[test]
fn dashing_is_idempotent() {
    let once = insert_uuid_dashes("853c80ef3c3749fdaa49938b674adae6").unwrap();
    let twice = insert_uuid_dashes(&once).unwrap();
    assert_eq!(once, twice);
    assert_eq!(once, "853c80ef-3c37-49fd-aa49-938b674adae6");
}

#[test]
fn sessions_from_profiles() {
    let s = session_from_profile(
        "mc".to_string(),
        Some("rt".to_string()),
        "069a79f444e94726a5befca90e38aaf5",
        "Notch".to_string(),
    )
    .unwrap();
    assert_eq!(s.uuid, "069a79f4-44e9-4726-a5be-fca90e38aaf5");
    assert_eq!(s.access_token, "mc");
    assert_eq!(s.refresh_token.as_deref(), Some("rt"));
    assert_eq!(s.username, "Notch");
    assert!(!s.offline);
    assert!(s.xuid.is_none());
    assert!(session_from_profile("mc".into(), None, "short", "N".into()).is_err());
}

#[test]
fn restoring_sessions() {
    assert!(matches!(restore_outcome(Ok(Some(session("t")))), RestoreOutcome::Restored(s) if s.access_token == "t"));
    assert!(matches!(restore_outcome(Ok(None)), RestoreOutcome::NoSession));
    assert!(matches!(restore_outcome(Err(AppError::MissingClientId)), RestoreOutcome::NoSession));
    assert!(matches!(
        restore_outcome(Err(AppError::Auth("x".into()))),
        RestoreOutcome::Failed(AppError::Auth(m)) if m == "x"
    ));
}

fn status(sign_in: &mut SignIn, code: u16) -> SignInStep {
    sign_in.next(SignInEvent::Status { code, status: format!("{code} X") })
}

#[test]
fn sign_in_walks_the_services() {
    let mut s = SignIn::new();
    match s.next(SignInEvent::Begin { msa_access_token: "msa".into(), refresh_token: Some("rt".into()) }) {
        SignInStep::AuthenticateXbox { rps_ticket } => assert_eq!(rps_ticket, "d=msa"),
        other => panic!("unexpected {:?}", other),
    }
    assert!(matches!(status(&mut s, 200), SignInStep::ReadBody));
    match s.next(SignInEvent::XboxToken("xbl".into())) {
        SignInStep::AuthorizeXsts { xbox_token } => assert_eq!(xbox_token, "xbl"),
        other => panic!("unexpected {:?}", other),
    }
    assert_eq!(s.phase, SignInPhase::Xsts);
    assert!(matches!(status(&mut s, 200), SignInStep::ReadBody));
    match s.next(SignInEvent::XstsTokens { token: "xsts".into(), user_hashes: vec!["uhs".into()] }) {
        SignInStep::LoginMinecraft { identity_token } => assert_eq!(identity_token, "XBL3.0 x=uhs;xsts"),
        other => panic!("unexpected {:?}", other),
    }
    assert!(matches!(status(&mut s, 200), SignInStep::ReadBody));
    match s.next(SignInEvent::MinecraftToken("mc".into())) {
        SignInStep::GetEntitlements { access_token } => assert_eq!(access_token, "mc"),
        other => panic!("unexpected {:?}", other),
    }
    assert!(matches!(status(&mut s, 200), SignInStep::ReadBody));
    match s.next(SignInEvent::EntitlementNames(vec![Some("game_minecraft".into())])) {
        SignInStep::GetProfile { access_token } => assert_eq!(access_token, "mc"),
        other => panic!("unexpected {:?}", other),
    }
    assert!(s.owns_game);
    assert!(matches!(status(&mut s, 200), SignInStep::ReadBody));
    match s.next(SignInEvent::Profile { id: "069a79f444e94726a5befca90e38aaf5".into(), name: "Notch".into() }) {
        SignInStep::Finish(Ok(session)) => {
            assert_eq!(session.uuid, "069a79f4-44e9-4726-a5be-fca90e38aaf5");
            assert_eq!(session.access_token, "mc");
            assert_eq!(session.refresh_token.as_deref(), Some("rt"));
            assert_eq!(session.username, "Notch");
            assert!(!session.offline);
        }
        other => panic!("unexpected {:?}", other),
    }
}

#[test]
fn sign_in_needs_the_game() {
    let mut s = SignIn::new();
    s.next(SignInEvent::Begin { msa_access_token: "m".into(), refresh_token: None });
    s.next(SignInEvent::MinecraftToken("mc".into()));
    assert!(matches!(
        s.next(SignInEvent::EntitlementNames(vec![Some("product_dungeons".into())])),
        SignInStep::Finish(Err(AppError::GameNotOwned))
    ));
    assert!(matches!(
        s.next(SignInEvent::Profile { id: "069a79f444e94726a5befca90e38aaf5".into(), name: "N".into() }),
        SignInStep::Finish(Err(AppError::GameNotOwned))
    ));
    assert!(matches!(status(&mut s, 401), SignInStep::Finish(Err(AppError::GameNotOwned))));
    assert!(matches!(status(&mut s, 404), SignInStep::Finish(Err(AppError::GameNotOwned))));
}

#[test]
fn sign_in_failures_name_the_service() {
    let mut s = SignIn::new();
    s.next(SignInEvent::Begin { msa_access_token: "m".into(), refresh_token: None });
    assert!(matches!(
        s.next(SignInEvent::Status { code: 400, status: "400 Bad Request".into() }),
        SignInStep::ReadFailureBody
    ));
    match s.next(SignInEvent::FailureBody("nope".into())) {
        SignInStep::Finish(Err(AppError::Auth(m))) => {
            assert_eq!(m, "Xbox Live authenticate failed (400 Bad Request): nope")
        }
        other => panic!("unexpected {:?}", other),
    }
    s.next(SignInEvent::MinecraftToken("mc".into()));
    assert!(matches!(status(&mut s, 500), SignInStep::ReadFailureBody));
    match s.next(SignInEvent::FailureBody("down".into())) {
        SignInStep::Finish(Err(AppError::Auth(m))) => assert_eq!(m, "Entitlements check failed (500 X): down"),
        other => panic!("unexpected {:?}", other),
    }
    match s.next(SignInEvent::XstsTokens { token: "t".into(), user_hashes: Vec::new() }) {
        SignInStep::Finish(Err(AppError::Auth(m))) => assert_eq!(m, "Xbox XSTS response missing user hash"),
        other => panic!("unexpected {:?}", other),
    }
    assert!(matches!(
        s.next(SignInEvent::Failed(AppError::Http("reset".into()))),
        SignInStep::Finish(Err(AppError::Http(_)))
    ));
}
