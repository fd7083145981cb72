use antarcticom_core::{
    build_claims, AppError, PresenceRegistry, PresenceStatus, ServerMode, TokenVerifier,
    VerifyPlan,
};

#[test]
fn test_plan_local_modes() {
    let hub = TokenVerifier::new(ServerMode::AuthHub, false);
    assert_eq!(hub.plan(), VerifyPlan::UseLocalKey);
    let standalone = TokenVerifier::new(ServerMode::Standalone, false);
    assert_eq!(standalone.plan(), VerifyPlan::UseLocalKey);
}

#[test]
fn test_plan_community_key_lifecycle() {
    let mut v = TokenVerifier::new(ServerMode::Community, true);
    assert_eq!(v.plan(), VerifyPlan::FetchHubKey);

    // A failed fetch is an internal error, never mistaken for a bad token.
    let err = v.on_fetch_result(None).unwrap_err();
    assert!(matches!(err, AppError::Internal));
    assert_eq!(v.plan(), VerifyPlan::FetchHubKey);

    // Once the key is cached it is kept; the hub is never needed again.
    v.on_fetch_result(Some(b"pem bytes".to_vec())).unwrap();
    assert_eq!(v.plan(), VerifyPlan::UseCachedHubKey);
    assert_eq!(v.hub_key_pem().unwrap().as_slice(), b"pem bytes");
}

#[test]
fn test_plan_community_without_hub_url() {
    let v = TokenVerifier::new(ServerMode::Community, false);
    assert_eq!(v.plan(), VerifyPlan::Misconfigured);
}

#[test]
fn test_token_cache_ttl() {
    let mut v = TokenVerifier::new(ServerMode::Standalone, false);
    let token = "token-text".to_string();

    // A fresh verifier misses.
    assert!(v.check_cache(&token, 1_000).is_none());

    // The result is recorded at T = 1 s ...
    v.record(&token, 7, "alice".to_string(), 1_000);

    // ... answers from the cache at T + 30 s without a signature check ...
    let hit = v.check_cache(&token, 31_000).unwrap();
    assert_eq!(hit, (7, "alice".to_string()));

    // ... and at T + 61 s the entry has expired and is evicted.
    assert!(v.check_cache(&token, 62_000).is_none());
    assert!(v.check_cache(&token, 31_000).is_none());
}

#[test]
fn test_verify_with_bad_key_is_internal() {
    // A public key that is not a PEM is a misconfiguration, never mistaken
    // for an invalid token.
    let mut v = TokenVerifier::new(ServerMode::Standalone, false);
    let pem = b"not a pem".to_vec();
    let token = "not.a.token".to_string();
    let err = v.verify_with_key(&pem, &token, 0).unwrap_err();
    assert!(matches!(err, AppError::Internal));
    assert!(v.check_cache(&token, 0).is_none());
}

#[test]
fn test_on_decode_result_classification() {
    let mut v = TokenVerifier::new(ServerMode::Standalone, false);
    let token = "token-text".to_string();

    // A rejected token is unauthorized.
    let err = v.on_decode_result(&token, None, 0).unwrap_err();
    assert!(matches!(err, AppError::Unauthorized));

    // Accepted claims with a malformed subject are an internal error.
    let err = v
        .on_decode_result(&token, Some(("not-an-id".to_string(), "alice".to_string())), 0)
        .unwrap_err();
    assert!(matches!(err, AppError::Internal));
    assert!(v.check_cache(&token, 0).is_none());

    // A well-formed subject yields the identity and caches it.
    let sub = uuid::Uuid::from_u128(7).to_string();
    let (uid, name) = v.on_decode_result(&token, Some((sub, "alice".to_string())), 0).unwrap();
    assert_eq!(uid, 7);
    assert_eq!(name, "alice");
    assert_eq!(v.check_cache(&token, 10_000).unwrap(), (7, "alice".to_string()));
}

#[test]
fn test_build_claims() {
    let claims = build_claims(7, "alice".to_string(), 1_000, 3_600);
    assert_eq!(claims.sub, uuid::Uuid::from_u128(7).to_string());
    assert_eq!(claims.username, "alice");
    assert_eq!(claims.iat, 1_000);
    assert_eq!(claims.exp, 4_600);
}

#[test]
fn test_presence_status_and_bulk() {
    let mut p = PresenceRegistry::new();
    assert_eq!(p.get_status(1), PresenceStatus::Offline);
    p.set_status(1, PresenceStatus::Online);
    p.set_status(2, PresenceStatus::Dnd);
    assert_eq!(
        p.get_bulk_status(&vec![1, 2, 3]),
        vec![PresenceStatus::Online, PresenceStatus::Dnd, PresenceStatus::Offline]
    );
    p.set_offline(1);
    assert_eq!(p.get_status(1), PresenceStatus::Offline);
}

#[test]
fn test_typing_expiry() {
    let mut p = PresenceRegistry::new();
    p.set_typing(10, 1, 1_000);
    p.set_typing(10, 2, 2_000);

    // Both alive within eight seconds of their refresh.
    let typing = p.get_typing(10, 5_000);
    assert_eq!(typing.len(), 2);

    // The first expires exactly eight seconds after its refresh.
    let typing = p.get_typing(10, 9_000);
    assert_eq!(typing, vec![2]);

    // The sweeper drops everything once both expired.
    p.cleanup(60_000);
    assert!(p.get_typing(10, 60_000).is_empty());
}
