use antarcticom_core::{
    can_delete_message, check_permission, clamp_message_limit, effective_permissions,
    validate_avatar, validate_registration, AppError, Permissions, ADMINISTRATOR,
    MANAGE_MESSAGES, MANAGE_SERVER, SEND_MESSAGES,
};

#[test]
fn test_registration_rules() {
    assert!(validate_registration("alice", "correct horse").is_ok());
    assert!(validate_registration("al", "correct horse").is_err());
    assert!(validate_registration(&"a".repeat(33), "correct horse").is_err());
    assert!(validate_registration("alice", "short").is_err());
    assert!(validate_registration("abc", "12345678").is_ok());
}

#[test]
fn test_check_permission_gate() {
    assert!(check_permission(Permissions::new(SEND_MESSAGES), SEND_MESSAGES).is_ok());
    let err = check_permission(Permissions::new(SEND_MESSAGES), MANAGE_SERVER).unwrap_err();
    assert!(matches!(err, AppError::Forbidden));
    assert!(check_permission(Permissions::new(ADMINISTRATOR), MANAGE_SERVER).is_ok());
}

#[test]
fn test_delete_message_authority() {
    let none = Permissions::new(SEND_MESSAGES);
    let manager = Permissions::new(MANAGE_MESSAGES);
    // The author may delete their own message.
    assert!(can_delete_message(1, 1, none));
    // Another member without message management may not.
    assert!(!can_delete_message(1, 2, none));
    // A manager (or an administrator) may.
    assert!(can_delete_message(1, 2, manager));
    assert!(can_delete_message(1, 2, Permissions::new(ADMINISTRATOR)));
}

#[test]
fn test_effective_permissions_aggregate() {
    let roles = vec![MANAGE_MESSAGES, MANAGE_SERVER];
    let effective = effective_permissions(SEND_MESSAGES, &roles);
    assert_eq!(effective.bits(), SEND_MESSAGES | MANAGE_MESSAGES | MANAGE_SERVER);
    assert!(effective.has(SEND_MESSAGES));
    assert!(!effective.has(ADMINISTRATOR));
}

#[test]
fn test_message_limit_clamp() {
    assert_eq!(clamp_message_limit(None), 50);
    assert_eq!(clamp_message_limit(Some(7)), 7);
    assert_eq!(clamp_message_limit(Some(100)), 100);
    assert_eq!(clamp_message_limit(Some(5_000)), 100);
}

#[test]
fn test_avatar_rules() {
    let ext = validate_avatar(&"image/png".to_string(), 100).unwrap();
    assert_eq!(ext, "png");
    assert_eq!(validate_avatar(&"image/jpeg".to_string(), 100).unwrap(), "jpg");
    assert_eq!(validate_avatar(&"image/gif".to_string(), 100).unwrap(), "gif");
    assert_eq!(validate_avatar(&"image/webp".to_string(), 100).unwrap(), "webp");
    assert!(validate_avatar(&"text/plain".to_string(), 100).is_err());
    assert!(validate_avatar(&"image/png".to_string(), 2 * 1024 * 1024 + 1).is_err());
}
