use antarcticom_core::{
    AppConfig, AppError, AuthConfig, DatabaseConfig, IdentityConfig, LoggingConfig, Permissions,
    RedisConfig, Server, ServerConfig, ServerMode, SnowflakeGenerator, TlsConfig, VoiceConfig,
    ADMINISTRATOR, MANAGE_CHANNELS, MANAGE_MESSAGES, MANAGE_SERVER, SEND_MESSAGES,
};

#[test]
fn test_permission_has_direct_bit() {
    let p = Permissions::new(SEND_MESSAGES | MANAGE_CHANNELS);
    assert!(p.has(SEND_MESSAGES));
    assert!(p.has(MANAGE_CHANNELS));
    assert!(!p.has(MANAGE_SERVER));
}

#[test]
fn test_permission_administrator_overrides() {
    let p = Permissions::new(ADMINISTRATOR);
    assert!(p.has(SEND_MESSAGES));
    assert!(p.has(MANAGE_MESSAGES));
    assert!(p.has(1 << 20));
}

#[test]
fn test_permission_add_remove() {
    let mut p = Permissions::new(0);
    assert!(!p.has(MANAGE_MESSAGES));
    p.add(MANAGE_MESSAGES);
    assert!(p.has(MANAGE_MESSAGES));
    assert_eq!(p.bits(), MANAGE_MESSAGES);
    p.remove(MANAGE_MESSAGES);
    assert!(!p.has(MANAGE_MESSAGES));
    assert_eq!(p.bits(), 0);
}

#[test]
fn test_snowflake_strictly_increasing_same_millisecond() {
    let mut gen = SnowflakeGenerator::new(1);
    let now: u64 = 1_735_689_600_000 + 1_000;
    let mut prev = gen.next_id(now);
    for _ in 0..5000 {
        let id = gen.next_id(now);
        assert!(id > prev);
        prev = id;
    }
}

#[test]
fn test_snowflake_strictly_increasing_clock_backwards() {
    let mut gen = SnowflakeGenerator::new(3);
    let t0: u64 = 1_735_689_600_000 + 50_000;
    let a = gen.next_id(t0);
    let b = gen.next_id(t0 - 10_000);
    let c = gen.next_id(t0 + 1);
    assert!(b > a);
    assert!(c > b);
}

#[test]
fn test_snowflake_layout() {
    let mut gen = SnowflakeGenerator::new(1);
    let id = gen.next_id(1_735_689_600_000 + 1);
    // one millisecond since the epoch, worker 1, sequence 0
    assert_eq!(id, (1 << 22) | (1 << 12));
}

#[test]
fn test_snowflake_worker_masked() {
    // The worker id is masked to 10 bits and the sequence starts at zero.
    let mut gen = SnowflakeGenerator::new(0xFFFF);
    let id = gen.next_id(1_735_689_600_000 + 1);
    assert_eq!(id, (1 << 22) | (0x3FF << 12));
}

#[test]
fn test_error_status_codes() {
    assert_eq!(AppError::Unauthorized.status_code(), 401);
    assert_eq!(AppError::Forbidden.status_code(), 403);
    assert_eq!(AppError::NotFound.status_code(), 404);
    assert_eq!(AppError::BadRequest.status_code(), 400);
    assert_eq!(AppError::Conflict.status_code(), 409);
    assert_eq!(AppError::RateLimited.status_code(), 429);
    assert_eq!(AppError::Database.status_code(), 500);
    assert_eq!(AppError::Internal.status_code(), 500);
}

fn config_with_mode(mode: ServerMode) -> AppConfig {
    AppConfig {
        mode,
        server: ServerConfig {
            host: "127.0.0.1".to_string(),
            port: 8080,
            public_url: "http://localhost:8080".to_string(),
        },
        database: DatabaseConfig { url: "postgres://localhost/app".to_string(), max_connections: 5 },
        redis: RedisConfig { url: String::new() },
        voice: VoiceConfig {
            host: "127.0.0.1".to_string(),
            port: 8443,
            max_sessions: 64,
            min_bitrate: 16_000,
            max_bitrate: 128_000,
        },
        tls: TlsConfig {
            cert_path: String::new(),
            key_path: String::new(),
            acme_enabled: false,
            acme_domain: String::new(),
        },
        auth: AuthConfig {
            jwt_private_key_path: Some("private.pem".to_string()),
            jwt_public_key_path: "public.pem".to_string(),
            token_expiry: 3600,
            allow_local_registration: true,
        },
        identity: IdentityConfig { federation_enabled: false, auth_hub_url: String::new() },
        logging: LoggingConfig { level: "info".to_string(), format: "text".to_string() },
    }
}

#[test]
fn test_server_modes() {
    let hub = config_with_mode(ServerMode::AuthHub);
    assert!(hub.is_auth_hub() && !hub.is_community());
    let community = config_with_mode(ServerMode::Community);
    assert!(!community.is_auth_hub() && community.is_community());
    let standalone = config_with_mode(ServerMode::Standalone);
    assert!(standalone.is_auth_hub() && standalone.is_community());
    assert!(matches!(ServerMode::default(), ServerMode::Standalone));
}

#[test]
fn test_default_server_claim_rule() {
    let unclaimed = Server {
        id: 1,
        name: "general".to_string(),
        icon_hash: None,
        owner_id: 0,
        e2ee_enabled: false,
        created_at_ms: 0,
    };
    assert!(unclaimed.is_unclaimed());
    let claimed = Server { owner_id: 7, ..unclaimed };
    assert!(!claimed.is_unclaimed());
}
