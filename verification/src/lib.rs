//! Core of a self-hostable, federated chat and voice platform: identity
//! verification with key and result caching, the realtime gateway state
//! machine, presence, session and subscription registries, the voice
//! selective-forwarding unit's bookkeeping, permission evaluation, and
//! snowflake id issuance.

mod chat;
mod config;
mod crypto;
mod error;
mod gateway;
mod idmap;
mod models;
mod perms;
mod presence;
mod registry;
mod rules;
mod sfu;
mod snowflake;
mod text;
mod tokens;
mod voice;

pub use chat::{
    parse_mentions, render_mentions, sanitize_content, validate_message, MentionType,
    MAX_MESSAGE_LENGTH, MAX_REACTIONS_PER_MESSAGE,
};
pub use config::{
    AppConfig, AuthConfig, DatabaseConfig, IdentityConfig, LoggingConfig, RedisConfig,
    ServerConfig, ServerMode, TlsConfig, VoiceConfig,
};
pub use crypto::{
    counter_nonce, decrypt_aes256gcm, decrypt_voice_frame, derive_key, encrypt_aes256gcm,
    encrypt_voice_frame, hash_password, sha256_hex, verify_password, verify_signature,
    IdentityKeyPair, PreKeyBundle,
};
pub use error::AppError;
pub use gateway::{
    gateway_cleanup, gateway_connect, route_frame, voice_join, voice_leave, GatewayConn,
    InboundAction,
};
pub use models::{
    AuthResponse, Ban, Channel, ChannelType, Claims, CreateBanRequest, CreateChannelRequest,
    CreateRoleRequest, CreateServerRequest, CreateUserRequest, EditMessageRequest, LoginRequest,
    Member, Message, PresenceStatus, Reaction, Role, SendMessageRequest, Server, ServerPublic,
    User, UserPublic, VoiceParticipant, VoiceSession, WsEvent,
};
pub use perms::{
    effective_permissions, Permissions, ADMINISTRATOR, BAN_MEMBERS, KICK_MEMBERS,
    MANAGE_CHANNELS, MANAGE_MESSAGES, MANAGE_SERVER, SEND_MESSAGES,
};
pub use presence::PresenceRegistry;
pub use registry::{Mailbox, Registry};
pub use rules::{
    avatar_ext, can_delete_message, check_permission, clamp_message_limit, validate_avatar,
    validate_registration, MAX_AVATAR_SIZE,
};
pub use sfu::SfuState;
pub use snowflake::SnowflakeGenerator;
pub use tokens::{build_claims, TokenVerifier, VerifyPlan};
pub use voice::VoiceStates;
