//! The data model: users, servers, channels, messages, members, roles, bans,
//! voice participants, and the gateway's event type. Identifiers are 128-bit
//! values; timestamps are milliseconds since the Unix epoch. Persistence and
//! wire encodings live outside the library.

use vstd::prelude::*;

verus! {

/// The sentinel owner id (all zero) marking an unclaimed default server.
pub const UNCLAIMED_OWNER_ID: u128 = 0;

#[derive(Debug, Clone, Copy, PartialEq, Eq, Structural)]
pub enum PresenceStatus {
    Online,
    Idle,
    Dnd,
    Offline,
}

#[derive(Debug, Clone, Copy, PartialEq, Eq, Structural)]
pub enum ChannelType {
    Text,
    Voice,
    Announcement,
}

#[derive(Debug)]
pub struct User {
    pub id: u128,
    pub username: String,
    pub display_name: String,
    pub avatar_hash: Option<String>,
    pub password_hash: String,
    pub identity_key_public: Option<Vec<u8>>,
    pub created_at_ms: i64,
    pub last_seen_ms: i64,
}

#[derive(Debug, PartialEq)]
pub struct UserPublic {
    pub id: u128,
    pub username: String,
    pub display_name: String,
    pub avatar_hash: Option<String>,
}

pub fn clone_opt_string(v: &Option<String>) -> (r: Option<String>)
    ensures
        r == *v,
{
    match v {
        Some(s) => Some(s.clone()),
        None => None,
    }
}

impl Clone for UserPublic {
    fn clone(&self) -> (r: Self)
        ensures
            r == *self,
    {
        UserPublic {
            id: self.id,
            username: self.username.clone(),
            display_name: self.display_name.clone(),
            avatar_hash: clone_opt_string(&self.avatar_hash),
        }
    }
}

impl User {
    /// The public part of a user record.
    pub fn to_public(&self) -> (r: UserPublic)
        ensures
            r.id == self.id,
            r.username == self.username,
            r.display_name == self.display_name,
            r.avatar_hash == self.avatar_hash,
    {
        UserPublic {
            id: self.id,
            username: self.username.clone(),
            display_name: self.display_name.clone(),
            avatar_hash: clone_opt_string(&self.avatar_hash),
        }
    }
}

#[derive(Debug)]
pub struct Server {
    pub id: u128,
    pub name: String,
    pub icon_hash: Option<String>,
    pub owner_id: u128,
    pub e2ee_enabled: bool,
    pub created_at_ms: i64,
}

#[derive(Debug, PartialEq)]
pub struct ServerPublic {
    pub id: u128,
    pub name: String,
    pub icon_hash: Option<String>,
    pub owner_id: u128,
}

impl Clone for ServerPublic {
    fn clone(&self) -> (r: Self)
        ensures
            r == *self,
    {
        ServerPublic {
            id: self.id,
            name: self.name.clone(),
            icon_hash: clone_opt_string(&self.icon_hash),
            owner_id: self.owner_id,
        }
    }
}

impl Server {
    /// The public part of a server record.
    pub fn to_public(&self) -> (r: ServerPublic)
        ensures
            r.id == self.id,
            r.name == self.name,
            r.icon_hash == self.icon_hash,
            r.owner_id == self.owner_id,
    {
        ServerPublic {
            id: self.id,
            name: self.name.clone(),
            icon_hash: clone_opt_string(&self.icon_hash),
            owner_id: self.owner_id,
        }
    }

    /// An unclaimed default server carries the sentinel owner id; the first
    /// real user to join claims it.
    pub fn is_unclaimed(&self) -> (r: bool)
        ensures
            r == (self.owner_id == UNCLAIMED_OWNER_ID),
    {
        self.owner_id == UNCLAIMED_OWNER_ID
    }
}

#[derive(Debug)]
pub struct Channel {
    pub id: u128,
    pub server_id: u128,
    pub name: String,
    pub channel_type: ChannelType,
    pub position: i32,
    pub category_id: Option<u128>,
}

#[derive(Debug, PartialEq)]
pub struct Message {
    /// Snowflake id.
    pub id: i64,
    pub channel_id: u128,
    pub author_id: u128,
    pub content: String,
    /// Opaque nonce, carried as the client sent it.
    pub nonce: Option<String>,
    pub created_at_ms: i64,
    pub edited_at_ms: Option<i64>,
    pub reply_to_id: Option<i64>,
    pub is_deleted: bool,
    pub author: Option<UserPublic>,
}

impl Clone for Message {
    fn clone(&self) -> (r: Self)
        ensures
            r == *self,
    {
        Message {
            id: self.id,
            channel_id: self.channel_id,
            author_id: self.author_id,
            content: self.content.clone(),
            nonce: clone_opt_string(&self.nonce),
            created_at_ms: self.created_at_ms,
            edited_at_ms: self.edited_at_ms,
            reply_to_id: self.reply_to_id,
            is_deleted: self.is_deleted,
            author: match &self.author {
                Some(u) => Some(u.clone()),
                None => None,
            },
        }
    }
}

#[derive(Debug)]
pub struct Member {
    pub user_id: u128,
    pub server_id: u128,
    pub nickname: Option<String>,
    pub joined_at_ms: i64,
    pub roles: Vec<u128>,
    pub user: Option<UserPublic>,
    pub status: Option<PresenceStatus>,
}

#[derive(Debug)]
pub struct Role {
    pub id: u128,
    pub server_id: u128,
    pub name: String,
    pub permissions: i64,
    pub color: i32,
    pub position: i32,
}

#[derive(Debug)]
pub struct Ban {
    pub server_id: u128,
    pub user_id: u128,
    pub reason: Option<String>,
    pub banned_at_ms: i64,
    pub user: Option<UserPublic>,
}

#[derive(Debug)]
pub struct Reaction {
    pub message_id: i64,
    pub user_id: u128,
    pub emoji: String,
    pub created_at_ms: i64,
}

#[derive(Debug)]
pub struct VoiceSession {
    pub id: u128,
    pub channel_id: u128,
    pub user_id: u128,
    pub sfu_endpoint: String,
    pub joined_at_ms: i64,
    pub muted: bool,
    pub deafened: bool,
}

/// A transient voice participant; lives in the in-process registry only.
#[derive(Debug, PartialEq)]
pub struct VoiceParticipant {
    pub user_id: u128,
    pub channel_id: u128,
    pub muted: bool,
    pub deafened: bool,
    pub user: Option<UserPublic>,
}

impl Clone for VoiceParticipant {
    fn clone(&self) -> (r: Self)
        ensures
            r == *self,
    {
        VoiceParticipant {
            user_id: self.user_id,
            channel_id: self.channel_id,
            muted: self.muted,
            deafened: self.deafened,
            user: match &self.user {
                Some(u) => Some(u.clone()),
                None => None,
            },
        }
    }
}

// ─── Request and response bodies ────────────────────────────────────────────

#[derive(Debug)]
pub struct CreateUserRequest {
    pub username: String,
    pub password: String,
    pub display_name: Option<String>,
}

#[derive(Debug)]
pub struct LoginRequest {
    pub username: String,
    pub password: String,
}

#[derive(Debug)]
pub struct AuthResponse {
    pub token: String,
    pub user: UserPublic,
}

#[derive(Debug)]
pub struct CreateServerRequest {
    pub name: String,
    pub e2ee_enabled: Option<bool>,
}

#[derive(Debug)]
pub struct CreateChannelRequest {
    pub name: String,
    pub channel_type: ChannelType,
    pub category_id: Option<u128>,
}

#[derive(Debug)]
pub struct SendMessageRequest {
    pub content: String,
    pub nonce: Option<String>,
    pub reply_to_id: Option<i64>,
}

#[derive(Debug)]
pub struct EditMessageRequest {
    pub content: String,
}

#[derive(Debug)]
pub struct CreateRoleRequest {
    pub name: String,
    pub permissions: i64,
    pub color: i32,
    pub position: i32,
}

#[derive(Debug)]
pub struct CreateBanRequest {
    pub reason: Option<String>,
}

/// The claims carried by an identity token.
#[derive(Debug)]
pub struct Claims {
    /// User id, in textual form.
    pub sub: String,
    pub username: String,
    /// Issued at (Unix timestamp, seconds).
    pub iat: i64,
    /// Expiry (Unix timestamp, seconds).
    pub exp: i64,
}

// ─── Gateway events ─────────────────────────────────────────────────────────

/// Everything the gateway carries, client to server and server to client.
#[derive(Debug, PartialEq)]
pub enum WsEvent {
    Identify { token: String },
    Heartbeat { seq: u64 },
    WebRTCSignal {
        from_user_id: u128,
        to_user_id: u128,
        channel_id: u128,
        signal_type: String,
        payload: String,
    },
    Ready { user: UserPublic, session_id: String },
    HeartbeatAck,
    MessageCreate(Message),
    MessageUpdate(Message),
    MessageDelete { channel_id: u128, message_id: i64, is_deleted: bool },
    ReactionAdd { channel_id: u128, message_id: i64, user_id: u128, emoji: String },
    ReactionRemove { channel_id: u128, message_id: i64, user_id: u128, emoji: String },
    PresenceUpdate { user_id: u128, status: PresenceStatus },
    TypingStart { channel_id: u128, user_id: u128 },
    VoiceStateUpdate {
        channel_id: u128,
        user_id: u128,
        joined: bool,
        muted: bool,
        deafened: bool,
        user: Option<UserPublic>,
    },
    VoiceServerUpdate { endpoint: String, token: String },
    ServerCreate { server_id: u128, name: String, owner_id: u128 },
    ServerUpdate { server: ServerPublic },
    ChannelCreate { channel_id: u128, server_id: u128, name: String, channel_type: ChannelType },
    MemberJoin { server_id: u128, user: UserPublic },
    MemberLeave { server_id: u128, user_id: u128 },
    MemberUpdate { server_id: u128, user_id: u128 },
    UserUpdate { user: UserPublic },
}

impl Clone for WsEvent {
    fn clone(&self) -> (r: Self)
        ensures
            r == *self,
    {
        match self {
            WsEvent::Identify { token } => WsEvent::Identify { token: token.clone() },
            WsEvent::Heartbeat { seq } => WsEvent::Heartbeat { seq: *seq },
            WsEvent::WebRTCSignal { from_user_id, to_user_id, channel_id, signal_type, payload } => WsEvent::WebRTCSignal {
                from_user_id: *from_user_id,
                to_user_id: *to_user_id,
                channel_id: *channel_id,
                signal_type: signal_type.clone(),
                payload: payload.clone(),
            },
            WsEvent::Ready { user, session_id } => WsEvent::Ready {
                user: user.clone(),
                session_id: session_id.clone(),
            },
            WsEvent::HeartbeatAck => WsEvent::HeartbeatAck,
            WsEvent::MessageCreate(m) => WsEvent::MessageCreate(m.clone()),
            WsEvent::MessageUpdate(m) => WsEvent::MessageUpdate(m.clone()),
            WsEvent::MessageDelete { channel_id, message_id, is_deleted } => WsEvent::MessageDelete {
                channel_id: *channel_id,
                message_id: *message_id,
                is_deleted: *is_deleted,
            },
            WsEvent::ReactionAdd { channel_id, message_id, user_id, emoji } => WsEvent::ReactionAdd {
                channel_id: *channel_id,
                message_id: *message_id,
                user_id: *user_id,
                emoji: emoji.clone(),
            },
            WsEvent::ReactionRemove { channel_id, message_id, user_id, emoji } => WsEvent::ReactionRemove {
                channel_id: *channel_id,
                message_id: *message_id,
                user_id: *user_id,
                emoji: emoji.clone(),
            },
            WsEvent::PresenceUpdate { user_id, status } => WsEvent::PresenceUpdate {
                user_id: *user_id,
                status: *status,
            },
            WsEvent::TypingStart { channel_id, user_id } => WsEvent::TypingStart {
                channel_id: *channel_id,
                user_id: *user_id,
            },
            WsEvent::VoiceStateUpdate { channel_id, user_id, joined, muted, deafened, user } => WsEvent::VoiceStateUpdate {
                channel_id: *channel_id,
                user_id: *user_id,
                joined: *joined,
                muted: *muted,
                deafened: *deafened,
                user: match user {
                    Some(u) => Some(u.clone()),
                    None => None,
                },
            },
            WsEvent::VoiceServerUpdate { endpoint, token } => WsEvent::VoiceServerUpdate {
                endpoint: endpoint.clone(),
                token: token.clone(),
            },
            WsEvent::ServerCreate { server_id, name, owner_id } => WsEvent::ServerCreate {
                server_id: *server_id,
                name: name.clone(),
                owner_id: *owner_id,
            },
            WsEvent::ServerUpdate { server } => WsEvent::ServerUpdate { server: server.clone() },
            WsEvent::ChannelCreate { channel_id, server_id, name, channel_type } => WsEvent::ChannelCreate {
                channel_id: *channel_id,
                server_id: *server_id,
                name: name.clone(),
                channel_type: *channel_type,
            },
            WsEvent::MemberJoin { server_id, user } => WsEvent::MemberJoin {
                server_id: *server_id,
                user: user.clone(),
            },
            WsEvent::MemberLeave { server_id, user_id } => WsEvent::MemberLeave {
                server_id: *server_id,
                user_id: *user_id,
            },
            WsEvent::MemberUpdate { server_id, user_id } => WsEvent::MemberUpdate {
                server_id: *server_id,
                user_id: *user_id,
            },
            WsEvent::UserUpdate { user } => WsEvent::UserUpdate { user: user.clone() },
        }
    }
}

} // verus!
