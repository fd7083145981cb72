//! The request-level rules the REST boundary enforces: registration input
//! validation, permission gates, message-deletion authority, pagination
//! clamping, and avatar upload constraints.

use crate::error::AppError;
use crate::perms::{mask_has, Permissions, MANAGE_MESSAGES};
use vstd::prelude::*;
use vstd::string::StringSliceAdditionalSpecFns;

verus! {

broadcast use vstd::slice::axiom_spec_len;

/// Maximum avatar size in bytes (2 MiB).
pub const MAX_AVATAR_SIZE: usize = 2097152;

/// Default page size for message history.
pub const DEFAULT_MESSAGE_LIMIT: i64 = 50;

/// Largest page size for message history.
pub const MAX_MESSAGE_LIMIT: i64 = 100;

/// Registration input rules: a username of 3 to 32 bytes and a password of
/// at least 8 bytes; anything else is a bad request.
pub fn validate_registration(username: &str, password: &str) -> (r: Result<(), AppError>)
    ensures
        r is Ok <==> (3 <= username.spec_bytes().len() <= 32 && password.spec_bytes().len() >= 8),
        r is Err ==> r->Err_0 is BadRequest,
{
    let ub = username.as_bytes();
    if ub.len() < 3 || ub.len() > 32 {
        return Err(AppError::BadRequest);
    }
    let pb = password.as_bytes();
    if pb.len() < 8 {
        return Err(AppError::BadRequest);
    }
    Ok(())
}

/// The permission gate every mutation goes through: the member's effective
/// mask must grant the required permission, with administrator overriding
/// all, else the request is forbidden.
pub fn check_permission(perms: Permissions, required: i64) -> (r: Result<(), AppError>)
    ensures
        r is Ok <==> mask_has(perms.0, required),
        r is Err ==> r->Err_0 is Forbidden,
{
    if perms.has(required) {
        Ok(())
    } else {
        Err(AppError::Forbidden)
    }
}

/// Who may delete a message: its author, or a member whose permissions grant
/// message management.
pub fn can_delete_message(author_id: u128, requester_id: u128, perms: Permissions) -> (r: bool)
    ensures
        r == (author_id == requester_id || mask_has(perms.0, MANAGE_MESSAGES)),
{
    author_id == requester_id || perms.has(MANAGE_MESSAGES)
}

/// The page size for message history: the requested limit capped at the
/// maximum, or the default when none is given.
pub fn clamp_message_limit(limit: Option<i64>) -> (r: i64)
    ensures
        r == (match limit {
            Some(l) => if l < MAX_MESSAGE_LIMIT {
                l
            } else {
                MAX_MESSAGE_LIMIT
            },
            None => DEFAULT_MESSAGE_LIMIT,
        }),
{
    match limit {
        Some(l) => if l < MAX_MESSAGE_LIMIT {
            l
        } else {
            MAX_MESSAGE_LIMIT
        },
        None => DEFAULT_MESSAGE_LIMIT,
    }
}

/// The file extension stored for an avatar content type; only PNG, JPEG,
/// GIF and WebP are accepted.
pub open spec fn spec_avatar_ext(ct: Seq<char>) -> Option<Seq<char>> {
    if ct == "image/png"@ {
        Some("png"@)
    } else if ct == "image/jpeg"@ {
        Some("jpg"@)
    } else if ct == "image/gif"@ {
        Some("gif"@)
    } else if ct == "image/webp"@ {
        Some("webp"@)
    } else {
        None
    }
}

/// Map an avatar content type to its stored file extension.
pub fn avatar_ext(content_type: &String) -> (r: Option<String>)
    ensures
        r is Some <==> spec_avatar_ext(content_type@) is Some,
        r matches Some(e) ==> spec_avatar_ext(content_type@) == Some(e@),
{
    let png = String::from_str("image/png");
    let jpeg = String::from_str("image/jpeg");
    let gif = String::from_str("image/gif");
    let webp = String::from_str("image/webp");
    if *content_type == png {
        Some(String::from_str("png"))
    } else if *content_type == jpeg {
        Some(String::from_str("jpg"))
    } else if *content_type == gif {
        Some(String::from_str("gif"))
    } else if *content_type == webp {
        Some(String::from_str("webp"))
    } else {
        None
    }
}

/// Avatar upload rules: an accepted content type and at most the size cap;
/// the stored extension comes back.
pub fn validate_avatar(content_type: &String, size: usize) -> (r: Result<String, AppError>)
    ensures
        r is Ok <==> (spec_avatar_ext(content_type@) is Some && size <= MAX_AVATAR_SIZE),
        r matches Ok(e) ==> spec_avatar_ext(content_type@) == Some(e@),
        r is Err ==> r->Err_0 is BadRequest,
{
    let ext = match avatar_ext(content_type) {
        Some(e) => e,
        None => return Err(AppError::BadRequest),
    };
    if size > MAX_AVATAR_SIZE {
        return Err(AppError::BadRequest);
    }
    Ok(ext)
}

} // verus!
