//! Checks the memory API makes before it queues, searches or lists.

use vstd::prelude::*;
use crate::text::{byte_len, str_byte_len};

verus! {

/// Body of a request to remember text.
#[derive(Debug, Clone)]
pub struct AddMemoryRequest {
    pub user_id: String,
    pub text: String,
}

/// Body of a memory search.
#[derive(Debug, Clone)]
pub struct SearchMemoryRequest {
    pub user_id: String,
    pub query: String,
}

/// The message refusing a user id, if it is refused: it must be non-empty
/// and at most 256 bytes.
pub open spec fn user_id_problem(user_id: Seq<char>) -> Option<Seq<char>> {
    if user_id.len() == 0 {
        Some("user_id must not be empty"@)
    } else if byte_len(user_id) > 256 {
        Some("user_id must not exceed 256 characters"@)
    } else {
        None
    }
}

/// Checks a user id.
pub fn validate_user_id(user_id: &str) -> (r: Result<(), &'static str>)
    ensures
        match user_id_problem(user_id@) {
            Some(m) => r matches Err(e) && e@ == m,
            None => r is Ok,
        },
{
    if user_id.is_empty() {
        return Err("user_id must not be empty");
    }
    if str_byte_len(user_id) > 256 {
        return Err("user_id must not exceed 256 characters");
    }
    Ok(())
}

/// Why a memory request is refused.
#[derive(Debug, Clone, Copy, PartialEq, Eq)]
pub enum MemoryRejection {
    /// 401: the bearer token is not a live client's.
    Unauthorized,
    /// 503: the memory engine is switched off.
    Disabled,
    /// 400, with the message.
    BadRequest(&'static str),
}

/// The outcome of the checks on a memory request: authorisation first, then
/// the engine being on, then the user id, then the size of `payload` (which
/// must be non-empty and at most `max_payload` bytes, else `size_message`).
pub open spec fn memory_check(
    authorized: bool,
    enabled: bool,
    user_id: Seq<char>,
    payload: Option<Seq<char>>,
    max_payload: nat,
    size_message: Seq<char>,
    r: Result<(), MemoryRejection>,
) -> bool {
    if !authorized {
        r == Err::<(), MemoryRejection>(MemoryRejection::Unauthorized)
    } else if !enabled {
        r == Err::<(), MemoryRejection>(MemoryRejection::Disabled)
    } else if user_id_problem(user_id) is Some {
        r matches Err(MemoryRejection::BadRequest(m)) && m@ == user_id_problem(user_id).unwrap()
    } else {
        match payload {
            Some(p) => if p.len() == 0 || byte_len(p) > max_payload {
                r matches Err(MemoryRejection::BadRequest(m)) && m@ == size_message
            } else {
                r is Ok
            },
            None => r is Ok,
        }
    }
}

fn check_common(authorized: bool, enabled: bool, user_id: &str) -> (r: Result<(), MemoryRejection>)
    ensures
        memory_check(authorized, enabled, user_id@, None, 0, Seq::empty(), r),
{
    if !authorized {
        return Err(MemoryRejection::Unauthorized);
    }
    if !enabled {
        return Err(MemoryRejection::Disabled);
    }
    match validate_user_id(user_id) {
        Ok(()) => Ok(()),
        Err(m) => Err(MemoryRejection::BadRequest(m)),
    }
}

/// Checks a request to remember text: text of 1 byte to 100 KiB.
pub fn check_add_memory(authorized: bool, enabled: bool, body: &AddMemoryRequest) -> (r: Result<(), MemoryRejection>)
    ensures
        memory_check(authorized, enabled, body.user_id@, Some(body.text@), 102_400, "text must be between 1 and 100KB"@, r),
{
    match check_common(authorized, enabled, body.user_id.as_str()) {
        Err(e) => return Err(e),
        Ok(()) => {},
    }
    if body.text.as_str().is_empty() || str_byte_len(body.text.as_str()) > 102_400 {
        return Err(MemoryRejection::BadRequest("text must be between 1 and 100KB"));
    }
    Ok(())
}

/// Checks a memory search: a query of 1 byte to 10 KiB.
pub fn check_search_memory(authorized: bool, enabled: bool, body: &SearchMemoryRequest) -> (r: Result<(), MemoryRejection>)
    ensures
        memory_check(authorized, enabled, body.user_id@, Some(body.query@), 10_240, "query must be between 1 and 10KB"@, r),
{
    match check_common(authorized, enabled, body.user_id.as_str()) {
        Err(e) => return Err(e),
        Ok(()) => {},
    }
    if body.query.as_str().is_empty() || str_byte_len(body.query.as_str()) > 10_240 {
        return Err(MemoryRejection::BadRequest("query must be between 1 and 10KB"));
    }
    Ok(())
}

/// Checks a request listing a user's memories.
pub fn check_list_memories(authorized: bool, enabled: bool, user_id: &str) -> (r: Result<(), MemoryRejection>)
    ensures
        memory_check(authorized, enabled, user_id@, None, 0, Seq::empty(), r),
{
    check_common(authorized, enabled, user_id)
}

} // verus!
