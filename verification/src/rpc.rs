//! The rules of the host's local endpoints for the link handler: every
//! request must carry the server token; a magnet link or a torrent file is
//! passed on to the extension as an event.

use crate::host::Event;
use crate::http::{STATUS_FORBIDDEN, STATUS_PAYLOAD_TOO_LARGE};
use crate::text::same_text;
use vstd::prelude::*;

verus! {

/// Longest base64 text of a torrent file the host passes on. Messages to
/// the extension are limited to 1 MB; this leaves room for the wrapper.
pub const MAX_BASE64_SIZE: usize = 900_000;

/// The query of every request: the server token.
#[derive(Clone, Debug, PartialEq, Eq)]
pub struct TokenQuery {
    pub token: String,
}

/// The body of `POST /add-magnet`.
#[derive(Clone, Debug, PartialEq, Eq)]
pub struct AddMagnetRequest {
    pub magnet: String,
}

/// The body of `POST /add-torrent`.
#[derive(Clone, Debug, PartialEq, Eq)]
pub struct AddTorrentRequest {
    pub file_name: String,
    pub contents_base64: String,
}

/// The answer of `GET /health`.
#[derive(Clone, Debug, PartialEq, Eq)]
pub struct HealthResponse {
    pub status: String,
    pub pid: u32,
    pub version: String,
}

/// The answer to an accepted magnet link or torrent file.
#[derive(Clone, Debug, PartialEq, Eq)]
pub struct StatusResponse {
    pub status: String,
    pub message: String,
}

/// Serves `GET /health`: status `ok` with the pid and version of the host,
/// or 403 where the token is not the server token.
pub fn health(query: &TokenQuery, server_token: &str, pid: u32, version: String) -> (result: Result<
    HealthResponse,
    u16,
>)
    ensures
        query.token@ != server_token@ ==> result == Err::<HealthResponse, u16>(STATUS_FORBIDDEN),
        query.token@ == server_token@ ==> result.is_ok() && result.unwrap().status@ == "ok"@
            && result.unwrap().pid == pid && result.unwrap().version@ == version@,
{
    if !same_text(query.token.as_str(), server_token) {
        return Err(STATUS_FORBIDDEN);
    }
    Ok(HealthResponse { status: "ok".to_owned(), pid, version })
}

/// Serves `POST /add-magnet`: the link is passed on as an event, or the
/// request is refused with 403 where the token is not the server token.
pub fn add_magnet(query: &TokenQuery, server_token: &str, request: AddMagnetRequest) -> (result:
    Result<(Event, StatusResponse), u16>)
    ensures
        query.token@ != server_token@ ==> result == Err::<(Event, StatusResponse), u16>(
            STATUS_FORBIDDEN,
        ),
        query.token@ == server_token@ ==> result.is_ok() && (result.unwrap().0 matches Event::MagnetAdded {
            link,
        } && link@ == request.magnet@) && result.unwrap().1.status@ == "queued"@
            && result.unwrap().1.message@ == "Magnet link queued"@,
{
    if !same_text(query.token.as_str(), server_token) {
        return Err(STATUS_FORBIDDEN);
    }
    Ok(
        (
            Event::MagnetAdded { link: request.magnet },
            StatusResponse {
                status: "queued".to_owned(),
                message: "Magnet link queued".to_owned(),
            },
        ),
    )
}

/// Serves `POST /add-torrent`: 403 where the token is not the server
/// token; else 413 where the base64 text is longer than the limit; else
/// the file is passed on as an event with an empty infohash, which the
/// extension computes.
pub fn add_torrent(query: &TokenQuery, server_token: &str, request: AddTorrentRequest) -> (result:
    Result<(Event, StatusResponse), u16>)
    ensures
        query.token@ != server_token@ ==> result == Err::<(Event, StatusResponse), u16>(
            STATUS_FORBIDDEN,
        ),
        query.token@ == server_token@ && vstd::utf8::encode_utf8(request.contents_base64@).len()
            > MAX_BASE64_SIZE ==> result == Err::<(Event, StatusResponse), u16>(
            STATUS_PAYLOAD_TOO_LARGE,
        ),
        query.token@ == server_token@ && vstd::utf8::encode_utf8(request.contents_base64@).len()
            <= MAX_BASE64_SIZE ==> result.is_ok() && (result.unwrap().0 matches Event::TorrentAdded {
            name,
            infohash,
            contents_base64,
        } && name@ == request.file_name@ && infohash@.len() == 0 && contents_base64@
            == request.contents_base64@) && result.unwrap().1.status@ == "queued"@
            && result.unwrap().1.message@ == "Torrent file queued"@,
{
    if !same_text(query.token.as_str(), server_token) {
        return Err(STATUS_FORBIDDEN);
    }
    if request.contents_base64.as_str().as_bytes().len() > MAX_BASE64_SIZE {
        return Err(STATUS_PAYLOAD_TOO_LARGE);
    }
    Ok(
        (
            Event::TorrentAdded {
                name: request.file_name,
                infohash: String::new(),
                contents_base64: request.contents_base64,
            },
            StatusResponse {
                status: "queued".to_owned(),
                message: "Torrent file queued".to_owned(),
            },
        ),
    )
}

} // verus!
