use system_bridge::host::Event;
use system_bridge::rpc::{
    add_magnet, add_torrent, health, AddMagnetRequest, AddTorrentRequest, HealthResponse,
    StatusResponse, TokenQuery, MAX_BASE64_SIZE,
};

fn query(token: &str) -> TokenQuery {
    TokenQuery { token: token.to_string() }
}

#[test]
fn health_needs_the_server_token() {
    assert_eq!(health(&query("bad"), "good", 1, "v".to_string()), Err(403));
    assert_eq!(
        health(&query("good"), "good", 42, "0.1.0".to_string()),
        Ok(HealthResponse { status: "ok".to_string(), pid: 42, version: "0.1.0".to_string() })
    );
}

#[test]
fn magnet_links_are_queued() {
    let request = AddMagnetRequest { magnet: "magnet:?xt=urn:btih:abc".to_string() };
    assert_eq!(add_magnet(&query("bad"), "good", request.clone()), Err(403));
    assert_eq!(
        add_magnet(&query("good"), "good", request),
        Ok((
            Event::MagnetAdded { link: "magnet:?xt=urn:btih:abc".to_string() },
            StatusResponse {
                status: "queued".to_string(),
                message: "Magnet link queued".to_string()
            }
        ))
    );
}

#[test]
fn torrent_files_are_queued_up_to_the_limit() {
    assert_eq!(MAX_BASE64_SIZE, 900_000);
    let small = AddTorrentRequest {
        file_name: "a.torrent".to_string(),
        contents_base64: "ZGF0YQ==".to_string(),
    };
    assert_eq!(add_torrent(&query("bad"), "good", small.clone()), Err(403));
    assert_eq!(
        add_torrent(&query("good"), "good", small),
        Ok((
            Event::TorrentAdded {
                name: "a.torrent".to_string(),
                infohash: String::new(),
                contents_base64: "ZGF0YQ==".to_string()
            },
            StatusResponse {
                status: "queued".to_string(),
                message: "Torrent file queued".to_string()
            }
        ))
    );
    let at_limit = AddTorrentRequest {
        file_name: "b".to_string(),
        contents_base64: "A".repeat(900_000),
    };
    assert!(add_torrent(&query("good"), "good", at_limit).is_ok());
    let too_large = AddTorrentRequest {
        file_name: "b".to_string(),
        contents_base64: "A".repeat(900_001),
    };
    assert_eq!(add_torrent(&query("good"), "good", too_large.clone()), Err(413));
    assert_eq!(add_torrent(&query("bad"), "good", too_large), Err(403));
}
