use system_bridge::config::{BrowserInfo, ProfileEntry};
use system_bridge::launcher::{
    endpoint_of, endpoint_url, error_text, is_browser_candidate, is_magnet_link, keep_waiting,
    latest_used, next_candidate, previous_browser_binary, to_base64, torrent_mode, Mode,
};
use system_bridge::files::from_base64;

fn profile(last_used: u64, binary: &str) -> ProfileEntry {
    ProfileEntry {
        extension_id: None,
        install_id: None,
        pid: 1,
        port: 1,
        token: "t".to_string(),
        started: 0,
        last_used,
        browser: BrowserInfo {
            name: "b".to_string(),
            binary: binary.to_string(),
            extension_id: None,
        },
        download_roots: vec![],
    }
}

#[test]
fn magnet_or_file() {
    assert!(is_magnet_link("magnet:?xt=urn:btih:abc"));
    assert!(!is_magnet_link("/home/u/a.torrent"));
    assert!(!is_magnet_link("Magnet:x"));
    assert!(!is_magnet_link("magnet"));
}

#[test]
fn torrent_contents_are_base64() {
    assert_eq!(
        torrent_mode("a.torrent".to_string(), b"hello world~\n"),
        Mode::Torrent {
            file_name: "a.torrent".to_string(),
            contents_base64: "aGVsbG8gd29ybGR+Cg==".to_string()
        }
    );
    assert_eq!(
        torrent_mode("e".to_string(), b""),
        Mode::Torrent { file_name: "e".to_string(), contents_base64: String::new() }
    );
}

#[test]
fn base64_both_ways() {
    assert_eq!(to_base64(b"any carnal pleas"), "YW55IGNhcm5hbCBwbGVhcw==");
    assert_eq!(to_base64(&[0xFB, 0xFF]), "+/8=");
    assert_eq!(from_base64("YW55IGNhcm5hbCBwbGVhcw=="), Some(b"any carnal pleas".to_vec()));
    assert_eq!(from_base64("+/8="), Some(vec![0xFB, 0xFF]));
    assert_eq!(from_base64("-_8="), None);
    assert_eq!(from_base64("YQ"), None);
    assert_eq!(from_base64(""), Some(vec![]));
}

#[test]
fn hosts_are_tried_from_the_most_recently_used() {
    let profiles = vec![profile(5, "a"), profile(9, "b"), profile(9, "c"), profile(1, "d")];
    let mut tried = vec![false; 4];
    let mut order = Vec::new();
    while let Some(i) = next_candidate(&profiles, &tried) {
        order.push(i);
        tried[i] = true;
    }
    assert_eq!(order, vec![1, 2, 0, 3]);
    let mut sorted: Vec<usize> = (0..4).collect();
    sorted.sort_by(|a, b| profiles[*b].last_used.cmp(&profiles[*a].last_used));
    assert_eq!(order, sorted);
    assert_eq!(next_candidate(&vec![], &vec![]), None);
    assert_eq!(next_candidate(&profiles, &vec![]), Some(1));
}

#[test]
fn browser_of_the_last_used_profile() {
    let profiles = vec![
        profile(5, "/usr/bin/firefox"),
        profile(9, "/opt/google/chrome/chrome"),
        profile(9, "/usr/bin/brave"),
    ];
    assert_eq!(latest_used(&profiles), Some(1));
    assert_eq!(previous_browser_binary(&profiles), Some("/opt/google/chrome/chrome".to_string()));
    assert_eq!(previous_browser_binary(&vec![profile(0, "/usr/bin/firefox")]), None);
    assert_eq!(previous_browser_binary(&vec![]), None);
    assert_eq!(
        previous_browser_binary(&vec![profile(5, "/usr/bin/firefox"), profile(9, "/bin/bash")]),
        None
    );
}

#[test]
fn binaries_that_cannot_be_browsers() {
    for b in [
        "",
        "/usr/lib/jstorrent-host",
        "/usr/bin/Python3",
        "/home/u/.cargo/bin/x",
        "/bin/sh",
        "/bin/bash",
        "/usr/bin/zsh",
        "/usr/bin/fish",
        "/usr/bin/gnome-terminal",
        "/Applications/Console.app",
        "C:\\Windows\\SHELL.exe",
    ] {
        assert!(!is_browser_candidate(b, &b.to_lowercase()), "{}", b);
    }
    for b in ["/usr/bin/firefox", "/opt/google/chrome/chrome", "C:\\Program Files\\Edge\\edge.exe"] {
        assert!(is_browser_candidate(b, &b.to_lowercase()), "{}", b);
    }
}

#[test]
fn endpoints() {
    assert_eq!(endpoint_url(8080, "health", "tok"), "http://127.0.0.1:8080/health?token=tok");
    assert_eq!(endpoint_of(&Mode::Magnet("m".to_string())), "add-magnet");
    assert_eq!(
        endpoint_of(&Mode::Torrent { file_name: "f".to_string(), contents_base64: "c".to_string() }),
        "add-torrent"
    );
    assert_eq!(
        endpoint_url(1, endpoint_of(&Mode::Magnet("m".to_string())), "t"),
        "http://127.0.0.1:1/add-magnet?token=t"
    );
}

#[test]
fn error_texts_and_waiting() {
    assert_eq!(error_text("failed", Some("magnet:x")), "failed\n\nLink: magnet:x");
    assert_eq!(error_text("failed", None), "failed");
    assert!(keep_waiting(0));
    assert!(keep_waiting(9_999));
    assert!(!keep_waiting(10_000));
}
