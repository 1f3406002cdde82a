use system_bridge::lifecycle::{
    allowed_origins, announce_line, announced_port, bearer, daemon_args, new_token, parent_verdict,
    parse_port, plan_launch, refresh_url, split_at, ParentProbe, CORS_MAX_AGE_SECS,
    HOST_POLL_MILLIS, HOST_WAIT_SECS, PARENT_POLL_SECS,
};

#[test]
fn intervals() {
    assert_eq!(PARENT_POLL_SECS, 1);
    assert_eq!(HOST_WAIT_SECS, 10);
    assert_eq!(HOST_POLL_MILLIS, 200);
    assert_eq!(CORS_MAX_AGE_SECS, 86400);
}

#[test]
fn daemon_exits_when_its_parent_is_gone() {
    assert_eq!(parent_verdict(ParentProbe::Running), None);
    assert_eq!(parent_verdict(ParentProbe::Gone), Some(0));
    assert_eq!(parent_verdict(ParentProbe::Unknown), Some(1));
}

#[test]
fn daemon_arguments() {
    assert_eq!(
        daemon_args("tok", 4242, "install-1"),
        vec!["--port", "0", "--token", "tok", "--parent-pid", "4242", "--install-id", "install-1"]
    );
}

#[test]
fn launch_plan_draws_a_fresh_token() {
    let a = plan_launch(1, "i");
    let b = plan_launch(1, "i");
    assert_eq!(a.token.len(), 36);
    assert_eq!(a.token.matches('-').count(), 4);
    assert_ne!(a.token, b.token);
    assert_eq!(a.args[3], a.token);
    assert_eq!(a.args, daemon_args(&a.token, 1, "i"));
}

#[test]
fn tokens_are_hyphenated_identifiers() {
    let t = new_token();
    assert_eq!(t.len(), 36);
    let dashes: Vec<usize> = t.char_indices().filter(|(_, c)| *c == '-').map(|(i, _)| i).collect();
    assert_eq!(dashes, vec![8, 13, 18, 23]);
    assert!(t.chars().all(|c| c == '-' || c.is_ascii_hexdigit()));
    assert_ne!(t, new_token());
}

#[test]
fn announced_port_is_the_trimmed_first_line() {
    assert_eq!(announced_port("40123\n"), Some(40123));
    assert_eq!(announced_port("  80 \r\n"), Some(80));
    assert_eq!(announced_port("65535"), Some(65535));
    assert_eq!(announced_port("65536"), None);
    assert_eq!(announced_port("\n"), None);
    assert_eq!(announced_port("port 80"), None);
    assert_eq!(parse_port("0"), Some(0));
    assert_eq!(parse_port(" 1"), None);
    assert_eq!(announce_line(40123), "40123");
    assert_eq!(announce_line(0), "0");
}

#[test]
fn refresh_request() {
    assert_eq!(refresh_url(8080), "http://127.0.0.1:8080/api/read-rpc-info-from-disk");
    assert_eq!(bearer("abc"), "Bearer abc");
}

#[test]
fn splitting_as_std_does() {
    for s in ["", "a", "a,b", ",", "a,,b", ",a,", "a , b"] {
        let cs: Vec<char> = s.chars().collect();
        let parts: Vec<String> = split_at(&cs, ',').iter().map(|p| p.iter().collect()).collect();
        let expected: Vec<String> = s.split(',').map(|p| p.to_string()).collect();
        assert_eq!(parts, expected, "{:?}", s);
    }
}

#[test]
fn admitted_origins() {
    assert_eq!(allowed_origins(&None, &None), Vec::<String>::new());
    assert_eq!(
        allowed_origins(&Some("abcdef".to_string()), &None),
        vec!["chrome-extension://abcdef"]
    );
    assert_eq!(
        allowed_origins(
            &Some("abcdef".to_string()),
            &Some(" http://localhost:3000 , ,http://127.0.0.1:5173,".to_string())
        ),
        vec!["chrome-extension://abcdef", "http://localhost:3000", "http://127.0.0.1:5173"]
    );
    assert_eq!(allowed_origins(&None, &Some(" , ".to_string())), Vec::<String>::new());
}
