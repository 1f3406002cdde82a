use system_bridge::envfile::{
    launch_url, lines, log_line, read_value, split_entry, value_of_line, wants_log_file,
    DEFAULT_LAUNCH_URL,
};

#[test]
fn lines_end_with_a_line_feed() {
    assert_eq!(lines("a\nb\r\nc"), vec!["a", "b", "c"]);
    assert_eq!(lines("a\n"), vec!["a"]);
    assert_eq!(lines("a\n\nb\n"), vec!["a", "", "b"]);
    assert_eq!(lines("a\r"), vec!["a\r"]);
    assert_eq!(lines("a\r\r\n"), vec!["a\r"]);
    assert_eq!(lines(""), Vec::<String>::new());
    assert_eq!(lines("\n"), vec![""]);
    for s in ["", "\n", "\r\n", "a", "a\n", "a\r", "a\r\n", "a\n\n", "\na", "a\rb\n", "x\r\n\r\ny\r"] {
        let expected: Vec<String> = s.lines().map(|l| l.to_string()).collect();
        assert_eq!(lines(s), expected, "{:?}", s);
    }
}

#[test]
fn values_by_key() {
    let content = "# settings\n\nLOGFILE=true\n DEV_ORIGINS = http://localhost:3000 \r\nA=1\nA=2\nB\n";
    assert_eq!(read_value(content, "DEV_ORIGINS"), Some("http://localhost:3000".to_string()));
    assert_eq!(read_value(content, "A"), Some("1".to_string()));
    assert_eq!(read_value(content, "LOGFILE"), Some("true".to_string()));
    assert_eq!(read_value(content, "B"), None);
    assert_eq!(read_value(content, "MISSING"), None);
    assert_eq!(read_value("", "A"), None);
    assert_eq!(read_value("#A=1", "A"), None);
    assert_eq!(read_value("A=b=c", "A"), Some("b=c".to_string()));
}

#[test]
fn one_line() {
    assert_eq!(value_of_line("  KEY = value  ", "KEY"), Some("value".to_string()));
    assert_eq!(value_of_line("KEY=", "KEY"), Some(String::new()));
    assert_eq!(value_of_line("  # KEY=value", "KEY"), None);
    assert_eq!(value_of_line("OTHER=value", "KEY"), None);
    assert_eq!(split_entry("a=b"), Some(("a".to_string(), "b".to_string())));
    assert_eq!(split_entry("=b"), Some((String::new(), "b".to_string())));
    assert_eq!(split_entry("a"), None);
    assert_eq!(split_entry(""), None);
    assert_eq!(split_entry("#a=b"), None);
}

#[test]
fn launch_address() {
    assert_eq!(DEFAULT_LAUNCH_URL, "https://new.jstorrent.com/launch");
    assert_eq!(launch_url(None), DEFAULT_LAUNCH_URL);
    assert_eq!(launch_url(Some("A=1\n")), DEFAULT_LAUNCH_URL);
    assert_eq!(
        launch_url(Some("A=1\nLAUNCH_URL= http://localhost:3000/launch \nLAUNCH_URL=other\n")),
        "http://localhost:3000/launch"
    );
    assert_eq!(launch_url(Some(" LAUNCH_URL=x\n")), DEFAULT_LAUNCH_URL);
}

#[test]
fn log_file_setting() {
    assert!(wants_log_file("A=1\n  LOGFILE=true \n"));
    assert!(wants_log_file("LOGFILE=true\r\n"));
    assert!(!wants_log_file("LOGFILE=false\n"));
    assert!(!wants_log_file("LOGFILE = true\n"));
    assert!(!wants_log_file(""));
}

#[test]
fn log_lines() {
    assert_eq!(log_line("2024-01-02 03:04:05.678", "started"), "[2024-01-02 03:04:05.678] started\n");
}
