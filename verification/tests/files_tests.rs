use std::io::{Read, Seek, SeekFrom, Write};
use system_bridge::config::{AppState, DownloadRoot};
use system_bridge::files::{
    check_expected_hash, check_move, extract_path_from_header, extract_u64_header, failure_status,
    io_error, move_failure, parse_u64, path_from_decoded, plan_read, plan_write, verify_written,
    IoFailure, IoStep, ReadPlan, WritePlan, MAX_BODY_SIZE,
};
use system_bridge::http::{HeaderField, HttpError};

fn text(s: &str) -> HeaderField {
    HeaderField::Text(s.to_string())
}

fn bad(message: &str) -> HttpError {
    HttpError { status: 400, message: message.to_string() }
}

fn state() -> AppState {
    AppState {
        token: "t".to_string(),
        install_id: "i".to_string(),
        extension_id: None,
        download_roots: vec![DownloadRoot {
            key: "A".to_string(),
            path: "/tmp/a".to_string(),
            display_name: "a".to_string(),
            removable: false,
            last_stat_ok: true,
            last_checked: 0,
        }],
    }
}

#[test]
fn body_limit_is_64_mib() {
    assert_eq!(MAX_BODY_SIZE, 67_108_864);
}

#[test]
fn path_header_is_base64_of_utf8() {
    assert_eq!(extract_path_from_header(&text("ZGlyL2ZpbGUjMT8udHh0")), Ok("dir/file#1?.txt".to_string()));
    assert_eq!(extract_path_from_header(&text("")), Ok(String::new()));
}

#[test]
fn path_header_errors() {
    assert_eq!(extract_path_from_header(&HeaderField::Missing), Err(bad("Missing X-Path-Base64 header")));
    assert_eq!(extract_path_from_header(&HeaderField::Opaque), Err(bad("Invalid X-Path-Base64 header")));
    assert_eq!(extract_path_from_header(&text("not base64!")), Err(bad("Invalid base64 in X-Path-Base64")));
    assert_eq!(extract_path_from_header(&text("/w==")), Err(bad("Invalid UTF-8 in path")));
}

#[test]
fn decoded_bytes_must_be_utf8() {
    assert_eq!(path_from_decoded(Some(b"a/b".to_vec())), Ok("a/b".to_string()));
    assert_eq!(path_from_decoded(Some(vec![0xC3, 0xA9])), Ok("\u{e9}".to_string()));
    assert_eq!(path_from_decoded(Some(vec![0xC3])), Err(bad("Invalid UTF-8 in path")));
    assert_eq!(path_from_decoded(None), Err(bad("Invalid base64 in X-Path-Base64")));
}

#[test]
fn decimal_numbers_parse_as_in_std() {
    for s in ["0", "7", "16", "+5", "007", "18446744073709551615", "+0"] {
        assert_eq!(parse_u64(s), s.parse::<u64>().ok(), "{}", s);
    }
    assert_eq!(parse_u64("16"), Some(16));
    assert_eq!(parse_u64("18446744073709551615"), Some(u64::MAX));
    for s in ["", "+", "-1", "1 ", " 1", "1_0", "0x10", "18446744073709551616", "99999999999999999999999", "++1", "1+", "\u{663}"] {
        assert_eq!(parse_u64(s), None, "{}", s);
        assert_eq!(s.parse::<u64>().ok(), None, "{}", s);
    }
}

#[test]
fn numeric_header() {
    assert_eq!(extract_u64_header(&HeaderField::Missing, "X-Offset"), Ok(None));
    assert_eq!(extract_u64_header(&text("16"), "X-Offset"), Ok(Some(16)));
    assert_eq!(extract_u64_header(&HeaderField::Opaque, "X-Offset"), Err(bad("Invalid X-Offset header")));
    assert_eq!(extract_u64_header(&text("abc"), "X-Length"), Err(bad("Invalid X-Length value")));
}

#[test]
fn write_plan_defaults_offset_to_zero() {
    let st = state();
    assert_eq!(
        plan_write(&st, "A", &text("eC9maWxl"), &HeaderField::Missing),
        Ok(WritePlan { path: "/tmp/a/x/file".to_string(), offset: 0 })
    );
    assert_eq!(
        plan_write(&st, "A", &text("eC9maWxl"), &text("4096")),
        Ok(WritePlan { path: "/tmp/a/x/file".to_string(), offset: 4096 })
    );
}

#[test]
fn write_plan_checks_headers_before_the_root() {
    let st = state();
    assert_eq!(
        plan_write(&st, "Z", &HeaderField::Missing, &text("x")),
        Err(bad("Missing X-Path-Base64 header"))
    );
    assert_eq!(plan_write(&st, "Z", &text("eA=="), &text("x")), Err(bad("Invalid X-Offset value")));
    assert_eq!(
        plan_write(&st, "Z", &text("eA=="), &text("1")),
        Err(HttpError { status: 403, message: "Invalid root key".to_string() })
    );
    assert_eq!(plan_write(&st, "A", &text("Li4veA=="), &text("1")), Err(bad("Invalid path")));
}

#[test]
fn read_plan_carries_offset_and_length() {
    let st = state();
    assert_eq!(
        plan_read(&st, "A", &text("eA=="), &text("16"), &text("8")),
        Ok(ReadPlan { path: "/tmp/a/x".to_string(), offset: Some(16), length: Some(8) })
    );
    assert_eq!(
        plan_read(&st, "A", &text("eA=="), &HeaderField::Missing, &HeaderField::Missing),
        Ok(ReadPlan { path: "/tmp/a/x".to_string(), offset: None, length: None })
    );
    assert_eq!(
        plan_read(&st, "A", &text("eA=="), &text("1"), &text("-1")),
        Err(bad("Invalid X-Length value"))
    );
}

#[test]
fn failure_statuses() {
    assert_eq!(failure_status(IoStep::CreateParent, IoFailure::StorageFull), 507);
    assert_eq!(failure_status(IoStep::Write, IoFailure::StorageFull), 507);
    assert_eq!(failure_status(IoStep::Write, IoFailure::Other), 500);
    assert_eq!(failure_status(IoStep::CreateParent, IoFailure::NotFound), 500);
    assert_eq!(failure_status(IoStep::Open, IoFailure::StorageFull), 500);
    assert_eq!(failure_status(IoStep::Seek, IoFailure::Other), 500);
    assert_eq!(failure_status(IoStep::OpenForRead, IoFailure::NotFound), 404);
    assert_eq!(failure_status(IoStep::OpenForRead, IoFailure::Other), 404);
    assert_eq!(failure_status(IoStep::Read, IoFailure::Other), 500);
    assert_eq!(failure_status(IoStep::Stat, IoFailure::NotFound), 404);
    assert_eq!(failure_status(IoStep::Stat, IoFailure::Other), 500);
    assert_eq!(failure_status(IoStep::Other, IoFailure::NotFound), 500);
    assert_eq!(
        io_error(IoStep::Write, IoFailure::StorageFull, "No space left on device".to_string()),
        HttpError { status: 507, message: "No space left on device".to_string() }
    );
}

#[test]
fn hash_verified_write() {
    let mut file = tempfile::tempfile().unwrap();
    let body = b"abc";
    let plan = plan_write(&state(), "A", &text("YWJj"), &HeaderField::Missing).unwrap();
    file.seek(SeekFrom::Start(plan.offset)).unwrap();
    file.write_all(body).unwrap();
    assert_eq!(verify_written(&text("a9993e364706816aba3e25717850c26c9cd0d89d"), body), Ok(()));
    let mut back = vec![0u8; 3];
    file.seek(SeekFrom::Start(0)).unwrap();
    file.read_exact(&mut back).unwrap();
    assert_eq!(back, b"abc");

    let zeros = "0000000000000000000000000000000000000000";
    let verdict = verify_written(&text(zeros), body);
    assert_eq!(
        verdict,
        Err(HttpError {
            status: 409,
            message: format!(
                "Hash mismatch: expected {}, got a9993e364706816aba3e25717850c26c9cd0d89d",
                zeros
            ),
        })
    );
    file.seek(SeekFrom::Start(0)).unwrap();
    file.read_exact(&mut back).unwrap();
    assert_eq!(back, b"abc");
}

#[test]
fn expected_hash_header() {
    assert_eq!(verify_written(&HeaderField::Missing, b"abc"), Ok(()));
    assert_eq!(verify_written(&HeaderField::Opaque, b"abc"), Err(bad("Invalid X-Expected-SHA1 header")));
    assert_eq!(
        verify_written(&text("A9993E364706816ABA3E25717850C26C9CD0D89D"), b"abc").unwrap_err().status,
        409
    );
    assert_eq!(check_expected_hash(&text("ff"), "ff"), Ok(()));
    assert_eq!(
        check_expected_hash(&text("ff"), "00"),
        Err(HttpError { status: 409, message: "Hash mismatch: expected ff, got 00".to_string() })
    );
}

#[test]
fn range_read() {
    let mut file = tempfile::tempfile().unwrap();
    let bytes: Vec<u8> = (0x00..0x40).collect();
    file.write_all(&bytes).unwrap();
    let plan =
        plan_read(&state(), "A", &text("eA=="), &text("16"), &text("8")).unwrap();
    file.seek(SeekFrom::Start(plan.offset.unwrap())).unwrap();
    let mut buffer = vec![0u8; plan.length.unwrap() as usize];
    file.read_exact(&mut buffer).unwrap();
    assert_eq!(buffer, vec![0x10, 0x11, 0x12, 0x13, 0x14, 0x15, 0x16, 0x17]);
}

#[test]
fn read_of_a_just_written_range_returns_what_was_written() {
    let mut file = tempfile::tempfile().unwrap();
    file.write_all(&[0u8; 32]).unwrap();
    let written = b"piece-data";
    let plan = plan_write(&state(), "A", &text("eA=="), &text("7")).unwrap();
    file.seek(SeekFrom::Start(plan.offset)).unwrap();
    file.write_all(written).unwrap();
    let read = plan_read(&state(), "A", &text("eA=="), &text("7"), &text("10")).unwrap();
    file.seek(SeekFrom::Start(read.offset.unwrap())).unwrap();
    let mut buffer = vec![0u8; read.length.unwrap() as usize];
    file.read_exact(&mut buffer).unwrap();
    assert_eq!(buffer, written);
}

#[test]
fn moving_files() {
    assert_eq!(check_move(true, false, None), Ok(()));
    assert_eq!(check_move(true, true, Some(true)), Ok(()));
    assert_eq!(check_move(false, false, Some(true)), Err("Source file does not exist".to_string()));
    assert_eq!(check_move(true, true, None), Err("Destination file exists".to_string()));
    assert_eq!(check_move(true, true, Some(false)), Err("Destination file exists".to_string()));
    assert_eq!(move_failure(Some(18), "x"), "Cross-device link not permitted");
    assert_eq!(move_failure(Some(13), "denied"), "Failed to rename file: denied");
    assert_eq!(move_failure(None, "odd"), "Failed to rename file: odd");
}
