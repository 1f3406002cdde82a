//! The rules of the file endpoints: how a request's headers become a plan
//! for one read or write, how a written body is held against its expected
//! hash, and which status answers which failure.
//!
//! The path travels base64-encoded in a header, since file names may hold
//! `#` and `?`. The caller does the I/O between the steps.

use crate::auth::token_matches;
use crate::config::AppState;
use crate::hashing::{digest, digest_hex, hex_lower, HashAlgorithm};
use crate::http::{
    HeaderField, HeaderValue, HttpError, Refusal, STATUS_BAD_REQUEST, STATUS_CONFLICT,
    STATUS_INSUFFICIENT_STORAGE, STATUS_INTERNAL_SERVER_ERROR, STATUS_NOT_FOUND,
};
use crate::paths::{resolved, validate_path};
use crate::text::{from_chars, push_chars, to_chars, utf8_string};
use base64::Engine;
use vstd::prelude::*;

verus! {

/// Largest request body the write and hash endpoints take: 64 MiB.
pub const MAX_BODY_SIZE: usize = 64 * 1024 * 1024;

#[verifier::external_type_specification]
#[verifier::external_body]
pub struct ExDecodeError(base64::DecodeError);

/// What the standard base64 alphabet with padding decodes `text` to;
/// `None` where `text` is no such encoding.
pub uninterp spec fn base64_decoded(text: Seq<char>) -> Option<Seq<u8>>;

/// Calls `Engine::decode` of `base64::engine::general_purpose::STANDARD`.
/// The outcome is named [`base64_decoded`].
#[verifier::external_body]
pub(crate) fn base64_decode(text: &str) -> (r: Result<Vec<u8>, base64::DecodeError>)
    ensures
        match r {
            Ok(bytes) => base64_decoded(text@) == Some(bytes@),
            Err(_) => base64_decoded(text@).is_none(),
        },
{
    base64::engine::general_purpose::STANDARD.decode(text)
}

/// The bytes that base64 text stands for; `None` for text that is no
/// base64.
pub fn from_base64(text: &str) -> (bytes: Option<Vec<u8>>)
    ensures
        match bytes {
            Some(b) => base64_decoded(text@) == Some(b@),
            None => base64_decoded(text@).is_none(),
        },
{
    match base64_decode(text) {
        Ok(b) => Some(b),
        Err(_) => None,
    }
}

/// A refusal with status 400.
pub open spec fn bad_request(message: Seq<char>) -> Refusal {
    Refusal { status: STATUS_BAD_REQUEST, message }
}

/// The path that decoded header bytes stand for: their text, if they are
/// valid UTF-8.
pub open spec fn path_of_bytes(decoded: Option<Seq<u8>>) -> Result<Seq<char>, Refusal> {
    match decoded {
        None => Err(bad_request("Invalid base64 in X-Path-Base64"@)),
        Some(bytes) => if vstd::utf8::valid_utf8(bytes) {
            Ok(vstd::utf8::decode_utf8(bytes))
        } else {
            Err(bad_request("Invalid UTF-8 in path"@))
        },
    }
}

/// The path carried by the header `X-Path-Base64`.
pub open spec fn header_path(field: HeaderValue) -> Result<Seq<char>, Refusal> {
    match field {
        HeaderValue::Missing => Err(bad_request("Missing X-Path-Base64 header"@)),
        HeaderValue::Opaque => Err(bad_request("Invalid X-Path-Base64 header"@)),
        HeaderValue::Text(text) => path_of_bytes(base64_decoded(text)),
    }
}

/// Whether `result` is the outcome `expected`, text for text.
pub open spec fn text_result_is(
    result: Result<String, HttpError>,
    expected: Result<Seq<char>, Refusal>,
) -> bool {
    match result {
        Ok(s) => expected == Ok::<Seq<char>, Refusal>(s@),
        Err(e) => expected == Err::<Seq<char>, Refusal>(e@),
    }
}

/// Turns the decoded bytes of the path header into the path.
pub fn path_from_decoded(decoded: Option<Vec<u8>>) -> (result: Result<String, HttpError>)
    ensures
        text_result_is(
            result,
            path_of_bytes(
                match decoded {
                    Some(bytes) => Some(bytes@),
                    None => None,
                },
            ),
        ),
{
    match decoded {
        None => Err(HttpError::new(STATUS_BAD_REQUEST, "Invalid base64 in X-Path-Base64")),
        Some(bytes) => match utf8_string(bytes) {
            Some(path) => Ok(path),
            None => Err(HttpError::new(STATUS_BAD_REQUEST, "Invalid UTF-8 in path")),
        },
    }
}

/// Reads the path from the header `X-Path-Base64`.
pub fn extract_path_from_header(field: &HeaderField) -> (result: Result<String, HttpError>)
    ensures
        text_result_is(result, header_path(field@)),
{
    match field {
        HeaderField::Missing => Err(
            HttpError::new(STATUS_BAD_REQUEST, "Missing X-Path-Base64 header"),
        ),
        HeaderField::Opaque => Err(
            HttpError::new(STATUS_BAD_REQUEST, "Invalid X-Path-Base64 header"),
        ),
        HeaderField::Text(text) => path_from_decoded(from_base64(text.as_str())),
    }
}

/// Whether `c` is a decimal digit.
pub open spec fn is_digit(c: char) -> bool {
    48 <= c as u32 <= 57
}

/// The number that a string of decimal digits denotes.
pub open spec fn digits_value(digits: Seq<char>) -> nat
    decreases digits.len(),
{
    if digits.len() == 0 {
        0
    } else {
        digits_value(digits.drop_last()) * 10 + (digits.last() as u32 - 48) as nat
    }
}

/// `text` without a `+` at its front.
pub open spec fn unsigned_part(text: Seq<char>) -> Seq<char> {
    if text.len() > 0 && text[0] == '+' {
        text.skip(1)
    } else {
        text
    }
}

/// Whether every character of `digits` is a decimal digit.
pub open spec fn all_digits(digits: Seq<char>) -> bool {
    forall|i: int| 0 <= i < digits.len() ==> is_digit(#[trigger] digits[i])
}

/// The number that `text` denotes as a `u64`: an optional `+`, then one or
/// more decimal digits whose value fits; `None` for any other text.
pub open spec fn parsed_u64(text: Seq<char>) -> Option<u64> {
    let digits = unsigned_part(text);
    if digits.len() > 0 && all_digits(digits) && digits_value(digits) <= u64::MAX {
        Some(digits_value(digits) as u64)
    } else {
        None
    }
}

proof fn lemma_digits_value_grows(digits: Seq<char>, k: int)
    requires
        0 <= k <= digits.len(),
    ensures
        digits_value(digits.take(k)) <= digits_value(digits),
    decreases digits.len() - k,
{
    if k < digits.len() {
        lemma_digits_value_grows(digits, k + 1);
        assert(digits.take(k + 1).drop_last() =~= digits.take(k));
    } else {
        assert(digits.take(k) =~= digits);
    }
}

/// Reads a `u64` from decimal text.
pub fn parse_u64(text: &str) -> (value: Option<u64>)
    ensures
        value == parsed_u64(text@),
{
    let chars = to_chars(text);
    let n = chars.len();
    let start: usize = if n > 0 && chars[0] == '+' {
        1
    } else {
        0
    };
    let ghost digits = unsigned_part(text@);
    assert(text@.skip(0) =~= text@);
    assert(digits == text@.skip(start as int));
    if start == n {
        return None;
    }
    let mut acc: u64 = 0;
    let mut i: usize = start;
    assert(digits.take(0) =~= Seq::<char>::empty());
    while i < n
        invariant
            n == chars@.len(),
            chars@ == text@,
            digits == unsigned_part(text@),
            digits == text@.skip(start as int),
            start <= i <= n,
            forall|j: int| 0 <= j < i - start ==> is_digit(#[trigger] digits[j]),
            acc == digits_value(digits.take(i - start)),
        decreases n - i,
    {
        let c = chars[i];
        assert(digits[i - start] == c);
        let code = c as u32;
        if code < 48 || code > 57 {
            assert(!is_digit(digits[i - start]));
            return None;
        }
        let d = (code - 48) as u64;
        proof {
            assert(digits.take(i - start + 1).drop_last() =~= digits.take(i - start));
            assert(digits.take(i - start + 1).last() == c);
            lemma_digits_value_grows(digits, i - start + 1);
        }
        let grown = match acc.checked_mul(10) {
            Some(tens) => tens.checked_add(d),
            None => None,
        };
        match grown {
            Some(next) => {
                acc = next;
            },
            None => {
                assert(digits_value(digits.take(i - start + 1)) > u64::MAX);
                return None;
            },
        }
        i += 1;
    }
    assert(digits.take(n - start) =~= digits);
    Some(acc)
}

/// The text `Invalid <name> <what>`.
pub open spec fn invalid_text(name: Seq<char>, what: Seq<char>) -> Seq<char> {
    "Invalid "@ + name + " "@ + what
}

/// The number carried by an optional numeric header named `name`.
pub open spec fn header_u64(field: HeaderValue, name: Seq<char>) -> Result<Option<u64>, Refusal> {
    match field {
        HeaderValue::Missing => Ok(None),
        HeaderValue::Opaque => Err(bad_request(invalid_text(name, "header"@))),
        HeaderValue::Text(text) => match parsed_u64(text) {
            Some(n) => Ok(Some(n)),
            None => Err(bad_request(invalid_text(name, "value"@))),
        },
    }
}

fn invalid(name: &str, what: &str) -> (e: HttpError)
    ensures
        e@ == bad_request(invalid_text(name@, what@)),
{
    let mut chars = to_chars("Invalid ");
    let n = to_chars(name);
    push_chars(&mut chars, n.as_slice());
    chars.push(' ');
    let w = to_chars(what);
    push_chars(&mut chars, w.as_slice());
    proof {
        reveal_strlit(" ");
        assert(" "@ =~= seq![' ']);
        assert(chars@ =~= invalid_text(name@, what@));
    }
    HttpError { status: STATUS_BAD_REQUEST, message: from_chars(chars.as_slice()) }
}

/// Reads an optional `u64` from the header named `name`.
pub fn extract_u64_header(field: &HeaderField, name: &str) -> (result: Result<
    Option<u64>,
    HttpError,
>)
    ensures
        match result {
            Ok(n) => header_u64(field@, name@) == Ok::<Option<u64>, Refusal>(n),
            Err(e) => header_u64(field@, name@) == Err::<Option<u64>, Refusal>(e@),
        },
{
    match field {
        HeaderField::Missing => Ok(None),
        HeaderField::Opaque => Err(invalid(name, "header")),
        HeaderField::Text(text) => match parse_u64(text.as_str()) {
            Some(n) => Ok(Some(n)),
            None => Err(invalid(name, "value")),
        },
    }
}

/// Where one write goes: the file and the offset of its first byte. The
/// file is opened for writing and created if absent, never truncated.
#[derive(Clone, Debug, PartialEq, Eq)]
pub struct WritePlan {
    pub path: String,
    pub offset: u64,
}

/// A [`WritePlan`] as a mathematical value.
pub struct WriteTarget {
    pub path: Seq<char>,
    pub offset: u64,
}

impl View for WritePlan {
    type V = WriteTarget;

    open spec fn view(&self) -> WriteTarget {
        WriteTarget { path: self.path@, offset: self.offset }
    }
}

/// The plan for a write request: the path header is read first, then the
/// offset header (0 where absent), then the path is authorized.
pub open spec fn write_target(
    state: crate::config::AppStateView,
    root_key: Seq<char>,
    path_field: HeaderValue,
    offset_field: HeaderValue,
) -> Result<WriteTarget, Refusal> {
    match header_path(path_field) {
        Err(e) => Err(e),
        Ok(path) => match header_u64(offset_field, "X-Offset"@) {
            Err(e) => Err(e),
            Ok(offset) => match resolved(state.download_roots, root_key, path) {
                Err(e) => Err(e),
                Ok(full) => Ok(
                    WriteTarget {
                        path: full,
                        offset: match offset {
                            Some(n) => n,
                            None => 0,
                        },
                    },
                ),
            },
        },
    }
}

/// Plans the write of `POST /write/{root_key}`.
pub fn plan_write(
    state: &AppState,
    root_key: &str,
    path_field: &HeaderField,
    offset_field: &HeaderField,
) -> (result: Result<WritePlan, HttpError>)
    ensures
        match result {
            Ok(plan) => write_target(state@, root_key@, path_field@, offset_field@) == Ok::<
                WriteTarget,
                Refusal,
            >(plan@),
            Err(e) => write_target(state@, root_key@, path_field@, offset_field@) == Err::<
                WriteTarget,
                Refusal,
            >(e@),
        },
{
    let path = match extract_path_from_header(path_field) {
        Ok(p) => p,
        Err(e) => {
            return Err(e);
        },
    };
    let offset = match extract_u64_header(offset_field, "X-Offset") {
        Ok(Some(n)) => n,
        Ok(None) => 0,
        Err(e) => {
            return Err(e);
        },
    };
    match validate_path(state, root_key, path.as_str()) {
        Ok(full) => Ok(WritePlan { path: full, offset }),
        Err(e) => Err(e),
    }
}

/// What one read covers: the file, the offset to seek to if any, and the
/// exact number of bytes to read; without a length the read runs to the
/// end of the file.
#[derive(Clone, Debug, PartialEq, Eq)]
pub struct ReadPlan {
    pub path: String,
    pub offset: Option<u64>,
    pub length: Option<u64>,
}

/// A [`ReadPlan`] as a mathematical value.
pub struct ReadTarget {
    pub path: Seq<char>,
    pub offset: Option<u64>,
    pub length: Option<u64>,
}

impl View for ReadPlan {
    type V = ReadTarget;

    open spec fn view(&self) -> ReadTarget {
        ReadTarget { path: self.path@, offset: self.offset, length: self.length }
    }
}

/// The plan for a read request: the path header is read first, then the
/// offset header, then the length header, then the path is authorized.
pub open spec fn read_target(
    state: crate::config::AppStateView,
    root_key: Seq<char>,
    path_field: HeaderValue,
    offset_field: HeaderValue,
    length_field: HeaderValue,
) -> Result<ReadTarget, Refusal> {
    match header_path(path_field) {
        Err(e) => Err(e),
        Ok(path) => match header_u64(offset_field, "X-Offset"@) {
            Err(e) => Err(e),
            Ok(offset) => match header_u64(length_field, "X-Length"@) {
                Err(e) => Err(e),
                Ok(length) => match resolved(state.download_roots, root_key, path) {
                    Err(e) => Err(e),
                    Ok(full) => Ok(ReadTarget { path: full, offset, length }),
                },
            },
        },
    }
}

/// Plans the read of `GET /read/{root_key}`.
pub fn plan_read(
    state: &AppState,
    root_key: &str,
    path_field: &HeaderField,
    offset_field: &HeaderField,
    length_field: &HeaderField,
) -> (result: Result<ReadPlan, HttpError>)
    ensures
        match result {
            Ok(plan) => read_target(
                state@,
                root_key@,
                path_field@,
                offset_field@,
                length_field@,
            ) == Ok::<ReadTarget, Refusal>(plan@),
            Err(e) => read_target(
                state@,
                root_key@,
                path_field@,
                offset_field@,
                length_field@,
            ) == Err::<ReadTarget, Refusal>(e@),
        },
{
    let path = match extract_path_from_header(path_field) {
        Ok(p) => p,
        Err(e) => {
            return Err(e);
        },
    };
    let offset = match extract_u64_header(offset_field, "X-Offset") {
        Ok(n) => n,
        Err(e) => {
            return Err(e);
        },
    };
    let length = match extract_u64_header(length_field, "X-Length") {
        Ok(n) => n,
        Err(e) => {
            return Err(e);
        },
    };
    match validate_path(state, root_key, path.as_str()) {
        Ok(full) => Ok(ReadPlan { path: full, offset, length }),
        Err(e) => Err(e),
    }
}

/// A read that carries the path and offset headers of a write is planned
/// on the same file at the position where the write began, with the
/// length it asks for: it covers what the write has written.
pub proof fn lemma_read_plan_meets_write_plan(
    state: crate::config::AppStateView,
    root_key: Seq<char>,
    path_field: HeaderValue,
    offset_field: HeaderValue,
    length_field: HeaderValue,
)
    requires
        write_target(state, root_key, path_field, offset_field).is_ok(),
        header_u64(length_field, "X-Length"@).is_ok(),
    ensures
        match (
            write_target(state, root_key, path_field, offset_field),
            read_target(state, root_key, path_field, offset_field, length_field),
            header_u64(length_field, "X-Length"@),
        ) {
            (Ok(w), Ok(r), Ok(length)) => {
                &&& r.path == w.path
                &&& r.length == length
                &&& match r.offset {
                    Some(o) => o == w.offset,
                    None => w.offset == 0,
                }
            },
            _ => false,
        },
{
}

/// The steps of a file operation at which the system can fail.
#[derive(Clone, Copy, Debug, PartialEq, Eq, Structural)]
pub enum IoStep {
    /// Creating the parent directories of a file to write.
    CreateParent,
    /// Opening a file to write, or for any operation but a read.
    Open,
    /// Opening a file to read.
    OpenForRead,
    /// Seeking to the offset.
    Seek,
    /// Writing the body.
    Write,
    /// Reading the bytes.
    Read,
    /// Asking for a file's metadata.
    Stat,
    /// Any other step: listing, deleting, truncating, creating a directory.
    Other,
}

/// What kind of failure the system reported.
#[derive(Clone, Copy, Debug, PartialEq, Eq, Structural)]
pub enum IoFailure {
    /// The file or directory does not exist.
    NotFound,
    /// The disk is full.
    StorageFull,
    /// Anything else.
    Other,
}

/// The status that answers a failure at `step`: 507 for a full disk while
/// creating directories or writing; 404 for a file that cannot be opened
/// for reading, and for metadata of a file that does not exist; 500
/// otherwise.
pub open spec fn failure_status_of(step: IoStep, failure: IoFailure) -> u16 {
    match step {
        IoStep::CreateParent | IoStep::Write => if failure == IoFailure::StorageFull {
            STATUS_INSUFFICIENT_STORAGE
        } else {
            STATUS_INTERNAL_SERVER_ERROR
        },
        IoStep::OpenForRead => STATUS_NOT_FOUND,
        IoStep::Stat => if failure == IoFailure::NotFound {
            STATUS_NOT_FOUND
        } else {
            STATUS_INTERNAL_SERVER_ERROR
        },
        _ => STATUS_INTERNAL_SERVER_ERROR,
    }
}

/// The status that answers a failure at `step`.
pub fn failure_status(step: IoStep, failure: IoFailure) -> (status: u16)
    ensures
        status == failure_status_of(step, failure),
{
    match step {
        IoStep::CreateParent | IoStep::Write => match failure {
            IoFailure::StorageFull => STATUS_INSUFFICIENT_STORAGE,
            _ => STATUS_INTERNAL_SERVER_ERROR,
        },
        IoStep::OpenForRead => STATUS_NOT_FOUND,
        IoStep::Stat => match failure {
            IoFailure::NotFound => STATUS_NOT_FOUND,
            _ => STATUS_INTERNAL_SERVER_ERROR,
        },
        _ => STATUS_INTERNAL_SERVER_ERROR,
    }
}

/// The answer to a failure at `step`, with the system's own text.
pub fn io_error(step: IoStep, failure: IoFailure, message: String) -> (e: HttpError)
    ensures
        e@ == (Refusal { status: failure_status_of(step, failure), message: message@ }),
{
    HttpError { status: failure_status(step, failure), message }
}

/// The text of a hash mismatch.
pub open spec fn mismatch_text(expected: Seq<char>, actual: Seq<char>) -> Seq<char> {
    "Hash mismatch: expected "@ + expected + ", got "@ + actual
}

/// How a written body with the hash `actual` stands against the header
/// `X-Expected-SHA1`: no header, no check; a header equal to the hash
/// passes; any other value is a conflict.
pub open spec fn hash_verdict(expected: HeaderValue, actual: Seq<char>) -> Result<(), Refusal> {
    match expected {
        HeaderValue::Missing => Ok(()),
        HeaderValue::Opaque => Err(bad_request("Invalid X-Expected-SHA1 header"@)),
        HeaderValue::Text(text) => if text == actual {
            Ok(())
        } else {
            Err(Refusal { status: STATUS_CONFLICT, message: mismatch_text(text, actual) })
        },
    }
}

/// Holds the hexadecimal hash `actual` of a body against the header
/// `X-Expected-SHA1`.
pub fn check_expected_hash(expected: &HeaderField, actual: &str) -> (result: Result<(), HttpError>)
    ensures
        match result {
            Ok(_) => hash_verdict(expected@, actual@) == Ok::<(), Refusal>(()),
            Err(e) => hash_verdict(expected@, actual@) == Err::<(), Refusal>(e@),
        },
{
    match expected {
        HeaderField::Missing => Ok(()),
        HeaderField::Opaque => Err(
            HttpError::new(STATUS_BAD_REQUEST, "Invalid X-Expected-SHA1 header"),
        ),
        HeaderField::Text(text) => {
            if token_matches(text.as_str(), actual) {
                Ok(())
            } else {
                let mut chars = to_chars("Hash mismatch: expected ");
                let t = to_chars(text.as_str());
                push_chars(&mut chars, t.as_slice());
                let g = to_chars(", got ");
                push_chars(&mut chars, g.as_slice());
                let a = to_chars(actual);
                push_chars(&mut chars, a.as_slice());
                assert(chars@ =~= mismatch_text(text@, actual@));
                Err(HttpError { status: STATUS_CONFLICT, message: from_chars(chars.as_slice()) })
            }
        },
    }
}

/// After the body has been written: holds it against the header
/// `X-Expected-SHA1`. The request succeeds where the header is absent or
/// equals the lower-case hexadecimal SHA-1 of the body; any other value is
/// answered with 409, and what was written stays written.
pub fn verify_written(expected: &HeaderField, body: &[u8]) -> (result: Result<(), HttpError>)
    ensures
        match result {
            Ok(_) => hash_verdict(expected@, hex_lower(digest(HashAlgorithm::Sha1, body@)))
                == Ok::<(), Refusal>(()),
            Err(e) => hash_verdict(expected@, hex_lower(digest(HashAlgorithm::Sha1, body@)))
                == Err::<(), Refusal>(e@),
        },
{
    match expected {
        HeaderField::Missing => Ok(()),
        _ => {
            let actual = digest_hex(HashAlgorithm::Sha1, body);
            check_expected_hash(expected, actual.as_str())
        },
    }
}

/// A write whose expected hash is the hash of its body succeeds; one with
/// any other expected hash is answered with 409.
pub proof fn lemma_hash_verdict(expected: Seq<char>, actual: Seq<char>)
    ensures
        expected == actual ==> hash_verdict(HeaderValue::Text(expected), actual) == Ok::<
            (),
            Refusal,
        >(()),
        expected != actual ==> hash_verdict(HeaderValue::Text(expected), actual).is_err()
            && hash_verdict(HeaderValue::Text(expected), actual).unwrap_err().status
            == STATUS_CONFLICT,
{
}

/// The metadata answered by `GET /ops/stat`; `mtime` is in milliseconds
/// since the epoch.
#[derive(Clone, Copy, Debug, PartialEq, Eq, Structural)]
pub struct FileStat {
    pub size: u64,
    pub mtime: u64,
    pub is_directory: bool,
    pub is_file: bool,
}

/// Whether a file may be moved: the source must exist, and an existing
/// destination is replaced only on request.
pub open spec fn move_allowed(
    source_exists: bool,
    destination_exists: bool,
    overwrite: Option<bool>,
) -> Result<(), Seq<char>> {
    if !source_exists {
        Err("Source file does not exist"@)
    } else if destination_exists && overwrite != Some(true) {
        Err("Destination file exists"@)
    } else {
        Ok(())
    }
}

/// Decides whether a file may be moved.
pub fn check_move(source_exists: bool, destination_exists: bool, overwrite: Option<bool>) -> (result:
    Result<(), String>)
    ensures
        match result {
            Ok(_) => move_allowed(source_exists, destination_exists, overwrite) == Ok::<
                (),
                Seq<char>,
            >(()),
            Err(e) => move_allowed(source_exists, destination_exists, overwrite) == Err::<
                (),
                Seq<char>,
            >(e@),
        },
{
    if !source_exists {
        return Err("Source file does not exist".to_owned());
    }
    let replace = match overwrite {
        Some(b) => b,
        None => false,
    };
    if destination_exists && !replace {
        return Err("Destination file exists".to_owned());
    }
    Ok(())
}

/// The system's error number for a move across devices.
pub const CROSS_DEVICE: i32 = 18;

/// The text that reports a failed move: a move across devices is named
/// as such; any other failure carries the system's text.
pub fn move_failure(os_error: Option<i32>, message: &str) -> (text: String)
    ensures
        text@ == (if os_error == Some(CROSS_DEVICE) {
            "Cross-device link not permitted"@
        } else {
            "Failed to rename file: "@ + message@
        }),
{
    match os_error {
        Some(code) => if code == CROSS_DEVICE {
            return "Cross-device link not permitted".to_owned();
        },
        None => {},
    }
    crate::text::concat("Failed to rename file: ", message)
}

} // verus!
