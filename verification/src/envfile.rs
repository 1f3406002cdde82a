//! The settings file of the host: lines of `KEY=VALUE`, with `#` for
//! comments.

use crate::config::text_view;
use crate::lifecycle::{lemma_split_nonempty, split, split_at};
use crate::text::{
    from_chars, has_prefix, same_text, starts_with, texts, to_chars, trim,
    trimmed,
};
use vstd::prelude::*;

verus! {

/// Where the browser is sent when no setting says otherwise.
pub const DEFAULT_LAUNCH_URL: &'static str = "https://new.jstorrent.com/launch";

/// `line` without a carriage return at its end.
pub open spec fn without_return(line: Seq<char>) -> Seq<char> {
    if line.len() > 0 && line.last() == '\r' {
        line.drop_last()
    } else {
        line
    }
}

/// The lines of a text. A line ends with a line feed, or with a carriage
/// return and a line feed; neither belongs to the line. What follows the
/// last line feed is a line too, as it stands, unless it is empty.
pub open spec fn lines_of(text: Seq<char>) -> Seq<Seq<char>> {
    let parts = split(text, '\n');
    let ended = parts.drop_last().map_values(|line: Seq<char>| without_return(line));
    if parts.last().len() == 0 {
        ended
    } else {
        ended.push(parts.last())
    }
}

/// Splits a text into its lines.
pub fn lines(text: &str) -> (list: Vec<String>)
    ensures
        texts(list@) == lines_of(text@),
{
    let chars = to_chars(text);
    let parts = split_at(chars.as_slice(), '\n');
    let ghost all = parts@.map_values(|p: Vec<char>| p@);
    proof {
        lemma_split_nonempty(text@, '\n');
    }
    let n = parts.len();
    let mut list: Vec<String> = Vec::new();
    let mut i: usize = 0;
    assert(texts(list@) =~= all.take(0).map_values(|line: Seq<char>| without_return(line)));
    while i + 1 < n
        invariant
            n == parts@.len(),
            n >= 1,
            all == parts@.map_values(|p: Vec<char>| p@),
            i + 1 <= n,
            texts(list@) == all.take(i as int).map_values(|line: Seq<char>| without_return(line)),
        decreases n - i,
    {
        let part = &parts[i];
        let m = part.len();
        assert(all[i as int] == part@);
        let line = if m > 0 && part[m - 1] == '\r' {
            let front = vstd::slice::slice_subrange(part.as_slice(), 0, m - 1);
            assert(front@ =~= part@.drop_last());
            from_chars(front)
        } else {
            from_chars(part.as_slice())
        };
        let ghost before = list@;
        list.push(line);
        assert(texts(list@) =~= texts(before).push(without_return(part@)));
        assert(all.take(i + 1) =~= all.take(i as int).push(part@));
        assert(all.take(i + 1).map_values(|line: Seq<char>| without_return(line)) =~= all.take(
            i as int,
        ).map_values(|line: Seq<char>| without_return(line)).push(without_return(part@)));
        i += 1;
    }
    assert(all.take(n - 1) =~= all.drop_last());
    let last = &parts[n - 1];
    assert(all.last() == last@);
    if last.len() > 0 {
        let ghost before = list@;
        list.push(from_chars(last.as_slice()));
        assert(texts(list@) =~= texts(before).push(last@));
    }
    list
}

/// Index of the first `=` of `text`.
pub open spec fn equals_index(text: Seq<char>) -> Option<int>
    decreases text.len(),
{
    if text.len() == 0 {
        None
    } else if text[0] == '=' {
        Some(0)
    } else {
        match equals_index(text.drop_first()) {
            Some(i) => Some(i + 1),
            None => None,
        }
    }
}

/// The key and value of a trimmed line, both as written: what stands
/// before and after its first `=`. A comment, an empty line and a line
/// without `=` hold none.
pub open spec fn entry_of(line: Seq<char>) -> Option<(Seq<char>, Seq<char>)> {
    if line.len() == 0 || line[0] == '#' {
        None
    } else {
        match equals_index(line) {
            Some(i) => Some((line.take(i), line.skip(i + 1))),
            None => None,
        }
    }
}

/// Splits a trimmed line into its key and value.
pub fn split_entry(line: &str) -> (entry: Option<(String, String)>)
    ensures
        match entry_of(line@) {
            Some((k, v)) => entry.is_some() && entry.unwrap().0@ == k && entry.unwrap().1@ == v,
            None => entry.is_none(),
        },
{
    let chars = to_chars(line);
    let n = chars.len();
    if n == 0 || chars[0] == '#' {
        return None;
    }
    let mut i: usize = 0;
    assert(chars@.skip(0) =~= chars@);
    while i < n
        invariant
            n == chars@.len(),
            chars@ == line@,
            n > 0,
            chars@[0] != '#',
            i <= n,
            equals_index(chars@) == (match equals_index(chars@.skip(i as int)) {
                Some(k) => Some(k + i),
                None => None,
            }),
        decreases n - i,
    {
        assert(chars@.skip(i as int).drop_first() =~= chars@.skip(i + 1));
        assert(chars@.skip(i as int)[0] == chars@[i as int]);
        if chars[i] == '=' {
            assert(equals_index(chars@.skip(i as int)) == Some(0int));
            assert(equals_index(line@) == Some(i as int));
            let key = vstd::slice::slice_subrange(chars.as_slice(), 0, i);
            let value = vstd::slice::slice_subrange(chars.as_slice(), i + 1, n);
            assert(key@ =~= line@.take(i as int));
            assert(value@ =~= line@.skip(i + 1));
            let k = from_chars(key);
            let v = from_chars(value);
            assert(entry_of(line@) == Some((k@, v@)));
            return Some((k, v));
        }
        i += 1;
    }
    None
}

/// The value that a line gives to `key`: the trimmed text after the first
/// `=` of the trimmed line, where the trimmed text before it is `key`.
pub open spec fn line_value(line: Seq<char>, key: Seq<char>) -> Option<Seq<char>> {
    match entry_of(trimmed(line)) {
        Some((k, v)) => if trimmed(k) == key {
            Some(trimmed(v))
        } else {
            None
        },
        None => None,
    }
}

/// The value of `key` in a list of lines: that of the first line which
/// gives it one.
pub open spec fn value_in(lines: Seq<Seq<char>>, key: Seq<char>) -> Option<Seq<char>>
    decreases lines.len(),
{
    if lines.len() == 0 {
        None
    } else {
        match line_value(lines[0], key) {
            Some(v) => Some(v),
            None => value_in(lines.drop_first(), key),
        }
    }
}

/// Reads the value that one line gives to `key`.
pub fn value_of_line(line: &str, key: &str) -> (value: Option<String>)
    ensures
        text_view(value) == line_value(line@, key@),
{
    let t = trim(line);
    match split_entry(t.as_str()) {
        Some((k, v)) => {
            let name = trim(k.as_str());
            if same_text(name.as_str(), key) {
                Some(trim(v.as_str()))
            } else {
                None
            }
        },
        None => None,
    }
}

/// Reads the value of `key` from the lines of a settings file.
pub fn value_in_lines(list: &Vec<String>, key: &str) -> (value: Option<String>)
    ensures
        text_view(value) == value_in(texts(list@), key@),
{
    let ghost all = texts(list@);
    let mut i: usize = 0;
    assert(all.skip(0) =~= all);
    while i < list.len()
        invariant
            all == texts(list@),
            i <= list@.len(),
            value_in(all, key@) == value_in(all.skip(i as int), key@),
        decreases list@.len() - i,
    {
        assert(all.skip(i as int)[0] == list@[i as int]@);
        assert(all.skip(i as int).drop_first() =~= all.skip(i + 1));
        match value_of_line(list[i].as_str(), key) {
            Some(v) => {
                return Some(v);
            },
            None => {},
        }
        i += 1;
    }
    None
}

/// Reads the value of `key` from the text of a settings file.
pub fn read_value(content: &str, key: &str) -> (value: Option<String>)
    ensures
        text_view(value) == value_in(lines_of(content@), key@),
{
    let list = lines(content);
    value_in_lines(&list, key)
}

/// The launch address that a list of lines sets: the trimmed rest of the
/// first line that starts with `LAUNCH_URL=`.
pub open spec fn launch_url_in(lines: Seq<Seq<char>>) -> Option<Seq<char>>
    decreases lines.len(),
{
    if lines.len() == 0 {
        None
    } else if has_prefix(lines[0], "LAUNCH_URL="@) {
        Some(trimmed(lines[0].skip("LAUNCH_URL="@.len() as int)))
    } else {
        launch_url_in(lines.drop_first())
    }
}

/// Reads the launch address from the lines of a settings file; the
/// default where no line sets one.
pub fn launch_url_of_lines(list: &Vec<String>) -> (url: String)
    ensures
        url@ == (match launch_url_in(texts(list@)) {
            Some(u) => u,
            None => DEFAULT_LAUNCH_URL@,
        }),
{
    let ghost all = texts(list@);
    let prefix = to_chars("LAUNCH_URL=");
    let mut i: usize = 0;
    assert(all.skip(0) =~= all);
    while i < list.len()
        invariant
            all == texts(list@),
            prefix@ == "LAUNCH_URL="@,
            i <= list@.len(),
            launch_url_in(all) == launch_url_in(all.skip(i as int)),
        decreases list@.len() - i,
    {
        assert(all.skip(i as int)[0] == list@[i as int]@);
        assert(all.skip(i as int).drop_first() =~= all.skip(i + 1));
        let line = to_chars(list[i].as_str());
        if starts_with(line.as_slice(), prefix.as_slice()) {
            let rest = vstd::slice::slice_subrange(line.as_slice(), prefix.len(), line.len());
            assert(rest@ =~= list@[i as int]@.skip("LAUNCH_URL="@.len() as int));
            return trim(from_chars(rest).as_str());
        }
        i += 1;
    }
    DEFAULT_LAUNCH_URL.to_owned()
}

/// Reads the launch address from the text of a settings file, if there is
/// one; the default otherwise.
pub fn launch_url(content: Option<&str>) -> (url: String)
    ensures
        url@ == (match content {
            Some(c) => match launch_url_in(lines_of(c@)) {
                Some(u) => u,
                None => DEFAULT_LAUNCH_URL@,
            },
            None => DEFAULT_LAUNCH_URL@,
        }),
{
    match content {
        Some(c) => {
            let list = lines(c);
            launch_url_of_lines(&list)
        },
        None => DEFAULT_LAUNCH_URL.to_owned(),
    }
}

/// Whether some line, trimmed, is `LOGFILE=true`.
pub open spec fn log_file_wanted(lines: Seq<Seq<char>>) -> bool {
    exists|i: int| 0 <= i < lines.len() && trimmed(#[trigger] lines[i]) == "LOGFILE=true"@
}

/// Whether the lines of a settings file ask for a log file.
pub fn wants_log_file_lines(list: &Vec<String>) -> (wanted: bool)
    ensures
        wanted == log_file_wanted(texts(list@)),
{
    let ghost all = texts(list@);
    let mut i: usize = 0;
    while i < list.len()
        invariant
            all == texts(list@),
            i <= list@.len(),
            forall|j: int| 0 <= j < i ==> trimmed(#[trigger] all[j]) != "LOGFILE=true"@,
        decreases list@.len() - i,
    {
        assert(all[i as int] == list@[i as int]@);
        let t = trim(list[i].as_str());
        if same_text(t.as_str(), "LOGFILE=true") {
            return true;
        }
        i += 1;
    }
    false
}

/// Whether the text of a settings file asks for a log file.
pub fn wants_log_file(content: &str) -> (wanted: bool)
    ensures
        wanted == log_file_wanted(lines_of(content@)),
{
    let list = lines(content);
    wants_log_file_lines(&list)
}

/// One line of the log: the time in brackets, the message, a line feed.
pub fn log_line(timestamp: &str, message: &str) -> (line: String)
    ensures
        line@ == "["@ + timestamp@ + "] "@ + message@ + "\n"@,
{
    let head = crate::text::concat3("[", timestamp, "] ");
    crate::text::concat3(head.as_str(), message, "\n")
}

} // verus!
