//! The outcome of a build, and its canonical name as JSON text gives it.

use crate::text::{same_text, text_of, trim_matches, trimmed_end, trimmed_start};
use vstd::prelude::*;

verus! {

/// The outcome of a build.
#[derive(Debug, Clone, Copy, PartialEq, Eq, Structural)]
pub enum BuildStatus {
    Good,
    Bad,
    Fail,
    Unknown,
}

/// The canonical name of a build status.
pub open spec fn status_name(status: BuildStatus) -> Seq<char> {
    match status {
        BuildStatus::Good => "GOOD"@,
        BuildStatus::Bad => "BAD"@,
        BuildStatus::Fail => "FAIL"@,
        BuildStatus::Unknown => "UNKWN"@,
    }
}

/// The build status of a canonical name.
pub open spec fn status_named(name: Seq<char>) -> Option<BuildStatus> {
    if name == "GOOD"@ {
        Some(BuildStatus::Good)
    } else if name == "BAD"@ {
        Some(BuildStatus::Bad)
    } else if name == "FAIL"@ {
        Some(BuildStatus::Fail)
    } else if name == "UNKWN"@ {
        Some(BuildStatus::Unknown)
    } else {
        None
    }
}

/// Text that stands for itself between the quotes of a JSON string.
pub open spec fn json_plain(s: Seq<char>) -> bool {
    forall|i: int| 0 <= i < s.len() ==> plain_char(#[trigger] s[i])
}

/// A character that JSON does not escape.
pub open spec fn plain_char(c: char) -> bool {
    c != '"' && c != '\\' && c >= '\u{20}'
}

/// `s` between quotes.
pub open spec fn quoted(s: Seq<char>) -> Seq<char> {
    seq!['"'] + s + seq!['"']
}

/// The build status that a stored text gives: the text is taken as the inside of a JSON
/// string, so that escapes in it count, and the string has to be a canonical name.
pub open spec fn parsed_status(s: Seq<char>) -> Option<BuildStatus> {
    if json_plain(s) {
        status_named(s)
    } else {
        match json_string(quoted(s)) {
            Some(name) => status_named(name),
            None => None,
        }
    }
}

/// A build status's canonical name is plain text that gives the status back, so that what
/// is stored of a status is read as that status.
pub proof fn status_name_round_trips(status: BuildStatus)
    ensures
        json_plain(status_name(status)),
        status_named(status_name(status)) == Some(status),
        parsed_status(status_name(status)) == Some(status),
{
    reveal_strlit("GOOD");
    reveal_strlit("BAD");
    reveal_strlit("FAIL");
    reveal_strlit("UNKWN");
    if status is Fail {
        assert("FAIL"@[0] != "GOOD"@[0]);
    }
}

/// No two build statuses share a name.
pub proof fn status_names_differ(a: BuildStatus, b: BuildStatus)
    ensures
        status_name(a) == status_name(b) ==> a == b,
{
    status_name_round_trips(a);
    status_name_round_trips(b);
}

/// Quotes around a text without quotes are all that trimming quotes takes off.
proof fn quotes_trim_off(s: Seq<char>)
    requires
        json_plain(s),
        s.len() > 0,
    ensures
        trimmed_start(trimmed_end(quoted(s), '"'), '"') == s,
{
    let open = seq!['"'] + s;
    assert(quoted(s).drop_last() =~= open);
    assert(plain_char(s.last()));
    assert(open.last() == s.last());
    assert(trimmed_end(open, '"') == open);
    assert(trimmed_end(quoted(s), '"') == open);
    assert(open.drop_first() =~= s);
    assert(plain_char(s.first()));
    assert(trimmed_start(s, '"') == s);
}

/// The canonical name of a build status: its JSON text without the surrounding quotes.
pub fn build_status_to_str(s: &BuildStatus) -> (r: String)
    ensures
        r@ == status_name(*s),
{
    let name = match s {
        BuildStatus::Good => "GOOD",
        BuildStatus::Bad => "BAD",
        BuildStatus::Fail => "FAIL",
        BuildStatus::Unknown => "UNKWN",
    };
    proof {
        status_name_round_trips(*s);
        reveal_strlit("GOOD");
        reveal_strlit("BAD");
        reveal_strlit("FAIL");
        reveal_strlit("UNKWN");
        quotes_trim_off(name@);
    }
    let json = match to_json(name) {
        Some(json) => json,
        None => String::new(),
    };
    trim_matches(json.as_str(), '"')
}

/// The build status that a stored text gives.
pub fn str_to_build_status(s: &str) -> (r: Option<BuildStatus>)
    ensures
        r == parsed_status(s@),
{
    let mut json = String::new();
    json.push('"');
    json.append(s);
    json.push('"');
    proof {
        assert(json@ =~= quoted(s@));
        assert(json@.subrange(1, json@.len() - 1) =~= s@);
    }
    match from_json(json.as_str()) {
        Some(name) => named_status(name.as_str()),
        None => None,
    }
}

/// The build status of a canonical name.
pub fn named_status(name: &str) -> (r: Option<BuildStatus>)
    ensures
        r == status_named(name@),
{
    if same_text(name, "GOOD") {
        Some(BuildStatus::Good)
    } else if same_text(name, "BAD") {
        Some(BuildStatus::Bad)
    } else if same_text(name, "FAIL") {
        Some(BuildStatus::Fail)
    } else if same_text(name, "UNKWN") {
        Some(BuildStatus::Unknown)
    } else {
        None
    }
}

// ---------------------------------------------------------------------------
// serde_json
// ---------------------------------------------------------------------------

/// The string that a JSON text holds, as `serde_json::from_str` reads it into a `String`, or
/// nothing where it fails.
pub uninterp spec fn json_string(text: Seq<char>) -> Option<Seq<char>>;

/// Calls `serde_json::to_string` on text without quotes, backslashes and control characters:
/// it comes back between quotes, unchanged.
#[verifier::external_body]
fn to_json(s: &str) -> (r: Option<String>)
    requires
        json_plain(s@),
    ensures
        text_of(r) == Some(quoted(s@)),
{
    serde_json::to_string(s).ok()
}

/// Calls `serde_json::from_str` for a `String`. What it makes of a text is a matter of the
/// text alone; of plain text between quotes it makes that text.
#[verifier::external_body]
fn from_json(text: &str) -> (r: Option<String>)
    ensures
        text_of(r) == json_string(text@),
        text@.len() >= 2 && text@.first() == '"' && text@.last() == '"' && json_plain(
            text@.subrange(1, text@.len() - 1),
        ) ==> text_of(r) == Some(text@.subrange(1, text@.len() - 1)),
{
    serde_json::from_str(text).ok()
}

} // verus!
