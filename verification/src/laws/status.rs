//! What holds of the names of build statuses.

use crate::status::{
    json_plain, json_string, parsed_status, plain_char, quoted, status_name, status_named,
    BuildStatus,
};
use vstd::prelude::*;

verus! {

/// A stored text without quotes, backslashes and control characters gives a status exactly where
/// it is the name of one, to the letter.
pub proof fn stored_names_give_their_status(s: Seq<char>)
    requires
        forall|i: int|
            0 <= i < s.len() ==> (#[trigger] s[i]) != '"' && s[i] != '\\' && s[i] >= '\u{20}',
    ensures
        parsed_status(s) == Some(BuildStatus::Good) <==> s == "GOOD"@,
        parsed_status(s) == Some(BuildStatus::Bad) <==> s == "BAD"@,
        parsed_status(s) == Some(BuildStatus::Fail) <==> s == "FAIL"@,
        parsed_status(s) == Some(BuildStatus::Unknown) <==> s == "UNKWN"@,
{
    reveal_strlit("GOOD");
    reveal_strlit("BAD");
    reveal_strlit("FAIL");
    reveal_strlit("UNKWN");
    assert(json_plain(s)) by {
        assert forall|i: int| 0 <= i < s.len() implies plain_char(#[trigger] s[i]) by {}
    }
    assert("FAIL"@[0] != "GOOD"@[0]);
}

/// Any other stored text gives the status that is named by the string which it is the inside of.
pub proof fn escaped_names_give_their_status(s: Seq<char>, i: int)
    requires
        0 <= i < s.len(),
        s[i] == '"' || s[i] == '\\' || s[i] < '\u{20}',
    ensures
        parsed_status(s) == match json_string(seq!['"'] + s + seq!['"']) {
            Some(name) => status_named(name),
            None => None,
        },
{
    assert(!plain_char(s[i]));
    assert(quoted(s) == seq!['"'] + s + seq!['"']);
}

/// The names of the statuses.
pub proof fn statuses_have_these_names()
    ensures
        status_name(BuildStatus::Good) == "GOOD"@,
        status_name(BuildStatus::Bad) == "BAD"@,
        status_name(BuildStatus::Fail) == "FAIL"@,
        status_name(BuildStatus::Unknown) == "UNKWN"@,
{
}

/// A name is that of a status exactly where the status has that name.
pub proof fn names_and_statuses_belong_together(name: Seq<char>, status: BuildStatus)
    ensures
        status_named(name) == Some(status) <==> status_name(status) == name,
{
    crate::status::status_name_round_trips(status);
    if let Some(other) = status_named(name) {
        assert(status_name(other) == name);
        crate::status::status_names_differ(status, other);
    }
}

} // verus!
