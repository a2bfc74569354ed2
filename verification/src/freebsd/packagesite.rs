//! The package list of a FreeBSD mirror: a zstd-compressed tar archive with a file of lines,
//! one package each.

use crate::text::{blank, is_blank};
use crate::views;
use std::io::Read;
use vstd::prelude::*;
use vstd::utf8::{decode_utf8, valid_utf8};

verus! {

/// The file with the packages.
pub open spec fn packagesite_name() -> Seq<u8> {
    seq![
        0x70, 0x61, 0x63, 0x6b, 0x61, 0x67, 0x65, 0x73, 0x69, 0x74, 0x65, 0x2e, 0x79, 0x61, 0x6d,
        0x6c,
    ]
}

/// Why a package list cannot be read.
#[derive(Debug, Clone, Copy, PartialEq, Eq, Structural)]
pub enum SiteError {
    /// The archive is damaged.
    Archive,
    /// A line is not UTF-8.
    NotText,
}

// ---------------------------------------------------------------------------
// The archive
// ---------------------------------------------------------------------------

/// The path of the entry at a position in what `tar::Archive::entries` hands out of what `zstd`
/// decompresses: nothing where there are no more entries, an error where either fails.
pub uninterp spec fn archive_path(bytes: Seq<u8>, position: int) -> Result<Option<Seq<u8>>, ()>;

/// What can be read of the entry at a position in what `tar::Archive::entries` hands out, or
/// nothing where there is no such entry or it cannot be read.
pub uninterp spec fn archive_data(bytes: Seq<u8>, position: int) -> Option<Seq<u8>>;

/// Decompresses with `zstd::stream::read::Decoder` and walks what comes out with
/// `tar::Archive::entries`, up to the entry at a position and no further: its path, nothing where
/// there are no more entries, an error where either fails. What comes out is a matter of the
/// bytes and the position alone.
///
/// `tar` counts positions in a `u64`. A header of a sparse file that declares a length within
/// two blocks of the end of that range, which no archive can hold, overflows the count: the walk
/// ends in a failure or, in a build that checks for overflow, in a panic.
#[verifier::external_body]
fn entry_path(bytes: &[u8], position: usize) -> (r: Result<Option<Vec<u8>>, ()>)
    ensures
        path_of(r) == archive_path(bytes@, position as int),
{
    let decoder = zstd::stream::read::Decoder::new(bytes).map_err(|_| ())?;
    let mut archive = tar::Archive::new(decoder);
    let mut entries = archive.entries().map_err(|_| ())?;
    match entries.nth(position) {
        Some(Ok(entry)) => Ok(Some(entry.path_bytes().into_owned())),
        Some(Err(_)) => Err(()),
        None => Ok(None),
    }
}

/// Decompresses with `zstd::stream::read::Decoder` and reads the `tar::Entry` at a position.
/// What comes out is a matter of the bytes and the position alone. Up to that position, the
/// count of `tar` can overflow as in `entry_path`.
#[verifier::external_body]
fn entry_data(bytes: &[u8], position: usize) -> (r: Option<Vec<u8>>)
    ensures
        bytes_of(r) == archive_data(bytes@, position as int),
{
    let mut archive = tar::Archive::new(zstd::stream::read::Decoder::new(bytes).ok()?);
    let mut entry = archive.entries().ok()?.nth(position)?.ok()?;
    let mut data = Vec::new();
    entry.read_to_end(&mut data).ok()?;
    Some(data)
}

/// The path of an optional entry.
pub open spec fn path_of(entry: Result<Option<Vec<u8>>, ()>) -> Result<Option<Seq<u8>>, ()> {
    match entry {
        Ok(path) => Ok(bytes_of(path)),
        Err(()) => Err(()),
    }
}

/// The bytes of an optional file.
pub open spec fn bytes_of(file: Option<Vec<u8>>) -> Option<Seq<u8>> {
    match file {
        Some(data) => Some(data@),
        None => None,
    }
}

/// What the walk over an archive has come to.
#[derive(Debug, Clone, Copy, PartialEq, Eq, Structural)]
pub enum Walk {
    /// The packagesite.
    Packagesite,
    /// Another entry: the walk goes on.
    Other,
    /// The end of the archive.
    End,
    /// Damage.
    Damage,
}

/// What the walk has come to with an entry.
pub open spec fn walk_at(entry: Result<Option<Seq<u8>>, ()>) -> Walk {
    match entry {
        Ok(Some(path)) => if path == packagesite_name() {
            Walk::Packagesite
        } else {
            Walk::Other
        },
        Ok(None) => Walk::End,
        Err(()) => Walk::Damage,
    }
}

/// The packagesite of an archive, from a position on: the first entry of that name, even if the
/// archive is damaged further on. Without it, a whole archive has none, and a damaged one cannot
/// be read; nor can one with more entries than a `usize` can count.
pub open spec fn packagesite_from(bytes: Seq<u8>, position: int) -> Result<
    Option<Seq<u8>>,
    SiteError,
>
    decreases usize::MAX - position,
{
    if position >= usize::MAX {
        Err(SiteError::Archive)
    } else {
        match walk_at(archive_path(bytes, position)) {
            Walk::Packagesite => match archive_data(bytes, position) {
                Some(data) => Ok(Some(data)),
                None => Err(SiteError::Archive),
            },
            Walk::Other => packagesite_from(bytes, position + 1),
            Walk::End => Ok(None),
            Walk::Damage => Err(SiteError::Archive),
        }
    }
}

/// The packagesite of an archive.
pub open spec fn packagesite_of(bytes: Seq<u8>) -> Result<Option<Seq<u8>>, SiteError> {
    packagesite_from(bytes, 0)
}

/// What follows the packagesite in an archive makes no difference: an archive that has the same
/// entries up to it, and the same packagesite, has the same packagesite.
pub proof fn rest_of_archive_is_not_read(bytes: Seq<u8>, other: Seq<u8>, position: int)
    requires
        0 <= position < usize::MAX,
        forall|i: int|
            0 <= i <= position ==> #[trigger] archive_path(bytes, i) == archive_path(other, i),
        walk_at(archive_path(bytes, position)) == Walk::Packagesite,
        archive_data(bytes, position) == archive_data(other, position),
        forall|i: int|
            0 <= i < position ==> walk_at(#[trigger] archive_path(bytes, i)) == Walk::Other,
    ensures
        packagesite_of(bytes) == packagesite_of(other),
        packagesite_of(bytes) == match archive_data(bytes, position) {
            Some(data) => Ok::<Option<Seq<u8>>, SiteError>(Some(data)),
            None => Err(SiteError::Archive),
        },
{
    walk_comes_to(bytes, 0, position);
    assert forall|i: int| 0 <= i < position implies walk_at(#[trigger] archive_path(other, i))
        == Walk::Other by {
        assert(archive_path(bytes, i) == archive_path(other, i));
    }
    assert(archive_path(bytes, position) == archive_path(other, position));
    walk_comes_to(other, 0, position);
}

/// The walk comes from one position to a later one over other entries.
proof fn walk_comes_to(bytes: Seq<u8>, from: int, to: int)
    requires
        0 <= from <= to < usize::MAX,
        forall|i: int|
            from <= i < to ==> walk_at(#[trigger] archive_path(bytes, i)) == Walk::Other,
    ensures
        packagesite_from(bytes, from) == packagesite_from(bytes, to),
    decreases to - from,
{
    if from < to {
        assert(walk_at(archive_path(bytes, from)) == Walk::Other);
        walk_comes_to(bytes, from + 1, to);
    }
}

/// The contents of an optional file.
pub open spec fn contents_of(r: Result<Option<Vec<u8>>, SiteError>) -> Result<
    Option<Seq<u8>>,
    SiteError,
> {
    match r {
        Ok(file) => Ok(bytes_of(file)),
        Err(error) => Err(error),
    }
}

/// Whether two runs of bytes are the same.
fn same_bytes(a: &Vec<u8>, b: &Vec<u8>) -> (r: bool)
    ensures
        r == (a@ == b@),
{
    if a.len() != b.len() {
        return false;
    }
    let mut i: usize = 0;
    while i < a.len()
        invariant
            i <= a@.len(),
            a@.len() == b@.len(),
            forall|j: int| 0 <= j < i ==> a@[j] == b@[j],
        decreases a@.len() - i,
    {
        if a[i] != b[i] {
            return false;
        }
        i += 1;
    }
    proof {
        assert(a@ =~= b@);
    }
    true
}

/// What the walk over an archive has come to with an entry.
pub fn find_packagesite(entry: &Result<Option<Vec<u8>>, ()>) -> (r: Walk)
    ensures
        r == walk_at(path_of(*entry)),
{
    match entry {
        Ok(Some(path)) => {
            let name: Vec<u8> = vec![
                0x70u8, 0x61u8, 0x63u8, 0x6bu8, 0x61u8, 0x67u8, 0x65u8, 0x73u8, 0x69u8, 0x74u8,
                0x65u8, 0x2eu8, 0x79u8, 0x61u8, 0x6du8, 0x6cu8,
            ];
            proof {
                assert(name@ =~= packagesite_name());
            }
            if same_bytes(path, &name) {
                Walk::Packagesite
            } else {
                Walk::Other
            }
        },
        Ok(None) => Walk::End,
        Err(_) => Walk::Damage,
    }
}

/// The packagesite of a package list. The walk over the archive ends there, so that nothing
/// behind it is looked at.
pub fn packagesite(bytes: &[u8]) -> (r: Result<Option<Vec<u8>>, SiteError>)
    ensures
        contents_of(r) == packagesite_of(bytes@),
{
    let mut position: usize = 0;
    while position < usize::MAX
        invariant
            packagesite_of(bytes@) == packagesite_from(bytes@, position as int),
        decreases usize::MAX - position,
    {
        let entry = entry_path(bytes, position);
        match find_packagesite(&entry) {
            Walk::Packagesite => {
                return match entry_data(bytes, position) {
                    Some(data) => Ok(Some(data)),
                    None => Err(SiteError::Archive),
                };
            },
            Walk::Other => {
                position += 1;
            },
            Walk::End => {
                return Ok(None);
            },
            Walk::Damage => {
                return Err(SiteError::Archive);
            },
        }
    }
    Err(SiteError::Archive)
}

// ---------------------------------------------------------------------------
// Lines
// ---------------------------------------------------------------------------

/// How many bytes stand before the first line feed.
pub open spec fn line_length(bytes: Seq<u8>) -> nat
    decreases bytes.len(),
{
    if bytes.len() == 0 || bytes.first() == 0x0a {
        0
    } else {
        1 + line_length(bytes.drop_first())
    }
}

/// A line without the carriage return before its line feed.
pub open spec fn without_return(line: Seq<u8>) -> Seq<u8> {
    if line.len() > 0 && line.last() == 0x0d {
        line.drop_last()
    } else {
        line
    }
}

/// The lines of a file, without their ends. What follows the last line feed is a line too,
/// unless it is empty.
pub open spec fn raw_lines(bytes: Seq<u8>) -> Seq<Seq<u8>>
    decreases bytes.len(),
{
    let n = line_length(bytes) as int;
    if bytes.len() == 0 {
        Seq::empty()
    } else if n >= bytes.len() {
        seq![bytes]
    } else {
        seq![without_return(bytes.take(n))] + raw_lines(bytes.skip(n + 1))
    }
}

/// Every line is UTF-8.
pub open spec fn all_text(lines: Seq<Seq<u8>>) -> bool {
    forall|i: int| 0 <= i < lines.len() ==> valid_utf8(#[trigger] lines[i])
}

/// The lines that are not blank, as text.
pub open spec fn package_texts(lines: Seq<Seq<u8>>) -> Seq<Seq<char>>
    decreases lines.len(),
{
    if lines.len() == 0 {
        Seq::empty()
    } else {
        let before = package_texts(lines.drop_last());
        let text = decode_utf8(lines.last());
        if blank(text) {
            before
        } else {
            before.push(text)
        }
    }
}

/// `String::from_utf8`: the bytes as text, if they are UTF-8.
#[verifier::external_body]
fn text_from_utf8(bytes: Vec<u8>) -> (r: Option<String>)
    ensures
        r is Some <==> valid_utf8(bytes@),
        r matches Some(text) ==> text@ == decode_utf8(bytes@),
{
    String::from_utf8(bytes).ok()
}

/// The lines of a file, without their ends.
pub fn split_lines(bytes: &Vec<u8>) -> (r: Vec<Vec<u8>>)
    ensures
        r@.map_values(|line: Vec<u8>| line@) == raw_lines(bytes@),
{
    let mut lines: Vec<Vec<u8>> = Vec::new();
    let mut from: usize = 0;
    let ghost all = bytes@;
    let ghost view = |line: Vec<u8>| line@;
    proof {
        assert(all.skip(0) =~= all);
        assert(lines@.map_values(view) + raw_lines(all) =~= raw_lines(all));
    }
    while from < bytes.len()
        invariant
            from <= bytes@.len(),
            all == bytes@,
            view == (|line: Vec<u8>| line@),
            lines@.map_values(view) + raw_lines(all.skip(from as int)) == raw_lines(all),
        decreases bytes@.len() - from,
    {
        let ghost rest = all.skip(from as int);
        let ghost was = lines@;
        let mut line: Vec<u8> = Vec::new();
        let mut at: usize = from;
        proof {
            assert(all.skip(at as int) =~= rest);
        }
        while at < bytes.len() && bytes[at] != 0x0a
            invariant
                from <= at <= bytes@.len(),
                all == bytes@,
                line@ == all.subrange(from as int, at as int),
                line_length(rest) == (at - from) + line_length(all.skip(at as int)),
            decreases bytes@.len() - at,
        {
            line.push(bytes[at]);
            proof {
                assert(all.skip(at as int).drop_first() =~= all.skip(at + 1));
            }
            at += 1;
        }
        proof {
            assert(line_length(all.skip(at as int)) == 0);
        }
        if at == bytes.len() {
            proof {
                assert(line@ =~= rest);
            }
            lines.push(line);
            proof {
                assert(all.skip(at as int) =~= Seq::<u8>::empty());
                assert(lines@.map_values(view) =~= was.map_values(view) + seq![rest]);
                assert(lines@.map_values(view) + Seq::<Seq<u8>>::empty() =~= lines@.map_values(
                    view,
                ));
            }
            from = at;
        } else {
            let ghost n = at - from;
            proof {
                assert(rest.take(n) =~= line@);
                assert(rest.skip(n + 1) =~= all.skip(at + 1));
            }
            if line.len() > 0 && line[line.len() - 1] == 0x0d {
                let ghost full = line@;
                line.pop();
                proof {
                    assert(line@ =~= full.drop_last());
                }
            }
            lines.push(line);
            proof {
                let tail = raw_lines(rest.skip(n + 1));
                assert(lines@.map_values(view) + tail =~= was.map_values(view) + (
                seq![without_return(rest.take(n))] + tail));
            }
            from = at + 1;
        }
    }
    proof {
        assert(all.skip(from as int) =~= Seq::<u8>::empty());
        assert(lines@.map_values(view) + Seq::<Seq<u8>>::empty() =~= lines@.map_values(view));
    }
    lines
}

/// The lines of a packagesite that are not blank. Each gives a package.
pub fn package_lines(bytes: &Vec<u8>) -> (r: Result<Vec<String>, SiteError>)
    ensures
        match r {
            Ok(lines) => all_text(raw_lines(bytes@)) && views(lines@)
                == package_texts(raw_lines(bytes@)),
            Err(error) => error == SiteError::NotText && !all_text(raw_lines(bytes@)),
        },
{
    let raw = split_lines(bytes);
    let ghost all = raw_lines(bytes@);
    let mut lines: Vec<String> = Vec::new();
    let mut i: usize = 0;
    proof {
        assert(all.take(0) =~= Seq::<Seq<u8>>::empty());
        assert(views(lines@) =~= Seq::<Seq<char>>::empty());
    }
    while i < raw.len()
        invariant
            i <= raw@.len(),
            all == raw_lines(bytes@),
            raw@.map_values(|line: Vec<u8>| line@) == all,
            forall|j: int| 0 <= j < i ==> valid_utf8(#[trigger] all[j]),
            views(lines@) == package_texts(all.take(i as int)),
        decreases raw@.len() - i,
    {
        proof {
            assert(all[i as int] == raw@[i as int]@);
            assert(all.take(i + 1).drop_last() =~= all.take(i as int));
        }
        let bytes_of_line = raw[i].clone();
        proof {
            assert(bytes_of_line@ =~= raw@[i as int]@);
        }
        match text_from_utf8(bytes_of_line) {
            Some(text) => {
                if !is_blank(text.as_str()) {
                    let ghost was = lines@;
                    lines.push(text);
                    proof {
                        assert(views(lines@) =~= views(was).push(
                            text@,
                        ));
                    }
                }
            },
            None => {
                proof {
                    assert(!valid_utf8(all[i as int]));
                }
                return Err(SiteError::NotText);
            },
        }
        i += 1;
    }
    proof {
        assert(all.take(i as int) =~= all);
    }
    Ok(lines)
}

} // verus!
