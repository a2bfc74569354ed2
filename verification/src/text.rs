//! Text on the level of characters: the handful of string operations that URLs, filter
//! lists and template substitution need, each with its exact meaning.

use crate::views;
use vstd::prelude::*;

verus! {

/// `String::push`: appends the given character to the end of the string.
pub assume_specification[ String::push ](s: &mut String, c: char)
    ensures
        final(s)@ == old(s)@.push(c),
;

// ---------------------------------------------------------------------------
// Meaning
// ---------------------------------------------------------------------------

/// `part` stands in `s` at position `at`.
pub open spec fn occurs_at(s: Seq<char>, part: Seq<char>, at: int) -> bool {
    &&& 0 <= at
    &&& at + part.len() <= s.len()
    &&& s.subrange(at, at + part.len()) == part
}

/// `part` stands somewhere in `s`.
pub open spec fn contains_text(s: Seq<char>, part: Seq<char>) -> bool {
    exists|at: int| occurs_at(s, part, at)
}

/// `s` ends in `part`.
pub open spec fn ends_with_text(s: Seq<char>, part: Seq<char>) -> bool {
    occurs_at(s, part, s.len() - part.len())
}

/// `s` without the run of `c` at its end.
pub open spec fn trimmed_end(s: Seq<char>, c: char) -> Seq<char>
    decreases s.len(),
{
    if s.len() > 0 && s.last() == c {
        trimmed_end(s.drop_last(), c)
    } else {
        s
    }
}

/// `s` without the run of `c` at its start.
pub open spec fn trimmed_start(s: Seq<char>, c: char) -> Seq<char>
    decreases s.len(),
{
    if s.len() > 0 && s.first() == c {
        trimmed_start(s.drop_first(), c)
    } else {
        s
    }
}

/// `s` with every occurrence of `pattern` replaced by `with`: occurrences are found from
/// the left and do not overlap, and what was put in is not searched again.
pub open spec fn replaced(s: Seq<char>, pattern: Seq<char>, with: Seq<char>) -> Seq<char>
    decreases s.len(),
{
    if s.len() == 0 || pattern.len() == 0 {
        s
    } else if occurs_at(s, pattern, 0) {
        with + replaced(s.skip(pattern.len() as int), pattern, with)
    } else {
        seq![s.first()] + replaced(s.drop_first(), pattern, with)
    }
}

/// The pieces of `s` between the separators: one more than there are separators.
pub open spec fn pieces(s: Seq<char>, separator: char) -> Seq<Seq<char>>
    decreases s.len(),
{
    if s.len() == 0 {
        seq![s]
    } else {
        let before = pieces(s.drop_last(), separator);
        if s.last() == separator {
            before.push(Seq::empty())
        } else {
            before.update(before.len() - 1, before.last().push(s.last()))
        }
    }
}

/// A character with the Unicode property `White_Space`.
pub open spec fn white_space(c: char) -> bool {
    ||| '\u{9}' <= c <= '\u{d}'
    ||| c == '\u{20}'
    ||| c == '\u{85}'
    ||| c == '\u{a0}'
    ||| c == '\u{1680}'
    ||| '\u{2000}' <= c <= '\u{200a}'
    ||| c == '\u{2028}'
    ||| c == '\u{2029}'
    ||| c == '\u{202f}'
    ||| c == '\u{205f}'
    ||| c == '\u{3000}'
}

/// `s` consists of white space only.
pub open spec fn blank(s: Seq<char>) -> bool {
    forall|i: int| 0 <= i < s.len() ==> white_space(#[trigger] s[i])
}

/// `s` without the white space at both ends.
pub open spec fn trimmed(s: Seq<char>) -> Seq<char>
    decreases s.len(),
{
    if s.len() > 0 && white_space(s.last()) {
        trimmed(s.drop_last())
    } else if s.len() > 0 && white_space(s.first()) {
        trimmed(s.drop_first())
    } else {
        s
    }
}

/// The items of a comma-separated list: trimmed, and without the empty ones.
pub open spec fn list_items(s: Seq<char>) -> Seq<Seq<char>> {
    kept_items(pieces(s, ','))
}

/// The pieces that stay in a list, trimmed.
pub open spec fn kept_items(raw: Seq<Seq<char>>) -> Seq<Seq<char>>
    decreases raw.len(),
{
    if raw.len() == 0 {
        Seq::empty()
    } else {
        let before = kept_items(raw.drop_last());
        let item = trimmed(raw.last());
        if item.len() == 0 {
            before
        } else {
            before.push(item)
        }
    }
}

/// The decimal digit of a number below ten.
pub open spec fn digit(n: int) -> char {
    if n == 0 {
        '0'
    } else if n == 1 {
        '1'
    } else if n == 2 {
        '2'
    } else if n == 3 {
        '3'
    } else if n == 4 {
        '4'
    } else if n == 5 {
        '5'
    } else if n == 6 {
        '6'
    } else if n == 7 {
        '7'
    } else if n == 8 {
        '8'
    } else {
        '9'
    }
}

/// The decimal digits of a number, without leading zeros.
pub open spec fn digits(n: nat) -> Seq<char>
    decreases n,
{
    if n < 10 {
        seq![digit(n as int)]
    } else {
        digits(n / 10).push(digit((n % 10) as int))
    }
}

/// A number in decimal notation.
pub open spec fn decimal(n: int) -> Seq<char> {
    if n < 0 {
        seq!['-'] + digits((-n) as nat)
    } else {
        digits(n as nat)
    }
}

/// The characters of an optional string.
pub open spec fn text_of(s: Option<String>) -> Option<Seq<char>> {
    match s {
        Some(t) => Some(t@),
        None => None,
    }
}

// ---------------------------------------------------------------------------
// Characters in and out of strings
// ---------------------------------------------------------------------------

/// The characters of a string.
pub fn chars_of(s: &str) -> (r: Vec<char>)
    ensures
        r@ == s@,
{
    let mut out: Vec<char> = Vec::new();
    for c in it: s.chars()
        invariant
            out@ == s@.take(it.index() as int),
            it.seq() == s@,
    {
        out.push(c);
    }
    out
}

/// The string of the characters from `from` up to `to`.
pub fn string_of(chars: &Vec<char>, from: usize, to: usize) -> (r: String)
    requires
        from <= to <= chars@.len(),
    ensures
        r@ == chars@.subrange(from as int, to as int),
{
    let mut out = String::new();
    let mut i: usize = from;
    while i < to
        invariant
            from <= i <= to <= chars@.len(),
            out@ == chars@.subrange(from as int, i as int),
        decreases to - i,
    {
        out.push(chars[i]);
        i += 1;
    }
    out
}

/// A copy of an optional string.
pub fn copy_text(s: &Option<String>) -> (r: Option<String>)
    ensures
        text_of(r) == text_of(*s),
{
    match s {
        Some(text) => Some(text.clone()),
        None => None,
    }
}

// ---------------------------------------------------------------------------
// Searching
// ---------------------------------------------------------------------------

/// Whether `part` stands in `s` at position `at`.
fn stands_at(s: &Vec<char>, part: &Vec<char>, at: usize) -> (r: bool)
    ensures
        r == occurs_at(s@, part@, at as int),
{
    if part.len() > s.len() || at > s.len() - part.len() {
        return false;
    }
    let mut i: usize = 0;
    while i < part.len()
        invariant
            i <= part@.len(),
            at + part@.len() <= s.len(),
            s@.subrange(at as int, at + i) == part@.take(i as int),
        decreases part@.len() - i,
    {
        if s[at + i] != part[i] {
            proof {
                assert(s@.subrange(at as int, at + part@.len())[i as int] == s@[at + i]);
            }
            return false;
        }
        proof {
            assert(s@.subrange(at as int, at + i + 1) =~= s@.subrange(at as int, at + i).push(
                s@[at + i],
            ));
        }
        i += 1;
    }
    proof {
        assert(part@.take(part@.len() as int) =~= part@);
    }
    true
}

/// Whether `part` stands somewhere in `s`.
pub fn contains(s: &str, part: &str) -> (r: bool)
    ensures
        r == contains_text(s@, part@),
{
    let chars = chars_of(s);
    let wanted = chars_of(part);
    let mut at: usize = 0;
    while at < chars.len()
        invariant
            at <= chars@.len(),
            chars@ == s@,
            wanted@ == part@,
            forall|j: int| 0 <= j < at ==> !occurs_at(s@, part@, j),
        decreases chars@.len() - at,
    {
        if stands_at(&chars, &wanted, at) {
            return true;
        }
        at += 1;
    }
    stands_at(&chars, &wanted, at)
}

/// Whether `s` ends in `part`.
pub fn ends_with(s: &str, part: &str) -> (r: bool)
    ensures
        r == ends_with_text(s@, part@),
{
    let chars = chars_of(s);
    let wanted = chars_of(part);
    if wanted.len() > chars.len() {
        return false;
    }
    stands_at(&chars, &wanted, chars.len() - wanted.len())
}

/// Whether two pieces of text are the same.
pub fn same_text(a: &str, b: &str) -> (r: bool)
    ensures
        r == (a@ == b@),
{
    let x = chars_of(a);
    let y = chars_of(b);
    proof {
        if x@.len() == y@.len() {
            assert(x@.subrange(0, y@.len() as int) =~= x@);
        }
    }
    x.len() == y.len() && stands_at(&x, &y, 0)
}

// ---------------------------------------------------------------------------
// Trimming
// ---------------------------------------------------------------------------

/// `s` without the run of `c` at its end.
pub fn trim_end_matches(s: &str, c: char) -> (r: String)
    ensures
        r@ == trimmed_end(s@, c),
{
    let chars = chars_of(s);
    let mut to: usize = chars.len();
    proof {
        assert(chars@.take(to as int) =~= chars@);
    }
    while to > 0 && chars[to - 1] == c
        invariant
            to <= chars@.len(),
            trimmed_end(chars@.take(to as int), c) == trimmed_end(chars@, c),
        decreases to,
    {
        proof {
            assert(chars@.take(to as int).drop_last() =~= chars@.take(to - 1));
        }
        to -= 1;
    }
    string_of(&chars, 0, to)
}

/// `s` without the runs of `c` at both ends.
pub fn trim_matches(s: &str, c: char) -> (r: String)
    ensures
        r@ == trimmed_start(trimmed_end(s@, c), c),
{
    let kept = trim_end_matches(s, c);
    let chars = chars_of(kept.as_str());
    let mut from: usize = 0;
    proof {
        assert(chars@.skip(0) =~= chars@);
    }
    while from < chars.len() && chars[from] == c
        invariant
            from <= chars@.len(),
            trimmed_start(chars@.skip(from as int), c) == trimmed_start(chars@, c),
        decreases chars@.len() - from,
    {
        proof {
            assert(chars@.skip(from as int).drop_first() =~= chars@.skip(from + 1));
        }
        from += 1;
    }
    string_of(&chars, from, chars.len())
}

/// Whether a character has the Unicode property `White_Space`.
pub fn is_white_space(c: char) -> (r: bool)
    ensures
        r == white_space(c),
{
    ('\u{9}' <= c && c <= '\u{d}') || c == '\u{20}' || c == '\u{85}' || c == '\u{a0}' || c
        == '\u{1680}' || ('\u{2000}' <= c && c <= '\u{200a}') || c == '\u{2028}' || c
        == '\u{2029}' || c == '\u{202f}' || c == '\u{205f}' || c == '\u{3000}'
}

/// Whether a piece of text consists of white space only.
pub fn is_blank(s: &str) -> (r: bool)
    ensures
        r == blank(s@),
{
    let chars = chars_of(s);
    let mut i: usize = 0;
    while i < chars.len()
        invariant
            i <= chars@.len(),
            chars@ == s@,
            forall|j: int| 0 <= j < i ==> white_space(#[trigger] s@[j]),
        decreases chars@.len() - i,
    {
        if !is_white_space(chars[i]) {
            proof {
                assert(!white_space(s@[i as int]));
            }
            return false;
        }
        i += 1;
    }
    true
}

/// The text from `from` up to `to`, without the white space at both ends.
fn trim_part(chars: &Vec<char>, from: usize, to: usize) -> (r: String)
    requires
        from <= to <= chars@.len(),
    ensures
        r@ == trimmed(chars@.subrange(from as int, to as int)),
{
    let mut last: usize = to;
    while last > from && is_white_space(chars[last - 1])
        invariant
            from <= last <= to <= chars@.len(),
            trimmed(chars@.subrange(from as int, last as int)) == trimmed(
                chars@.subrange(from as int, to as int),
            ),
        decreases last,
    {
        proof {
            assert(chars@.subrange(from as int, last as int).drop_last() =~= chars@.subrange(
                from as int,
                last - 1,
            ));
        }
        last -= 1;
    }
    let mut first: usize = from;
    while first < last && is_white_space(chars[first])
        invariant
            from <= first <= last <= to <= chars@.len(),
            first < last ==> !white_space(chars@[last - 1]),
            trimmed(chars@.subrange(first as int, last as int)) == trimmed(
                chars@.subrange(from as int, to as int),
            ),
        decreases last - first,
    {
        proof {
            assert(chars@.subrange(first as int, last as int).drop_first() =~= chars@.subrange(
                first + 1,
                last as int,
            ));
        }
        first += 1;
    }
    string_of(chars, first, last)
}

// ---------------------------------------------------------------------------
// Lists, templates and numbers
// ---------------------------------------------------------------------------

/// The items of a comma-separated list: trimmed, and without the empty ones.
pub fn split_list(s: &str) -> (r: Vec<String>)
    ensures
        views(r@) == list_items(s@),
{
    let chars = chars_of(s);
    let mut out: Vec<String> = Vec::new();
    let mut from: usize = 0;
    let mut i: usize = 0;
    let ghost mut done: Seq<Seq<char>> = Seq::empty();
    proof {
        assert(chars@.take(0) =~= Seq::<char>::empty());
        assert(pieces(chars@.take(0), ',') =~= done.push(chars@.subrange(0, 0)));
        assert(views(out@) =~= kept_items(done));
    }
    while i < chars.len()
        invariant
            chars@ == s@,
            from <= i <= chars@.len(),
            pieces(chars@.take(i as int), ',') == done.push(
                chars@.subrange(from as int, i as int),
            ),
            views(out@) == kept_items(done),
        decreases chars@.len() - i,
    {
        let ghost before = done.push(chars@.subrange(from as int, i as int));
        proof {
            assert(chars@.take(i + 1).drop_last() =~= chars@.take(i as int));
        }
        if chars[i] == ',' {
            let item = trim_part(&chars, from, i);
            proof {
                assert(before.drop_last() =~= done);
                done = before;
            }
            if !item.as_str().is_empty() {
                let ghost was = out@;
                out.push(item);
                proof {
                    assert(views(out@) =~= views(was).push(item@));
                }
            }
            from = i + 1;
            proof {
                assert(chars@.subrange(from as int, i + 1) =~= Seq::<char>::empty());
            }
        } else {
            proof {
                assert(chars@.subrange(from as int, i + 1) =~= chars@.subrange(
                    from as int,
                    i as int,
                ).push(chars@[i as int]));
                assert(before.update(
                    before.len() - 1,
                    before.last().push(chars@[i as int]),
                ) =~= done.push(chars@.subrange(from as int, i + 1)));
            }
        }
        i += 1;
    }
    let item = trim_part(&chars, from, i);
    proof {
        assert(chars@.take(i as int) =~= chars@);
        let all = done.push(chars@.subrange(from as int, i as int));
        assert(all.drop_last() =~= done);
    }
    if !item.as_str().is_empty() {
        let ghost was = out@;
        out.push(item);
        proof {
            assert(views(out@) =~= views(was).push(item@));
        }
    }
    out
}

/// `s` with every occurrence of `pattern` replaced by `with`.
pub fn replace(s: &str, pattern: &str, with: &str) -> (r: String)
    requires
        pattern@.len() > 0,
    ensures
        r@ == replaced(s@, pattern@, with@),
{
    let chars = chars_of(s);
    let wanted = chars_of(pattern);
    let mut out = String::new();
    let mut i: usize = 0;
    proof {
        assert(chars@.skip(0) =~= chars@);
        assert(out@ + replaced(s@, pattern@, with@) =~= replaced(s@, pattern@, with@));
    }
    while i < chars.len()
        invariant
            chars@ == s@,
            wanted@ == pattern@,
            pattern@.len() > 0,
            i <= chars@.len(),
            out@ + replaced(s@.skip(i as int), pattern@, with@) == replaced(
                s@,
                pattern@,
                with@,
            ),
        decreases chars@.len() - i,
    {
        let ghost rest = s@.skip(i as int);
        let ghost was = out@;
        proof {
            if i + pattern@.len() <= s@.len() {
                assert(rest.subrange(0, pattern@.len() as int) =~= s@.subrange(
                    i as int,
                    i + pattern@.len(),
                ));
            }
            assert(occurs_at(rest, pattern@, 0) == occurs_at(s@, pattern@, i as int));
        }
        if stands_at(&chars, &wanted, i) {
            out.append(with);
            proof {
                let tail = rest.skip(pattern@.len() as int);
                assert(tail =~= s@.skip(i + pattern@.len()));
                assert(out@ + replaced(tail, pattern@, with@) =~= was + (with@ + replaced(
                    tail,
                    pattern@,
                    with@,
                )));
            }
            i += wanted.len();
        } else {
            out.push(chars[i]);
            proof {
                let tail = rest.drop_first();
                assert(tail =~= s@.skip(i + 1));
                assert(out@ + replaced(tail, pattern@, with@) =~= was + (seq![s@[i as int]]
                    + replaced(tail, pattern@, with@)));
            }
            i += 1;
        }
    }
    proof {
        assert(s@.skip(i as int) =~= Seq::<char>::empty());
        assert(out@ + Seq::<char>::empty() =~= out@);
    }
    out
}

/// Appends the digits of a number.
fn push_digits(s: &mut String, n: u32)
    ensures
        final(s)@ == old(s)@ + digits(n as nat),
    decreases n,
{
    if n >= 10 {
        push_digits(s, n / 10);
    }
    let d: u32 = n % 10;
    let c = if d == 0 {
        '0'
    } else if d == 1 {
        '1'
    } else if d == 2 {
        '2'
    } else if d == 3 {
        '3'
    } else if d == 4 {
        '4'
    } else if d == 5 {
        '5'
    } else if d == 6 {
        '6'
    } else if d == 7 {
        '7'
    } else if d == 8 {
        '8'
    } else {
        '9'
    };
    s.push(c);
    proof {
        if n >= 10 {
            assert(s@ =~= old(s)@ + digits((n / 10) as nat).push(digit(d as int)));
        } else {
            assert(s@ =~= old(s)@ + seq![digit(n as int)]);
        }
    }
}

/// Appends a number in decimal notation.
pub fn push_decimal(s: &mut String, n: i32)
    ensures
        final(s)@ == old(s)@ + decimal(n as int),
{
    if n < 0 {
        s.push('-');
        let ghost signed = s@;
        if n == i32::MIN {
            push_digits(s, 2147483648);
        } else {
            push_digits(s, (-n) as u32);
        }
        proof {
            assert(s@ =~= old(s)@ + (seq!['-'] + digits((-n) as nat)));
        }
    } else {
        push_digits(s, n as u32);
    }
}

// ---------------------------------------------------------------------------
// What holds of all lists
// ---------------------------------------------------------------------------

/// An item as a list gives it: not empty, without commas, and without white space at its ends.
pub open spec fn clean_item(item: Seq<char>) -> bool {
    &&& item.len() > 0
    &&& !item.contains(',')
    &&& !white_space(item.first())
    &&& !white_space(item.last())
}

/// Items with commas between them.
pub open spec fn joined(items: Seq<Seq<char>>) -> Seq<char>
    decreases items.len(),
{
    if items.len() == 0 {
        Seq::empty()
    } else if items.len() == 1 {
        items[0]
    } else {
        joined(items.drop_last()) + seq![','] + items.last()
    }
}

/// What trimming leaves is part of the text, and has no white space at its ends.
proof fn trimmed_ends(s: Seq<char>)
    ensures
        trimmed(s).len() > 0 ==> !white_space(trimmed(s).first()) && !white_space(
            trimmed(s).last(),
        ),
        forall|c: char| #[trigger] trimmed(s).contains(c) ==> s.contains(c),
    decreases s.len(),
{
    if s.len() > 0 && white_space(s.last()) {
        trimmed_ends(s.drop_last());
        assert forall|c: char| #[trigger] trimmed(s).contains(c) implies s.contains(c) by {
            let i = choose|i: int| 0 <= i < s.drop_last().len() && s.drop_last()[i] == c;
            assert(s[i] == c);
        }
    } else if s.len() > 0 && white_space(s.first()) {
        trimmed_ends(s.drop_first());
        assert forall|c: char| #[trigger] trimmed(s).contains(c) implies s.contains(c) by {
            let i = choose|i: int| 0 <= i < s.drop_first().len() && s.drop_first()[i] == c;
            assert(s[i + 1] == c);
        }
    }
}

/// Text is blank exactly where trimming leaves nothing of it.
pub proof fn blank_is_trimmed_away(s: Seq<char>)
    ensures
        blank(s) <==> trimmed(s).len() == 0,
    decreases s.len(),
{
    if s.len() > 0 && white_space(s.last()) {
        blank_is_trimmed_away(s.drop_last());
        if blank(s.drop_last()) {
            assert forall|i: int| 0 <= i < s.len() implies white_space(#[trigger] s[i]) by {
                if i < s.len() - 1 {
                    assert(white_space(s.drop_last()[i]));
                }
            }
        }
        if blank(s) {
            assert forall|i: int| 0 <= i < s.drop_last().len() implies white_space(
                #[trigger] s.drop_last()[i],
            ) by {
                assert(white_space(s[i]));
            }
        }
    } else if s.len() > 0 {
        assert(!white_space(s[s.len() - 1]));
        if white_space(s.first()) {
            blank_is_trimmed_away(s.drop_first());
            assert(!white_space(s.drop_first()[s.len() - 2]));
        }
    }
}

/// No piece holds the separator.
proof fn pieces_without_separator(s: Seq<char>, separator: char)
    ensures
        pieces(s, separator).len() > 0,
        forall|i: int|
            0 <= i < pieces(s, separator).len() ==> !(#[trigger] pieces(s, separator)[i]).contains(
                separator,
            ),
    decreases s.len(),
{
    if s.len() > 0 {
        let before = pieces(s.drop_last(), separator);
        pieces_without_separator(s.drop_last(), separator);
        assert forall|i: int| 0 <= i < pieces(s, separator).len() implies !(
        #[trigger] pieces(s, separator)[i]).contains(separator) by {
            if s.last() == separator {
                if i < before.len() {
                    assert(pieces(s, separator)[i] == before[i]);
                }
            } else if i == before.len() - 1 {
                let piece = pieces(s, separator)[i];
                if piece.contains(separator) {
                    let j = choose|j: int| 0 <= j < piece.len() && piece[j] == separator;
                    assert(before[i][j] == separator);
                }
            } else {
                assert(pieces(s, separator)[i] == before[i]);
            }
        }
    }
}

/// Only clean items are kept, of pieces without commas.
proof fn kept_items_are_clean(raw: Seq<Seq<char>>)
    requires
        forall|i: int| 0 <= i < raw.len() ==> !(#[trigger] raw[i]).contains(','),
    ensures
        forall|i: int| 0 <= i < kept_items(raw).len() ==> clean_item(#[trigger] kept_items(raw)[i]),
    decreases raw.len(),
{
    if raw.len() > 0 {
        let rest = raw.drop_last();
        assert forall|i: int| 0 <= i < rest.len() implies !(#[trigger] rest[i]).contains(',') by {
            assert(rest[i] == raw[i]);
        }
        kept_items_are_clean(rest);
        trimmed_ends(raw.last());
        assert(!raw[raw.len() - 1].contains(','));
        assert forall|i: int| 0 <= i < kept_items(raw).len() implies clean_item(
            #[trigger] kept_items(raw)[i],
        ) by {
            if i < kept_items(rest).len() {
                assert(kept_items(raw)[i] == kept_items(rest)[i]);
            } else {
                assert(kept_items(raw)[i] == trimmed(raw.last()));
                assert(!trimmed(raw.last()).contains(','));
            }
        }
    }
}

/// Whatever the text, the items of a list are not empty, hold no commas, and have no white
/// space at their ends.
pub proof fn list_items_are_clean(s: Seq<char>)
    ensures
        forall|i: int| 0 <= i < list_items(s).len() ==> clean_item(#[trigger] list_items(s)[i]),
{
    pieces_without_separator(s, ',');
    kept_items_are_clean(pieces(s, ','));
}

/// Text without commas after a comma is one more piece.
proof fn pieces_of_appended(a: Seq<char>, b: Seq<char>)
    requires
        !b.contains(','),
    ensures
        pieces(a + seq![','] + b, ',') == pieces(a, ',').push(b),
    decreases b.len(),
{
    let whole = a + seq![','] + b;
    if b.len() == 0 {
        assert(whole.drop_last() =~= a);
        assert(b =~= Seq::<char>::empty());
    } else {
        let shorter = b.drop_last();
        assert(!shorter.contains(',')) by {
            if shorter.contains(',') {
                let i = choose|i: int| 0 <= i < shorter.len() && shorter[i] == ',';
                assert(b[i] == ',');
            }
        }
        pieces_of_appended(a, shorter);
        assert(whole.drop_last() =~= a + seq![','] + shorter);
        assert(b.last() != ',') by {
            assert(b[b.len() - 1] == b.last());
        }
        let before = pieces(a, ',').push(shorter);
        assert(before.last().push(b.last()) =~= b);
        assert(before.update(before.len() - 1, b) =~= pieces(a, ',').push(b));
    }
}

/// Text without commas is one piece.
proof fn one_piece(s: Seq<char>)
    requires
        !s.contains(','),
    ensures
        pieces(s, ',') == seq![s],
    decreases s.len(),
{
    if s.len() > 0 {
        let shorter = s.drop_last();
        assert(!shorter.contains(',')) by {
            if shorter.contains(',') {
                let i = choose|i: int| 0 <= i < shorter.len() && shorter[i] == ',';
                assert(s[i] == ',');
            }
        }
        one_piece(shorter);
        assert(s[s.len() - 1] == s.last());
        assert(shorter.push(s.last()) =~= s);
        assert(seq![shorter].update(0, s) =~= seq![s]);
    }
}

/// Items that are joined with commas are read back as they were.
pub proof fn joined_list_reads_back(items: Seq<Seq<char>>)
    requires
        forall|i: int| 0 <= i < items.len() ==> clean_item(#[trigger] items[i]),
    ensures
        list_items(joined(items)) == items,
    decreases items.len(),
{
    if items.len() == 0 {
        let empty = Seq::<char>::empty();
        assert(pieces(empty, ',') =~= seq![empty]);
        reveal_with_fuel(kept_items, 2);
        assert(kept_items(seq![empty]) =~= items);
    } else {
        let last = items.last();
        assert(clean_item(items[items.len() - 1]));
        assert(trimmed(last) == last);
        let rest = items.drop_last();
        if items.len() == 1 {
            one_piece(last);
            reveal_with_fuel(kept_items, 2);
            assert(kept_items(seq![last]) =~= items);
        } else {
            assert forall|i: int| 0 <= i < rest.len() implies clean_item(#[trigger] rest[i]) by {
                assert(rest[i] == items[i]);
            }
            joined_list_reads_back(rest);
            pieces_of_appended(joined(rest), last);
            let raw = pieces(joined(rest), ',');
            assert(raw.push(last).drop_last() =~= raw);
            assert(rest.push(last) =~= items);
        }
    }
}

} // verus!
