//! What holds of text: searching, trimming, substitution, lists and numbers.

use crate::text::{
    blank, contains_text, decimal, digits, ends_with_text, kept_items, list_items, occurs_at, pieces,
    replaced, trimmed, trimmed_end, trimmed_start, white_space,
};
use vstd::prelude::*;

verus! {

/// `s` is `part` with something before and something after it.
pub open spec fn surrounds(
    before: Seq<char>,
    part: Seq<char>,
    after: Seq<char>,
    s: Seq<char>,
) -> bool {
    s == before + part + after
}

/// A text contains exactly the parts that stand between a beginning and an end of it.
pub proof fn contained_parts_stand_in_between(s: Seq<char>, part: Seq<char>)
    ensures
        contains_text(s, part) <==> exists|before: Seq<char>, after: Seq<char>|
            surrounds(before, part, after, s),
{
    if contains_text(s, part) {
        let at = choose|at: int| occurs_at(s, part, at);
        assert(s =~= s.take(at) + part + s.skip(at + part.len())) by {
            assert forall|i: int| 0 <= i < part.len() implies s[at + i] == part[i] by {
                assert(s.subrange(at, at + part.len())[i] == s[at + i]);
            }
        }
        assert(surrounds(s.take(at), part, s.skip(at + part.len()), s));
    }
    if exists|before: Seq<char>, after: Seq<char>| surrounds(before, part, after, s) {
        let (before, after) = choose|before: Seq<char>, after: Seq<char>|
            surrounds(before, part, after, s);
        let at = before.len() as int;
        assert(s.subrange(at, at + part.len()) =~= part);
        assert(occurs_at(s, part, at));
    }
}

/// A text ends in exactly the parts that something before them completes to the text.
pub proof fn last_parts_are_completed(s: Seq<char>, part: Seq<char>)
    ensures
        ends_with_text(s, part) <==> exists|before: Seq<char>| s == #[trigger] (before + part),
{
    if ends_with_text(s, part) {
        let at = s.len() - part.len();
        assert(s =~= s.take(at) + part) by {
            assert forall|i: int| 0 <= i < part.len() implies s[at + i] == part[i] by {
                assert(s.subrange(at, at + part.len())[i] == s[at + i]);
            }
        }
    }
    if exists|before: Seq<char>| s == #[trigger] (before + part) {
        let before = choose|before: Seq<char>| s == #[trigger] (before + part);
        assert(s.subrange(before.len() as int, s.len() as int) =~= part);
    }
}

/// A run of one character.
pub open spec fn run_of(c: char, n: int) -> Seq<char> {
    Seq::new(n as nat, |i: int| c)
}

/// To trim a character at the end takes off a run of it, and leaves none there.
pub proof fn trimming_end_takes_a_run(s: Seq<char>, c: char)
    ensures
        trimmed_end(s, c).len() <= s.len(),
        s == trimmed_end(s, c) + run_of(c, s.len() - trimmed_end(s, c).len()),
        trimmed_end(s, c).len() > 0 ==> trimmed_end(s, c).last() != c,
    decreases s.len(),
{
    if s.len() > 0 && s.last() == c {
        trimming_end_takes_a_run(s.drop_last(), c);
        let kept = trimmed_end(s, c);
        assert(s =~= s.drop_last().push(c));
        assert(s =~= kept + run_of(c, s.len() - kept.len()));
    } else {
        assert(s =~= s + run_of(c, 0));
    }
}

/// To trim a character at the start takes off a run of it, and leaves none there.
pub proof fn trimming_start_takes_a_run(s: Seq<char>, c: char)
    ensures
        trimmed_start(s, c).len() <= s.len(),
        s == run_of(c, s.len() - trimmed_start(s, c).len()) + trimmed_start(s, c),
        trimmed_start(s, c).len() > 0 ==> trimmed_start(s, c).first() != c,
    decreases s.len(),
{
    if s.len() > 0 && s.first() == c {
        trimming_start_takes_a_run(s.drop_first(), c);
        let kept = trimmed_start(s, c);
        assert(s =~= seq![c] + s.drop_first());
        assert(s =~= run_of(c, s.len() - kept.len()) + kept);
    } else {
        assert(s =~= run_of(c, 0) + s);
    }
}

/// `kept` is `s` without white space at its ends, from position `from` on.
pub open spec fn trimmed_at(s: Seq<char>, kept: Seq<char>, from: int) -> bool {
    &&& 0 <= from
    &&& from + kept.len() <= s.len()
    &&& kept == s.subrange(from, from + kept.len())
    &&& forall|i: int| 0 <= i < from ==> white_space(#[trigger] s[i])
    &&& forall|i: int| from + kept.len() <= i < s.len() ==> white_space(#[trigger] s[i])
}

/// To trim white space takes nothing but white space off both ends, and leaves none there.
pub proof fn trimming_takes_white_space(s: Seq<char>)
    ensures
        exists|from: int| trimmed_at(s, trimmed(s), from),
        trimmed(s).len() > 0 ==> !white_space(trimmed(s).first()) && !white_space(
            trimmed(s).last(),
        ),
    decreases s.len(),
{
    let kept = trimmed(s);
    if s.len() > 0 && white_space(s.last()) {
        let rest = s.drop_last();
        trimming_takes_white_space(rest);
        let from = choose|from: int| trimmed_at(rest, trimmed(rest), from);
        assert(kept =~= s.subrange(from, from + kept.len()));
        assert forall|i: int| 0 <= i < from implies white_space(#[trigger] s[i]) by {
            assert(rest[i] == s[i]);
        }
        assert forall|i: int| from + kept.len() <= i < s.len() implies white_space(
            #[trigger] s[i],
        ) by {
            if i < rest.len() {
                assert(rest[i] == s[i]);
            }
        }
        assert(trimmed_at(s, kept, from));
    } else if s.len() > 0 && white_space(s.first()) {
        let rest = s.drop_first();
        trimming_takes_white_space(rest);
        let from = choose|from: int| trimmed_at(rest, trimmed(rest), from);
        assert(kept =~= s.subrange(from + 1, from + 1 + kept.len()));
        assert forall|i: int| 0 <= i < from + 1 implies white_space(#[trigger] s[i]) by {
            if i > 0 {
                assert(rest[i - 1] == s[i]);
            }
        }
        assert forall|i: int| from + 1 + kept.len() <= i < s.len() implies white_space(
            #[trigger] s[i],
        ) by {
            assert(rest[i - 1] == s[i]);
        }
        assert(trimmed_at(s, kept, from + 1));
    } else {
        assert(s =~= s.subrange(0, s.len() as int));
        assert(trimmed_at(s, kept, 0));
    }
}

/// Text without the pattern is left alone.
pub proof fn replacing_nothing(s: Seq<char>, pattern: Seq<char>, with: Seq<char>)
    requires
        pattern.len() > 0,
        forall|at: int| !occurs_at(s, pattern, at),
    ensures
        replaced(s, pattern, with) == s,
    decreases s.len(),
{
    if s.len() > 0 {
        let rest = s.drop_first();
        assert(!occurs_at(s, pattern, 0));
        assert forall|at: int| !occurs_at(rest, pattern, at) by {
            if occurs_at(rest, pattern, at) {
                assert(s.subrange(at + 1, at + 1 + pattern.len()) =~= rest.subrange(
                    at,
                    at + pattern.len(),
                ));
                assert(occurs_at(s, pattern, at + 1));
            }
        }
        replacing_nothing(rest, pattern, with);
        assert(seq![s.first()] + rest =~= s);
    }
}

/// The first occurrence of the pattern gives way to what replaces it, and what follows is
/// replaced in the same way.
pub proof fn replacing_the_first(
    before: Seq<char>,
    pattern: Seq<char>,
    after: Seq<char>,
    with: Seq<char>,
)
    requires
        pattern.len() > 0,
        forall|at: int|
            0 <= at < before.len() ==> !occurs_at(before + pattern + after, pattern, at),
    ensures
        replaced(before + pattern + after, pattern, with) == before + with + replaced(
            after,
            pattern,
            with,
        ),
    decreases before.len(),
{
    let s = before + pattern + after;
    if before.len() == 0 {
        assert(s.subrange(0, pattern.len() as int) =~= pattern);
        assert(s.skip(pattern.len() as int) =~= after);
        assert(before + with =~= with);
    } else {
        let shorter = before.drop_first();
        let rest = shorter + pattern + after;
        assert(s.drop_first() =~= rest);
        assert forall|at: int| 0 <= at < shorter.len() implies !occurs_at(rest, pattern, at) by {
            if occurs_at(rest, pattern, at) {
                assert(s.subrange(at + 1, at + 1 + pattern.len()) =~= rest.subrange(
                    at,
                    at + pattern.len(),
                ));
                assert(occurs_at(s, pattern, at + 1));
            }
        }
        replacing_the_first(shorter, pattern, after, with);
        assert(!occurs_at(s, pattern, 0));
        assert(s.first() == before.first());
        assert(seq![before.first()] + (shorter + with + replaced(after, pattern, with)) =~= before
            + with + replaced(after, pattern, with));
    }
}

/// The pieces of two texts with a separator between them are the pieces of both.
proof fn pieces_of_both(a: Seq<char>, b: Seq<char>)
    ensures
        pieces(a + seq![','] + b, ',') == pieces(a, ',') + pieces(b, ','),
        pieces(b, ',').len() > 0,
    decreases b.len(),
{
    let whole = a + seq![','] + b;
    if b.len() == 0 {
        assert(whole.drop_last() =~= a);
        assert(b =~= Seq::<char>::empty());
        assert(pieces(a, ',').push(Seq::empty()) =~= pieces(a, ',') + pieces(b, ','));
    } else {
        let rest = b.drop_last();
        pieces_of_both(a, rest);
        assert(whole.drop_last() =~= a + seq![','] + rest);
        let left = pieces(a, ',');
        let right = pieces(rest, ',');
        let both = left + right;
        if b.last() == ',' {
            assert(both.push(Seq::empty()) =~= left + right.push(Seq::empty()));
        } else {
            assert(both.last() == right.last());
            assert(both.update(both.len() - 1, both.last().push(b.last())) =~= left
                + right.update(right.len() - 1, right.last().push(b.last())));
        }
    }
}

/// What is kept of two lists of pieces is what is kept of both.
proof fn kept_of_both(a: Seq<Seq<char>>, b: Seq<Seq<char>>)
    ensures
        kept_items(a + b) == kept_items(a) + kept_items(b),
    decreases b.len(),
{
    if b.len() == 0 {
        assert(a + b =~= a);
        assert(kept_items(a) + kept_items(b) =~= kept_items(a));
    } else {
        assert((a + b).drop_last() =~= a + b.drop_last());
        assert((a + b).last() == b.last());
        kept_of_both(a, b.drop_last());
        assert(kept_items(a + b) =~= kept_items(a) + kept_items(b));
    }
}

/// The items before a comma and the items after it are all the items.
pub proof fn comma_separates_items(a: Seq<char>, b: Seq<char>)
    ensures
        list_items(a + seq![','] + b) == list_items(a) + list_items(b),
{
    pieces_of_both(a, b);
    kept_of_both(pieces(a, ','), pieces(b, ','));
}

/// Text without a comma is one item, without the white space at its ends; blank text is none.
pub proof fn text_without_comma_is_one_item(s: Seq<char>)
    requires
        !s.contains(','),
    ensures
        list_items(s) == if forall|i: int| 0 <= i < s.len() ==> white_space(#[trigger] s[i]) {
            Seq::<Seq<char>>::empty()
        } else {
            seq![trimmed(s)]
        },
{
    crate::text::blank_is_trimmed_away(s);
    one_piece_of(s);
    reveal_with_fuel(kept_items, 2);
    assert(seq![s].drop_last() =~= Seq::<Seq<char>>::empty());
    assert(blank(s) <==> forall|i: int| 0 <= i < s.len() ==> white_space(#[trigger] s[i]));
    assert(Seq::<Seq<char>>::empty().push(trimmed(s)) =~= seq![trimmed(s)]);
}

proof fn one_piece_of(s: Seq<char>)
    requires
        !s.contains(','),
    ensures
        pieces(s, ',') == seq![s],
    decreases s.len(),
{
    if s.len() > 0 {
        let rest = s.drop_last();
        assert(!rest.contains(',')) by {
            if rest.contains(',') {
                let i = choose|i: int| 0 <= i < rest.len() && rest[i] == ',';
                assert(s[i] == ',');
            }
        }
        one_piece_of(rest);
        assert(s[s.len() - 1] == s.last());
        assert(rest.push(s.last()) =~= s);
        assert(seq![rest].update(0, s) =~= seq![s]);
    }
}

/// The number that decimal digits stand for.
pub open spec fn value(s: Seq<char>) -> int
    decreases s.len(),
{
    if s.len() == 0 {
        0
    } else {
        value(s.drop_last()) * 10 + (s.last() as int - '0' as int)
    }
}

/// The digits of a number stand for it, one place each, without leading zeros.
proof fn digits_stand_for_number(n: nat)
    ensures
        value(digits(n)) == n,
        digits(n).len() > 0,
        forall|i: int| 0 <= i < digits(n).len() ==> '0' <= #[trigger] digits(n)[i] <= '9',
        digits(n).len() > 1 ==> digits(n).first() != '0',
        n > 0 ==> digits(n).first() != '0',
    decreases n,
{
    if n < 10 {
        reveal_with_fuel(value, 2);
    } else {
        digits_stand_for_number(n / 10);
        let last = crate::text::digit((n % 10) as int);
        assert(digits(n).drop_last() =~= digits(n / 10));
        assert(digits(n).last() == last);
        assert(last as int - '0' as int == n % 10);
        assert(digits(n).first() == digits(n / 10).first());
    }
}

/// Decimal notation stands for the number: digits of its amount without leading zeros, after a
/// minus sign where it is negative.
pub proof fn decimal_stands_for_number(n: int)
    ensures
        n >= 0 ==> value(decimal(n)) == n,
        n < 0 ==> decimal(n).first() == '-' && value(decimal(n).drop_first()) == -n,
        ({
            let amount = if n < 0 {
                decimal(n).drop_first()
            } else {
                decimal(n)
            };
            &&& amount.len() > 0
            &&& forall|i: int| 0 <= i < amount.len() ==> '0' <= #[trigger] amount[i] <= '9'
            &&& amount.len() > 1 ==> amount.first() != '0'
        }),
{
    if n < 0 {
        digits_stand_for_number((-n) as nat);
        assert(decimal(n).drop_first() =~= digits((-n) as nat));
    } else {
        digits_stand_for_number(n as nat);
    }
}

/// White space is these characters, by their code points, and no others.
pub proof fn white_space_is_these_characters(c: char)
    ensures
        white_space(c) <==> seq![
            0x9, 0xa, 0xb, 0xc, 0xd, 0x20, 0x85, 0xa0,
            0x1680, 0x2000, 0x2001, 0x2002, 0x2003, 0x2004, 0x2005, 0x2006,
            0x2007, 0x2008, 0x2009, 0x200a, 0x2028, 0x2029, 0x202f, 0x205f,
            0x3000,
        ].contains(c as int),
{
    let codes: Seq<int> = seq![
        0x9, 0xa, 0xb, 0xc, 0xd, 0x20, 0x85, 0xa0,
        0x1680, 0x2000, 0x2001, 0x2002, 0x2003, 0x2004, 0x2005, 0x2006,
        0x2007, 0x2008, 0x2009, 0x200a, 0x2028, 0x2029, 0x202f, 0x205f,
        0x3000,
    ];
    let code: int = c as int;
    if white_space(c) {
        let i: int = if code <= 0xd {
            code - 9
        } else if code == 0x20 {
            5
        } else if code == 0x85 {
            6
        } else if code == 0xa0 {
            7
        } else if code == 0x1680 {
            8
        } else if code <= 0x200a {
            9 + (code - 0x2000)
        } else if code == 0x2028 {
            20
        } else if code == 0x2029 {
            21
        } else if code == 0x202f {
            22
        } else if code == 0x205f {
            23
        } else {
            24
        };
        assert(codes[i] == code);
    }
}

} // verus!
