//! What holds of the operations on text.
use crate::text::{
    all_digits, ascii_lower, ascii_lowered, blank, decimal_value, equal_ignoring_case, is_digit,
    is_white, joined_lines, occurs_at, occurs_in, parsed_u64, replaced, split_on, strip_back,
    strip_front, trimmed, without_line_breaks, without_outer_slashes, without_plus,
};
use crate::text_map::precedes;
use vstd::prelude::*;
use vstd::string::*;

verus! {

/// The white space of Unicode: the tab and the breaks of lines and pages, the next line, the
/// space and its kin, and the separators of lines and paragraphs.
pub proof fn law_white_space(c: char)
    ensures
        is_white(c) <==> c == '\t' || c == '\n' || c == '\u{b}' || c == '\u{c}' || c == '\r' || c
            == ' ' || c == '\u{85}' || c == '\u{a0}' || c == '\u{1680}' || '\u{2000}' <= c
            <= '\u{200a}' || c == '\u{2028}' || c == '\u{2029}' || c == '\u{202f}' || c
            == '\u{205f}' || c == '\u{3000}',
{
}

/// A text is blank unless it holds a character that is no white space.
pub proof fn law_blank(s: Seq<char>, i: int)
    requires
        0 <= i < s.len(),
    ensures
        blank(Seq::<char>::empty()),
        !is_white(s[i]) ==> !blank(s),
        blank(s) <==> forall|j: int| 0 <= j < s.len() ==> is_white(#[trigger] s[j]),
{
}

proof fn lemma_strip_front(s: Seq<char>, drop: spec_fn(char) -> bool) -> (from: int)
    ensures
        0 <= from <= s.len(),
        strip_front(s, drop) == s.skip(from),
        forall|i: int| 0 <= i < from ==> drop(#[trigger] s[i]),
        from < s.len() ==> !drop(s[from]),
    decreases s.len(),
{
    if s.len() > 0 && drop(s[0]) {
        let rest = s.drop_first();
        let from = lemma_strip_front(rest, drop);
        assert(rest.skip(from) =~= s.skip(from + 1));
        assert forall|i: int| 0 <= i < from + 1 implies drop(#[trigger] s[i]) by {
            if i > 0 {
                assert(drop(rest[i - 1]));
            }
        }
        if from < rest.len() {
            assert(rest[from] == s[from + 1]);
        }
        from + 1
    } else {
        assert(s.skip(0) =~= s);
        0
    }
}

proof fn lemma_strip_back(s: Seq<char>, drop: spec_fn(char) -> bool) -> (to: int)
    ensures
        0 <= to <= s.len(),
        strip_back(s, drop) == s.take(to),
        forall|i: int| to <= i < s.len() ==> drop(#[trigger] s[i]),
        to > 0 ==> !drop(s[to - 1]),
    decreases s.len(),
{
    if s.len() > 0 && drop(s.last()) {
        let rest = s.drop_last();
        let to = lemma_strip_back(rest, drop);
        assert(rest.take(to) =~= s.take(to));
        assert forall|i: int| to <= i < s.len() implies drop(#[trigger] s[i]) by {
            if i < rest.len() {
                assert(drop(rest[i]));
            }
        }
        to
    } else {
        assert(s.take(s.len() as int) =~= s);
        s.len() as int
    }
}

/// A trimmed text is the part of the text from its first to its last character that is no white
/// space; nothing but white space is cut off.
pub proof fn law_trimmed(s: Seq<char>)
    ensures
        exists|from: int, to: int|
            {
                &&& 0 <= from <= to <= s.len()
                &&& trimmed(s) == #[trigger] s.subrange(from, to)
                &&& forall|i: int| 0 <= i < from || to <= i < s.len() ==> is_white(#[trigger] s[i])
                &&& from < to ==> !is_white(s[from]) && !is_white(s[to - 1])
            },
        blank(s) ==> trimmed(s).len() == 0,
{
    let drop = |c: char| is_white(c);
    let from = lemma_strip_front(s, drop);
    let middle = s.skip(from);
    let len = lemma_strip_back(middle, drop);
    let to = from + len;
    assert(middle.take(len) =~= s.subrange(from, to));
    assert forall|i: int| 0 <= i < from || to <= i < s.len() implies is_white(#[trigger] s[i]) by {
        if i < from {
            assert(drop(s[i]));
        } else {
            assert(drop(middle[i - from]));
        }
    }
    if from < to {
        assert(!drop(s[from]));
        assert(!drop(middle[len - 1]));
    }
}

/// A text without its outer slashes is the part from its first to its last character that is no
/// slash; nothing but slashes is cut off.
pub proof fn law_without_outer_slashes(s: Seq<char>)
    ensures
        exists|from: int, to: int|
            {
                &&& 0 <= from <= to <= s.len()
                &&& without_outer_slashes(s) == #[trigger] s.subrange(from, to)
                &&& forall|i: int| 0 <= i < from || to <= i < s.len() ==> #[trigger] s[i] == '/'
                &&& from < to ==> s[from] != '/' && s[to - 1] != '/'
            },
        s.len() > 0 && s[0] != '/' && s.last() != '/' ==> without_outer_slashes(s) == s,
{
    let drop = |c: char| c == '/';
    let from = lemma_strip_front(s, drop);
    let middle = s.skip(from);
    let len = lemma_strip_back(middle, drop);
    let to = from + len;
    assert(middle.take(len) =~= s.subrange(from, to));
    assert forall|i: int| 0 <= i < from || to <= i < s.len() implies #[trigger] s[i] == '/' by {
        if i < from {
            assert(drop(s[i]));
        } else {
            assert(drop(middle[i - from]));
        }
    }
    if from < to {
        assert(!drop(s[from]));
        assert(!drop(middle[len - 1]));
    }
    if s.len() > 0 && s[0] != '/' && s.last() != '/' {
        assert(from == 0) by {
            if from > 0 {
                assert(drop(s[0]));
            }
        }
        assert(to == s.len()) by {
            if to < s.len() {
                assert(s[s.len() - 1] == '/');
            }
        }
        assert(s.subrange(0, s.len() as int) =~= s);
    }
}

/// What surrounds a text in slashes is cut off again, whatever the text holds inside.
pub proof fn law_slashes_around_are_cut_off(
    before: Seq<char>,
    s: Seq<char>,
    behind: Seq<char>,
)
    requires
        forall|i: int| 0 <= i < before.len() ==> #[trigger] before[i] == '/',
        forall|i: int| 0 <= i < behind.len() ==> #[trigger] behind[i] == '/',
        s.len() > 0,
        s[0] != '/',
        s.last() != '/',
    ensures
        without_outer_slashes(before + s + behind) == s,
{
    let all = before + s + behind;
    law_without_outer_slashes(all);
    let (from, to) = choose|from: int, to: int|
        {
            &&& 0 <= from <= to <= all.len()
            &&& without_outer_slashes(all) == #[trigger] all.subrange(from, to)
            &&& forall|i: int| 0 <= i < from || to <= i < all.len() ==> #[trigger] all[i] == '/'
            &&& from < to ==> all[from] != '/' && all[to - 1] != '/'
        };
    let first = before.len() as int;
    let last = before.len() + s.len() - 1;
    assert(all[first] == s[0]);
    assert(all[last] == s.last());
    assert(from <= first && to > last);
    if from < first {
        assert(all[from] == before[from]);
    }
    if to - 1 > last {
        assert(all[to - 1] == behind[to - 1 - last - 1]);
    }
    assert(all.subrange(from, to) =~= s);
}

/// Whether the characters are the same, or the two forms of one ASCII letter.
pub open spec fn same_letter(a: char, b: char) -> bool {
    ||| a == b
    ||| 'A' <= a <= 'Z' && b as u32 == a as u32 + 32
    ||| 'A' <= b <= 'Z' && a as u32 == b as u32 + 32
}

/// Only the capital letters of ASCII have another lower-case form: the letter that stands 32
/// places behind.
pub proof fn law_ascii_lower(c: char)
    ensures
        'A' <= c <= 'Z' ==> ascii_lower(c) as u32 == c as u32 + 32,
        !('A' <= c <= 'Z') ==> ascii_lower(c) == c,
{
}

/// Texts are equal ignoring case where they are of one length and agree letter by letter.
pub proof fn law_equal_ignoring_case(a: Seq<char>, b: Seq<char>)
    ensures
        equal_ignoring_case(a, b) <==> a.len() == b.len() && forall|i: int|
            0 <= i < a.len() ==> same_letter(#[trigger] a[i], b[i]),
{
    let x = ascii_lowered(a);
    let y = ascii_lowered(b);
    if equal_ignoring_case(a, b) {
        assert(x.len() == a.len() && y.len() == b.len());
        assert forall|i: int| 0 <= i < a.len() implies same_letter(#[trigger] a[i], b[i]) by {
            assert(x[i] == ascii_lower(a[i]));
            assert(y[i] == ascii_lower(b[i]));
        }
    }
    if a.len() == b.len() && forall|i: int|
        0 <= i < a.len() ==> same_letter(#[trigger] a[i], b[i]) {
        assert forall|i: int| 0 <= i < a.len() implies x[i] == y[i] by {
            assert(same_letter(a[i], b[i]));
        }
        assert(x =~= y);
    }
}

/// A text occurs in another where the other is made of something, the text and something.
pub proof fn law_occurs_in(before: Seq<char>, part: Seq<char>, behind: Seq<char>, s: Seq<char>)
    ensures
        occurs_in(before + part + behind, part),
        occurs_in(s, part) ==> exists|i: int|
            0 <= i <= s.len() - part.len() && s == #[trigger] s.take(i) + part + s.skip(
                i + part.len(),
            ),
{
    let all = before + part + behind;
    assert(all.subrange(before.len() as int, (before.len() + part.len()) as int) =~= part);
    assert(occurs_at(all, part, before.len() as int));
    if occurs_in(s, part) {
        let i = choose|i: int| occurs_at(s, part, i);
        assert(s =~= s.take(i) + part + s.skip(i + part.len())) by {
            assert forall|j: int| i <= j < i + part.len() implies s[j] == part[j - i] by {
                assert(s.subrange(i, i + part.len())[j - i] == s[j]);
            }
        }
    }
}

/// Whether the text stands nowhere in the other.
pub open spec fn stands_nowhere(s: Seq<char>, part: Seq<char>) -> bool {
    forall|i: int| 0 <= i <= s.len() - part.len() ==> #[trigger] s.subrange(i, i + part.len())
        != part
}

/// A text in which there is nothing to replace stays as it is.
pub proof fn law_nothing_to_replace(s: Seq<char>, from: Seq<char>, to: Seq<char>)
    requires
        from.len() > 0,
        stands_nowhere(s, from),
    ensures
        replaced(s, from, to) == s,
    decreases s.len(),
{
    if s.len() >= from.len() {
        assert(s.subrange(0, 0 + from.len() as int) != from);
        let rest = s.drop_first();
        assert forall|i: int| 0 <= i <= rest.len() - from.len() implies #[trigger] rest.subrange(
            i,
            i + from.len(),
        ) != from by {
            assert(rest.subrange(i, i + from.len()) =~= s.subrange(i + 1, i + 1 + from.len()));
        }
        law_nothing_to_replace(rest, from, to);
        assert(seq![s[0]] + rest =~= s);
    }
}

/// The first occurrence is replaced, what stands before it stays as it is, and what stands behind
/// it is dealt with alike.
pub proof fn law_first_occurrence_is_replaced(
    before: Seq<char>,
    from: Seq<char>,
    behind: Seq<char>,
    to: Seq<char>,
)
    requires
        from.len() > 0,
        forall|i: int|
            0 <= i < before.len() ==> #[trigger] (before + from + behind).subrange(
                i,
                i + from.len(),
            ) != from,
    ensures
        replaced(before + from + behind, from, to) == before + to + replaced(behind, from, to),
    decreases before.len(),
{
    let all = before + from + behind;
    if before.len() == 0 {
        assert(all.subrange(0, 0 + from.len() as int) =~= from);
        assert(all.skip(from.len() as int) =~= behind);
        assert(before + to =~= to);
    } else {
        assert(all.subrange(0, 0 + from.len() as int) != from);
        let rest = before.drop_first();
        let all_rest = rest + from + behind;
        assert(all.drop_first() =~= all_rest);
        assert forall|i: int| 0 <= i < rest.len() implies #[trigger] all_rest.subrange(
            i,
            i + from.len(),
        ) != from by {
            assert(all_rest.subrange(i, i + from.len()) =~= all.subrange(i + 1, i + 1 + from.len()));
        }
        law_first_occurrence_is_replaced(rest, from, behind, to);
        assert(all[0] == before[0]);
        assert(seq![before[0]] + (rest + to + replaced(behind, from, to)) =~= before + to
            + replaced(behind, from, to));
    }
}

/// Line feeds and carriage returns are left out, and nothing else.
pub proof fn law_without_line_breaks(s: Seq<char>, c: char)
    ensures
        without_line_breaks(Seq::<char>::empty()) == Seq::<char>::empty(),
        without_line_breaks(s.push(c)) == if c == '\n' || c == '\r' {
            without_line_breaks(s)
        } else {
            without_line_breaks(s).push(c)
        },
{
    reveal(Seq::filter);
    assert(s.push(c).drop_last() =~= s);
}

/// The parts with the separator between each two of them.
pub open spec fn joined_with(parts: Seq<Seq<char>>, separator: char) -> Seq<char>
    decreases parts.len(),
{
    if parts.len() == 0 {
        Seq::empty()
    } else if parts.len() == 1 {
        parts[0]
    } else {
        joined_with(parts.drop_last(), separator) + seq![separator] + parts.last()
    }
}

/// The parts of a text hold no separator, and with separators between them they are the text.
pub proof fn law_split_on(s: Seq<char>, separator: char)
    ensures
        split_on(s, separator).len() > 0,
        joined_with(split_on(s, separator), separator) == s,
        forall|i: int|
            0 <= i < split_on(s, separator).len() ==> !(#[trigger] split_on(
                s,
                separator,
            )[i]).contains(separator),
    decreases s.len(),
{
    let parts = split_on(s, separator);
    if s.len() > 0 {
        let rest = s.drop_last();
        law_split_on(rest, separator);
        let before = split_on(rest, separator);
        if s.last() == separator {
            assert(parts.drop_last() =~= before);
            assert(joined_with(parts, separator) =~= s);
        } else {
            let last = before.last().push(s.last());
            assert(parts.last() == last);
            assert(parts.drop_last() =~= before.drop_last());
            assert(s =~= rest.push(s.last()));
            if before.len() == 1 {
                assert(parts[0] == last);
            } else {
                let start = joined_with(before.drop_last(), separator) + seq![separator];
                assert(start + last =~= (start + before.last()).push(s.last()));
            }
            assert(joined_with(parts, separator) == s);
            assert forall|i: int| 0 <= i < parts.len() implies !(#[trigger] parts[i]).contains(
                separator,
            ) by {
                if i == parts.len() - 1 {
                    let old_last = before[before.len() - 1];
                    if parts[i].contains(separator) {
                        let j = parts[i].index_of(separator);
                        if j < old_last.len() {
                            assert(old_last[j] == separator);
                            assert(old_last.contains(separator));
                        }
                    }
                } else {
                    assert(parts[i] == before[i]);
                }
            }
        }
    }
}

/// A text without the separator is the only part of itself.
pub proof fn law_nothing_to_split(s: Seq<char>, separator: char)
    requires
        !s.contains(separator),
    ensures
        split_on(s, separator) == seq![s],
    decreases s.len(),
{
    if s.len() > 0 {
        let rest = s.drop_last();
        assert(s.contains(s.last()));
        assert forall|c: char| #[trigger] rest.contains(c) implies s.contains(c) by {
            let i = rest.index_of(c);
            assert(s[i] == c);
        }
        law_nothing_to_split(rest, separator);
        assert(rest.push(s.last()) =~= s);
        assert(seq![rest].update(0, s) =~= seq![s]);
    } else {
        assert(s =~= Seq::empty());
    }
}

/// A separator starts a new part.
pub proof fn law_split_at_a_separator(first: Seq<char>, behind: Seq<char>, separator: char)
    requires
        !first.contains(separator),
    ensures
        split_on(first + seq![separator] + behind, separator) == seq![first] + split_on(
            behind,
            separator,
        ),
    decreases behind.len(),
{
    let all = first + seq![separator] + behind;
    if behind.len() == 0 {
        law_nothing_to_split(first, separator);
        assert(all.drop_last() =~= first);
        assert(all.last() == separator);
        assert(behind =~= Seq::empty());
        assert(split_on(all, separator) == seq![first].push(Seq::empty()));
        assert(seq![first].push(Seq::empty()) =~= seq![first] + seq![Seq::<char>::empty()]);
    } else {
        let rest = behind.drop_last();
        law_split_at_a_separator(first, rest, separator);
        assert(all.drop_last() =~= first + seq![separator] + rest);
        assert(all.last() == behind.last());
        law_split_on(rest, separator);
        let parts = split_on(rest, separator);
        let both = seq![first] + parts;
        assert(split_on(all.drop_last(), separator) == both);
        assert(both.last() == parts.last());
        if behind.last() == separator {
            assert(split_on(all, separator) == both.push(Seq::empty()));
            assert(split_on(behind, separator) == parts.push(Seq::empty()));
            assert(both.push(Seq::empty()) =~= seq![first] + parts.push(Seq::empty()));
        } else {
            let last = parts.last().push(behind.last());
            assert(split_on(all, separator) == both.update(both.len() - 1, last));
            assert(split_on(behind, separator) == parts.update(parts.len() - 1, last));
            assert(both.update(both.len() - 1, last) =~= seq![first] + parts.update(
                parts.len() - 1,
                last,
            ));
        }
    }
}

/// Lines are joined by a line feed between each two of them.
pub proof fn law_joined_lines(lines: Seq<Seq<char>>, last: Seq<char>)
    ensures
        joined_lines(Seq::<Seq<char>>::empty()) == Seq::<char>::empty(),
        joined_lines(seq![last]) == last,
        lines.len() > 0 ==> joined_lines(lines.push(last)) == joined_lines(lines) + seq!['\n']
            + last,
{
    if lines.len() > 0 {
        assert(lines.push(last).drop_last() =~= lines);
        assert(joined_lines(lines).push('\n') =~= joined_lines(lines) + seq!['\n']);
    }
}

/// A number is written in decimal digits, of which the last one counts once, the one before it
/// ten times, and so on.
pub proof fn law_decimal_value(digits: Seq<char>, last: char)
    requires
        '0' <= last <= '9',
    ensures
        decimal_value(Seq::<char>::empty()) == 0,
        decimal_value(digits.push(last)) == 10 * decimal_value(digits) + (last as u32 - 48),
{
    assert(digits.push(last).drop_last() =~= digits);
}

/// A text of decimal digits reads as its number, and so it does behind a plus sign, where the
/// number fits in 64 bits. No other text reads as a number.
pub proof fn law_parsed_u64(s: Seq<char>)
    ensures
        s.len() > 0 && (forall|i: int| 0 <= i < s.len() ==> '0' <= #[trigger] s[i] <= '9')
            && decimal_value(s) <= 0xffff_ffff_ffff_ffff ==> {
            &&& parsed_u64(s) matches Some(n) && n == decimal_value(s)
            &&& parsed_u64(seq!['+'] + s) == parsed_u64(s)
        },
        s.len() == 0 ==> parsed_u64(s) is None,
        (exists|i: int| 0 <= i < s.len() && !('0' <= #[trigger] s[i] <= '9') && (i > 0 || s[i]
            != '+' || s.len() == 1)) ==> parsed_u64(s) is None,
        parsed_u64(s) matches Some(n) ==> n == decimal_value(
            if s[0] == '+' {
                s.skip(1)
            } else {
                s
            },
        ),
{
    if s.len() > 0 && forall|i: int| 0 <= i < s.len() ==> '0' <= #[trigger] s[i] <= '9' {
        assert(s[0] != '+');
        assert((seq!['+'] + s).drop_first() =~= s);
        assert(all_digits(s));
    }
    if exists|i: int|
        0 <= i < s.len() && !('0' <= #[trigger] s[i] <= '9') && (i > 0 || s[i] != '+' || s.len()
            == 1) {
        let i = choose|i: int|
            0 <= i < s.len() && !('0' <= #[trigger] s[i] <= '9') && (i > 0 || s[i] != '+'
                || s.len() == 1);
        let digits = without_plus(s);
        if s[0] == '+' {
            if i > 0 {
                assert(digits[i - 1] == s[i]);
                assert(!is_digit(digits[i - 1]));
            }
        } else {
            assert(!is_digit(digits[i]));
        }
    }
    assert(s.len() > 0 ==> s.skip(1) =~= s.drop_first());
}

/// Texts are in order by the first character in which they differ, and the beginning of a text
/// comes before it.
pub proof fn law_order_of_texts(common: Seq<char>, a: Seq<char>, b: Seq<char>)
    ensures
        b.len() > 0 ==> precedes(common, common + b),
        a.len() > 0 && b.len() > 0 && a[0] < b[0] ==> precedes(common + a, common + b)
            && !precedes(common + b, common + a),
        !precedes(common + a, common),
    decreases common.len(),
{
    if common.len() > 0 {
        let rest = common.skip(1);
        law_order_of_texts(rest, a, b);
        assert((common + b).skip(1) =~= rest + b);
        assert((common + a).skip(1) =~= rest + a);
    } else {
        assert(common + a =~= a);
        assert(common + b =~= b);
    }
}

} // verus!
