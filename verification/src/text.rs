//! Text operations on `str`, stated over sequences of characters.
use vstd::prelude::*;
use vstd::string::*;

verus! {

/// `String::push` appends one character to the end of the string.
pub assume_specification[ String::push ](s: &mut String, c: char)
    ensures
        final(s)@ == old(s)@.push(c),
;

/// Whether `c` has the Unicode property `White_Space`.
pub open spec fn is_white(c: char) -> bool {
    let n = c as u32;
    ||| 0x09 <= n <= 0x0d
    ||| n == 0x20
    ||| n == 0x85
    ||| n == 0xa0
    ||| n == 0x1680
    ||| 0x2000 <= n <= 0x200a
    ||| n == 0x2028
    ||| n == 0x2029
    ||| n == 0x202f
    ||| n == 0x205f
    ||| n == 0x3000
}

/// Whether `s` holds nothing but white space.
pub open spec fn blank(s: Seq<char>) -> bool {
    forall|i: int| 0 <= i < s.len() ==> is_white(#[trigger] s[i])
}

/// `s` without the longest prefix whose characters all satisfy `drop`.
pub open spec fn strip_front(s: Seq<char>, drop: spec_fn(char) -> bool) -> Seq<char>
    decreases s.len(),
{
    if s.len() > 0 && drop(s[0]) {
        strip_front(s.drop_first(), drop)
    } else {
        s
    }
}

/// `s` without the longest suffix whose characters all satisfy `drop`.
pub open spec fn strip_back(s: Seq<char>, drop: spec_fn(char) -> bool) -> Seq<char>
    decreases s.len(),
{
    if s.len() > 0 && drop(s.last()) {
        strip_back(s.drop_last(), drop)
    } else {
        s
    }
}

/// `s` without leading and trailing white space.
pub open spec fn trimmed(s: Seq<char>) -> Seq<char> {
    strip_back(strip_front(s, |c: char| is_white(c)), |c: char| is_white(c))
}

/// `s` without leading and trailing slashes.
pub open spec fn without_outer_slashes(s: Seq<char>) -> Seq<char> {
    strip_back(strip_front(s, |c: char| c == '/'), |c: char| c == '/')
}

/// The lower-case form of an ASCII letter; any other character as it is.
pub open spec fn ascii_lower(c: char) -> char {
    if 'A' <= c <= 'Z' {
        (c as u32 + 32) as char
    } else {
        c
    }
}

/// `s` with its ASCII letters in lower case.
pub open spec fn ascii_lowered(s: Seq<char>) -> Seq<char> {
    s.map_values(|c: char| ascii_lower(c))
}

/// Whether `a` and `b` differ at most in the case of ASCII letters.
pub open spec fn equal_ignoring_case(a: Seq<char>, b: Seq<char>) -> bool {
    ascii_lowered(a) == ascii_lowered(b)
}

/// Whether `part` stands in `s` at position `i`.
pub open spec fn occurs_at(s: Seq<char>, part: Seq<char>, i: int) -> bool {
    0 <= i && i + part.len() <= s.len() && s.subrange(i, i + part.len()) == part
}

/// Whether `part` stands somewhere in `s`.
pub open spec fn occurs_in(s: Seq<char>, part: Seq<char>) -> bool {
    exists|i: int| occurs_at(s, part, i)
}

/// `s` with each occurrence of `from`, taken from the left and without overlap, replaced by `to`.
pub open spec fn replaced(s: Seq<char>, from: Seq<char>, to: Seq<char>) -> Seq<char>
    recommends
        from.len() > 0,
    decreases s.len(),
{
    if from.len() == 0 || s.len() < from.len() {
        s
    } else if occurs_at(s, from, 0) {
        to + replaced(s.skip(from.len() as int), from, to)
    } else {
        seq![s[0]] + replaced(s.drop_first(), from, to)
    }
}

/// `s` without its line feeds and carriage returns.
pub open spec fn without_line_breaks(s: Seq<char>) -> Seq<char> {
    s.filter(|c: char| c != '\n' && c != '\r')
}

/// The parts of `s` between the separators: one more than there are separators.
pub open spec fn split_on(s: Seq<char>, separator: char) -> Seq<Seq<char>>
    decreases s.len(),
{
    if s.len() == 0 {
        seq![Seq::empty()]
    } else {
        let before = split_on(s.drop_last(), separator);
        if s.last() == separator {
            before.push(Seq::empty())
        } else {
            before.update(before.len() - 1, before.last().push(s.last()))
        }
    }
}

/// The lines, one after the other, with a line feed between two of them.
pub open spec fn joined_lines(lines: Seq<Seq<char>>) -> Seq<char>
    decreases lines.len(),
{
    if lines.len() == 0 {
        Seq::empty()
    } else if lines.len() == 1 {
        lines[0]
    } else {
        joined_lines(lines.drop_last()).push('\n') + lines.last()
    }
}

/// The views of the strings in `strings`.
pub open spec fn views(strings: Seq<String>) -> Seq<Seq<char>> {
    strings.map_values(|s: String| s@)
}

/// The view of the string in `s`, if there is one.
pub open spec fn opt_view(s: Option<String>) -> Option<Seq<char>> {
    match s {
        Some(t) => Some(t@),
        None => None,
    }
}

/// The outcome `r`, seen through the views of its values.
pub open spec fn text_result(r: Result<String, String>) -> Result<Seq<char>, Seq<char>> {
    match r {
        Ok(text) => Ok(text@),
        Err(message) => Err(message@),
    }
}

/// Whether `c` is one of the ten decimal digits.
pub open spec fn is_digit(c: char) -> bool {
    '0' <= c <= '9'
}

/// The number that a sequence of decimal digits denotes.
pub open spec fn decimal_value(s: Seq<char>) -> nat
    decreases s.len(),
{
    if s.len() == 0 {
        0
    } else {
        decimal_value(s.drop_last()) * 10 + (s.last() as u32 - '0' as u32) as nat
    }
}

/// `s` without the plus sign that it starts with, if it does.
pub open spec fn without_plus(s: Seq<char>) -> Seq<char> {
    if s.len() > 0 && s[0] == '+' {
        s.drop_first()
    } else {
        s
    }
}

/// Whether `s` holds nothing but decimal digits.
pub open spec fn all_digits(s: Seq<char>) -> bool {
    forall|i: int| 0 <= i < s.len() ==> is_digit(#[trigger] s[i])
}

/// The number that `s` denotes: decimal digits, which a plus sign may precede, if it fits in 64
/// bits.
pub open spec fn parsed_u64(s: Seq<char>) -> Option<u64> {
    let digits = without_plus(s);
    if digits.len() > 0 && all_digits(digits) && decimal_value(digits) <= u64::MAX {
        Some(decimal_value(digits) as u64)
    } else {
        None
    }
}

/// The characters of `s`.
pub fn chars_of(s: &str) -> (r: Vec<char>)
    ensures
        r@ == s@,
{
    let mut out: Vec<char> = Vec::new();
    for c in it: s.chars()
        invariant
            it.seq() == s@,
            out@ == s@.take(it.index() as int),
    {
        proof {
            assert(s@.take(it.index() as int).push(c) =~= s@.take(it.index() + 1));
        }
        out.push(c);
    }
    assert(s@.take(s@.len() as int) =~= s@);
    out
}

/// The string of the characters from `from` up to `to`.
pub fn string_of(chars: &Vec<char>, from: usize, to: usize) -> (r: String)
    requires
        from <= to <= chars.len(),
    ensures
        r@ == chars@.subrange(from as int, to as int),
{
    let mut out = String::new();
    let mut i: usize = from;
    while i < to
        invariant
            from <= i <= to <= chars.len(),
            out@ == chars@.subrange(from as int, i as int),
        decreases to - i,
    {
        proof {
            assert(chars@.subrange(from as int, i as int).push(chars@[i as int])
                =~= chars@.subrange(from as int, i + 1));
        }
        out.push(chars[i]);
        i += 1;
    }
    out
}

/// Whether the two texts are the same.
pub fn same_text(a: &str, b: &str) -> (r: bool)
    ensures
        r == (a@ == b@),
{
    let left = chars_of(a);
    let right = chars_of(b);
    if left.len() != right.len() {
        return false;
    }
    let mut i: usize = 0;
    while i < left.len()
        invariant
            left@ == a@,
            right@ == b@,
            left.len() == right.len(),
            i <= left.len(),
            forall|j: int| 0 <= j < i ==> left@[j] == right@[j],
        decreases left.len() - i,
    {
        if left[i] != right[i] {
            return false;
        }
        i += 1;
    }
    assert(a@ =~= b@);
    true
}

/// Whether `c` is white space.
pub fn is_white_space(c: char) -> (r: bool)
    ensures
        r == is_white(c),
{
    let n: u32 = c as u32;
    (n >= 0x09 && n <= 0x0d) || n == 0x20 || n == 0x85 || n == 0xa0 || n == 0x1680 || (n >= 0x2000
        && n <= 0x200a) || n == 0x2028 || n == 0x2029 || n == 0x202f || n == 0x205f || n == 0x3000
}

/// Whether `s` holds nothing but white space: whether trimming it leaves nothing.
pub fn is_blank(s: &str) -> (r: bool)
    ensures
        r == blank(s@),
{
    let chars = chars_of(s);
    let mut i: usize = 0;
    while i < chars.len()
        invariant
            chars@ == s@,
            i <= chars.len(),
            forall|j: int| 0 <= j < i ==> is_white(#[trigger] s@[j]),
        decreases chars.len() - i,
    {
        if !is_white_space(chars[i]) {
            assert(!is_white(s@[i as int]));
            return false;
        }
        i += 1;
    }
    true
}

proof fn lemma_strip_front_step(s: Seq<char>, drop: spec_fn(char) -> bool, i: int)
    requires
        0 <= i < s.len(),
        drop(s[i]),
    ensures
        strip_front(s.skip(i), drop) == strip_front(s.skip(i + 1), drop),
{
    assert(s.skip(i).drop_first() =~= s.skip(i + 1));
}

proof fn lemma_strip_back_step(s: Seq<char>, drop: spec_fn(char) -> bool, j: int)
    requires
        0 < j <= s.len(),
        drop(s[j - 1]),
    ensures
        strip_back(s.take(j), drop) == strip_back(s.take(j - 1), drop),
{
    assert(s.take(j).drop_last() =~= s.take(j - 1));
}

/// `s` without leading and trailing white space.
pub fn trim(s: &str) -> (r: String)
    ensures
        r@ == trimmed(s@),
{
    let ghost drop = |c: char| is_white(c);
    let chars = chars_of(s);
    let mut from: usize = 0;
    assert(s@.skip(0) =~= s@);
    while from < chars.len() && is_white_space(chars[from])
        invariant
            chars@ == s@,
            drop == (|c: char| is_white(c)),
            from <= chars.len(),
            strip_front(s@, drop) == strip_front(s@.skip(from as int), drop),
        decreases chars.len() - from,
    {
        proof {
            lemma_strip_front_step(s@, drop, from as int);
        }
        from += 1;
    }
    let ghost rest = s@.skip(from as int);
    assert(strip_front(s@, drop) == rest);
    let mut to: usize = chars.len();
    assert(rest.take(rest.len() as int) =~= rest);
    while to > from && is_white_space(chars[to - 1])
        invariant
            chars@ == s@,
            drop == (|c: char| is_white(c)),
            from <= to <= chars.len(),
            rest == s@.skip(from as int),
            strip_back(rest, drop) == strip_back(rest.take(to - from), drop),
        decreases to - from,
    {
        proof {
            lemma_strip_back_step(rest, drop, to - from);
        }
        to -= 1;
    }
    assert(rest.take(to - from) =~= s@.subrange(from as int, to as int));
    string_of(&chars, from, to)
}

/// `s` without leading and trailing slashes.
pub fn trim_slashes(s: &str) -> (r: String)
    ensures
        r@ == without_outer_slashes(s@),
{
    let ghost drop = |c: char| c == '/';
    let chars = chars_of(s);
    let mut from: usize = 0;
    assert(s@.skip(0) =~= s@);
    while from < chars.len() && chars[from] == '/'
        invariant
            chars@ == s@,
            drop == (|c: char| c == '/'),
            from <= chars.len(),
            strip_front(s@, drop) == strip_front(s@.skip(from as int), drop),
        decreases chars.len() - from,
    {
        proof {
            lemma_strip_front_step(s@, drop, from as int);
        }
        from += 1;
    }
    let ghost rest = s@.skip(from as int);
    assert(strip_front(s@, drop) == rest);
    let mut to: usize = chars.len();
    assert(rest.take(rest.len() as int) =~= rest);
    while to > from && chars[to - 1] == '/'
        invariant
            chars@ == s@,
            drop == (|c: char| c == '/'),
            from <= to <= chars.len(),
            rest == s@.skip(from as int),
            strip_back(rest, drop) == strip_back(rest.take(to - from), drop),
        decreases to - from,
    {
        proof {
            lemma_strip_back_step(rest, drop, to - from);
        }
        to -= 1;
    }
    assert(rest.take(to - from) =~= s@.subrange(from as int, to as int));
    string_of(&chars, from, to)
}

/// The lower-case form of `c` if it is an ASCII letter, else `c`.
pub fn to_ascii_lower(c: char) -> (r: char)
    ensures
        r == ascii_lower(c),
{
    if c >= 'A' && c <= 'Z' {
        let n: u8 = c as u8;
        (n + 32) as char
    } else {
        c
    }
}

/// `s` with its ASCII letters in lower case.
pub fn to_ascii_lowercase(s: &str) -> (r: String)
    ensures
        r@ == ascii_lowered(s@),
{
    let chars = chars_of(s);
    let mut out = String::new();
    let mut i: usize = 0;
    while i < chars.len()
        invariant
            chars@ == s@,
            i <= chars.len(),
            out@ == ascii_lowered(s@.take(i as int)),
        decreases chars.len() - i,
    {
        proof {
            assert(ascii_lowered(s@.take(i + 1)) =~= ascii_lowered(s@.take(i as int)).push(
                ascii_lower(s@[i as int]),
            ));
        }
        out.push(to_ascii_lower(chars[i]));
        i += 1;
    }
    assert(s@.take(s@.len() as int) =~= s@);
    out
}

/// Whether the two texts differ at most in the case of ASCII letters.
pub fn eq_ignore_ascii_case(a: &str, b: &str) -> (r: bool)
    ensures
        r == equal_ignoring_case(a@, b@),
{
    let left = to_ascii_lowercase(a);
    let right = to_ascii_lowercase(b);
    left == right
}

/// Whether `part` stands in `chars` at position `at`.
fn matches_at(chars: &Vec<char>, part: &Vec<char>, at: usize) -> (r: bool)
    requires
        at <= chars.len(),
    ensures
        r == occurs_at(chars@, part@, at as int),
{
    if part.len() > chars.len() - at {
        return false;
    }
    let mut i: usize = 0;
    while i < part.len()
        invariant
            at + part.len() <= chars.len(),
            i <= part.len(),
            forall|j: int| 0 <= j < i ==> chars@[at + j] == part@[j],
        decreases part.len() - i,
    {
        if chars[at + i] != part[i] {
            assert(chars@.subrange(at as int, at + part.len())[i as int] != part@[i as int]);
            return false;
        }
        i += 1;
    }
    assert(chars@.subrange(at as int, at + part.len()) =~= part@);
    true
}

/// Whether `part` stands somewhere in `s`.
pub fn contains_text(s: &str, part: &str) -> (r: bool)
    ensures
        r == occurs_in(s@, part@),
{
    let chars = chars_of(s);
    let sought = chars_of(part);
    let mut i: usize = 0;
    while i < chars.len()
        invariant
            chars@ == s@,
            sought@ == part@,
            i <= chars.len(),
            forall|j: int| 0 <= j < i ==> !occurs_at(s@, part@, j),
        decreases chars.len() - i,
    {
        if matches_at(&chars, &sought, i) {
            return true;
        }
        i += 1;
    }
    let found = matches_at(&chars, &sought, i);
    assert(found == occurs_in(s@, part@));
    found
}

/// `s` with each occurrence of `from`, taken from the left and without overlap, replaced by `to`.
pub fn replace_text(s: &str, from: &str, to: &str) -> (r: String)
    requires
        from@.len() > 0,
    ensures
        r@ == replaced(s@, from@, to@),
{
    let chars = chars_of(s);
    let sought = chars_of(from);
    let mut out = String::new();
    let mut i: usize = 0;
    assert(s@.skip(0) =~= s@);
    while i < chars.len()
        invariant
            chars@ == s@,
            sought@ == from@,
            from@.len() > 0,
            i <= chars.len(),
            out@ + replaced(s@.skip(i as int), from@, to@) == replaced(s@, from@, to@),
        decreases chars.len() - i,
    {
        let ghost rest = s@.skip(i as int);
        let ghost done = out@;
        if matches_at(&chars, &sought, i) {
            proof {
                assert(rest.subrange(0, from@.len() as int) =~= s@.subrange(
                    i as int,
                    i + from@.len(),
                ));
                assert(occurs_at(rest, from@, 0));
                assert(rest.skip(from@.len() as int) =~= s@.skip(i + from@.len()));
            }
            out.append(to);
            i += sought.len();
            assert(out@ + replaced(s@.skip(i as int), from@, to@) =~= done + replaced(
                rest,
                from@,
                to@,
            ));
        } else {
            proof {
                if from@.len() <= rest.len() {
                    assert(rest.subrange(0, from@.len() as int) =~= s@.subrange(
                        i as int,
                        i + from@.len(),
                    ));
                    assert(!occurs_at(rest, from@, 0));
                } else {
                    assert(replaced(rest.drop_first(), from@, to@) == rest.drop_first());
                    assert(rest =~= seq![rest[0]] + rest.drop_first());
                }
                assert(rest.drop_first() =~= s@.skip(i + 1));
                assert(replaced(rest, from@, to@) =~= seq![rest[0]] + replaced(
                    rest.drop_first(),
                    from@,
                    to@,
                ));
            }
            out.push(chars[i]);
            i += 1;
            assert(out@ + replaced(s@.skip(i as int), from@, to@) =~= done + replaced(
                rest,
                from@,
                to@,
            ));
        }
    }
    assert(s@.skip(i as int).len() == 0);
    assert(out@ + replaced(s@.skip(i as int), from@, to@) =~= out@);
    out
}

/// `s` without its line feeds and carriage returns.
pub fn remove_line_breaks(s: &str) -> (r: String)
    ensures
        r@ == without_line_breaks(s@),
{
    let ghost keep = |c: char| c != '\n' && c != '\r';
    let chars = chars_of(s);
    let mut out = String::new();
    let mut i: usize = 0;
    proof {
        assert(s@.take(0) =~= Seq::<char>::empty());
        reveal(Seq::filter);
    }
    while i < chars.len()
        invariant
            chars@ == s@,
            keep == (|c: char| c != '\n' && c != '\r'),
            i <= chars.len(),
            out@ == s@.take(i as int).filter(keep),
        decreases chars.len() - i,
    {
        proof {
            assert(s@.take(i + 1).drop_last() =~= s@.take(i as int));
            reveal(Seq::filter);
        }
        if chars[i] != '\n' && chars[i] != '\r' {
            out.push(chars[i]);
        }
        i += 1;
    }
    assert(s@.take(s@.len() as int) =~= s@);
    out
}

proof fn lemma_split_not_empty(s: Seq<char>, separator: char)
    ensures
        split_on(s, separator).len() > 0,
    decreases s.len(),
{
    if s.len() > 0 {
        lemma_split_not_empty(s.drop_last(), separator);
    }
}

/// The parts of `s` between the separators.
pub fn split_text(s: &str, separator: char) -> (r: Vec<String>)
    ensures
        views(r@) == split_on(s@, separator),
{
    let chars = chars_of(s);
    let mut parts: Vec<String> = Vec::new();
    let mut current = String::new();
    let mut i: usize = 0;
    assert(s@.take(0) =~= Seq::<char>::empty());
    assert(views(parts@).push(current@) =~= split_on(s@.take(0), separator));
    while i < chars.len()
        invariant
            chars@ == s@,
            i <= chars.len(),
            views(parts@).push(current@) == split_on(s@.take(i as int), separator),
        decreases chars.len() - i,
    {
        let ghost before = split_on(s@.take(i as int), separator);
        let ghost done = views(parts@);
        proof {
            assert(s@.take(i + 1).drop_last() =~= s@.take(i as int));
            lemma_split_not_empty(s@.take(i as int), separator);
            assert(before.last() == current@);
        }
        if chars[i] == separator {
            parts.push(current);
            assert(views(parts@) =~= before);
            current = String::new();
        } else {
            current.push(chars[i]);
            assert(done.push(current@) =~= before.update(before.len() - 1, current@));
        }
        i += 1;
        assert(views(parts@).push(current@) =~= split_on(s@.take(i as int), separator));
    }
    assert(s@.take(s@.len() as int) =~= s@);
    let ghost done = views(parts@);
    let ghost last = current@;
    parts.push(current);
    assert(views(parts@) =~= done.push(last));
    parts
}

/// The lines with a line feed between two of them.
pub fn join_lines(lines: &Vec<String>) -> (r: String)
    ensures
        r@ == joined_lines(views(lines@)),
{
    let mut out = String::new();
    let mut i: usize = 0;
    while i < lines.len()
        invariant
            i <= lines.len(),
            out@ == joined_lines(views(lines@).take(i as int)),
        decreases lines.len() - i,
    {
        proof {
            assert(views(lines@).take(i + 1).drop_last() =~= views(lines@).take(i as int));
        }
        if i > 0 {
            out.push('\n');
        }
        out.append(lines[i].as_str());
        i += 1;
        assert(out@ =~= joined_lines(views(lines@).take(i as int)));
    }
    assert(views(lines@).take(lines.len() as int) =~= views(lines@));
    out
}

proof fn lemma_decimal_prefix(s: Seq<char>, i: int)
    requires
        0 <= i <= s.len(),
        all_digits(s),
    ensures
        decimal_value(s.take(i)) <= decimal_value(s),
    decreases s.len() - i,
{
    if i < s.len() {
        assert(s.take(i + 1).drop_last() =~= s.take(i));
        lemma_decimal_prefix(s, i + 1);
    } else {
        assert(s.take(i) =~= s);
    }
}

/// The number that `s` denotes, as `u64`'s own parser reads it.
pub fn parse_u64(s: &str) -> (r: Option<u64>)
    ensures
        r == parsed_u64(s@),
{
    let chars = chars_of(s);
    let start: usize = if chars.len() > 0 && chars[0] == '+' {
        1
    } else {
        0
    };
    let ghost digits = without_plus(s@);
    assert(digits =~= s@.skip(start as int));
    if start == chars.len() {
        return None;
    }
    let mut value: u64 = 0;
    let mut i: usize = start;
    assert(digits.take(0) =~= Seq::<char>::empty());
    while i < chars.len()
        invariant
            chars@ == s@,
            start <= i <= chars.len(),
            digits == s@.skip(start as int),
            digits == without_plus(s@),
            digits.len() > 0,
            forall|j: int| 0 <= j < i - start ==> is_digit(#[trigger] digits[j]),
            value == decimal_value(digits.take(i - start)),
        decreases chars.len() - i,
    {
        let c = chars[i];
        assert(c == digits[i - start]);
        if c < '0' || c > '9' {
            assert(!is_digit(digits[i - start]));
            return None;
        }
        let digit: u64 = c as u64 - 48;
        proof {
            assert(digits.take(i - start + 1).drop_last() =~= digits.take(i - start));
            assert(decimal_value(digits.take(i - start + 1)) == value * 10 + digit);
            if parsed_u64(s@) is Some {
                lemma_decimal_prefix(digits, i - start + 1);
            }
        }
        if value > (u64::MAX - digit) / 10 {
            return None;
        }
        value = value * 10 + digit;
        i += 1;
    }
    assert(digits.take(i - start) =~= digits);
    Some(value)
}

/// `a` followed by `b`.
pub fn concat(a: &str, b: &str) -> (r: String)
    ensures
        r@ == a@ + b@,
{
    let mut out = a.to_owned();
    out.append(b);
    out
}

/// `a`, `b` and `c`, one after the other.
pub fn concat3(a: &str, b: &str, c: &str) -> (r: String)
    ensures
        r@ == a@ + b@ + c@,
{
    let mut out = concat(a, b);
    out.append(c);
    out
}

/// A copy of the text, if there is one.
pub fn copy_of(text: &Option<String>) -> (r: Option<String>)
    ensures
        r == *text,
{
    match text {
        Some(text) => Some(text.clone()),
        None => None,
    }
}

} // verus!
