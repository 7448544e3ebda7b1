//! Operations on text: trimming, splitting into lines and words, searching, joining and decimal
//! numerals.
//!
//! Every operation is stated over the sequence of characters of a string. The executable
//! functions hand out slices of their argument wherever the result is a part of it.

use vstd::prelude::*;
use vstd::string::*;

verus! {

/// The characters with the Unicode property `White_Space`.
pub open spec fn is_whitespace(c: char) -> bool {
    let code = c as int;
    ||| 0x9 <= code <= 0xd
    ||| code == 0x20
    ||| code == 0x85
    ||| code == 0xa0
    ||| code == 0x1680
    ||| 0x2000 <= code <= 0x200a
    ||| code == 0x2028
    ||| code == 0x2029
    ||| code == 0x202f
    ||| code == 0x205f
    ||| code == 0x3000
}

/// `s` without the white space at its start.
pub open spec fn trimmed_start(s: Seq<char>) -> Seq<char>
    decreases s.len(),
{
    if s.len() > 0 && is_whitespace(s[0]) {
        trimmed_start(s.drop_first())
    } else {
        s
    }
}

/// `s` without the white space at its end.
pub open spec fn trimmed_end(s: Seq<char>) -> Seq<char>
    decreases s.len(),
{
    if s.len() > 0 && is_whitespace(s.last()) {
        trimmed_end(s.drop_last())
    } else {
        s
    }
}

/// `s` without the white space at either end.
pub open spec fn trimmed(s: Seq<char>) -> Seq<char> {
    trimmed_end(trimmed_start(s))
}

/// `s` without the characters of `set` at its end.
pub open spec fn stripped_end(s: Seq<char>, set: Seq<char>) -> Seq<char>
    decreases s.len(),
{
    if s.len() > 0 && set.contains(s.last()) {
        stripped_end(s.drop_last(), set)
    } else {
        s
    }
}

/// The index of the first `c` in `s`, or the length of `s` where there is none.
pub open spec fn char_position(s: Seq<char>, c: char) -> nat
    decreases s.len(),
{
    if s.len() == 0 || s[0] == c {
        0
    } else {
        1 + char_position(s.drop_first(), c)
    }
}

/// What precedes the first `c` in `s`; all of `s` where there is none.
pub open spec fn before_char(s: Seq<char>, c: char) -> Seq<char> {
    s.take(char_position(s, c) as int)
}

/// What follows the first `c` in `s`, where there is one.
pub open spec fn after_char(s: Seq<char>, c: char) -> Option<Seq<char>> {
    if char_position(s, c) < s.len() {
        Some(s.skip(char_position(s, c) as int + 1))
    } else {
        None
    }
}

/// `pattern` stands in `s` from index `at` on.
pub open spec fn occurs_at(s: Seq<char>, pattern: Seq<char>, at: int) -> bool {
    &&& 0 <= at
    &&& at + pattern.len() <= s.len()
    &&& s.subrange(at, at + pattern.len()) == pattern
}

/// `pattern` stands somewhere in `s`.
pub open spec fn has_text(s: Seq<char>, pattern: Seq<char>) -> bool {
    exists|at: int| occurs_at(s, pattern, at)
}

/// `s` starts with `prefix`.
pub open spec fn has_prefix(s: Seq<char>, prefix: Seq<char>) -> bool {
    occurs_at(s, prefix, 0)
}

/// `s` without `prefix` at its start, where it starts with it.
pub open spec fn without_prefix(s: Seq<char>, prefix: Seq<char>) -> Option<Seq<char>> {
    if has_prefix(s, prefix) {
        Some(s.skip(prefix.len() as int))
    } else {
        None
    }
}

/// `s` without `prefix` at its start, or `s` itself where it does not start with it.
pub open spec fn past_prefix(s: Seq<char>, prefix: Seq<char>) -> Seq<char> {
    if has_prefix(s, prefix) {
        s.skip(prefix.len() as int)
    } else {
        s
    }
}

/// `s` without `suffix` at its end, or `s` itself where it does not end with it.
pub open spec fn before_suffix(s: Seq<char>, suffix: Seq<char>) -> Seq<char> {
    if occurs_at(s, suffix, s.len() - suffix.len()) {
        s.take(s.len() - suffix.len())
    } else {
        s
    }
}

/// A line without the carriage return that belongs to its line ending.
pub open spec fn without_return(line: Seq<char>) -> Seq<char> {
    if line.len() > 0 && line.last() == '\r' {
        line.drop_last()
    } else {
        line
    }
}

/// The lines of `s`. A line ends in a line feed, which a carriage return may precede; the ending
/// is not part of the line, and the last line may lack it.
pub open spec fn line_list(s: Seq<char>) -> Seq<Seq<char>>
    decreases s.len(),
{
    let n = char_position(s, '\n');
    if s.len() == 0 {
        seq![]
    } else if n >= s.len() {
        seq![s]
    } else {
        seq![without_return(s.take(n as int))] + line_list(s.skip(n as int + 1))
    }
}

/// How many characters of `s` precede its first white space.
pub open spec fn word_length(s: Seq<char>) -> nat
    decreases s.len(),
{
    if s.len() == 0 || is_whitespace(s[0]) {
        0
    } else {
        1 + word_length(s.drop_first())
    }
}

/// The words of `s`: its longest stretches without white space.
pub open spec fn word_list(s: Seq<char>) -> Seq<Seq<char>>
    decreases s.len(),
{
    if s.len() == 0 {
        seq![]
    } else if is_whitespace(s[0]) {
        word_list(s.drop_first())
    } else {
        proof {
            lemma_word_length_bound(s);
        }
        seq![s.take(word_length(s) as int)] + word_list(s.skip(word_length(s) as int))
    }
}

/// `parts` in order, with `separator` between each two.
pub open spec fn joined(parts: Seq<Seq<char>>, separator: Seq<char>) -> Seq<char>
    decreases parts.len(),
{
    if parts.len() == 0 {
        seq![]
    } else if parts.len() == 1 {
        parts[0]
    } else {
        joined(parts.drop_last(), separator) + separator + parts.last()
    }
}

/// The contents of each string slice of a sequence.
pub open spec fn views(parts: Seq<&str>) -> Seq<Seq<char>> {
    Seq::new(parts.len(), |i: int| parts[i]@)
}

/// The contents of each string of a sequence.
pub open spec fn string_views(parts: Seq<String>) -> Seq<Seq<char>> {
    Seq::new(parts.len(), |i: int| parts[i]@)
}

/// The contents of an optional string.
pub open spec fn opt_view(text: Option<String>) -> Option<Seq<char>> {
    match text {
        Some(s) => Some(s@),
        None => None,
    }
}

/// The contents of an optional string slice.
pub open spec fn opt_str(text: Option<&str>) -> Option<Seq<char>> {
    match text {
        Some(s) => Some(s@),
        None => None,
    }
}

/// The decimal digit for `d`.
pub open spec fn digit(d: nat) -> char {
    (48 + d) as char
}

/// The decimal numeral of `n`, without leading zeros.
pub open spec fn decimal_of(n: nat) -> Seq<char>
    decreases n,
{
    if n < 10 {
        seq![digit(n)]
    } else {
        decimal_of(n / 10).push(digit(n % 10))
    }
}

/// `a` comes before `b` in the order by code points.
pub open spec fn precedes(a: Seq<char>, b: Seq<char>) -> bool
    decreases a.len(),
{
    if b.len() == 0 {
        false
    } else if a.len() == 0 {
        true
    } else if a[0] == b[0] {
        precedes(a.drop_first(), b.drop_first())
    } else {
        (a[0] as int) < b[0] as int
    }
}

/// The order by code points is a strict total order.
pub proof fn lemma_precedes_total(a: Seq<char>, b: Seq<char>)
    ensures
        !precedes(a, a),
        a != b ==> precedes(a, b) || precedes(b, a),
        !(precedes(a, b) && precedes(b, a)),
    decreases a.len(),
{
    if a.len() > 0 && b.len() > 0 {
        lemma_precedes_total(a.drop_first(), b.drop_first());
        if a[0] == b[0] && a.drop_first() == b.drop_first() {
            assert(a =~= seq![a[0]] + a.drop_first());
            assert(b =~= seq![b[0]] + b.drop_first());
        }
    } else if a.len() > 0 {
        lemma_precedes_total(a.drop_first(), a.drop_first());
    } else if b.len() == 0 {
        assert(a =~= b);
    }
}

/// The order by code points is transitive.
pub proof fn lemma_precedes_transitive(a: Seq<char>, b: Seq<char>, c: Seq<char>)
    requires
        precedes(a, b),
        precedes(b, c),
    ensures
        precedes(a, c),
    decreases a.len(),
{
    if a.len() > 0 && a[0] == b[0] && b[0] == c[0] {
        lemma_precedes_transitive(a.drop_first(), b.drop_first(), c.drop_first());
    }
}

/// The value of a decimal digit.
pub open spec fn digit_value(c: char) -> Option<nat> {
    if '0' <= c && c <= '9' {
        Some((c as int - 48) as nat)
    } else {
        None
    }
}

/// The value of a row of decimal digits.
pub open spec fn digits_value(s: Seq<char>) -> Option<nat>
    decreases s.len(),
{
    if s.len() == 0 {
        Some(0)
    } else {
        match (digits_value(s.drop_last()), digit_value(s.last())) {
            (Some(high), Some(low)) => Some(high * 10 + low),
            _ => None,
        }
    }
}

/// The value of a decimal numeral: at least one digit, and a `+` may precede them.
pub open spec fn numeral_value(s: Seq<char>) -> Option<nat> {
    let digits = if s.len() > 0 && s[0] == '+' {
        s.drop_first()
    } else {
        s
    };
    if digits.len() == 0 {
        None
    } else {
        digits_value(digits)
    }
}

/// The numeral of a number has the number as its value.
pub proof fn lemma_decimal_value(n: nat)
    ensures
        decimal_of(n).len() > 0,
        digits_value(decimal_of(n)) == Some(n),
        digit_value(decimal_of(n)[0]) is Some,
        numeral_value(decimal_of(n)) == Some(n),
    decreases n,
{
    let numeral = decimal_of(n);
    if n < 10 {
        assert(numeral.drop_last() =~= Seq::<char>::empty());
        assert(digits_value(numeral.drop_last()) == Some(0nat));
    } else {
        lemma_decimal_value(n / 10);
        assert(numeral.drop_last() =~= decimal_of(n / 10));
        assert(numeral[0] == decimal_of(n / 10)[0]);
    }
    assert(numeral[0] != '+');
}

proof fn lemma_digits_prefix(s: Seq<char>, n: int)
    requires
        0 <= n <= s.len(),
        digits_value(s) is Some,
    ensures
        digits_value(s.take(n)) is Some,
        digits_value(s.take(n))->0 <= digits_value(s)->0,
    decreases s.len(),
{
    if n < s.len() {
        lemma_digits_prefix(s.drop_last(), n);
        assert(s.drop_last().take(n) =~= s.take(n));
    } else {
        assert(s.take(n) =~= s);
    }
}

proof fn lemma_char_position(s: Seq<char>, c: char, at: int)
    requires
        0 <= at <= s.len(),
        at < s.len() ==> s[at] == c,
        forall|i: int| 0 <= i < at ==> s[i] != c,
    ensures
        char_position(s, c) == at,
    decreases s.len(),
{
    if at > 0 {
        assert(s[0] != c);
        assert forall|i: int| 0 <= i < at - 1 implies s.drop_first()[i] != c by {
            assert(s[i + 1] != c);
        }
        lemma_char_position(s.drop_first(), c, at - 1);
    }
}

/// The first position of a character: it stands there and nowhere before.
pub proof fn lemma_char_position_facts(s: Seq<char>, c: char)
    ensures
        char_position(s, c) <= s.len(),
        char_position(s, c) < s.len() ==> s[char_position(s, c) as int] == c,
        forall|i: int| 0 <= i < char_position(s, c) ==> s[i] != c,
        char_position(s, c) < s.len() <==> s.contains(c),
    decreases s.len(),
{
    if s.len() > 0 && s[0] != c {
        let t = s.drop_first();
        lemma_char_position_facts(t, c);
        assert forall|i: int| 0 <= i < char_position(s, c) implies s[i] != c by {
            if i > 0 {
                assert(s[i] == t[i - 1]);
            }
        }
        if s.contains(c) {
            let i = choose|i: int| 0 <= i < s.len() && s[i] == c;
            assert(t[i - 1] == c);
        }
    }
}

proof fn lemma_trimmed_start(s: Seq<char>, at: int)
    requires
        0 <= at <= s.len(),
        at < s.len() ==> !is_whitespace(s[at]),
        forall|i: int| 0 <= i < at ==> is_whitespace(s[i]),
    ensures
        trimmed_start(s) == s.skip(at),
    decreases s.len(),
{
    if at > 0 {
        let t = s.drop_first();
        assert(is_whitespace(s[0]));
        assert forall|i: int| 0 <= i < at - 1 implies is_whitespace(t[i]) by {
            assert(is_whitespace(s[i + 1]));
        }
        lemma_trimmed_start(t, at - 1);
        assert(t.skip(at - 1) =~= s.skip(at));
    } else {
        assert(s.skip(0) =~= s);
    }
}

proof fn lemma_trimmed_end(s: Seq<char>, to: int)
    requires
        0 <= to <= s.len(),
        to > 0 ==> !is_whitespace(s[to - 1]),
        forall|i: int| to <= i < s.len() ==> is_whitespace(s[i]),
    ensures
        trimmed_end(s) == s.take(to),
    decreases s.len(),
{
    if to < s.len() {
        let t = s.drop_last();
        assert(is_whitespace(s[s.len() - 1]));
        lemma_trimmed_end(t, to);
        assert(t.take(to) =~= s.take(to));
    } else {
        assert(s.take(to) =~= s);
    }
}

/// Trimming takes the white space around a text away, and no more.
pub proof fn lemma_trimmed_inner(before: Seq<char>, inner: Seq<char>, after: Seq<char>)
    requires
        forall|i: int| 0 <= i < before.len() ==> is_whitespace(before[i]),
        forall|i: int| 0 <= i < after.len() ==> is_whitespace(after[i]),
        inner.len() > 0,
        !is_whitespace(inner[0]),
        !is_whitespace(inner.last()),
    ensures
        trimmed(before + inner + after) == inner,
{
    let s = before + inner + after;
    let rest = inner + after;
    lemma_trimmed_start(s, before.len() as int);
    assert(s.skip(before.len() as int) =~= rest);
    assert forall|i: int| inner.len() <= i < rest.len() implies is_whitespace(rest[i]) by {
        assert(rest[i] == after[i - inner.len()]);
    }
    lemma_trimmed_end(rest, inner.len() as int);
    assert(rest.take(inner.len() as int) =~= inner);
}

/// Trimming a blank text leaves nothing.
pub proof fn lemma_trimmed_blank(s: Seq<char>)
    requires
        forall|i: int| 0 <= i < s.len() ==> is_whitespace(s[i]),
    ensures
        trimmed(s).len() == 0,
{
    lemma_trimmed_start(s, s.len() as int);
}

/// What is stripped from the end of a text are the characters of the set, up to the first that is
/// not in it.
pub proof fn lemma_stripped_end(s: Seq<char>, set: Seq<char>, to: int)
    requires
        0 <= to <= s.len(),
        to > 0 ==> !set.contains(s[to - 1]),
        forall|i: int| to <= i < s.len() ==> set.contains(#[trigger] s[i]),
    ensures
        stripped_end(s, set) == s.take(to),
    decreases s.len(),
{
    if to < s.len() {
        let t = s.drop_last();
        assert(set.contains(s[s.len() - 1]));
        lemma_stripped_end(t, set, to);
        assert(t.take(to) =~= s.take(to));
    } else {
        assert(s.take(to) =~= s);
    }
}

/// Stripping the end keeps the start, leaves none of the characters at the end, and does nothing
/// the second time.
pub proof fn lemma_stripped_end_facts(s: Seq<char>, set: Seq<char>)
    ensures
        stripped_end(s, set).len() <= s.len(),
        stripped_end(s, set) == s.take(stripped_end(s, set).len() as int),
        stripped_end(s, set).len() > 0 ==> !set.contains(stripped_end(s, set).last()),
        stripped_end(stripped_end(s, set), set) == stripped_end(s, set),
    decreases s.len(),
{
    if s.len() > 0 && set.contains(s.last()) {
        lemma_stripped_end_facts(s.drop_last(), set);
        let kept = stripped_end(s, set);
        assert(s.drop_last().take(kept.len() as int) =~= s.take(kept.len() as int));
    } else {
        assert(s.take(s.len() as int) =~= s);
    }
}

/// A trimmed text is a part of the text that neither starts nor ends with white space.
pub proof fn lemma_trimmed_facts(s: Seq<char>)
    ensures
        trimmed(s).len() > 0 ==> !is_whitespace(trimmed(s)[0]) && !is_whitespace(trimmed(s).last()),
        forall|c: char| #[trigger] trimmed(s).contains(c) ==> s.contains(c),
{
    let start = trimmed_start(s);
    lemma_trimmed_start_facts(s);
    lemma_trimmed_end_facts(start);
    assert forall|c: char| #[trigger] trimmed(s).contains(c) implies s.contains(c) by {
        assert(start.contains(c));
    }
}

proof fn lemma_trimmed_start_facts(s: Seq<char>)
    ensures
        trimmed_start(s).len() > 0 ==> !is_whitespace(trimmed_start(s)[0]),
        forall|c: char| #[trigger] trimmed_start(s).contains(c) ==> s.contains(c),
    decreases s.len(),
{
    if s.len() > 0 && is_whitespace(s[0]) {
        let t = s.drop_first();
        lemma_trimmed_start_facts(t);
        assert forall|c: char| #[trigger] trimmed_start(s).contains(c) implies s.contains(c) by {
            let i = choose|i: int| 0 <= i < t.len() && t[i] == c;
            assert(s[i + 1] == c);
        }
    }
}

proof fn lemma_trimmed_end_facts(s: Seq<char>)
    ensures
        trimmed_end(s).len() <= s.len(),
        trimmed_end(s) == s.take(trimmed_end(s).len() as int),
        trimmed_end(s).len() > 0 ==> !is_whitespace(trimmed_end(s).last()),
        trimmed_end(s).len() > 0 ==> trimmed_end(s)[0] == s[0],
        forall|c: char| #[trigger] trimmed_end(s).contains(c) ==> s.contains(c),
    decreases s.len(),
{
    if s.len() > 0 && is_whitespace(s.last()) {
        let t = s.drop_last();
        lemma_trimmed_end_facts(t);
        assert(t.take(trimmed_end(s).len() as int) =~= s.take(trimmed_end(s).len() as int));
        assert forall|c: char| #[trigger] trimmed_end(s).contains(c) implies s.contains(c) by {
            let i = choose|i: int| 0 <= i < t.len() && t[i] == c;
            assert(s[i] == c);
        }
    } else {
        assert(s.take(s.len() as int) =~= s);
    }
}

/// A text that could stand on a line of its own: it is not empty, and no part of a line ending.
pub open spec fn is_line(s: Seq<char>) -> bool {
    s.len() > 0 && !s.contains('\n') && s.last() != '\r'
}

/// Lines that are joined by line feeds are read back as they were.
pub proof fn lemma_joined_lines_are_read_back(parts: Seq<Seq<char>>)
    requires
        forall|i: int| 0 <= i < parts.len() ==> is_line(#[trigger] parts[i]),
    ensures
        line_list(joined(parts, "\n"@)) == parts,
    decreases parts.len(),
{
    reveal_strlit("\n");
    assert("\n"@ =~= seq!['\n']);
    if parts.len() == 0 {
        assert(line_list(joined(parts, "\n"@)) =~= parts);
    } else if parts.len() == 1 {
        lemma_no_position(parts[0], '\n');
        assert(line_list(parts[0]) =~= parts);
    } else {
        let first = parts[0];
        let rest = parts.drop_first();
        assert forall|i: int| 0 <= i < rest.len() implies is_line(#[trigger] rest[i]) by {
            assert(is_line(parts[i + 1]));
        }
        lemma_joined_lines_are_read_back(rest);
        lemma_joined_first(parts, "\n"@);
        let whole = joined(parts, "\n"@);
        assert(whole =~= first + seq!['\n'] + joined(rest, "\n"@));
        assert(!first.contains('\n'));
        assert forall|i: int| 0 <= i < first.len() implies whole[i] != '\n' by {
            assert(first.contains(first[i]));
        }
        lemma_char_position(whole, '\n', first.len() as int);
        assert(whole.take(first.len() as int) =~= first);
        assert(whole.skip(first.len() as int + 1) =~= joined(rest, "\n"@));
        assert(line_list(whole) =~= seq![first] + rest);
        assert(seq![first] + rest =~= parts);
    }
}

/// No line of a text holds a line feed.
pub proof fn lemma_lines_hold_no_feed(s: Seq<char>)
    ensures
        forall|i: int| 0 <= i < line_list(s).len() ==> !(#[trigger] line_list(s)[i]).contains('\n'),
    decreases s.len(),
{
    let n = char_position(s, '\n') as int;
    lemma_char_position_facts(s, '\n');
    if s.len() > 0 {
        assert forall|j: int| 0 <= j < s.take(n).len() implies s.take(n)[j] != '\n' by {
            assert(s[j] != '\n');
        }
        if n >= s.len() {
            assert(s.take(n) =~= s);
        } else {
            lemma_lines_hold_no_feed(s.skip(n + 1));
            let rest = line_list(s.skip(n + 1));
            assert forall|i: int| 0 <= i < line_list(s).len() implies !(#[trigger] line_list(
                s,
            )[i]).contains('\n') by {
                if i > 0 {
                    assert(line_list(s)[i] == rest[i - 1]);
                }
            }
        }
    }
}

/// Trimming a text twice is trimming it once.
pub proof fn lemma_trimmed_twice(s: Seq<char>)
    ensures
        trimmed(trimmed(s)) == trimmed(s),
{
    let t = trimmed(s);
    lemma_trimmed_facts(s);
    if t.len() > 0 {
        lemma_trimmed_inner(Seq::empty(), t, Seq::empty());
        assert(Seq::<char>::empty() + t + Seq::<char>::empty() =~= t);
    } else {
        assert(trimmed(t) =~= t);
    }
}

/// What precedes a character does not hold it, and is the whole text where the text does not.
pub proof fn lemma_before_char(s: Seq<char>, c: char)
    ensures
        before_char(s, c).len() <= s.len(),
        before_char(s, c) == s.take(before_char(s, c).len() as int),
        !before_char(s, c).contains(c),
        !s.contains(c) ==> before_char(s, c) == s,
{
    lemma_char_position_facts(s, c);
    let before = before_char(s, c);
    assert forall|i: int| 0 <= i < before.len() implies before[i] != c by {
        assert(s[i] != c);
    }
    if !s.contains(c) {
        lemma_no_position(s, c);
        assert(before =~= s);
    }
}

/// A text is taken apart at a character that stands between two parts of it.
pub proof fn lemma_split_at_char(before: Seq<char>, c: char, after: Seq<char>)
    requires
        !before.contains(c),
    ensures
        before_char(before + seq![c] + after, c) == before,
        after_char(before + seq![c] + after, c) == Some(after),
{
    let s = before + seq![c] + after;
    assert forall|i: int| 0 <= i < before.len() implies s[i] != c by {
        assert(before.contains(before[i]));
    }
    lemma_char_position(s, c, before.len() as int);
    assert(s.take(before.len() as int) =~= before);
    assert(s.skip(before.len() as int + 1) =~= after);
}

/// A numeral holds digits and nothing else.
pub proof fn lemma_decimal_digits(n: nat)
    ensures
        forall|i: int|
            0 <= i < decimal_of(n).len() ==> '0' <= #[trigger] decimal_of(n)[i]
                && decimal_of(n)[i] <= '9',
    decreases n,
{
    if n >= 10 {
        lemma_decimal_digits(n / 10);
        let high = decimal_of(n / 10);
        assert forall|i: int| 0 <= i < decimal_of(n).len() implies '0' <= #[trigger] decimal_of(
            n,
        )[i] && decimal_of(n)[i] <= '9' by {
            if i < high.len() {
                assert(decimal_of(n)[i] == high[i]);
            }
        }
    }
}

proof fn lemma_no_position(s: Seq<char>, c: char)
    requires
        !s.contains(c),
    ensures
        char_position(s, c) == s.len(),
{
    assert forall|i: int| 0 <= i < s.len() implies s[i] != c by {
        assert(s.contains(s[i]));
    }
    lemma_char_position(s, c, s.len() as int);
}

/// Parts that are joined come in their order, the first one first.
pub proof fn lemma_joined_first(parts: Seq<Seq<char>>, separator: Seq<char>)
    requires
        parts.len() > 1,
    ensures
        joined(parts, separator) == parts[0] + separator + joined(parts.drop_first(), separator),
    decreases parts.len(),
{
    let rest = parts.drop_first();
    if parts.len() == 2 {
        assert(parts.drop_last()[0] == parts[0]);
        assert(joined(parts.drop_last(), separator) == parts[0]);
        assert(joined(rest, separator) == parts[1]);
    } else {
        let front = parts.drop_last();
        lemma_joined_first(front, separator);
        assert(front.drop_first() =~= rest.drop_last());
        assert(front[0] == parts[0]);
        assert(joined(parts, separator) =~= parts[0] + separator + (joined(
            rest.drop_last(),
            separator,
        ) + separator + parts.last()));
    }
}

/// A word of a text is no longer than the text.
pub proof fn lemma_word_length_bound(s: Seq<char>)
    ensures
        word_length(s) <= s.len(),
    decreases s.len(),
{
    if s.len() > 0 && !is_whitespace(s[0]) {
        lemma_word_length_bound(s.drop_first());
    }
}

proof fn lemma_word_length(s: Seq<char>, n: int)
    requires
        0 <= n <= s.len(),
        n < s.len() ==> is_whitespace(s[n]),
        forall|i: int| 0 <= i < n ==> !is_whitespace(s[i]),
    ensures
        word_length(s) == n,
    decreases s.len(),
{
    if n > 0 {
        let t = s.drop_first();
        assert(!is_whitespace(s[0]));
        assert forall|i: int| 0 <= i < n - 1 implies !is_whitespace(t[i]) by {
            assert(!is_whitespace(s[i + 1]));
        }
        lemma_word_length(t, n - 1);
    }
}

/// Behind a text that does not hold a character, what precedes that character goes on.
pub proof fn lemma_before_char_behind(front: Seq<char>, back: Seq<char>, c: char)
    requires
        !front.contains(c),
    ensures
        before_char(front + back, c) == front + before_char(back, c),
        back.len() > 0 && back[0] == c ==> before_char(front + back, c) == front,
        back.len() == 0 ==> before_char(front + back, c) == front,
    decreases front.len(),
{
    let whole = front + back;
    if front.len() == 0 {
        assert(whole =~= back);
        assert(front + before_char(back, c) =~= before_char(back, c));
    } else {
        let rest = front.drop_first();
        assert(front.contains(front[0]));
        assert(whole.drop_first() =~= rest + back);
        assert forall|i: int| 0 <= i < rest.len() implies rest[i] != c by {
            assert(front.contains(front[i + 1]));
        }
        lemma_before_char_behind(rest, back, c);
        lemma_char_position_facts(back, c);
        lemma_char_position_facts(rest + back, c);
        assert(char_position(whole, c) == 1 + char_position(rest + back, c));
        assert(before_char(rest + back, c).len() == rest.len() + char_position(back, c));
        assert(before_char(whole, c) =~= front + before_char(back, c));
    }
    if back.len() == 0 || back[0] == c {
        assert(before_char(back, c).len() == 0);
        assert(front + before_char(back, c) =~= front);
    }
}

/// The words on both sides of a white space are the words of the whole.
pub proof fn lemma_words_around_space(front: Seq<char>, space: char, back: Seq<char>)
    requires
        is_whitespace(space),
    ensures
        word_list(front + seq![space] + back) == word_list(front) + word_list(back),
    decreases front.len(),
{
    let whole = front + seq![space] + back;
    if front.len() == 0 {
        assert(whole.drop_first() =~= back);
        assert(word_list(front) + word_list(back) =~= word_list(back));
    } else if is_whitespace(front[0]) {
        lemma_words_around_space(front.drop_first(), space, back);
        assert(whole.drop_first() =~= front.drop_first() + seq![space] + back);
    } else {
        let n = word_length(front) as int;
        lemma_word_length_bound(front);
        lemma_word_length_facts(front);
        assert forall|i: int| 0 <= i < n implies !is_whitespace(whole[i]) by {
            assert(!is_whitespace(front[i]));
        }
        if n < front.len() {
            assert(whole[n] == front[n]);
        }
        lemma_word_length(whole, n);
        assert(n > 0);
        lemma_words_around_space(front.skip(n), space, back);
        assert(whole.take(n) =~= front.take(n));
        assert(whole.skip(n) =~= front.skip(n) + seq![space] + back);
        assert(seq![front.take(n)] + (word_list(front.skip(n)) + word_list(back)) =~= word_list(
            front,
        ) + word_list(back));
    }
}

proof fn lemma_word_length_facts(s: Seq<char>)
    ensures
        word_length(s) <= s.len(),
        forall|i: int| 0 <= i < word_length(s) ==> !is_whitespace(s[i]),
        word_length(s) < s.len() ==> is_whitespace(s[word_length(s) as int]),
    decreases s.len(),
{
    if s.len() > 0 && !is_whitespace(s[0]) {
        let t = s.drop_first();
        lemma_word_length_facts(t);
        assert forall|i: int| 0 <= i < word_length(s) implies !is_whitespace(s[i]) by {
            if i > 0 {
                assert(s[i] == t[i - 1]);
            }
        }
    }
}

/// A text without white space is one word, and a blank one has none.
pub proof fn lemma_word_alone(s: Seq<char>)
    ensures
        s.len() > 0 && (forall|i: int| 0 <= i < s.len() ==> !is_whitespace(#[trigger] s[i]))
            ==> word_list(s) == seq![s],
        (forall|i: int| 0 <= i < s.len() ==> is_whitespace(#[trigger] s[i])) ==> word_list(s)
            == Seq::<Seq<char>>::empty(),
    decreases s.len(),
{
    if s.len() > 0 {
        if forall|i: int| 0 <= i < s.len() ==> !is_whitespace(#[trigger] s[i]) {
            lemma_word_length(s, s.len() as int);
            assert(!is_whitespace(s[0]));
            assert(s.take(s.len() as int) =~= s);
            assert(s.skip(s.len() as int) =~= Seq::<char>::empty());
            assert(word_list(s.skip(s.len() as int)) =~= Seq::<Seq<char>>::empty());
            assert(word_list(s) =~= seq![s]);
        }
        if forall|i: int| 0 <= i < s.len() ==> is_whitespace(#[trigger] s[i]) {
            assert(is_whitespace(s[0]));
            let t = s.drop_first();
            assert forall|i: int| 0 <= i < t.len() implies is_whitespace(#[trigger] t[i]) by {
                assert(t[i] == s[i + 1]);
            }
            lemma_word_alone(t);
        }
    }
}

/// A line ends in a line feed, which a carriage return may precede; what follows it are the lines
/// of the rest.
pub proof fn lemma_line_ends_in_a_feed(line: Seq<char>, rest: Seq<char>)
    requires
        !line.contains('\n'),
    ensures
        line.len() > 0 && line.last() == '\r' ==> line_list(line + seq!['\n'] + rest) == seq![
            line.drop_last(),
        ] + line_list(rest),
        line.len() == 0 || line.last() != '\r' ==> line_list(line + seq!['\n'] + rest) == seq![
            line,
        ] + line_list(rest),
        line.len() > 0 ==> line_list(line) == seq![line],
        line_list(Seq::<char>::empty()) == Seq::<Seq<char>>::empty(),
{
    let s = line + seq!['\n'] + rest;
    lemma_split_at_char(line, '\n', rest);
    assert forall|i: int| 0 <= i < line.len() implies s[i] != '\n' by {
        assert(line.contains(line[i]));
    }
    lemma_char_position(s, '\n', line.len() as int);
    lemma_no_position(line, '\n');
    assert(s.take(line.len() as int) =~= line);
    assert(s.skip(line.len() as int + 1) =~= rest);
}

/// A text stands in another just where that consists of it and of what is on both sides.
pub proof fn lemma_texts_stand_in_others(before: Seq<char>, pattern: Seq<char>, after: Seq<char>)
    ensures
        has_text(before + pattern + after, pattern),
        has_prefix(pattern + after, pattern),
        without_prefix(pattern + after, pattern) == Some(after),
        past_prefix(pattern + after, pattern) == after,
        before_suffix(before + pattern, pattern) == before,
{
    let whole = before + pattern + after;
    let n = before.len() as int;
    assert(whole.subrange(n, n + pattern.len()) =~= pattern);
    assert(occurs_at(whole, pattern, n));
    assert((pattern + after).subrange(0, pattern.len() as int) =~= pattern);
    assert((pattern + after).skip(pattern.len() as int) =~= after);
    let front = before + pattern;
    assert(front.subrange(n, n + pattern.len()) =~= pattern);
    assert(front.take(n) =~= before);
}

/// What stands in a text is a part of it, and what it starts with is its start; a text without the
/// prefix or the suffix stays as it is.
pub proof fn lemma_parts_of_texts(s: Seq<char>, pattern: Seq<char>)
    ensures
        has_text(s, pattern) ==> exists|before: Seq<char>, after: Seq<char>|
            s == #[trigger] (before + pattern + after),
        has_prefix(s, pattern) <==> exists|after: Seq<char>| s == #[trigger] (pattern + after),
        !has_prefix(s, pattern) ==> past_prefix(s, pattern) == s && without_prefix(s, pattern)
            is None,
        before_suffix(s, pattern) == s || before_suffix(s, pattern) + pattern == s,
{
    if has_text(s, pattern) {
        let at = choose|at: int| occurs_at(s, pattern, at);
        assert(s =~= s.take(at) + pattern + s.skip(at + pattern.len()));
    }
    if has_prefix(s, pattern) {
        assert(s =~= pattern + s.skip(pattern.len() as int));
    }
    if exists|after: Seq<char>| s == #[trigger] (pattern + after) {
        let after = choose|after: Seq<char>| s == #[trigger] (pattern + after);
        assert(s.subrange(0, pattern.len() as int) =~= pattern);
    }
    if occurs_at(s, pattern, s.len() - pattern.len()) {
        assert(s =~= s.take(s.len() - pattern.len()) + pattern);
    }
}

/// A numeral has no zeros before its first digit.
pub proof fn lemma_no_leading_zeros(n: nat)
    ensures
        decimal_of(n).len() > 0,
        n > 0 ==> decimal_of(n)[0] != '0',
    decreases n,
{
    if n >= 10 {
        lemma_no_leading_zeros(n / 10);
    }
}

proof fn lemma_digits_value(s: Seq<char>)
    ensures
        digits_value(s) is Some <==> forall|i: int|
            0 <= i < s.len() ==> '0' <= #[trigger] s[i] && s[i] <= '9',
    decreases s.len(),
{
    if s.len() > 0 {
        let high = s.drop_last();
        lemma_digits_value(high);
        if digits_value(s) is Some {
            assert forall|i: int| 0 <= i < s.len() implies '0' <= #[trigger] s[i] && s[i] <= '9' by {
                if i < high.len() {
                    assert(s[i] == high[i]);
                }
            }
        }
        if forall|i: int| 0 <= i < s.len() ==> '0' <= #[trigger] s[i] && s[i] <= '9' {
            assert forall|i: int| 0 <= i < high.len() implies '0' <= #[trigger] high[i] && high[i]
                <= '9' by {
                assert(high[i] == s[i]);
            }
            assert(s[s.len() - 1] == s.last());
        }
    }
}

/// A text is a numeral just where it consists of digits, at least one, behind a `+` or without it.
pub proof fn lemma_numerals_are_digits(s: Seq<char>)
    ensures
        s.len() > 0 && s[0] != '+' ==> (numeral_value(s) is Some <==> forall|i: int|
            0 <= i < s.len() ==> '0' <= #[trigger] s[i] && s[i] <= '9'),
        s.len() == 0 ==> numeral_value(s) is None,
        s.len() == 0 || s[0] != '+' ==> numeral_value(seq!['+'] + s) == numeral_value(s),
{
    lemma_digits_value(s);
    assert((seq!['+'] + s).drop_first() =~= s);
}

/// The views of string slices are as many as the slices, each at its place.
pub proof fn lemma_views(parts: Seq<&str>)
    ensures
        parts.len() == views(parts).len(),
        forall|i: int| 0 <= i < parts.len() ==> (#[trigger] parts[i])@ == views(parts)[i],
{
    assert forall|i: int| 0 <= i < parts.len() implies (#[trigger] parts[i])@ == views(
        parts,
    )[i] by {
        assert(views(parts)[i] == parts[i]@);
    }
}

/// The characters of `s`.
pub fn chars_of(s: &str) -> (chars: Vec<char>)
    ensures
        chars@ == s@,
{
    let mut chars: Vec<char> = Vec::new();
    for c in it: s.chars()
        invariant
            it.seq() == s@,
            chars@ == s@.take(it.index()),
    {
        chars.push(c);
    }
    chars
}

/// Whether `c` is white space.
pub fn is_space(c: char) -> (r: bool)
    ensures
        r == is_whitespace(c),
{
    let code: u32 = c as u32;
    (0x9 <= code && code <= 0xd) || code == 0x20 || code == 0x85 || code == 0xa0 || code == 0x1680
        || (0x2000 <= code && code <= 0x200a) || code == 0x2028 || code == 0x2029 || code == 0x202f
        || code == 0x205f || code == 0x3000
}

/// Whether two strings have the same contents.
pub fn same_text(a: &str, b: &str) -> (r: bool)
    ensures
        r == (a@ == b@),
{
    let x: Vec<char> = chars_of(a);
    let y: Vec<char> = chars_of(b);
    if x.len() != y.len() {
        return false;
    }
    let mut i: usize = 0;
    while i < x.len()
        invariant
            i <= x.len(),
            x.len() == y.len(),
            x@ == a@,
            y@ == b@,
            forall|j: int| 0 <= j < i ==> x@[j] == y@[j],
        decreases x.len() - i,
    {
        if x[i] != y[i] {
            return false;
        }
        i += 1;
    }
    assert(x@ =~= y@);
    true
}

/// Whether `a` comes before `b` in the order by code points.
pub fn comes_before(a: &str, b: &str) -> (r: bool)
    ensures
        r == precedes(a@, b@),
{
    let x: Vec<char> = chars_of(a);
    let y: Vec<char> = chars_of(b);
    let mut i: usize = 0;
    proof {
        assert(x@.skip(0) =~= a@);
        assert(y@.skip(0) =~= b@);
    }
    while i < x.len() && i < y.len() && x[i] == y[i]
        invariant
            i <= x.len(),
            i <= y.len(),
            precedes(x@.skip(i as int), y@.skip(i as int)) == precedes(a@, b@),
        decreases x.len() - i,
    {
        proof {
            assert(x@.skip(i as int).drop_first() =~= x@.skip(i + 1));
            assert(y@.skip(i as int).drop_first() =~= y@.skip(i + 1));
        }
        i += 1;
    }
    if i >= y.len() {
        false
    } else if i >= x.len() {
        true
    } else {
        x[i] < y[i]
    }
}

/// `s` without the white space at either end.
pub fn trim<'a>(s: &'a str) -> (r: &'a str)
    ensures
        r@ == trimmed(s@),
{
    let chars: Vec<char> = chars_of(s);
    let mut from: usize = 0;
    while from < chars.len() && is_space(chars[from])
        invariant
            from <= chars.len(),
            chars@ == s@,
            forall|i: int| 0 <= i < from ==> is_whitespace(s@[i]),
        decreases chars.len() - from,
    {
        from += 1;
    }
    let mut to: usize = chars.len();
    while to > from && is_space(chars[to - 1])
        invariant
            from <= to <= chars.len(),
            chars@ == s@,
            forall|i: int| to <= i < s@.len() ==> is_whitespace(s@[i]),
        decreases to,
    {
        to -= 1;
    }
    proof {
        lemma_trimmed_start(s@, from as int);
        let t = s@.skip(from as int);
        lemma_trimmed_end(t, to - from);
        assert(t.take(to - from) =~= s@.subrange(from as int, to as int));
    }
    s.substring_char(from, to)
}

fn contains_element(set: &[char], c: char) -> (r: bool)
    ensures
        r == set@.contains(c),
{
    let mut i: usize = 0;
    while i < set.len()
        invariant
            i <= set.len(),
            forall|j: int| 0 <= j < i ==> set@[j] != c,
        decreases set.len() - i,
    {
        if set[i] == c {
            return true;
        }
        i += 1;
    }
    false
}

/// `s` without the characters of `set` at its end.
pub fn strip_end<'a>(s: &'a str, set: &[char]) -> (r: &'a str)
    ensures
        r@ == stripped_end(s@, set@),
{
    let chars: Vec<char> = chars_of(s);
    let mut to: usize = chars.len();
    while to > 0 && contains_element(set, chars[to - 1])
        invariant
            to <= chars.len(),
            chars@ == s@,
            forall|i: int| to <= i < s@.len() ==> set@.contains(#[trigger] s@[i]),
        decreases to,
    {
        to -= 1;
    }
    proof {
        lemma_stripped_end(s@, set@, to as int);
        assert(s@.take(to as int) =~= s@.subrange(0, to as int));
    }
    s.substring_char(0, to)
}

fn position_from(chars: &Vec<char>, c: char, from: usize) -> (at: usize)
    requires
        from <= chars.len(),
    ensures
        from <= at <= chars.len(),
        at == from + char_position(chars@.skip(from as int), c),
        at < chars.len() ==> chars@[at as int] == c,
{
    let mut at: usize = from;
    while at < chars.len() && chars[at] != c
        invariant
            from <= at <= chars.len(),
            forall|i: int| from <= i < at ==> chars@[i] != c,
        decreases chars.len() - at,
    {
        at += 1;
    }
    proof {
        lemma_char_position(chars@.skip(from as int), c, at - from);
    }
    at
}

/// Whether `c` stands somewhere in `s`.
pub fn has_char(s: &str, c: char) -> (r: bool)
    ensures
        r == s@.contains(c),
{
    let chars: Vec<char> = chars_of(s);
    let at: usize = position_from(&chars, c, 0);
    proof {
        assert(chars@.skip(0) =~= s@);
        lemma_char_position_facts(s@, c);
    }
    at < chars.len()
}

/// What precedes the first `c` in `s`; all of `s` where there is none.
pub fn take_before<'a>(s: &'a str, c: char) -> (r: &'a str)
    ensures
        r@ == before_char(s@, c),
{
    let chars: Vec<char> = chars_of(s);
    let at: usize = position_from(&chars, c, 0);
    proof {
        assert(chars@.skip(0) =~= s@);
        assert(s@.take(at as int) =~= s@.subrange(0, at as int));
    }
    s.substring_char(0, at)
}

/// What follows the first `c` in `s`, where there is one.
pub fn take_after<'a>(s: &'a str, c: char) -> (r: Option<&'a str>)
    ensures
        opt_str(r) == after_char(s@, c),
{
    let chars: Vec<char> = chars_of(s);
    let at: usize = position_from(&chars, c, 0);
    proof {
        assert(chars@.skip(0) =~= s@);
    }
    if at < chars.len() {
        proof {
            assert(s@.skip(at + 1) =~= s@.subrange(at + 1, s@.len() as int));
        }
        Some(s.substring_char(at + 1, chars.len()))
    } else {
        None
    }
}

fn matches_at(chars: &Vec<char>, pattern: &Vec<char>, at: usize) -> (r: bool)
    requires
        at + pattern.len() <= chars.len(),
    ensures
        r == occurs_at(chars@, pattern@, at as int),
{
    let mut i: usize = 0;
    while i < pattern.len()
        invariant
            i <= pattern.len(),
            at + pattern.len() <= chars.len(),
            forall|j: int| 0 <= j < i ==> chars@[at + j] == pattern@[j],
        decreases pattern.len() - i,
    {
        if chars[at + i] != pattern[i] {
            proof {
                let part = chars@.subrange(at as int, at + pattern.len());
                assert(part[i as int] == chars@[at + i]);
            }
            return false;
        }
        i += 1;
    }
    assert(chars@.subrange(at as int, at + pattern.len()) =~= pattern@);
    true
}

/// Whether `s` starts with `prefix`.
pub fn starts_with(s: &str, prefix: &str) -> (r: bool)
    ensures
        r == has_prefix(s@, prefix@),
{
    let chars: Vec<char> = chars_of(s);
    let wanted: Vec<char> = chars_of(prefix);
    if wanted.len() <= chars.len() {
        matches_at(&chars, &wanted, 0)
    } else {
        false
    }
}

/// `s` without `prefix` at its start, where it starts with it.
pub fn strip_prefix<'a>(s: &'a str, prefix: &str) -> (r: Option<&'a str>)
    ensures
        opt_str(r) == without_prefix(s@, prefix@),
{
    if starts_with(s, prefix) {
        let from: usize = prefix.unicode_len();
        let to: usize = s.unicode_len();
        proof {
            assert(s@.skip(from as int) =~= s@.subrange(from as int, to as int));
        }
        Some(s.substring_char(from, to))
    } else {
        None
    }
}

/// `s` without `prefix` at its start, or `s` itself where it does not start with it.
pub fn skip_prefix<'a>(s: &'a str, prefix: &str) -> (r: &'a str)
    ensures
        r@ == past_prefix(s@, prefix@),
{
    match strip_prefix(s, prefix) {
        Some(rest) => rest,
        None => s,
    }
}

/// Whether `pattern` stands somewhere in `s`.
pub fn contains(s: &str, pattern: &str) -> (r: bool)
    ensures
        r == has_text(s@, pattern@),
{
    let chars: Vec<char> = chars_of(s);
    let wanted: Vec<char> = chars_of(pattern);
    if wanted.len() > chars.len() {
        return false;
    }
    let last: usize = chars.len() - wanted.len();
    let mut at: usize = 0;
    while at < last
        invariant
            at <= last,
            last + wanted.len() == chars.len(),
            chars@ == s@,
            wanted@ == pattern@,
            forall|i: int| 0 <= i < at ==> !occurs_at(s@, pattern@, i),
        decreases last - at,
    {
        if matches_at(&chars, &wanted, at) {
            return true;
        }
        at += 1;
    }
    matches_at(&chars, &wanted, last)
}

/// `s` without `suffix` at its end.
pub fn drop_suffix<'a>(s: &'a str, suffix: &str) -> (r: &'a str)
    ensures
        r@ == before_suffix(s@, suffix@),
{
    let length: usize = s.unicode_len();
    let ending: usize = suffix.unicode_len();
    if ending > length {
        return s;
    }
    let to: usize = length - ending;
    if same_text(s.substring_char(to, length), suffix) {
        s.substring_char(0, to)
    } else {
        s
    }
}

/// The lines of `s`.
pub fn lines<'a>(s: &'a str) -> (r: Vec<&'a str>)
    ensures
        views(r@) == line_list(s@),
{
    let chars: Vec<char> = chars_of(s);
    let mut out: Vec<&'a str> = Vec::new();
    let mut from: usize = 0;
    proof {
        assert(s@.skip(0) =~= s@);
        assert(views(out@) + line_list(s@) =~= line_list(s@));
    }
    while from < chars.len()
        invariant
            from <= chars.len(),
            chars@ == s@,
            views(out@) + line_list(s@.skip(from as int)) == line_list(s@),
        decreases chars.len() - from,
    {
        let at: usize = position_from(&chars, '\n', from);
        let ghost rest = s@.skip(from as int);
        let ghost earlier = views(out@);
        if at < chars.len() {
            let to: usize = if at > from && chars[at - 1] == '\r' {
                at - 1
            } else {
                at
            };
            let line: &'a str = s.substring_char(from, to);
            out.push(line);
            proof {
                let n = char_position(rest, '\n') as int;
                assert(rest.take(n) =~= s@.subrange(from as int, at as int));
                assert(line@ =~= without_return(rest.take(n)));
                assert(rest.skip(n + 1) =~= s@.skip(at + 1));
                assert(views(out@) =~= earlier + seq![line@]);
                assert(views(out@) + line_list(s@.skip(at + 1)) =~= earlier + (seq![line@]
                    + line_list(s@.skip(at + 1))));
            }
            from = at + 1;
        } else {
            let line: &'a str = s.substring_char(from, at);
            out.push(line);
            proof {
                assert(line@ =~= rest);
                assert(s@.skip(at as int) =~= Seq::<char>::empty());
                assert(views(out@) + line_list(s@.skip(at as int)) =~= earlier + seq![rest]);
            }
            from = at;
        }
    }
    proof {
        assert(s@.skip(from as int) =~= Seq::<char>::empty());
        assert(views(out@) + line_list(s@.skip(from as int)) =~= views(out@));
    }
    out
}

/// The words of `s`.
pub fn words<'a>(s: &'a str) -> (r: Vec<&'a str>)
    ensures
        views(r@) == word_list(s@),
{
    let chars: Vec<char> = chars_of(s);
    let mut out: Vec<&'a str> = Vec::new();
    let mut from: usize = 0;
    proof {
        assert(s@.skip(0) =~= s@);
        assert(views(out@) + word_list(s@) =~= word_list(s@));
    }
    while from < chars.len()
        invariant
            from <= chars.len(),
            chars@ == s@,
            views(out@) + word_list(s@.skip(from as int)) == word_list(s@),
        decreases chars.len() - from,
    {
        let ghost rest = s@.skip(from as int);
        let ghost earlier = views(out@);
        if is_space(chars[from]) {
            proof {
                assert(rest.drop_first() =~= s@.skip(from + 1));
            }
            from += 1;
        } else {
            let mut to: usize = from + 1;
            while to < chars.len() && !is_space(chars[to])
                invariant
                    from < to <= chars.len(),
                    chars@ == s@,
                    forall|i: int| from <= i < to ==> !is_whitespace(s@[i]),
                decreases chars.len() - to,
            {
                to += 1;
            }
            let word: &'a str = s.substring_char(from, to);
            out.push(word);
            proof {
                lemma_word_length(rest, to - from);
                assert(rest.take(to - from) =~= word@);
                assert(rest.skip(to - from) =~= s@.skip(to as int));
                assert(views(out@) =~= earlier + seq![word@]);
                assert(views(out@) + word_list(s@.skip(to as int)) =~= earlier + (seq![word@]
                    + word_list(s@.skip(to as int))));
            }
            from = to;
        }
    }
    proof {
        assert(s@.skip(from as int) =~= Seq::<char>::empty());
        assert(views(out@) + word_list(s@.skip(from as int)) =~= views(out@));
    }
    out
}

/// `parts` in order, with `separator` between each two.
pub fn join(parts: &Vec<&str>, separator: &str) -> (r: String)
    ensures
        r@ == joined(views(parts@), separator@),
{
    let mut out: String = String::new();
    let mut i: usize = 0;
    let ghost all = views(parts@);
    while i < parts.len()
        invariant
            i <= parts.len(),
            all == views(parts@),
            out@ == joined(all.take(i as int), separator@),
        decreases parts.len() - i,
    {
        if i > 0 {
            out.append(separator);
        }
        out.append(parts[i]);
        proof {
            let now = all.take(i + 1);
            assert(now.drop_last() =~= all.take(i as int));
            assert(now.last() == parts@[i as int]@);
            if i == 0 {
                assert(out@ =~= now[0]);
            }
        }
        i += 1;
    }
    proof {
        assert(all.take(i as int) =~= all);
    }
    out
}

/// `parts` in order, with `separator` between each two.
pub fn join_strings(parts: &Vec<String>, separator: &str) -> (r: String)
    ensures
        r@ == joined(string_views(parts@), separator@),
{
    let mut slices: Vec<&str> = Vec::new();
    let mut i: usize = 0;
    while i < parts.len()
        invariant
            i <= parts.len(),
            views(slices@) == string_views(parts@).take(i as int),
        decreases parts.len() - i,
    {
        let ghost earlier = views(slices@);
        slices.push(parts[i].as_str());
        proof {
            assert(views(slices@) =~= earlier.push(parts@[i as int]@));
            assert(string_views(parts@).take(i + 1) =~= earlier.push(parts@[i as int]@));
        }
        i += 1;
    }
    proof {
        assert(string_views(parts@).take(i as int) =~= string_views(parts@));
    }
    join(&slices, separator)
}

fn digit_text(d: u64) -> (r: &'static str)
    requires
        d < 10,
    ensures
        r@ == seq![digit(d as nat)],
{
    proof {
        reveal_strlit("0");
        reveal_strlit("1");
        reveal_strlit("2");
        reveal_strlit("3");
        reveal_strlit("4");
        reveal_strlit("5");
        reveal_strlit("6");
        reveal_strlit("7");
        reveal_strlit("8");
        reveal_strlit("9");
    }
    let r: &'static str = match d {
        0 => "0",
        1 => "1",
        2 => "2",
        3 => "3",
        4 => "4",
        5 => "5",
        6 => "6",
        7 => "7",
        8 => "8",
        _ => "9",
    };
    assert(r@ =~= seq![digit(d as nat)]);
    r
}

/// The decimal numeral of `n`.
pub fn decimal(n: u64) -> (r: String)
    ensures
        r@ == decimal_of(n as nat),
    decreases n,
{
    if n < 10 {
        digit_text(n).to_string()
    } else {
        let mut out: String = decimal(n / 10);
        out.append(digit_text(n % 10));
        proof {
            assert(out@ =~= decimal_of(n as nat / 10).push(digit(n as nat % 10)));
        }
        out
    }
}

/// The value of a decimal numeral, where it is one and the value fits.
pub fn parse_usize(s: &str) -> (r: Option<usize>)
    ensures
        match r {
            Some(n) => numeral_value(s@) == Some(n as nat),
            None => numeral_value(s@) is None || numeral_value(s@)->0 > usize::MAX,
        },
{
    let chars: Vec<char> = chars_of(s);
    let from: usize = if chars.len() > 0 && chars[0] == '+' {
        1
    } else {
        0
    };
    let ghost digits = s@.skip(from as int);
    proof {
        if from == 0 {
            assert(digits =~= s@);
        } else {
            assert(digits =~= s@.drop_first());
        }
    }
    if from == chars.len() {
        return None;
    }
    let mut total: usize = 0;
    let mut i: usize = from;
    assert(digits.take(0) =~= Seq::<char>::empty());
    while i < chars.len()
        invariant
            from <= i <= chars.len(),
            chars@ == s@,
            digits == s@.skip(from as int),
            numeral_value(s@) == digits_value(digits),
            digits_value(digits.take(i - from)) == Some(total as nat),
        decreases chars.len() - i,
    {
        let c: char = chars[i];
        let ghost now = digits.take(i + 1 - from);
        proof {
            assert(now.drop_last() =~= digits.take(i - from));
            assert(now.last() == c);
            if digits_value(digits) is Some {
                lemma_digits_prefix(digits, i + 1 - from);
            }
        }
        if c < '0' || c > '9' {
            return None;
        }
        let low: usize = c as usize - 48;
        if total > (usize::MAX - low) / 10 {
            return None;
        }
        total = total * 10 + low;
        i += 1;
    }
    assert(digits.take(i - from) =~= digits);
    Some(total)
}

/// White space: the controls from the tabulator to the carriage return, the space, the next line, and
/// the spaces and separators of Unicode.
pub proof fn lemma_white_space(c: char)
    ensures
        is_whitespace(c) <==> seq![
            '\t',
            '\n',
            '\u{b}',
            '\u{c}',
            '\r',
            ' ',
            '\u{85}',
            '\u{a0}',
            '\u{1680}',
            '\u{2000}',
            '\u{2001}',
            '\u{2002}',
            '\u{2003}',
            '\u{2004}',
            '\u{2005}',
            '\u{2006}',
            '\u{2007}',
            '\u{2008}',
            '\u{2009}',
            '\u{200a}',
            '\u{2028}',
            '\u{2029}',
            '\u{202f}',
            '\u{205f}',
            '\u{3000}',
        ].contains(c),
{
    let all = seq![
        '\t',
        '\n',
        '\u{b}',
        '\u{c}',
        '\r',
        ' ',
        '\u{85}',
        '\u{a0}',
        '\u{1680}',
        '\u{2000}',
        '\u{2001}',
        '\u{2002}',
        '\u{2003}',
        '\u{2004}',
        '\u{2005}',
        '\u{2006}',
        '\u{2007}',
        '\u{2008}',
        '\u{2009}',
        '\u{200a}',
        '\u{2028}',
        '\u{2029}',
        '\u{202f}',
        '\u{205f}',
        '\u{3000}',
    ];
    if is_whitespace(c) {
        let code = c as int;
        let at: int = if code <= 0xd {
            code - 9
        } else if code == 0x20 {
            5
        } else if code == 0x85 {
            6
        } else if code == 0xa0 {
            7
        } else if code == 0x1680 {
            8
        } else if code <= 0x200a {
            code - 0x2000 + 9
        } else if code == 0x2028 {
            20
        } else if code == 0x2029 {
            21
        } else if code == 0x202f {
            22
        } else if code == 0x205f {
            23
        } else {
            24
        };
        assert(all[at] == c);
    }
}

/// Two texts are in the order of the first characters in which they differ, and a text comes before
/// a longer one that starts with it.
pub proof fn lemma_order_of_texts(
    front: Seq<char>,
    a: char,
    b: char,
    rest: Seq<char>,
    other: Seq<char>,
)
    ensures
        a != b ==> (precedes(front + (seq![a] + rest), front + (seq![b] + other)) <==> (a as int)
            < b as int),
        precedes(front, front + (seq![a] + rest)),
        !precedes(front + (seq![a] + rest), front),
    decreases front.len(),
{
    let one = front + (seq![a] + rest);
    let two = front + (seq![b] + other);
    if front.len() > 0 {
        lemma_order_of_texts(front.drop_first(), a, b, rest, other);
        assert(one.drop_first() =~= front.drop_first() + (seq![a] + rest));
        assert(two.drop_first() =~= front.drop_first() + (seq![b] + other));
    }
}

/// A digit behind a numeral counts one, and what precedes it ten times as much.
pub proof fn lemma_digits_count_by_ten(numeral: Seq<char>, n: nat, d: nat)
    requires
        numeral_value(numeral) == Some(n),
        d < 10,
    ensures
        numeral_value(numeral.push((48 + d) as char)) == Some(n * 10 + d),
        numeral_value(seq![(48 + d) as char]) == Some(d),
{
    let longer = numeral.push((48 + d) as char);
    let one = seq![(48 + d) as char];
    reveal_with_fuel(digits_value, 2);
    assert(one.drop_last() =~= Seq::<char>::empty());
    assert(longer[0] == numeral[0]);
    assert(longer.drop_last() =~= numeral);
    if numeral[0] == '+' {
        assert(longer.drop_first().drop_last() =~= numeral.drop_first());
        assert(longer.drop_first().last() == (48 + d) as char);
    }
}

} // verus!
