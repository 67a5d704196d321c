//! Text as sequences of characters.
//!
//! Device output reaches the library as `&str`; the parsers work on slices of its characters.
//! This module holds the vocabulary that the parsers share, as spec functions over `Seq<char>`,
//! together with executable functions that meet them.

use vstd::prelude::*;
use vstd::slice::slice_subrange;

verus! {

/// Appends one character to a string.
///
/// Trusted: `String::push` of the standard library, which appends the given `char` to the end
/// of the string.
pub assume_specification[ String::push ](s: &mut String, ch: char)
    ensures
        final(s)@ == old(s)@.push(ch),
;

/// The abstract values of a sequence of concrete ones, element by element.
pub open spec fn views<T: View>(s: Seq<T>) -> Seq<T::V> {
    s.map_values(|x: T| x@)
}

/// Appending a value appends its abstract value.
pub broadcast proof fn lemma_views_push<T: View>(s: Seq<T>, x: T)
    ensures
        #[trigger] views(s.push(x)) == views(s).push(x@),
{
    assert(views(s.push(x)) =~= views(s).push(x@));
}

/// The text in an optional string.
pub open spec fn optional(s: Option<String>) -> Option<Seq<char>> {
    match s {
        Some(s) => Some(s@),
        None => None,
    }
}

/// The text in an optional string slice.
pub open spec fn optional_str(s: Option<&str>) -> Option<Seq<char>> {
    match s {
        Some(s) => Some(s@),
        None => None,
    }
}

/// The text in a result, on either side.
pub open spec fn result(r: Result<String, String>) -> Result<Seq<char>, Seq<char>> {
    match r {
        Ok(s) => Ok(s@),
        Err(s) => Err(s@),
    }
}

/// A class of characters.
#[derive(Clone, Copy)]
pub enum CharClass {
    /// Unicode white space.
    White,
    /// The ASCII digits.
    Digit,
    /// One given character.
    One(char),
    /// What separates the items of a CPU list: a comma or white space.
    ListBreak,
    /// What cannot stand in a dotted IPv4 address: neither an ASCII digit nor a full stop.
    NotInAddress,
}

/// Whether a character has the Unicode property `White_Space`.
pub open spec fn is_white(c: char) -> bool {
    let u = c as u32;
    ||| 0x09 <= u <= 0x0d
    ||| u == 0x20
    ||| u == 0x85
    ||| u == 0xa0
    ||| u == 0x1680
    ||| 0x2000 <= u <= 0x200a
    ||| u == 0x2028
    ||| u == 0x2029
    ||| u == 0x202f
    ||| u == 0x205f
    ||| u == 0x3000
}

/// Whether a character is one of the ten ASCII digits.
pub open spec fn is_digit(c: char) -> bool {
    '0' <= c && c <= '9'
}

impl CharClass {
    /// Whether the class holds the character.
    pub open spec fn holds(self, c: char) -> bool {
        match self {
            CharClass::White => is_white(c),
            CharClass::Digit => is_digit(c),
            CharClass::One(d) => c == d,
            CharClass::ListBreak => c == ',' || is_white(c),
            CharClass::NotInAddress => !(is_digit(c) || c == '.'),
        }
    }

    /// Tests whether the class holds the character.
    pub fn test(self, c: char) -> (r: bool)
        ensures
            r == self.holds(c),
    {
        let u: u32 = c as u32;
        let white: bool = (0x09 <= u && u <= 0x0d) || u == 0x20 || u == 0x85 || u == 0xa0 || u
            == 0x1680 || (0x2000 <= u && u <= 0x200a) || u == 0x2028 || u == 0x2029 || u == 0x202f
            || u == 0x205f || u == 0x3000;
        let digit: bool = '0' <= c && c <= '9';
        match self {
            CharClass::White => white,
            CharClass::Digit => digit,
            CharClass::One(d) => c == d,
            CharClass::ListBreak => c == ',' || white,
            CharClass::NotInAddress => !(digit || c == '.'),
        }
    }
}

// ---------------------------------------------------------------------------
// The vocabulary
// ---------------------------------------------------------------------------

/// The first result that a partial function gives on the elements, from left to right.
pub open spec fn first_some<A, B>(s: Seq<A>, f: spec_fn(A) -> Option<B>) -> Option<B>
    decreases s.len(),
{
    if s.len() == 0 {
        None
    } else {
        match f(s[0]) {
            Some(b) => Some(b),
            None => first_some(s.skip(1), f),
        }
    }
}

/// The last result that a partial function gives on the elements, from left to right.
pub open spec fn last_some<A, B>(s: Seq<A>, f: spec_fn(A) -> Option<B>) -> Option<B>
    decreases s.len(),
{
    if s.len() == 0 {
        None
    } else {
        match f(s.last()) {
            Some(b) => Some(b),
            None => last_some(s.drop_last(), f),
        }
    }
}

/// The position of the first character of the class, or the length where there is none.
pub open spec fn index_of(s: Seq<char>, class: CharClass) -> nat
    decreases s.len(),
{
    if s.len() == 0 || class.holds(s[0]) {
        0
    } else {
        1 + index_of(s.skip(1), class)
    }
}

/// A text without its leading characters of the class.
pub open spec fn trim_start_of(s: Seq<char>, class: CharClass) -> Seq<char>
    decreases s.len(),
{
    if s.len() > 0 && class.holds(s[0]) {
        trim_start_of(s.skip(1), class)
    } else {
        s
    }
}

/// A text without its trailing characters of the class.
pub open spec fn trim_end_of(s: Seq<char>, class: CharClass) -> Seq<char>
    decreases s.len(),
{
    if s.len() > 0 && class.holds(s.last()) {
        trim_end_of(s.drop_last(), class)
    } else {
        s
    }
}

/// A text without its leading and trailing characters of the class.
pub open spec fn trim_of(s: Seq<char>, class: CharClass) -> Seq<char> {
    trim_end_of(trim_start_of(s, class), class)
}

/// A text without leading and trailing white space.
pub open spec fn trim(s: Seq<char>) -> Seq<char> {
    trim_of(s, CharClass::White)
}

/// A line without the carriage return that may stand before its line feed.
pub open spec fn without_cr(s: Seq<char>) -> Seq<char> {
    if s.len() > 0 && s.last() == '\r' {
        s.drop_last()
    } else {
        s
    }
}

/// The lines of a text. A line ends in a line feed, which a carriage return may precede; the
/// last line may go without. The line ends are not part of the lines.
pub open spec fn lines(s: Seq<char>) -> Seq<Seq<char>>
    decreases s.len(),
{
    let n = index_of(s, CharClass::One('\n')) as int;
    if s.len() == 0 {
        Seq::empty()
    } else if n >= s.len() {
        seq![s]
    } else {
        seq![without_cr(s.take(n))] + lines(s.skip(n + 1))
    }
}

/// The longest runs of characters that are not white space, from left to right.
pub open spec fn words(s: Seq<char>) -> Seq<Seq<char>>
    decreases s.len(),
{
    if s.len() == 0 {
        Seq::empty()
    } else if is_white(s[0]) {
        words(s.skip(1))
    } else {
        let n = index_of(s, CharClass::White) as int;
        proof {
            lemma_index_of(s, CharClass::White);
        }
        seq![s.take(n)] + words(s.skip(n))
    }
}

/// The pieces between the characters of the class; there is one piece more than there are
/// such characters.
pub open spec fn split_on(s: Seq<char>, class: CharClass) -> Seq<Seq<char>>
    decreases s.len(),
{
    let n = index_of(s, class) as int;
    if n >= s.len() {
        seq![s]
    } else {
        seq![s.take(n)] + split_on(s.skip(n + 1), class)
    }
}

/// The rest of a text behind a prefix, if it has that prefix.
pub open spec fn strip_prefix(s: Seq<char>, p: Seq<char>) -> Option<Seq<char>> {
    if p.is_prefix_of(s) {
        Some(s.skip(p.len() as int))
    } else {
        None
    }
}

/// The rest of a text before a suffix, if it has that suffix.
pub open spec fn strip_suffix(s: Seq<char>, p: Seq<char>) -> Option<Seq<char>> {
    if p.is_suffix_of(s) {
        Some(s.take(s.len() - p.len()))
    } else {
        None
    }
}

/// Whether the pattern stands in the text at the position.
pub open spec fn occurs_at(s: Seq<char>, p: Seq<char>, i: int) -> bool {
    0 <= i && i + p.len() <= s.len() && s.subrange(i, i + p.len()) == p
}

/// Whether the pattern stands anywhere in the text.
pub open spec fn contains(s: Seq<char>, p: Seq<char>) -> bool {
    exists|i: int| occurs_at(s, p, i)
}

/// Whether the position is the first one at which the pattern stands in the text.
pub open spec fn first_occurs_at(s: Seq<char>, p: Seq<char>, i: int) -> bool {
    occurs_at(s, p, i) && forall|j: int| 0 <= j < i ==> !occurs_at(s, p, j)
}

/// What stands before and behind the first occurrence of the separator, if there is one.
pub open spec fn split_once(s: Seq<char>, p: Seq<char>) -> Option<(Seq<char>, Seq<char>)> {
    if contains(s, p) {
        let i = choose|i: int| first_occurs_at(s, p, i);
        Some((s.take(i), s.skip(i + p.len())))
    } else {
        None
    }
}

/// The lower-case form of an ASCII letter; every other character stays.
pub open spec fn lower_char(c: char) -> char {
    if 'A' <= c && c <= 'Z' {
        (c as u32 + 32) as char
    } else {
        c
    }
}

/// A text with its ASCII letters in lower case.
pub open spec fn lower(s: Seq<char>) -> Seq<char> {
    s.map_values(|c: char| lower_char(c))
}

/// What replaces one character: `to` for the character `from`, every other one itself.
pub open spec fn replacement(c: char, from: char, to: Seq<char>) -> Seq<char> {
    if c == from {
        to
    } else {
        seq![c]
    }
}

/// A text in which every occurrence of one character is replaced by another text.
pub open spec fn replace(s: Seq<char>, from: char, to: Seq<char>) -> Seq<char> {
    s.flat_map(|c: char| replacement(c, from, to))
}

/// The parts one after the other, with the separator between neighbours.
pub open spec fn join(parts: Seq<Seq<char>>, sep: Seq<char>) -> Seq<char>
    decreases parts.len(),
{
    if parts.len() == 0 {
        Seq::empty()
    } else if parts.len() == 1 {
        parts[0]
    } else {
        join(parts.drop_last(), sep) + sep + parts.last()
    }
}

// ---------------------------------------------------------------------------
// Facts about the vocabulary
// ---------------------------------------------------------------------------

/// How `first_some` goes from one element to the next.
pub proof fn lemma_first_some_at<A, B>(s: Seq<A>, f: spec_fn(A) -> Option<B>, i: int)
    requires
        0 <= i <= s.len(),
    ensures
        s.skip(0) == s,
        i == s.len() ==> first_some(s.skip(i), f) is None,
        i < s.len() ==> first_some(s.skip(i), f) == match f(s[i]) {
            Some(b) => Some(b),
            None => first_some(s.skip(i + 1), f),
        },
{
    assert(s.skip(0) =~= s);
    if i < s.len() {
        assert(s.skip(i).skip(1) =~= s.skip(i + 1));
    }
}

/// How `last_some` goes from one element to the one before it.
pub proof fn lemma_last_some_at<A, B>(s: Seq<A>, f: spec_fn(A) -> Option<B>, n: int)
    requires
        0 <= n <= s.len(),
    ensures
        s.take(s.len() as int) == s,
        n == 0 ==> last_some(s.take(n), f) is None,
        n > 0 ==> last_some(s.take(n), f) == match f(s[n - 1]) {
            Some(b) => Some(b),
            None => last_some(s.take(n - 1), f),
        },
{
    assert(s.take(s.len() as int) =~= s);
    if n > 0 {
        assert(s.take(n).drop_last() =~= s.take(n - 1));
    }
}

/// The first element that gives something decides.
pub proof fn lemma_first_some_is<A, B>(s: Seq<A>, f: spec_fn(A) -> Option<B>, k: int)
    requires
        0 <= k < s.len(),
        forall|i: int| 0 <= i < k ==> f(#[trigger] s[i]) is None,
        f(s[k]) is Some,
    ensures
        first_some(s, f) == f(s[k]),
    decreases k,
{
    if k > 0 {
        let rest = s.skip(1);
        assert(f(s[0]) is None);
        assert forall|i: int| 0 <= i < k - 1 implies f(#[trigger] rest[i]) is None by {
            assert(rest[i] == s[i + 1]);
        }
        lemma_first_some_is(rest, f, k - 1);
    }
}

/// Where no element gives anything, there is nothing.
pub proof fn lemma_first_some_none<A, B>(s: Seq<A>, f: spec_fn(A) -> Option<B>)
    requires
        forall|i: int| 0 <= i < s.len() ==> f(#[trigger] s[i]) is None,
    ensures
        first_some(s, f) is None,
    decreases s.len(),
{
    if s.len() > 0 {
        let rest = s.skip(1);
        assert forall|i: int| 0 <= i < rest.len() implies f(#[trigger] rest[i]) is None by {
            assert(rest[i] == s[i + 1]);
        }
        lemma_first_some_none(rest, f);
    }
}

/// The last element that gives something decides.
pub proof fn lemma_last_some_is<A, B>(s: Seq<A>, f: spec_fn(A) -> Option<B>, k: int)
    requires
        0 <= k < s.len(),
        forall|i: int| k < i < s.len() ==> f(#[trigger] s[i]) is None,
        f(s[k]) is Some,
    ensures
        last_some(s, f) == f(s[k]),
    decreases s.len(),
{
    if k < s.len() - 1 {
        let rest = s.drop_last();
        assert(f(s[s.len() - 1]) is None);
        assert forall|i: int| k < i < rest.len() implies f(#[trigger] rest[i]) is None by {
            assert(rest[i] == s[i]);
        }
        lemma_last_some_is(rest, f, k);
    }
}

/// `index_of` finds a first position.
pub proof fn lemma_index_of(s: Seq<char>, class: CharClass)
    ensures
        index_of(s, class) <= s.len(),
        forall|i: int| 0 <= i < index_of(s, class) ==> !class.holds(#[trigger] s[i]),
        index_of(s, class) < s.len() ==> class.holds(s[index_of(s, class) as int]),
    decreases s.len(),
{
    if s.len() == 0 || class.holds(s[0]) {
    } else {
        let t = s.skip(1);
        lemma_index_of(t, class);
        assert forall|i: int| 0 <= i < index_of(s, class) implies !class.holds(#[trigger] s[i]) by {
            if i > 0 {
                assert(s[i] == t[i - 1]);
            }
        }
    }
}

/// A first position is what `index_of` finds.
pub proof fn lemma_index_of_is(s: Seq<char>, class: CharClass, n: int)
    requires
        0 <= n <= s.len(),
        forall|i: int| 0 <= i < n ==> !class.holds(#[trigger] s[i]),
        n < s.len() ==> class.holds(s[n]),
    ensures
        index_of(s, class) == n,
{
    lemma_index_of(s, class);
    let m = index_of(s, class) as int;
    if m < n {
        assert(!class.holds(s[m]));
    } else if n < m {
        assert(!class.holds(s[n]));
    }
}

/// Splitting leaves at least one piece.
pub proof fn lemma_split_on_nonempty(s: Seq<char>, class: CharClass)
    ensures
        split_on(s, class).len() > 0,
{
}

/// The first occurrence is unique.
pub proof fn lemma_split_once_is(s: Seq<char>, p: Seq<char>, i: int)
    requires
        first_occurs_at(s, p, i),
    ensures
        split_once(s, p) == Some((s.take(i), s.skip(i + p.len()))),
{
    let j = choose|j: int| first_occurs_at(s, p, j);
    assert(first_occurs_at(s, p, i));
    if i < j {
        assert(!occurs_at(s, p, i));
    } else if j < i {
        assert(!occurs_at(s, p, j));
    }
}

/// Replacement works character by character.
pub proof fn lemma_replace_push(s: Seq<char>, c: char, from: char, to: Seq<char>)
    ensures
        replace(s.push(c), from, to) == replace(s, from, to) + replacement(c, from, to),
{
    s.lemma_flat_map_push(|c: char| replacement(c, from, to), c);
}

/// Replacing a character brings in no character that the new text does not hold, and leaves no
/// occurrence of the replaced one.
pub proof fn lemma_replace_leaves_out(s: Seq<char>, from: char, to: Seq<char>, c: char)
    requires
        !to.contains(c),
        c == from || !s.contains(c),
    ensures
        !replace(s, from, to).contains(c),
    decreases s.len(),
{
    if s.len() == 0 {
        assert(replace(s, from, to) =~= Seq::empty());
    } else {
        let rest = s.drop_last();
        assert(rest.push(s.last()) =~= s);
        assert(forall|x: char| rest.contains(x) ==> s.contains(x));
        assert(s.contains(s.last()));
        lemma_replace_leaves_out(rest, from, to, c);
        lemma_replace_push(rest, s.last(), from, to);
        let before = replace(rest, from, to);
        let added = replacement(s.last(), from, to);
        assert forall|i: int| 0 <= i < (before + added).len() implies (before + added)[i] != c by {
            if i < before.len() {
                assert(before.contains(before[i]));
            } else {
                assert(added.contains(added[i - before.len()]));
            }
        }
    }
}

// ---------------------------------------------------------------------------
// Laws
// ---------------------------------------------------------------------------

/// Whether a text holds no character of a class.
pub open spec fn is_free_of(s: Seq<char>, class: CharClass) -> bool {
    forall|i: int| 0 <= i < s.len() ==> !class.holds(#[trigger] s[i])
}

/// Whether a text holds only characters of a class.
pub open spec fn is_made_of(s: Seq<char>, class: CharClass) -> bool {
    forall|i: int| 0 <= i < s.len() ==> class.holds(#[trigger] s[i])
}

/// Blanks, tabs and the ends of lines are white space; digits, letters and the other printable
/// ASCII characters are not. Lists break at commas and white space, and an address holds digits
/// and full stops.
pub proof fn law_classes(c: char)
    ensures
        is_white(' ') && is_white('\t') && is_white('\n') && is_white('\r'),
        '!' <= c && c <= '~' ==> !is_white(c),
        is_digit(c) <==> '0' <= c && c <= '9',
        CharClass::White.holds(c) == is_white(c),
        CharClass::Digit.holds(c) == is_digit(c),
        CharClass::ListBreak.holds(c) == (c == ',' || is_white(c)),
        CharClass::NotInAddress.holds(c) == (!is_digit(c) && c != '.'),
{
}

/// Only the ASCII capitals have another form in small letters, and small letters stay.
pub proof fn law_small_letters(s: Seq<char>, i: int)
    requires
        0 <= i < s.len(),
    ensures
        lower(s).len() == s.len(),
        'A' <= s[i] && s[i] <= 'Z' ==> lower(s)[i] as u32 == s[i] as u32 + 32,
        !('A' <= s[i] && s[i] <= 'Z') ==> lower(s)[i] == s[i],
        lower(lower(s)) == lower(s),
{
    assert(lower(lower(s)) =~= lower(s));
}

/// A line and its end are followed by the lines of the rest; the end may have a carriage return.
/// A text without a line feed is one line.
pub proof fn law_lines(line: Seq<char>, rest: Seq<char>)
    requires
        is_free_of(line, CharClass::One('\n')),
    ensures
        line.len() == 0 || line.last() != '\r' ==> lines(line + seq!['\n'] + rest) == seq![line]
            + lines(rest),
        lines(line + seq!['\r', '\n'] + rest) == seq![line] + lines(rest),
        lines(line) == if line.len() == 0 {
            Seq::empty()
        } else {
            seq![line]
        },
{
    let n = line.len() as int;
    let plain = line + seq!['\n'] + rest;
    lemma_index_of_is(plain, CharClass::One('\n'), n);
    assert(plain.take(n) =~= line);
    assert(plain.skip(n + 1) =~= rest);
    let long = line + seq!['\r', '\n'] + rest;
    assert(long[n] == '\r');
    lemma_index_of_is(long, CharClass::One('\n'), n + 1);
    assert(long.take(n + 1) =~= line.push('\r'));
    assert(line.push('\r').drop_last() =~= line);
    assert(long.skip(n + 2) =~= rest);
    lemma_index_of_is(line, CharClass::One('\n'), n);
}

/// What lines give comes in the order of the lines: what the first line gives stands before what
/// the rest gives, and a line that gives nothing does not matter.
pub proof fn law_lines_give_in_order<B>(
    line: Seq<char>,
    rest: Seq<char>,
    f: spec_fn(Seq<char>) -> Option<B>,
)
    requires
        is_free_of(line, CharClass::One('\n')),
        line.len() == 0 || line.last() != '\r',
    ensures
        lines(line + seq!['\n'] + rest).filter_map(f) == match f(line) {
            Some(b) => seq![b] + lines(rest).filter_map(f),
            None => lines(rest).filter_map(f),
        },
        first_some(lines(line + seq!['\n'] + rest), f) == match f(line) {
            Some(b) => Some(b),
            None => first_some(lines(rest), f),
        },
{
    law_lines(line, rest);
    lemma_filter_map_first(line, lines(rest), f);
    assert((seq![line] + lines(rest)).skip(1) =~= lines(rest));
}

proof fn lemma_filter_map_first<A, B>(first: A, rest: Seq<A>, f: spec_fn(A) -> Option<B>)
    ensures
        (seq![first] + rest).filter_map(f) == match f(first) {
            Some(b) => seq![b] + rest.filter_map(f),
            None => rest.filter_map(f),
        },
    decreases rest.len(),
{
    let all = seq![first] + rest;
    if rest.len() == 0 {
        Seq::<A>::lemma_filter_map_singleton(first, f);
        assert(all =~= seq![first]);
        assert(rest.filter_map(f) =~= Seq::empty());
        if let Some(b) = f(first) {
            assert(seq![b] + rest.filter_map(f) =~= seq![b]);
        }
    } else {
        lemma_filter_map_first(first, rest.drop_last(), f);
        assert(all.drop_last() =~= seq![first] + rest.drop_last());
        assert(all.last() == rest.last());
        assert(all.filter_map(f) =~= match f(first) {
            Some(b) => seq![b] + rest.filter_map(f),
            None => rest.filter_map(f),
        });
    }
}

/// Every part of joined parts stands in the whole.
pub proof fn law_joined_parts(parts: Seq<Seq<char>>, sep: Seq<char>, i: int)
    requires
        0 <= i < parts.len(),
    ensures
        contains(join(parts, sep), parts[i]),
    decreases parts.len(),
{
    let whole = join(parts, sep);
    if parts.len() == 1 {
        assert(whole.subrange(0, whole.len() as int) =~= parts[0]);
        assert(occurs_at(whole, parts[0], 0));
    } else if i == parts.len() - 1 {
        let at = whole.len() - parts.last().len();
        assert(whole.subrange(at, at + parts.last().len()) =~= parts.last());
        assert(occurs_at(whole, parts[i], at));
    } else {
        let before = parts.drop_last();
        law_joined_parts(before, sep, i);
        let at = choose|at: int| occurs_at(join(before, sep), before[i], at);
        assert(whole.subrange(at, at + parts[i].len()) =~= join(before, sep).subrange(
            at,
            at + parts[i].len(),
        ));
        assert(occurs_at(whole, parts[i], at));
    }
}

/// A text stands in itself.
pub proof fn lemma_contains_self(s: Seq<char>)
    ensures
        contains(s, s),
{
    assert(s.subrange(0, s.len() as int) =~= s);
    assert(occurs_at(s, s, 0));
}

/// What stands in the first of two texts stands in both together.
pub proof fn lemma_contains_left(a: Seq<char>, b: Seq<char>, p: Seq<char>)
    requires
        contains(a, p),
    ensures
        contains(a + b, p),
{
    let i = choose|i: int| occurs_at(a, p, i);
    assert((a + b).subrange(i, i + p.len()) =~= a.subrange(i, i + p.len()));
    assert(occurs_at(a + b, p, i));
}

/// What stands in the second of two texts stands in both together.
pub proof fn lemma_contains_right(a: Seq<char>, b: Seq<char>, p: Seq<char>)
    requires
        contains(b, p),
    ensures
        contains(a + b, p),
{
    let i = choose|i: int| occurs_at(b, p, i);
    let at = a.len() + i;
    assert((a + b).subrange(at, at + p.len()) =~= b.subrange(i, i + p.len()));
    assert(occurs_at(a + b, p, at));
}

/// How the first elements of a list go from one number of them to the next.
pub proof fn lemma_first_elements<A>(s: Seq<A>, n: int)
    requires
        0 < n <= s.len(),
    ensures
        s.take(n).len() == n,
        s.take(n).drop_last() == s.take(n - 1),
        s.take(n).last() == s[n - 1],
{
    assert(s.take(n).drop_last() =~= s.take(n - 1));
}

/// The first texts of a row of texts, one behind the other.
pub open spec fn in_a_row(f: spec_fn(int) -> Seq<char>, n: nat) -> Seq<char>
    decreases n,
{
    if n == 0 {
        Seq::empty()
    } else {
        in_a_row(f, (n - 1) as nat) + f(n - 1)
    }
}

/// Every text of a row stands in the whole.
pub proof fn lemma_in_a_row(f: spec_fn(int) -> Seq<char>, n: nat, i: int)
    requires
        0 <= i < n,
    ensures
        contains(in_a_row(f, n), f(i)),
    decreases n,
{
    if i == n - 1 {
        lemma_contains_self(f(i));
        lemma_contains_right(in_a_row(f, (n - 1) as nat), f(i), f(i));
    } else {
        lemma_in_a_row(f, (n - 1) as nat, i);
        lemma_contains_left(in_a_row(f, (n - 1) as nat), f(n - 1), f(i));
    }
}

/// What stands in a text stands in every text that holds it.
pub proof fn lemma_contains_within(before: Seq<char>, s: Seq<char>, behind: Seq<char>, p: Seq<char>)
    requires
        contains(s, p),
    ensures
        contains(before + s + behind, p),
{
    let i = choose|i: int| occurs_at(s, p, i);
    let whole = before + s + behind;
    let at = before.len() + i;
    assert(whole.subrange(at, at + p.len()) =~= s.subrange(i, i + p.len()));
    assert(occurs_at(whole, p, at));
}

/// A word and white space are followed by the words of the rest, and white space before a word
/// does not count.
pub proof fn law_words(word: Seq<char>, white: char, rest: Seq<char>)
    requires
        word.len() > 0,
        is_free_of(word, CharClass::White),
        is_white(white),
    ensures
        words(word + seq![white] + rest) == seq![word] + words(rest),
        words(word) == seq![word],
        words(seq![white] + rest) == words(rest),
{
    let n = word.len() as int;
    let whole = word + seq![white] + rest;
    assert(whole[0] == word[0]);
    assert(!is_white(word[0])) by {
        assert(!CharClass::White.holds(word[0]));
    }
    lemma_index_of_is(whole, CharClass::White, n);
    assert(whole.take(n) =~= word);
    assert(whole.skip(n) =~= seq![white] + rest);
    let tail = seq![white] + rest;
    assert(tail[0] == white);
    assert(tail.skip(1) =~= rest);
    assert(words(tail) == words(rest));
    assert(words(whole) == seq![word] + words(tail));
    lemma_index_of_is(word, CharClass::White, n);
    assert(word.take(n) =~= word);
    assert(word.skip(n) =~= Seq::empty());
    assert(words(Seq::<char>::empty()) =~= Seq::empty());
    assert(seq![word] + Seq::<Seq<char>>::empty() =~= seq![word]);
}

/// Words that are joined by single spaces are the words of the whole.
pub proof fn law_joined_words(parts: Seq<Seq<char>>)
    requires
        forall|i: int|
            0 <= i < parts.len() ==> (#[trigger] parts[i]).len() > 0 && is_free_of(
                parts[i],
                CharClass::White,
            ),
    ensures
        words(join(parts, seq![' '])) == parts,
{
    lemma_joined_words_before(parts, Seq::empty());
    assert(join(parts, seq![' ']) + Seq::<char>::empty() =~= join(parts, seq![' ']));
    assert(words(Seq::<char>::empty()) =~= Seq::empty());
    assert(parts + Seq::<Seq<char>>::empty() =~= parts);
}

/// What follows joined words, be it nothing or white space and more, adds its own words.
pub proof fn lemma_joined_words_before(parts: Seq<Seq<char>>, rest: Seq<char>)
    requires
        forall|i: int|
            0 <= i < parts.len() ==> (#[trigger] parts[i]).len() > 0 && is_free_of(
                parts[i],
                CharClass::White,
            ),
        rest.len() == 0 || is_white(rest[0]),
    ensures
        words(join(parts, seq![' ']) + rest) == parts + words(rest),
    decreases parts.len(),
{
    let sep = seq![' '];
    if parts.len() == 0 {
        assert(join(parts, sep) + rest =~= rest);
        assert(parts + words(rest) =~= words(rest));
    } else {
        let word = parts.last();
        let before = parts.drop_last();
        assert(words(word + rest) == seq![word] + words(rest)) by {
            if rest.len() == 0 {
                law_words(word, ' ', rest);
                assert(word + rest =~= word);
                assert(seq![word] + words(rest) =~= seq![word]);
            } else {
                law_words(word, rest[0], rest.skip(1));
                assert(word + rest =~= word + seq![rest[0]] + rest.skip(1));
                assert(rest =~= seq![rest[0]] + rest.skip(1));
            }
        }
        if parts.len() == 1 {
            assert(parts + words(rest) =~= seq![word] + words(rest));
        } else {
            lemma_joined_words_before(before, sep + word + rest);
            assert(join(parts, sep) + rest =~= join(before, sep) + (sep + word + rest));
            assert(sep + word + rest =~= sep + (word + rest));
            law_words(word, ' ', word + rest);
            assert(before + (seq![word] + words(rest)) =~= parts + words(rest));
        }
    }
}

/// Trimming takes off what stands before and behind of a class, and nothing else.
pub proof fn law_trim(before: Seq<char>, s: Seq<char>, behind: Seq<char>, class: CharClass)
    requires
        is_made_of(before, class),
        is_made_of(behind, class),
        s.len() > 0 ==> !class.holds(s[0]) && !class.holds(s.last()),
    ensures
        trim_of(before + s + behind, class) == s,
    decreases before.len() + behind.len(),
{
    let whole = before + s + behind;
    if before.len() > 0 {
        assert(whole[0] == before[0]);
        assert(class.holds(before[0]));
        assert(whole.skip(1) =~= before.skip(1) + s + behind);
        assert(is_made_of(before.skip(1), class)) by {
            assert forall|i: int| 0 <= i < before.skip(1).len() implies class.holds(
                #[trigger] before.skip(1)[i],
            ) by {
                assert(class.holds(before[i + 1]));
            }
        }
        law_trim(before.skip(1), s, behind, class);
    } else if s.len() == 0 {
        assert(whole =~= behind);
        lemma_trim_all(behind, class);
        assert(s =~= Seq::empty());
    } else {
        assert(whole =~= s + behind);
        lemma_trim_end(s, behind, class);
    }
}

proof fn lemma_trim_all(s: Seq<char>, class: CharClass)
    requires
        is_made_of(s, class),
    ensures
        trim_of(s, class) == Seq::<char>::empty(),
    decreases s.len(),
{
    if s.len() > 0 {
        assert(class.holds(s[0]));
        assert forall|i: int| 0 <= i < s.skip(1).len() implies class.holds(
            #[trigger] s.skip(1)[i],
        ) by {
            assert(class.holds(s[i + 1]));
        }
        lemma_trim_all(s.skip(1), class);
    } else {
        assert(s =~= Seq::empty());
    }
}

proof fn lemma_trim_end(s: Seq<char>, behind: Seq<char>, class: CharClass)
    requires
        is_made_of(behind, class),
        s.len() > 0,
        !class.holds(s.last()),
    ensures
        trim_end_of(s + behind, class) == s,
    decreases behind.len(),
{
    if behind.len() > 0 {
        assert((s + behind).last() == behind.last());
        assert(class.holds(behind[behind.len() - 1]));
        assert((s + behind).drop_last() =~= s + behind.drop_last());
        assert forall|i: int| 0 <= i < behind.drop_last().len() implies class.holds(
            #[trigger] behind.drop_last()[i],
        ) by {
            assert(class.holds(behind[i]));
        }
        lemma_trim_end(s, behind.drop_last(), class);
    } else {
        assert(s + behind =~= s);
    }
}

/// A text that neither begins nor ends in white space is not trimmed.
pub proof fn lemma_trim_nothing(s: Seq<char>)
    requires
        s.len() > 0 ==> !is_white(s[0]) && !is_white(s.last()),
    ensures
        trim(s) == s,
{
    let none = Seq::<char>::empty();
    law_trim(none, s, none, CharClass::White);
    assert(none + s + none =~= s);
}

/// A text that does not begin in white space keeps its first character when it is trimmed.
pub proof fn lemma_trim_keeps_first(s: Seq<char>)
    requires
        s.len() > 0,
        !is_white(s[0]),
    ensures
        trim(s).len() > 0,
        trim(s)[0] == s[0],
{
    lemma_trim_end_keeps_first(s);
}

proof fn lemma_trim_end_keeps_first(s: Seq<char>)
    requires
        s.len() > 0,
        !is_white(s[0]),
    ensures
        trim_end_of(s, CharClass::White).len() > 0,
        trim_end_of(s, CharClass::White)[0] == s[0],
    decreases s.len(),
{
    if is_white(s.last()) {
        lemma_trim_end_keeps_first(s.drop_last());
    }
}

/// A pattern that stands in a text stands there a first time.
pub proof fn lemma_first_occurs(s: Seq<char>, p: Seq<char>)
    requires
        contains(s, p),
    ensures
        exists|i: int| first_occurs_at(s, p, i),
{
    let i = choose|i: int| occurs_at(s, p, i);
    lemma_first_occurs_by(s, p, i);
}

proof fn lemma_first_occurs_by(s: Seq<char>, p: Seq<char>, i: int)
    requires
        occurs_at(s, p, i),
    ensures
        exists|j: int| first_occurs_at(s, p, j),
    decreases i,
{
    if exists|j: int| 0 <= j < i && occurs_at(s, p, j) {
        let j = choose|j: int| 0 <= j < i && occurs_at(s, p, j);
        lemma_first_occurs_by(s, p, j);
    } else {
        assert(first_occurs_at(s, p, i));
    }
}

/// A text is cut at the first separator: what stands before the separator does not hold it.
pub proof fn law_split_once(before: Seq<char>, separator: char, behind: Seq<char>)
    requires
        is_free_of(before, CharClass::One(separator)),
    ensures
        split_once(before + seq![separator] + behind, seq![separator]) == Some((before, behind)),
        split_once(before, seq![separator]) is None,
{
    let p = seq![separator];
    let whole = before + p + behind;
    let n = before.len() as int;
    assert(whole.subrange(n, n + 1) =~= p);
    assert forall|j: int| 0 <= j < n implies !occurs_at(whole, p, j) by {
        if occurs_at(whole, p, j) {
            assert(whole.subrange(j, j + 1)[0] == before[j]);
            assert(!CharClass::One(separator).holds(before[j]));
        }
    }
    lemma_split_once_is(whole, p, n);
    assert(whole.take(n) =~= before);
    assert(whole.skip(n + 1) =~= behind);
    assert forall|j: int| !occurs_at(before, p, j) by {
        if occurs_at(before, p, j) {
            assert(before.subrange(j, j + 1)[0] == before[j]);
            assert(!CharClass::One(separator).holds(before[j]));
        }
    }
}

/// Splitting at the characters of a class undoes putting one between two pieces.
pub proof fn law_split_on(piece: Seq<char>, separator: char, rest: Seq<char>, class: CharClass)
    requires
        is_free_of(piece, class),
        class.holds(separator),
    ensures
        split_on(piece + seq![separator] + rest, class) == seq![piece] + split_on(rest, class),
        split_on(piece, class) == seq![piece],
{
    let whole = piece + seq![separator] + rest;
    let n = piece.len() as int;
    lemma_index_of_is(whole, class, n);
    assert(whole.take(n) =~= piece);
    assert(whole.skip(n + 1) =~= rest);
    lemma_index_of_is(piece, class, n);
}

/// Stripping a prefix or a suffix undoes putting it on.
pub proof fn law_strip(s: Seq<char>, p: Seq<char>)
    ensures
        strip_prefix(p + s, p) == Some(s),
        strip_suffix(s + p, p) == Some(s),
        contains(p + s, p),
        contains(s + p, p),
{
    assert(p.is_prefix_of(p + s));
    assert((p + s).skip(p.len() as int) =~= s);
    assert(p.is_suffix_of(s + p));
    assert((s + p).take(s.len() as int) =~= s);
    assert((p + s).subrange(0, p.len() as int) =~= p);
    assert(occurs_at(p + s, p, 0));
    assert((s + p).subrange(s.len() as int, (s.len() + p.len()) as int) =~= p);
    assert(occurs_at(s + p, p, s.len() as int));
}

/// Replacing works piece by piece, puts the new text for the character and leaves others.
pub proof fn law_replace(a: Seq<char>, c: char, from: char, to: Seq<char>)
    ensures
        replace(a.push(from), from, to) == replace(a, from, to) + to,
        c != from ==> replace(a.push(c), from, to) == replace(a, from, to).push(c),
        replace(Seq::<char>::empty(), from, to) == Seq::<char>::empty(),
{
    lemma_replace_push(a, from, from, to);
    lemma_replace_push(a, c, from, to);
    assert(replace(Seq::<char>::empty(), from, to) =~= Seq::<char>::empty());
    assert(replace(a, from, to) + seq![c] =~= replace(a, from, to).push(c));
}

// ---------------------------------------------------------------------------
// Executable counterparts
// ---------------------------------------------------------------------------

/// The characters of a string.
pub fn chars_of(s: &str) -> (r: Vec<char>)
    ensures
        r@ == s@,
{
    let mut r: Vec<char> = Vec::new();
    for c in it: s.chars()
        invariant
            it.seq() == s@,
            r@ == s@.take(it.index()),
    {
        r.push(c);
    }
    r
}

/// The string that holds the given characters.
pub fn string_of(cs: &[char]) -> (r: String)
    ensures
        r@ == cs@,
{
    let mut r = String::new();
    let mut i: usize = 0;
    while i < cs.len()
        invariant
            i <= cs@.len(),
            r@ == cs@.take(i as int),
        decreases cs@.len() - i,
    {
        r.push(cs[i]);
        i = i + 1;
    }
    assert(cs@.take(i as int) =~= cs@);
    r
}

/// Tests whether two texts are equal.
pub fn same(a: &[char], b: &[char]) -> (r: bool)
    ensures
        r == (a@ == b@),
{
    if a.len() != b.len() {
        return false;
    }
    let mut i: usize = 0;
    while i < a.len()
        invariant
            i <= a@.len(),
            a@.len() == b@.len(),
            forall|j: int| 0 <= j < i ==> a@[j] == b@[j],
        decreases a@.len() - i,
    {
        if a[i] != b[i] {
            return false;
        }
        i = i + 1;
    }
    assert(a@ =~= b@);
    true
}

/// Tests whether the characters are those of the string.
pub fn reads(a: &[char], b: &str) -> (r: bool)
    ensures
        r == (a@ == b@),
{
    let bs = chars_of(b);
    same(a, bs.as_slice())
}

/// Tests whether two strings are equal.
pub fn same_str(a: &str, b: &str) -> (r: bool)
    ensures
        r == (a@ == b@),
{
    let bs = chars_of(a);
    reads(bs.as_slice(), b)
}

/// The position of the first character of the class, or the length.
pub fn find(s: &[char], class: CharClass) -> (r: usize)
    ensures
        r == index_of(s@, class),
        r <= s@.len(),
{
    let mut i: usize = 0;
    while i < s.len() && !class.test(s[i])
        invariant
            i <= s@.len(),
            forall|j: int| 0 <= j < i ==> !class.holds(#[trigger] s@[j]),
        decreases s@.len() - i,
    {
        i = i + 1;
    }
    proof {
        lemma_index_of_is(s@, class, i as int);
    }
    i
}

/// Drops the leading characters of the class.
pub fn trim_start_chars<'a>(s: &'a [char], class: CharClass) -> (r: &'a [char])
    ensures
        r@ == trim_start_of(s@, class),
{
    let mut i: usize = 0;
    assert(s@.skip(0) =~= s@);
    while i < s.len() && class.test(s[i])
        invariant
            i <= s@.len(),
            trim_start_of(s@, class) == trim_start_of(s@.skip(i as int), class),
        decreases s@.len() - i,
    {
        assert(s@.skip(i as int).skip(1) =~= s@.skip(i + 1));
        i = i + 1;
    }
    assert(s@.skip(i as int) =~= s@.subrange(i as int, s@.len() as int));
    slice_subrange(s, i, s.len())
}

/// Drops the trailing characters of the class.
pub fn trim_end_chars<'a>(s: &'a [char], class: CharClass) -> (r: &'a [char])
    ensures
        r@ == trim_end_of(s@, class),
{
    let mut n: usize = s.len();
    assert(s@.take(n as int) =~= s@);
    while n > 0 && class.test(s[n - 1])
        invariant
            n <= s@.len(),
            trim_end_of(s@, class) == trim_end_of(s@.take(n as int), class),
        decreases n,
    {
        assert(s@.take(n as int).drop_last() =~= s@.take(n - 1));
        n = n - 1;
    }
    assert(s@.take(n as int) =~= s@.subrange(0, n as int));
    slice_subrange(s, 0, n)
}

/// Drops the leading and trailing characters of the class.
pub fn trim_chars<'a>(s: &'a [char], class: CharClass) -> (r: &'a [char])
    ensures
        r@ == trim_of(s@, class),
{
    let t = trim_start_chars(s, class);
    trim_end_chars(t, class)
}

/// Drops leading and trailing white space.
pub fn trimmed<'a>(s: &'a [char]) -> (r: &'a [char])
    ensures
        r@ == trim(s@),
{
    trim_chars(s, CharClass::White)
}

/// Splits a text into its lines.
pub fn split_lines<'a>(s: &'a [char]) -> (r: Vec<&'a [char]>)
    ensures
        views(r@) == lines(s@),
{
    broadcast use lemma_views_push;

    let mut out: Vec<&'a [char]> = Vec::new();
    let mut rest: &'a [char] = s;
    assert(views(out@) =~= Seq::empty());
    assert(views(out@) + lines(rest@) =~= lines(s@));
    while rest.len() > 0
        invariant
            views(out@) + lines(rest@) == lines(s@),
        decreases rest@.len(),
    {
        let ghost before = views(out@);
        let n = find(rest, CharClass::One('\n'));
        proof {
            lemma_index_of(rest@, CharClass::One('\n'));
        }
        if n >= rest.len() {
            out.push(rest);
            proof {
                assert(before.push(rest@) =~= before + seq![rest@]);
                assert(views(out@) + Seq::<Seq<char>>::empty() =~= views(out@));
            }
            rest = slice_subrange(rest, n, n);
            assert(lines(rest@) =~= Seq::empty());
        } else {
            let mut end: usize = n;
            if n > 0 && rest[n - 1] == '\r' {
                end = n - 1;
            }
            let line = slice_subrange(rest, 0, end);
            assert(line@ =~= without_cr(rest@.take(n as int)));
            out.push(line);
            let next = slice_subrange(rest, n + 1, rest.len());
            assert(next@ =~= rest@.skip(n + 1));
            assert(before + (seq![line@] + lines(next@)) =~= before.push(line@) + lines(next@));
            rest = next;
        }
    }
    assert(lines(rest@) =~= Seq::empty());
    assert(views(out@) + lines(rest@) =~= views(out@));
    out
}

/// Splits a text into its words.
pub fn split_words<'a>(s: &'a [char]) -> (r: Vec<&'a [char]>)
    ensures
        views(r@) == words(s@),
{
    broadcast use lemma_views_push;

    let mut out: Vec<&'a [char]> = Vec::new();
    let mut rest: &'a [char] = s;
    assert(views(out@) =~= Seq::empty());
    assert(views(out@) + words(rest@) =~= words(s@));
    while rest.len() > 0
        invariant
            views(out@) + words(rest@) == words(s@),
        decreases rest@.len(),
    {
        let ghost before = views(out@);
        if CharClass::White.test(rest[0]) {
            let next = slice_subrange(rest, 1, rest.len());
            assert(next@ =~= rest@.skip(1));
            rest = next;
        } else {
            let n = find(rest, CharClass::White);
            let word = slice_subrange(rest, 0, n);
            assert(word@ =~= rest@.take(n as int));
            out.push(word);
            let next = slice_subrange(rest, n, rest.len());
            assert(next@ =~= rest@.skip(n as int));
            assert(before + (seq![word@] + words(next@)) =~= before.push(word@) + words(next@));
            rest = next;
        }
    }
    assert(words(rest@) =~= Seq::empty());
    assert(views(out@) + words(rest@) =~= views(out@));
    out
}

/// Splits a text at the characters of the class.
pub fn split_at_class<'a>(s: &'a [char], class: CharClass) -> (r: Vec<&'a [char]>)
    ensures
        views(r@) == split_on(s@, class),
{
    broadcast use lemma_views_push;

    let mut out: Vec<&'a [char]> = Vec::new();
    let mut rest: &'a [char] = s;
    assert(views(out@) =~= Seq::empty());
    assert(views(out@) + split_on(rest@, class) =~= split_on(s@, class));
    let mut n: usize = find(rest, class);
    while n < rest.len()
        invariant
            n == index_of(rest@, class),
            n <= rest@.len(),
            views(out@) + split_on(rest@, class) == split_on(s@, class),
        decreases rest@.len(),
    {
        let ghost before = views(out@);
        let piece = slice_subrange(rest, 0, n);
        assert(piece@ =~= rest@.take(n as int));
        out.push(piece);
        let next = slice_subrange(rest, n + 1, rest.len());
        assert(next@ =~= rest@.skip(n + 1));
        assert(before + (seq![piece@] + split_on(next@, class)) =~= before.push(piece@) + split_on(
            next@,
            class,
        ));
        rest = next;
        n = find(rest, class);
    }
    assert(views(out@).push(rest@) =~= views(out@) + seq![rest@]);
    out.push(rest);
    out
}

/// The rest behind a prefix, if the text has it.
pub fn after_prefix<'a>(s: &'a [char], p: &str) -> (r: Option<&'a [char]>)
    ensures
        match r {
            Some(rest) => strip_prefix(s@, p@) == Some(rest@),
            None => strip_prefix(s@, p@) is None,
        },
{
    let ps = chars_of(p);
    let n = ps.len();
    if n <= s.len() && same(slice_subrange(s, 0, n), ps.as_slice()) {
        let rest = slice_subrange(s, n, s.len());
        assert(rest@ =~= s@.skip(n as int));
        Some(rest)
    } else {
        None
    }
}

/// Tests whether a text has a prefix.
pub fn has_prefix(s: &[char], p: &str) -> (r: bool)
    ensures
        r == p@.is_prefix_of(s@),
{
    after_prefix(s, p).is_some()
}

/// The rest before a suffix, if the text has it.
pub fn before_suffix<'a>(s: &'a [char], p: &str) -> (r: Option<&'a [char]>)
    ensures
        match r {
            Some(rest) => strip_suffix(s@, p@) == Some(rest@),
            None => strip_suffix(s@, p@) is None,
        },
{
    let ps = chars_of(p);
    let n = ps.len();
    if n <= s.len() && same(slice_subrange(s, s.len() - n, s.len()), ps.as_slice()) {
        let rest = slice_subrange(s, 0, s.len() - n);
        assert(rest@ =~= s@.take(s@.len() - n));
        Some(rest)
    } else {
        None
    }
}

/// The first position at which the pattern stands in the text.
pub fn find_text(s: &[char], p: &[char]) -> (r: Option<usize>)
    ensures
        match r {
            Some(i) => first_occurs_at(s@, p@, i as int) && contains(s@, p@),
            None => !contains(s@, p@),
        },
{
    let n = p.len();
    if n > s.len() {
        return None;
    }
    let mut i: usize = 0;
    while i <= s.len() - n
        invariant
            n == p@.len(),
            n <= s@.len(),
            i <= s@.len() - n + 1,
            forall|j: int| 0 <= j < i ==> !occurs_at(s@, p@, j),
        decreases s@.len() + 1 - i,
    {
        if same(slice_subrange(s, i, i + n), p) {
            assert(occurs_at(s@, p@, i as int));
            return Some(i);
        }
        if i == s.len() - n {
            return None;
        }
        i = i + 1;
    }
    None
}

/// Tests whether the pattern stands anywhere in the text.
pub fn has_text(s: &[char], p: &str) -> (r: bool)
    ensures
        r == contains(s@, p@),
{
    let ps = chars_of(p);
    find_text(s, ps.as_slice()).is_some()
}

/// Splits a text at the first occurrence of the separator.
pub fn cut<'a>(s: &'a [char], p: &str) -> (r: Option<(&'a [char], &'a [char])>)
    ensures
        match r {
            Some(parts) => split_once(s@, p@) == Some((parts.0@, parts.1@)),
            None => split_once(s@, p@) is None,
        },
{
    let ps = chars_of(p);
    match find_text(s, ps.as_slice()) {
        Some(i) => {
            proof {
                lemma_split_once_is(s@, p@, i as int);
            }
            let total: usize = s.len();
            let before = slice_subrange(s, 0, i);
            let behind = slice_subrange(s, i + ps.len(), total);
            assert(before@ =~= s@.take(i as int));
            assert(behind@ =~= s@.skip(i + p@.len()));
            Some((before, behind))
        },
        None => None,
    }
}

/// A text with its ASCII letters in lower case.
pub fn lowered(s: &[char]) -> (r: Vec<char>)
    ensures
        r@ == lower(s@),
{
    let mut out: Vec<char> = Vec::new();
    let mut i: usize = 0;
    while i < s.len()
        invariant
            i <= s@.len(),
            out@ == lower(s@).take(i as int),
        decreases s@.len() - i,
    {
        let c: char = s[i];
        if 'A' <= c && c <= 'Z' {
            let b: u8 = c as u8;
            out.push((b + 32) as char);
        } else {
            out.push(c);
        }
        assert(out@ =~= lower(s@).take(i + 1));
        i = i + 1;
    }
    assert(lower(s@).take(i as int) =~= lower(s@));
    out
}

/// A text in which every occurrence of one character is replaced.
pub fn replaced(s: &[char], from: char, to: &str) -> (r: String)
    ensures
        r@ == replace(s@, from, to@),
{
    let mut out = String::new();
    let mut i: usize = 0;
    assert(s@.take(0) =~= Seq::empty());
    assert(out@ =~= replace(Seq::empty(), from, to@));
    while i < s.len()
        invariant
            i <= s@.len(),
            out@ == replace(s@.take(i as int), from, to@),
        decreases s@.len() - i,
    {
        let c: char = s[i];
        proof {
            lemma_replace_push(s@.take(i as int), c, from, to@);
            assert(s@.take(i as int).push(c) =~= s@.take(i + 1));
        }
        let ghost before = out@;
        if c == from {
            out.append(to);
        } else {
            out.push(c);
            assert(out@ =~= before + seq![c]);
        }
        i = i + 1;
    }
    assert(s@.take(i as int) =~= s@);
    out
}

/// The parts one after the other, with the separator between neighbours.
pub fn joined(parts: &Vec<String>, sep: &str) -> (r: String)
    ensures
        r@ == join(views(parts@), sep@),
{
    let mut out = String::new();
    let mut i: usize = 0;
    while i < parts.len()
        invariant
            i <= parts@.len(),
            out@ == join(views(parts@).take(i as int), sep@),
        decreases parts@.len() - i,
    {
        let ghost next = views(parts@).take(i + 1);
        assert(next.drop_last() =~= views(parts@).take(i as int));
        if i > 0 {
            out.append(sep);
            out.append(parts[i].as_str());
        } else {
            out.append(parts[i].as_str());
            assert(out@ =~= parts@[0]@);
        }
        i = i + 1;
    }
    assert(views(parts@).take(i as int) =~= views(parts@));
    out
}

} // verus!
