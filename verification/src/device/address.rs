//! IPv4 addresses in what network commands print.

use vstd::prelude::*;

use crate::number;
use crate::number::read_unsigned;
use crate::text;
use crate::text::{
    chars_of, has_prefix, reads, lowered, split_at_class, split_lines, split_words, string_of,
    trim_end_chars, CharClass,
};

verus! {

/// The number that a part of an address writes.
pub open spec fn octet(part: Seq<char>) -> Option<nat> {
    number::parse_unsigned(part, 255)
}

/// Whether a text is an IPv4 address: four parts, separated by full stops, each a number below
/// 256.
pub open spec fn is_ipv4(s: Seq<char>) -> bool {
    let parts = text::split_on(s, CharClass::One('.'));
    parts.len() == 4 && forall|i: int| 0 <= i < 4 ==> octet(#[trigger] parts[i]) is Some
}

/// The pairs of neighbours in a list.
pub open spec fn pairs(fields: Seq<Seq<char>>) -> Seq<(Seq<char>, Seq<char>)> {
    if fields.len() == 0 {
        Seq::empty()
    } else {
        Seq::new((fields.len() - 1) as nat, |i: int| (fields[i], fields[i + 1]))
    }
}

/// The address in a pair `src <address>`.
pub open spec fn source_pair(pair: (Seq<char>, Seq<char>)) -> Option<Seq<char>> {
    if pair.0 == "src"@ && is_ipv4(pair.1) {
        Some(pair.1)
    } else {
        None
    }
}

/// The interface in a pair `dev <interface>`.
pub open spec fn interface_pair(pair: (Seq<char>, Seq<char>)) -> Option<Seq<char>> {
    if pair.0 == "dev"@ {
        Some(pair.1)
    } else {
        None
    }
}

/// The address in a pair `inet <address>/<length>`.
pub open spec fn inet_pair(pair: (Seq<char>, Seq<char>)) -> Option<Seq<char>> {
    let host = text::split_on(pair.1, CharClass::One('/'))[0];
    if pair.0 == "inet"@ && is_ipv4(host) {
        Some(host)
    } else {
        None
    }
}

/// Whether an interface is one of wireless networks, by its name.
pub open spec fn is_wireless(interface: Seq<char>) -> bool {
    let name = text::lower(text::trim_end_of(interface, CharClass::One(':')));
    ||| "wlan"@.is_prefix_of(name)
    ||| "wifi"@.is_prefix_of(name)
    ||| "wl"@.is_prefix_of(name)
    ||| "ap"@.is_prefix_of(name)
    ||| "p2p"@.is_prefix_of(name)
}

/// The first source address in a line of a routing table.
pub open spec fn route_line(line: Seq<char>) -> Option<Seq<char>> {
    text::first_some(
        pairs(text::words(line)),
        |pair: (Seq<char>, Seq<char>)| source_pair(pair),
    )
}

/// The first source address in a routing table.
pub open spec fn route_source(output: Seq<char>) -> Option<Seq<char>> {
    text::first_some(text::lines(output), |line: Seq<char>| route_line(line))
}

/// The last source address in a line of a routing table, if the last interface in it is
/// wireless.
pub open spec fn wireless_route_line(line: Seq<char>) -> Option<Seq<char>> {
    let all = pairs(text::words(line));
    let interface = text::last_some(all, |pair: (Seq<char>, Seq<char>)| interface_pair(pair));
    let source = text::last_some(all, |pair: (Seq<char>, Seq<char>)| source_pair(pair));
    if interface matches Some(name) && is_wireless(name) {
        source
    } else {
        None
    }
}

/// The first source address of a wireless interface in a routing table.
pub open spec fn wireless_route_source(output: Seq<char>) -> Option<Seq<char>> {
    text::first_some(text::lines(output), |line: Seq<char>| wireless_route_line(line))
}

/// The first address in a line of an interface listing.
pub open spec fn inet_line(line: Seq<char>) -> Option<Seq<char>> {
    text::first_some(
        pairs(text::words(line)),
        |pair: (Seq<char>, Seq<char>)| inet_pair(pair),
    )
}

/// The first address in an interface listing.
pub open spec fn inet_address(output: Seq<char>) -> Option<Seq<char>> {
    text::first_some(text::lines(output), |line: Seq<char>| inet_line(line))
}

/// The first address in a line of a one-line listing, if the interface in its second field is
/// wireless.
pub open spec fn wireless_inet_line(line: Seq<char>) -> Option<Seq<char>> {
    let fields = text::words(line);
    if fields.len() >= 4 && is_wireless(fields[1]) {
        inet_line(line)
    } else {
        None
    }
}

/// The first address of a wireless interface in a one-line listing.
pub open spec fn wireless_inet_address(output: Seq<char>) -> Option<Seq<char>> {
    text::first_some(text::lines(output), |line: Seq<char>| wireless_inet_line(line))
}

/// A piece of text, if it is an address.
pub open spec fn address_piece(piece: Seq<char>) -> Option<Seq<char>> {
    if is_ipv4(piece) {
        Some(piece)
    } else {
        None
    }
}

/// The first address among the pieces of digits and full stops of a text.
pub open spec fn first_address(output: Seq<char>) -> Option<Seq<char>> {
    text::first_some(
        text::split_on(output, CharClass::NotInAddress),
        |piece: Seq<char>| address_piece(piece),
    )
}

/// Whatever these functions find in a line is an IPv4 address.
pub proof fn law_found_addresses_are_addresses(output: Seq<char>)
    ensures
        route_source(output) matches Some(a) ==> is_ipv4(a),
        wireless_route_source(output) matches Some(a) ==> is_ipv4(a),
        inet_address(output) matches Some(a) ==> is_ipv4(a),
        wireless_inet_address(output) matches Some(a) ==> is_ipv4(a),
        first_address(output) matches Some(a) ==> is_ipv4(a),
{
    let lines = text::lines(output);
    assert forall|line: Seq<char>| is_address(#[trigger] route_line(line)) by {
        lemma_first_some_address(
            pairs(text::words(line)),
            |pair: (Seq<char>, Seq<char>)| source_pair(pair),
        );
    }
    assert forall|line: Seq<char>| is_address(#[trigger] wireless_route_line(line)) by {
        lemma_last_some_address(
            pairs(text::words(line)),
            |pair: (Seq<char>, Seq<char>)| source_pair(pair),
        );
    }
    assert forall|line: Seq<char>| is_address(#[trigger] inet_line(line)) by {
        lemma_first_some_address(
            pairs(text::words(line)),
            |pair: (Seq<char>, Seq<char>)| inet_pair(pair),
        );
    }
    lemma_first_some_address(lines, |line: Seq<char>| route_line(line));
    lemma_first_some_address(lines, |line: Seq<char>| wireless_route_line(line));
    lemma_first_some_address(lines, |line: Seq<char>| inet_line(line));
    lemma_first_some_address(lines, |line: Seq<char>| wireless_inet_line(line));
    lemma_first_some_address(
        text::split_on(output, CharClass::NotInAddress),
        |piece: Seq<char>| address_piece(piece),
    );
}

spec fn is_address(found: Option<Seq<char>>) -> bool {
    found matches Some(a) ==> is_ipv4(a)
}

proof fn lemma_first_some_address<A>(s: Seq<A>, f: spec_fn(A) -> Option<Seq<char>>)
    requires
        forall|x: A| is_address(#[trigger] f(x)),
    ensures
        is_address(text::first_some(s, f)),
    decreases s.len(),
{
    if s.len() > 0 {
        lemma_first_some_address(s.skip(1), f);
    }
}

proof fn lemma_last_some_address<A>(s: Seq<A>, f: spec_fn(A) -> Option<Seq<char>>)
    requires
        forall|x: A| is_address(#[trigger] f(x)),
    ensures
        is_address(text::last_some(s, f)),
    decreases s.len(),
{
    if s.len() > 0 {
        lemma_last_some_address(s.drop_last(), f);
    }
}

// ---------------------------------------------------------------------------
// Parsers
// ---------------------------------------------------------------------------

fn parse_octets(value: &[char]) -> (r: Option<[u8; 4]>)
    ensures
        r is Some <==> is_ipv4(value@),
        r matches Some(octets) ==> forall|i: int|
            0 <= i < 4 ==> Some(octets@[i] as nat) == octet(
                #[trigger] text::split_on(value@, CharClass::One('.'))[i],
            ),
{
    let parts = split_at_class(value, CharClass::One('.'));
    let ghost all = text::split_on(value@, CharClass::One('.'));
    assert(all == text::views(parts@));
    assert(all.len() == parts@.len());
    if parts.len() != 4 {
        return None;
    }
    assert(all[0] == parts@[0]@ && all[1] == parts@[1]@ && all[2] == parts@[2]@ && all[3]
        == parts@[3]@);
    let a = read_unsigned(parts[0], 255);
    let b = read_unsigned(parts[1], 255);
    let c = read_unsigned(parts[2], 255);
    let d = read_unsigned(parts[3], 255);
    match (a, b, c, d) {
        (Some(a), Some(b), Some(c), Some(d)) => {
            assert(octet(all[0]) == Some(a as nat));
            assert(octet(all[1]) == Some(b as nat));
            assert(octet(all[2]) == Some(c as nat));
            assert(octet(all[3]) == Some(d as nat));
            Some([a as u8, b as u8, c as u8, d as u8])
        },
        _ => {
            assert(octet(all[0]) is None || octet(all[1]) is None || octet(all[2]) is None
                || octet(all[3]) is None);
            None
        },
    }
}

/// Reads the four numbers of an IPv4 address.
pub fn parse_ipv4_address(value: &str) -> (r: Option<[u8; 4]>)
    ensures
        r is Some <==> is_ipv4(value@),
        r matches Some(octets) ==> forall|i: int|
            0 <= i < 4 ==> Some(octets@[i] as nat) == octet(
                #[trigger] text::split_on(value@, CharClass::One('.'))[i],
            ),
{
    let chars = chars_of(value);
    parse_octets(chars.as_slice())
}

fn is_ipv4_chars(value: &[char]) -> (r: bool)
    ensures
        r == is_ipv4(value@),
{
    parse_octets(value).is_some()
}

/// Tests whether a text is an IPv4 address.
pub fn is_ipv4_address(value: &str) -> (r: bool)
    ensures
        r == is_ipv4(value@),
{
    parse_ipv4_address(value).is_some()
}

fn is_wireless_chars(interface: &[char]) -> (r: bool)
    ensures
        r == is_wireless(interface@),
{
    let name = lowered(trim_end_chars(interface, CharClass::One(':')));
    let name = name.as_slice();
    has_prefix(name, "wlan") || has_prefix(name, "wifi") || has_prefix(name, "wl") || has_prefix(
        name,
        "ap",
    ) || has_prefix(name, "p2p")
}

/// Tests whether an interface is one of wireless networks, by its name.
pub fn is_wireless_interface(interface: &str) -> (r: bool)
    ensures
        r == is_wireless(interface@),
{
    let chars = chars_of(interface);
    is_wireless_chars(chars.as_slice())
}

/// Which address a line is searched for.
#[derive(Clone, Copy)]
enum Search {
    Route,
    WirelessRoute,
    Inet,
    WirelessInet,
}

impl Search {
    spec fn line(self, line: Seq<char>) -> Option<Seq<char>> {
        match self {
            Search::Route => route_line(line),
            Search::WirelessRoute => wireless_route_line(line),
            Search::Inet => inet_line(line),
            Search::WirelessInet => wireless_inet_line(line),
        }
    }

    spec fn output(self, output: Seq<char>) -> Option<Seq<char>> {
        match self {
            Search::Route => route_source(output),
            Search::WirelessRoute => wireless_route_source(output),
            Search::Inet => inet_address(output),
            Search::WirelessInet => wireless_inet_address(output),
        }
    }
}

fn find_in_route_line(line: &[char]) -> (r: Option<String>)
    ensures
        text::optional(r) == route_line(line@),
{
    let fields = split_words(line);
    let ghost all = pairs(text::words(line@));
    let ghost f = |pair: (Seq<char>, Seq<char>)| source_pair(pair);
    assert(text::views(fields@).len() == fields@.len());
    let mut i: usize = 0;
    proof {
        text::lemma_first_some_at(all, f, 0);
    }
    let total: usize = fields.len();
    while i < total && i + 1 < total
        invariant
            total == fields@.len(),
            total == 0 ==> i == 0,
            total > 0 ==> i < total,
            text::views(fields@) == text::words(line@),
            text::views(fields@).len() == fields@.len(),
            all == pairs(text::words(line@)),
            f == (|pair: (Seq<char>, Seq<char>)| source_pair(pair)),
            text::first_some(all, f) == text::first_some(all.skip(i as int), f),
        decreases fields@.len() - i,
    {
        proof {
            text::lemma_first_some_at(all, f, i as int);
        }
        assert(all[i as int] == (fields@[i as int]@, fields@[i + 1]@));
        if reads(fields[i], "src") && is_ipv4_chars(fields[i + 1]) {
            return Some(string_of(fields[i + 1]));
        }
        i = i + 1;
    }
    proof {
        text::lemma_first_some_at(all, f, all.len() as int);
    }
    None
}

fn find_in_inet_line(line: &[char]) -> (r: Option<String>)
    ensures
        text::optional(r) == inet_line(line@),
{
    let fields = split_words(line);
    let ghost all = pairs(text::words(line@));
    let ghost f = |pair: (Seq<char>, Seq<char>)| inet_pair(pair);
    assert(text::views(fields@).len() == fields@.len());
    let mut i: usize = 0;
    proof {
        text::lemma_first_some_at(all, f, 0);
    }
    let total: usize = fields.len();
    while i < total && i + 1 < total
        invariant
            total == fields@.len(),
            total == 0 ==> i == 0,
            total > 0 ==> i < total,
            text::views(fields@) == text::words(line@),
            text::views(fields@).len() == fields@.len(),
            all == pairs(text::words(line@)),
            f == (|pair: (Seq<char>, Seq<char>)| inet_pair(pair)),
            text::first_some(all, f) == text::first_some(all.skip(i as int), f),
        decreases fields@.len() - i,
    {
        proof {
            text::lemma_first_some_at(all, f, i as int);
        }
        assert(all[i as int] == (fields@[i as int]@, fields@[i + 1]@));
        if reads(fields[i], "inet") {
            let parts = split_at_class(fields[i + 1], CharClass::One('/'));
            proof {
                assert(text::views(parts@).len() == parts@.len());
                text::lemma_split_on_nonempty(fields@[i + 1]@, CharClass::One('/'));
                assert(text::views(parts@)[0] == parts@[0]@);
            }
            if is_ipv4_chars(parts[0]) {
                return Some(string_of(parts[0]));
            }
        }
        i = i + 1;
    }
    proof {
        text::lemma_first_some_at(all, f, all.len() as int);
    }
    None
}

#[verifier::rlimit(40)]
fn find_in_wireless_route_line(line: &[char]) -> (r: Option<String>)
    ensures
        text::optional(r) == wireless_route_line(line@),
{
    let fields = split_words(line);
    let ghost all = pairs(text::words(line@));
    let ghost f = |pair: (Seq<char>, Seq<char>)| interface_pair(pair);
    let ghost g = |pair: (Seq<char>, Seq<char>)| source_pair(pair);
    assert(text::views(fields@).len() == fields@.len());
    let mut interface: Option<&[char]> = None;
    let mut source: Option<&[char]> = None;
    let mut i: usize = 0;
    proof {
        text::lemma_last_some_at(all, f, 0);
        text::lemma_last_some_at(all, g, 0);
        reveal_strlit("dev");
        reveal_strlit("src");
        assert("dev"@[0] != "src"@[0]);
    }
    let total: usize = fields.len();
    while i < total && i + 1 < total
        invariant
            total == fields@.len(),
            total == 0 ==> i == 0,
            total > 0 ==> i < total,
            text::views(fields@) == text::words(line@),
            text::views(fields@).len() == fields@.len(),
            all == pairs(text::words(line@)),
            f == (|pair: (Seq<char>, Seq<char>)| interface_pair(pair)),
            g == (|pair: (Seq<char>, Seq<char>)| source_pair(pair)),
            "dev"@[0] != "src"@[0],
            match interface {
                Some(name) => text::last_some(all.take(i as int), f) == Some(name@),
                None => text::last_some(all.take(i as int), f) is None,
            },
            match source {
                Some(address) => text::last_some(all.take(i as int), g) == Some(address@),
                None => text::last_some(all.take(i as int), g) is None,
            },
        decreases fields@.len() - i,
    {
        proof {
            text::lemma_last_some_at(all, f, i + 1);
            text::lemma_last_some_at(all, g, i + 1);
        }
        assert(all[i as int] == (fields@[i as int]@, fields@[i + 1]@));
        if reads(fields[i], "dev") {
            interface = Some(fields[i + 1]);
        } else if reads(fields[i], "src") && is_ipv4_chars(fields[i + 1]) {
            source = Some(fields[i + 1]);
        }
        i = i + 1;
    }
    proof {
        text::lemma_last_some_at(all, f, all.len() as int);
        text::lemma_last_some_at(all, g, all.len() as int);
    }
    match interface {
        Some(name) => if is_wireless_chars(name) {
            match source {
                Some(address) => Some(string_of(address)),
                None => None,
            }
        } else {
            None
        },
        None => None,
    }
}

fn find_in_wireless_inet_line(line: &[char]) -> (r: Option<String>)
    ensures
        text::optional(r) == wireless_inet_line(line@),
{
    let fields = split_words(line);
    assert(text::views(fields@).len() == fields@.len());
    if fields.len() < 4 {
        return None;
    }
    assert(text::views(fields@)[1] == fields@[1]@);
    if !is_wireless_chars(fields[1]) {
        return None;
    }
    find_in_inet_line(line)
}

fn find_in_line(line: &[char], search: Search) -> (r: Option<String>)
    ensures
        text::optional(r) == search.line(line@),
{
    match search {
        Search::Route => find_in_route_line(line),
        Search::WirelessRoute => find_in_wireless_route_line(line),
        Search::Inet => find_in_inet_line(line),
        Search::WirelessInet => find_in_wireless_inet_line(line),
    }
}

fn find_in_output(output: &str, search: Search) -> (r: Option<String>)
    ensures
        text::optional(r) == search.output(output@),
{
    let chars = chars_of(output);
    let lines = split_lines(chars.as_slice());
    let ghost all = text::lines(output@);
    let ghost f = |line: Seq<char>| search.line(line);
    proof {
        assert(search.output(output@) == text::first_some(all, f)) by {
            lemma_same_function(all, f, |line: Seq<char>| route_line(line));
            lemma_same_function(all, f, |line: Seq<char>| wireless_route_line(line));
            lemma_same_function(all, f, |line: Seq<char>| inet_line(line));
            lemma_same_function(all, f, |line: Seq<char>| wireless_inet_line(line));
        }
        text::lemma_first_some_at(all, f, 0);
    }
    let mut i: usize = 0;
    while i < lines.len()
        invariant
            i <= lines@.len(),
            all == text::lines(output@),
            all == text::views(lines@),
            f == (|line: Seq<char>| search.line(line)),
            search.output(output@) == text::first_some(all, f),
            text::first_some(all, f) == text::first_some(all.skip(i as int), f),
        decreases lines@.len() - i,
    {
        proof {
            text::lemma_first_some_at(all, f, i as int);
        }
        assert(all[i as int] == lines@[i as int]@);
        let found = find_in_line(lines[i], search);
        if found.is_some() {
            return found;
        }
        i = i + 1;
    }
    proof {
        text::lemma_first_some_at(all, f, i as int);
    }
    None
}

proof fn lemma_same_function(
    s: Seq<Seq<char>>,
    f: spec_fn(Seq<char>) -> Option<Seq<char>>,
    g: spec_fn(Seq<char>) -> Option<Seq<char>>,
)
    ensures
        (forall|x: Seq<char>| #[trigger] f(x) == g(x)) ==> text::first_some(s, f)
            == text::first_some(s, g),
    decreases s.len(),
{
    if s.len() > 0 {
        lemma_same_function(s.skip(1), f, g);
    }
}

/// Finds the first source address in a routing table.
pub fn extract_route_src_ip(output: &str) -> (r: Option<String>)
    ensures
        text::optional(r) == route_source(output@),
{
    find_in_output(output, Search::Route)
}

/// Finds the first source address of a wireless interface in a routing table.
pub fn extract_wireless_route_src_ip(output: &str) -> (r: Option<String>)
    ensures
        text::optional(r) == wireless_route_source(output@),
{
    find_in_output(output, Search::WirelessRoute)
}

/// Finds the first address in an interface listing.
pub fn extract_inet_ip(output: &str) -> (r: Option<String>)
    ensures
        text::optional(r) == inet_address(output@),
{
    find_in_output(output, Search::Inet)
}

/// Finds the first address of a wireless interface in a one-line listing.
pub fn extract_preferred_wireless_inet_ip(output: &str) -> (r: Option<String>)
    ensures
        text::optional(r) == wireless_inet_address(output@),
{
    find_in_output(output, Search::WirelessInet)
}

/// Finds the first address among the pieces of digits and full stops of a text.
pub fn extract_first_ipv4(output: &str) -> (r: Option<String>)
    ensures
        text::optional(r) == first_address(output@),
{
    let chars = chars_of(output);
    let pieces = split_at_class(chars.as_slice(), CharClass::NotInAddress);
    let ghost all = text::split_on(output@, CharClass::NotInAddress);
    let ghost f = |piece: Seq<char>| address_piece(piece);
    let mut i: usize = 0;
    proof {
        text::lemma_first_some_at(all, f, 0);
    }
    while i < pieces.len()
        invariant
            i <= pieces@.len(),
            all == text::split_on(output@, CharClass::NotInAddress),
            all == text::views(pieces@),
            f == (|piece: Seq<char>| address_piece(piece)),
            text::first_some(all, f) == text::first_some(all.skip(i as int), f),
        decreases pieces@.len() - i,
    {
        proof {
            text::lemma_first_some_at(all, f, i as int);
        }
        assert(all[i as int] == pieces@[i as int]@);
        if is_ipv4_chars(pieces[i]) {
            return Some(string_of(pieces[i]));
        }
        i = i + 1;
    }
    proof {
        text::lemma_first_some_at(all, f, i as int);
    }
    None
}

/// Four printed numbers below 256, with full stops between them, are an address; with a number of
/// 256 or more in a part, or with fewer parts, they are none.
pub proof fn law_printed_addresses(a: nat, b: nat, c: nat, d: nat)
    ensures
        is_ipv4(dotted(a, b, c, d)) <==> a <= 255 && b <= 255 && c <= 255 && d <= 255,
        !is_ipv4(number::decimal(a) + "."@ + number::decimal(b) + "."@ + number::decimal(c)),
        !is_ipv4(Seq::empty()),
{
    reveal_strlit(".");
    let dot = CharClass::One('.');
    assert("."@ =~= seq!['.']);
    let pa = number::decimal(a);
    let pb = number::decimal(b);
    let pc = number::decimal(c);
    let pd = number::decimal(d);
    lemma_octets(a);
    lemma_octets(b);
    lemma_octets(c);
    lemma_octets(d);
    text::law_split_on(pc, '.', pd, dot);
    text::law_split_on(pd, '.', pd, dot);
    text::law_split_on(pb, '.', pc + seq!['.'] + pd, dot);
    text::law_split_on(pa, '.', pb + seq!['.'] + (pc + seq!['.'] + pd), dot);
    assert(dotted(a, b, c, d) =~= pa + seq!['.'] + (pb + seq!['.'] + (pc + seq!['.'] + pd)));
    let parts = text::split_on(dotted(a, b, c, d), dot);
    assert(parts =~= seq![pa, pb, pc, pd]);
    assert(octet(parts[0]) == octet(pa) && octet(parts[1]) == octet(pb) && octet(parts[2])
        == octet(pc) && octet(parts[3]) == octet(pd));
    text::law_split_on(pb, '.', pc, dot);
    text::law_split_on(pa, '.', pb + seq!['.'] + pc, dot);
    assert(pa + "."@ + pb + "."@ + pc =~= pa + seq!['.'] + (pb + seq!['.'] + pc));
    assert(text::split_on(pa + "."@ + pb + "."@ + pc, dot).len() == 3);
    text::law_split_on(Seq::empty(), '.', pd, dot);
}

/// Four printed numbers with full stops between them.
pub open spec fn dotted(a: nat, b: nat, c: nat, d: nat) -> Seq<char> {
    number::decimal(a) + "."@ + number::decimal(b) + "."@ + number::decimal(c) + "."@
        + number::decimal(d)
}

proof fn lemma_octets(n: nat)
    ensures
        text::is_free_of(number::decimal(n), CharClass::One('.')),
        octet(number::decimal(n)) is Some <==> n <= 255,
{
    number::lemma_decimal(n);
    let s = number::decimal(n);
    assert forall|i: int| 0 <= i < s.len() implies !CharClass::One('.').holds(#[trigger] s[i]) by {
        assert(text::is_digit(s[i]));
    }
    assert(text::is_digit(s[0]));
}

/// Whether all fields are words, and none of them is the given one.
pub open spec fn are_other_words(fields: Seq<Seq<char>>, word: Seq<char>) -> bool {
    forall|i: int|
        0 <= i < fields.len() ==> (#[trigger] fields[i]).len() > 0 && text::is_free_of(
            fields[i],
            CharClass::White,
        ) && fields[i] != word
}

/// The source address of a line of a routing table is the one behind the word `src`.
pub proof fn law_route_lines(
    before: Seq<Seq<char>>,
    address: Seq<char>,
    behind: Seq<Seq<char>>,
)
    requires
        are_other_words(before, "src"@),
        are_other_words(behind, "src"@),
        is_ipv4(address),
        address.len() > 0,
        text::is_free_of(address, CharClass::White),
    ensures
        route_line(text::join(before + seq!["src"@, address] + behind, seq![' '])) == Some(address),
        route_line(text::join(before, seq![' '])) is None,
{
    reveal_strlit("src");
    let fields = before + seq!["src"@, address] + behind;
    lemma_all_words(before, "src"@, address, behind, fields);
    text::law_joined_words(fields);
    let f = |pair: (Seq<char>, Seq<char>)| source_pair(pair);
    let all = pairs(fields);
    assert forall|i: int| 0 <= i < before.len() implies f(#[trigger] all[i]) is None by {
        assert(fields[i] == before[i]);
    }
    assert(all[before.len() as int] == ("src"@, address));
    text::lemma_first_some_is(all, f, before.len() as int);
    text::law_joined_words(before);
    let few = pairs(before);
    assert forall|i: int| 0 <= i < few.len() implies f(#[trigger] few[i]) is None by {
        assert(few[i].0 == before[i]);
    }
    text::lemma_first_some_none(few, f);
}

proof fn lemma_all_words(
    before: Seq<Seq<char>>,
    word: Seq<char>,
    value: Seq<char>,
    behind: Seq<Seq<char>>,
    fields: Seq<Seq<char>>,
)
    requires
        are_other_words(before, word),
        are_other_words(behind, word),
        word.len() > 0 && text::is_free_of(word, CharClass::White),
        value.len() > 0 && text::is_free_of(value, CharClass::White),
        fields == before + seq![word, value] + behind,
    ensures
        forall|i: int|
            0 <= i < fields.len() ==> (#[trigger] fields[i]).len() > 0 && text::is_free_of(
                fields[i],
                CharClass::White,
            ),
{
    assert forall|i: int| 0 <= i < fields.len() implies (#[trigger] fields[i]).len() > 0
        && text::is_free_of(fields[i], CharClass::White) by {
        if i < before.len() {
            assert(fields[i] == before[i]);
        } else if i >= before.len() + 2 {
            assert(fields[i] == behind[i - before.len() - 2]);
        }
    }
}

/// The address of a line of an interface listing is the one behind the word `inet`, without the
/// length of its network.
pub proof fn law_inet_lines(
    before: Seq<Seq<char>>,
    address: Seq<char>,
    length: Seq<char>,
    behind: Seq<Seq<char>>,
)
    requires
        are_other_words(before, "inet"@),
        are_other_words(behind, "inet"@),
        is_ipv4(address),
        address.len() > 0,
        text::is_free_of(address, CharClass::White),
        text::is_free_of(address, CharClass::One('/')),
        text::is_free_of(length, CharClass::White),
    ensures
        inet_line(
            text::join(before + seq!["inet"@, address + seq!['/'] + length] + behind, seq![' ']),
        ) == Some(address),
        inet_line(text::join(before, seq![' '])) is None,
{
    reveal_strlit("inet");
    let value = address + seq!['/'] + length;
    let fields = before + seq!["inet"@, value] + behind;
    assert forall|i: int| 0 <= i < value.len() implies !CharClass::White.holds(
        #[trigger] value[i],
    ) by {
        if i < address.len() {
            assert(!CharClass::White.holds(address[i]));
        } else if i > address.len() {
            assert(!CharClass::White.holds(length[i - address.len() - 1]));
        }
    }
    lemma_all_words(before, "inet"@, value, behind, fields);
    text::law_joined_words(fields);
    text::law_split_on(address, '/', length, CharClass::One('/'));
    let f = |pair: (Seq<char>, Seq<char>)| inet_pair(pair);
    let all = pairs(fields);
    assert forall|i: int| 0 <= i < before.len() implies f(#[trigger] all[i]) is None by {
        assert(fields[i] == before[i]);
    }
    assert(all[before.len() as int] == ("inet"@, value));
    text::lemma_first_some_is(all, f, before.len() as int);
    text::law_joined_words(before);
    let few = pairs(before);
    assert forall|i: int| 0 <= i < few.len() implies f(#[trigger] few[i]) is None by {
        assert(few[i].0 == before[i]);
    }
    text::lemma_first_some_none(few, f);
}

/// An interface is wireless by how its name begins, whatever the case of its letters; a colon at
/// its end does not matter. The names of other interfaces begin otherwise.
pub proof fn law_wireless_names(rest: Seq<char>, name: Seq<char>)
    requires
        rest.len() > 0,
        rest.last() != ':',
        name.len() > 0,
        name.last() != ':',
    ensures
        is_wireless("wlan"@ + rest),
        is_wireless("wifi"@ + rest),
        is_wireless("wl"@ + rest),
        is_wireless("ap"@ + rest),
        is_wireless("p2p"@ + rest),
        is_wireless(name.push(':')) == is_wireless(name),
        is_wireless(text::lower(name)) == is_wireless(name),
        text::lower_char(name[0]) != 'w' && text::lower_char(name[0]) != 'a' && text::lower_char(
            name[0],
        ) != 'p' ==> !is_wireless(name),
{
    reveal_strlit("wlan");
    reveal_strlit("wifi");
    reveal_strlit("wl");
    reveal_strlit("ap");
    reveal_strlit("p2p");
    assert(text::lower("wlan"@) =~= "wlan"@);
    assert(text::lower("wifi"@) =~= "wifi"@);
    assert(text::lower("wl"@) =~= "wl"@);
    assert(text::lower("ap"@) =~= "ap"@);
    assert(text::lower("p2p"@) =~= "p2p"@);
    lemma_begins_with("wlan"@, rest);
    lemma_begins_with("wifi"@, rest);
    lemma_begins_with("wl"@, rest);
    lemma_begins_with("ap"@, rest);
    lemma_begins_with("p2p"@, rest);
    assert(name.push(':').drop_last() =~= name);
    assert(text::trim_end_of(name.push(':'), CharClass::One(':')) == text::trim_end_of(
        name,
        CharClass::One(':'),
    ));
    assert(text::lower(text::lower(name)) =~= text::lower(name));
    assert(text::lower(name).last() != ':');
    let small = text::lower(name);
    assert(small[0] == text::lower_char(name[0]));
    assert(text::trim_end_of(name, CharClass::One(':')) == name);
    assert("wlan"@.is_prefix_of(small) ==> small[0] == "wlan"@[0]);
    assert("wifi"@.is_prefix_of(small) ==> small[0] == "wifi"@[0]);
    assert("wl"@.is_prefix_of(small) ==> small[0] == "wl"@[0]);
    assert("ap"@.is_prefix_of(small) ==> small[0] == "ap"@[0]);
    assert("p2p"@.is_prefix_of(small) ==> small[0] == "p2p"@[0]);
}

proof fn lemma_begins_with(prefix: Seq<char>, rest: Seq<char>)
    requires
        rest.len() > 0,
        rest.last() != ':',
        text::lower(prefix) == prefix,
    ensures
        prefix.is_prefix_of(
            text::lower(text::trim_end_of(prefix + rest, CharClass::One(':'))),
        ),
{
    let name = prefix + rest;
    assert(name.last() == rest.last());
    assert(text::lower(name).take(prefix.len() as int) =~= text::lower(prefix));
}

/// Addresses are looked for line by line: the first line that gives one decides.
pub proof fn law_first_line_decides(line: Seq<char>, rest: Seq<char>)
    requires
        text::is_free_of(line, CharClass::One('\n')),
        line.len() == 0 || line.last() != '\r',
    ensures
        route_source(line + seq!['\n'] + rest) == if route_line(line) is Some {
            route_line(line)
        } else {
            route_source(rest)
        },
        wireless_route_source(line + seq!['\n'] + rest) == if wireless_route_line(line) is Some {
            wireless_route_line(line)
        } else {
            wireless_route_source(rest)
        },
        inet_address(line + seq!['\n'] + rest) == if inet_line(line) is Some {
            inet_line(line)
        } else {
            inet_address(rest)
        },
        wireless_inet_address(line + seq!['\n'] + rest) == if wireless_inet_line(line) is Some {
            wireless_inet_line(line)
        } else {
            wireless_inet_address(rest)
        },
{
    text::law_lines_give_in_order(line, rest, |line: Seq<char>| route_line(line));
    text::law_lines_give_in_order(line, rest, |line: Seq<char>| wireless_route_line(line));
    text::law_lines_give_in_order(line, rest, |line: Seq<char>| inet_line(line));
    text::law_lines_give_in_order(line, rest, |line: Seq<char>| wireless_inet_line(line));
}

/// A line of a one-line listing gives its address exactly where its second field names a wireless
/// interface.
pub proof fn law_wireless_inet_lines(line: Seq<char>)
    requires
        text::words(line).len() >= 4,
    ensures
        is_wireless(text::words(line)[1]) ==> wireless_inet_line(line) == inet_line(line),
        !is_wireless(text::words(line)[1]) ==> wireless_inet_line(line) is None,
{
}

/// A line of a routing table that names an interface and a source gives that source exactly where
/// the interface is wireless.
pub proof fn law_wireless_route_lines(
    before: Seq<Seq<char>>,
    interface: Seq<char>,
    address: Seq<char>,
)
    requires
        are_other_words(before, "src"@),
        are_other_words(before, "dev"@),
        interface.len() > 0 && text::is_free_of(interface, CharClass::White),
        interface != "src"@,
        interface != "dev"@,
        is_ipv4(address),
        address.len() > 0 && text::is_free_of(address, CharClass::White),
    ensures
        wireless_route_line(
            text::join(before + seq!["dev"@, interface, "src"@, address], seq![' ']),
        ) == if is_wireless(interface) {
            Some(address)
        } else {
            None
        },
{
    reveal_strlit("src");
    reveal_strlit("dev");
    let fields = before + seq!["dev"@, interface, "src"@, address];
    assert forall|i: int| 0 <= i < fields.len() implies (#[trigger] fields[i]).len() > 0
        && text::is_free_of(fields[i], CharClass::White) by {
        if i < before.len() {
            assert(fields[i] == before[i]);
        }
    }
    text::law_joined_words(fields);
    let all = pairs(fields);
    let n = before.len() as int;
    assert("src"@[0] == 's' && "dev"@[0] == 'd');
    assert(all.len() == n + 3);
    assert(all[n] == ("dev"@, interface));
    assert(all[n + 1].0 == interface);
    assert(all[n + 2] == ("src"@, address));
    text::lemma_last_some_is(all, |pair: (Seq<char>, Seq<char>)| interface_pair(pair), n);
    text::lemma_last_some_is(all, |pair: (Seq<char>, Seq<char>)| source_pair(pair), n + 2);
}

/// The first address in any text is the first piece of digits and full stops that is one.
pub proof fn law_first_address(
    before: Seq<char>,
    address: Seq<char>,
    separator: char,
    rest: Seq<char>,
)
    requires
        text::is_made_of(before, CharClass::NotInAddress),
        text::is_free_of(address, CharClass::NotInAddress),
        is_ipv4(address),
        CharClass::NotInAddress.holds(separator),
    ensures
        first_address(before + address + seq![separator] + rest) == Some(address),
        first_address(before + address) == Some(address),
    decreases before.len(),
{
    let f = |piece: Seq<char>| address_piece(piece);
    let class = CharClass::NotInAddress;
    let none = Seq::<char>::empty();
    law_printed_addresses(0, 0, 0, 0);
    if before.len() == 0 {
        assert(before + address + seq![separator] + rest =~= address + seq![separator] + rest);
        assert(before + address =~= address);
        text::law_split_on(address, separator, rest, class);
    } else {
        let c = before[0];
        let more = before.skip(1);
        assert(class.holds(c));
        assert forall|i: int| 0 <= i < more.len() implies class.holds(#[trigger] more[i]) by {
            assert(more[i] == before[i + 1]);
        }
        law_first_address(more, address, separator, rest);
        let a = more + address + seq![separator] + rest;
        let b = more + address;
        assert(before + address + seq![separator] + rest =~= none + seq![c] + a);
        assert(before + address =~= none + seq![c] + b);
        text::law_split_on(none, c, a, class);
        text::law_split_on(none, c, b, class);
        assert((seq![none] + text::split_on(a, class)).skip(1) =~= text::split_on(a, class));
        assert((seq![none] + text::split_on(b, class)).skip(1) =~= text::split_on(b, class));
    }
}

} // verus!
