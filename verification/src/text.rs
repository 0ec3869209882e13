//! Strings as byte sequences: alphabets, order, prefixes and assembly.

use vstd::prelude::*;
use vstd::utf8::*;

verus! {

/// The UTF-8 encoding of a string.
pub open spec fn utf8(chars: Seq<char>) -> Seq<u8> {
    encode_utf8(chars)
}

/// ASCII `0`..=`9`.
pub open spec fn is_digit(byte: u8) -> bool {
    48 <= byte <= 57
}

/// ASCII `a`..=`z`.
pub open spec fn is_lower(byte: u8) -> bool {
    97 <= byte <= 122
}

/// ASCII `A`..=`Z`.
pub open spec fn is_upper(byte: u8) -> bool {
    65 <= byte <= 90
}

/// ASCII letters and digits.
pub open spec fn is_alphanumeric(byte: u8) -> bool {
    is_digit(byte) || is_lower(byte) || is_upper(byte)
}

/// The byte sets that the validators draw from.
#[derive(Clone, Copy, Debug, PartialEq, Eq, Structural)]
pub enum Alphabet {
    /// Lower-case letters, digits, `-` and `_`.
    Identifier,
    /// Letters, digits and `_`.
    EnvironmentName,
    /// Letters, digits, `/`, `.`, `_`, `-`, `:` and `@`.
    ImageReference,
    /// Letters, digits, `-` and `_`.
    Token,
    /// Letters, digits, `-`, `_` and `.`.
    DottedToken,
    /// Letters, digits, `-`, `_`, `.`, `:` and `/`.
    Label,
    /// Lower-case letters, digits and `-`.
    HostLabel,
    /// Digits.
    Digit,
    /// Digits and `a`..=`f`.
    LowerHex,
    /// Digits, `a`..=`f` and `A`..=`F`.
    Hex,
    /// Letters, digits, `.`, `-`, `:` and `_`.
    Registry,
}

impl Alphabet {
    /// Whether the alphabet holds `byte`.
    pub open spec fn admits(self, byte: u8) -> bool {
        match self {
            Alphabet::Identifier => is_lower(byte) || is_digit(byte) || byte == 45 || byte == 95,
            Alphabet::EnvironmentName => is_alphanumeric(byte) || byte == 95,
            Alphabet::ImageReference => is_alphanumeric(byte) || byte == 47 || byte == 46 || byte
                == 95 || byte == 45 || byte == 58 || byte == 64,
            Alphabet::Token => is_alphanumeric(byte) || byte == 45 || byte == 95,
            Alphabet::DottedToken => is_alphanumeric(byte) || byte == 45 || byte == 95 || byte
                == 46,
            Alphabet::Label => is_alphanumeric(byte) || byte == 45 || byte == 95 || byte == 46
                || byte == 58 || byte == 47,
            Alphabet::HostLabel => is_lower(byte) || is_digit(byte) || byte == 45,
            Alphabet::Digit => is_digit(byte),
            Alphabet::LowerHex => is_digit(byte) || 97 <= byte <= 102,
            Alphabet::Hex => is_digit(byte) || 97 <= byte <= 102 || 65 <= byte <= 70,
            Alphabet::Registry => is_alphanumeric(byte) || byte == 46 || byte == 45 || byte == 58
                || byte == 95,
        }
    }

    pub fn holds(self, byte: u8) -> (r: bool)
        ensures
            r == self.admits(byte),
    {
        let digit = 48 <= byte && byte <= 57;
        let lower = 97 <= byte && byte <= 122;
        let upper = 65 <= byte && byte <= 90;
        match self {
            Alphabet::Identifier => lower || digit || byte == 45 || byte == 95,
            Alphabet::EnvironmentName => digit || lower || upper || byte == 95,
            Alphabet::ImageReference => digit || lower || upper || byte == 47 || byte == 46 || byte
                == 95 || byte == 45 || byte == 58 || byte == 64,
            Alphabet::Token => digit || lower || upper || byte == 45 || byte == 95,
            Alphabet::DottedToken => digit || lower || upper || byte == 45 || byte == 95 || byte
                == 46,
            Alphabet::Label => digit || lower || upper || byte == 45 || byte == 95 || byte == 46
                || byte == 58 || byte == 47,
            Alphabet::HostLabel => lower || digit || byte == 45,
            Alphabet::Digit => digit,
            Alphabet::LowerHex => digit || (97 <= byte && byte <= 102),
            Alphabet::Hex => digit || (97 <= byte && byte <= 102) || (65 <= byte && byte <= 70),
            Alphabet::Registry => digit || lower || upper || byte == 46 || byte == 45 || byte == 58
                || byte == 95,
        }
    }
}

/// Every byte of `bytes` belongs to `alphabet`.
pub open spec fn drawn_from(bytes: Seq<u8>, alphabet: Alphabet) -> bool {
    forall|i: int| 0 <= i < bytes.len() ==> alphabet.admits(#[trigger] bytes[i])
}

/// `byte` occurs in `bytes`.
pub open spec fn has_byte(bytes: Seq<u8>, byte: u8) -> bool {
    exists|i: int| 0 <= i < bytes.len() && #[trigger] bytes[i] == byte
}

pub fn bytes_drawn_from(bytes: &[u8], alphabet: Alphabet) -> (r: bool)
    ensures
        r == drawn_from(bytes@, alphabet),
{
    let mut i: usize = 0;
    while i < bytes.len()
        invariant
            i <= bytes.len(),
            forall|j: int| 0 <= j < i ==> alphabet.admits(#[trigger] bytes@[j]),
        decreases bytes.len() - i,
    {
        if !alphabet.holds(bytes[i]) {
            return false;
        }
        i += 1;
    }
    true
}

/// Whether every byte of `value` belongs to `alphabet`.
pub fn all_bytes(value: &str, alphabet: Alphabet) -> (r: bool)
    ensures
        r == drawn_from(utf8(value@), alphabet),
{
    bytes_drawn_from(value.as_bytes(), alphabet)
}

pub fn bytes_contain(bytes: &[u8], byte: u8) -> (r: bool)
    ensures
        r == has_byte(bytes@, byte),
{
    let mut i: usize = 0;
    while i < bytes.len()
        invariant
            i <= bytes.len(),
            forall|j: int| 0 <= j < i ==> #[trigger] bytes@[j] != byte,
        decreases bytes.len() - i,
    {
        if bytes[i] == byte {
            return true;
        }
        i += 1;
    }
    false
}

pub fn contains_byte(value: &str, byte: u8) -> (r: bool)
    ensures
        r == has_byte(utf8(value@), byte),
{
    bytes_contain(value.as_bytes(), byte)
}

pub fn same_bytes(left: &[u8], right: &[u8]) -> (r: bool)
    ensures
        r == (left@ == right@),
{
    if left.len() != right.len() {
        return false;
    }
    let mut i: usize = 0;
    while i < left.len()
        invariant
            i <= left.len(),
            left.len() == right.len(),
            forall|j: int| 0 <= j < i ==> #[trigger] left@[j] == right@[j],
        decreases left.len() - i,
    {
        if left[i] != right[i] {
            return false;
        }
        i += 1;
    }
    proof {
        assert(left@ =~= right@);
    }
    true
}

/// A copy of the bytes.
pub fn copy_bytes(bytes: &[u8]) -> (r: Vec<u8>)
    ensures
        r@ == bytes@,
{
    let mut copy: Vec<u8> = Vec::new();
    copy.extend_from_slice(bytes);
    proof {
        assert(copy@ =~= bytes@);
    }
    copy
}

/// Calls `String::from_utf8`, which keeps well-formed UTF-8 and refuses all else.
#[verifier::external_body]
pub(crate) fn decode_utf8(bytes: Vec<u8>) -> (r: Option<String>)
    ensures
        r is Some <==> valid_utf8(bytes@),
        r matches Some(value) ==> utf8(value@) == bytes@,
{
    String::from_utf8(bytes).ok()
}

/// Two strings with one encoding are one string.
pub proof fn lemma_utf8_injective(left: Seq<char>, right: Seq<char>)
    ensures
        utf8(left) == utf8(right) <==> left == right,
{
    encode_utf8_decode_utf8(left);
    encode_utf8_decode_utf8(right);
}

/// The encoding of a concatenation is the concatenation of the encodings.
pub proof fn lemma_utf8_concat(left: Seq<char>, right: Seq<char>)
    ensures
        utf8(left + right) == utf8(left) + utf8(right),
    decreases left.len(),
{
    if left.len() == 0 {
        assert(left + right =~= right);
        assert(utf8(left) + utf8(right) =~= utf8(right));
    } else {
        lemma_utf8_concat(left.drop_first(), right);
        assert((left + right).drop_first() =~= left.drop_first() + right);
        assert((left + right)[0] == left[0]);
        assert(utf8(left + right) =~= utf8(left) + utf8(right));
    }
}

/// Whether two strings are equal.
pub fn same(left: &str, right: &str) -> (r: bool)
    ensures
        r == (left@ == right@),
{
    proof {
        lemma_utf8_injective(left@, right@);
    }
    same_bytes(left.as_bytes(), right.as_bytes())
}

/// An optional string read as an optional character sequence.
pub open spec fn optional(value: Option<String>) -> Option<Seq<char>> {
    match value {
        Some(text) => Some(text@),
        None => None,
    }
}

pub fn same_optional(left: &Option<String>, right: &Option<String>) -> (r: bool)
    ensures
        r == (optional(*left) == optional(*right)),
{
    match (left, right) {
        (Some(a), Some(b)) => same(a.as_str(), b.as_str()),
        (None, None) => true,
        _ => false,
    }
}

/// `prefix` is an initial segment of `bytes`.
pub open spec fn begins_with(bytes: Seq<u8>, prefix: Seq<u8>) -> bool {
    prefix.len() <= bytes.len() && bytes.subrange(0, prefix.len() as int) == prefix
}

/// `suffix` is a final segment of `bytes`.
pub open spec fn finishes_with(bytes: Seq<u8>, suffix: Seq<u8>) -> bool {
    suffix.len() <= bytes.len() && bytes.subrange(
        bytes.len() - suffix.len(),
        bytes.len() as int,
    ) == suffix
}

pub fn bytes_begin_with(bytes: &[u8], prefix: &[u8]) -> (r: bool)
    ensures
        r == begins_with(bytes@, prefix@),
{
    if prefix.len() > bytes.len() {
        return false;
    }
    same_bytes(vstd::slice::slice_subrange(bytes, 0, prefix.len()), prefix)
}

pub fn bytes_finish_with(bytes: &[u8], suffix: &[u8]) -> (r: bool)
    ensures
        r == finishes_with(bytes@, suffix@),
{
    if suffix.len() > bytes.len() {
        return false;
    }
    same_bytes(
        vstd::slice::slice_subrange(bytes, bytes.len() - suffix.len(), bytes.len()),
        suffix,
    )
}

/// `part` stands somewhere in `bytes`.
pub open spec fn has_part(bytes: Seq<u8>, part: Seq<u8>) -> bool {
    exists|at: int| #[trigger] stands_at(bytes, part, at)
}

/// `part` stands in `bytes` at `at`.
pub open spec fn stands_at(bytes: Seq<u8>, part: Seq<u8>, at: int) -> bool {
    0 <= at <= bytes.len() - part.len() && bytes.subrange(at, at + part.len()) == part
}

/// Whether `part` stands somewhere in `value`.
pub fn contains_text(value: &str, part: &str) -> (r: bool)
    ensures
        r == has_part(utf8(value@), utf8(part@)),
{
    let bytes = value.as_bytes();
    let wanted = part.as_bytes();
    if wanted.len() > bytes.len() {
        return false;
    }
    let length: usize = bytes.len();
    let last: usize = length - wanted.len();
    let mut at: usize = 0;
    while at <= last
        invariant
            at <= last + 1,
            length == bytes@.len(),
            last == bytes@.len() - wanted@.len(),
            last < usize::MAX || at <= last,
            bytes@ == utf8(value@),
            wanted@ == utf8(part@),
            forall|j: int| 0 <= j < at ==> !#[trigger] stands_at(bytes@, wanted@, j),
        decreases last + 1 - at,
    {
        if same_bytes(vstd::slice::slice_subrange(bytes, at, at + wanted.len()), wanted) {
            proof {
                assert(stands_at(bytes@, wanted@, at as int));
            }
            return true;
        }
        if at == last {
            return false;
        }
        at += 1;
    }
    false
}

pub fn starts_with(value: &str, prefix: &str) -> (r: bool)
    ensures
        r == begins_with(utf8(value@), utf8(prefix@)),
{
    bytes_begin_with(value.as_bytes(), prefix.as_bytes())
}

pub fn ends_with(value: &str, suffix: &str) -> (r: bool)
    ensures
        r == finishes_with(utf8(value@), utf8(suffix@)),
{
    bytes_finish_with(value.as_bytes(), suffix.as_bytes())
}

/// The texts of a row of strings.
pub open spec fn texts(values: Seq<String>) -> Seq<Seq<char>> {
    Seq::new(values.len(), |i: int| values[i]@)
}

/// The texts of a row of string slices.
pub open spec fn borrowed(values: Seq<&str>) -> Seq<Seq<char>> {
    Seq::new(values.len(), |i: int| values[i]@)
}

/// Copies a row of string slices.
pub fn owned(values: Vec<&str>) -> (r: Vec<String>)
    ensures
        texts(r@) == borrowed(values@),
{
    let mut copies: Vec<String> = Vec::new();
    let mut i: usize = 0;
    while i < values.len()
        invariant
            i <= values@.len(),
            copies@.len() == i,
            forall|j: int| 0 <= j < i ==> (#[trigger] copies@[j])@ == values@[j]@,
        decreases values@.len() - i,
    {
        copies.push(values[i].to_owned());
        i += 1;
    }
    proof {
        assert(texts(copies@) =~= borrowed(values@));
    }
    copies
}

/// Joins two strings.
pub fn join2(first: &str, second: &str) -> (r: String)
    ensures
        r@ == first@ + second@,
{
    let mut text = first.to_owned();
    text.append(second);
    text
}

/// Joins three strings.
pub fn join3(first: &str, second: &str, third: &str) -> (r: String)
    ensures
        r@ == first@ + second@ + third@,
{
    let mut text = first.to_owned();
    text.append(second);
    text.append(third);
    text
}

/// Joins five strings.
pub fn join5(first: &str, second: &str, third: &str, fourth: &str, fifth: &str) -> (r: String)
    ensures
        r@ == first@ + second@ + third@ + fourth@ + fifth@,
{
    let mut text = first.to_owned();
    text.append(second);
    text.append(third);
    text.append(fourth);
    text.append(fifth);
    text
}

/// The decimal digit of a value below ten.
pub open spec fn decimal_digit(value: nat) -> Seq<char> {
    seq![(48 + value) as char]
}

/// A number in decimal, without leading zeros.
pub open spec fn decimal(value: nat) -> Seq<char>
    decreases value,
{
    if value < 10 {
        decimal_digit(value)
    } else {
        decimal(value / 10) + decimal_digit(value % 10)
    }
}

fn digit_text(value: u64) -> (r: &'static str)
    requires
        value < 10,
    ensures
        r@ == decimal_digit(value as nat),
{
    proof {
        reveal_strlit("0");
        reveal_strlit("1");
        reveal_strlit("2");
        reveal_strlit("3");
        reveal_strlit("4");
        reveal_strlit("5");
        reveal_strlit("6");
        reveal_strlit("7");
        reveal_strlit("8");
        reveal_strlit("9");
    }
    match value {
        0 => "0",
        1 => "1",
        2 => "2",
        3 => "3",
        4 => "4",
        5 => "5",
        6 => "6",
        7 => "7",
        8 => "8",
        _ => "9",
    }
}

/// Writes a number in decimal.
pub fn decimal_text(value: u64) -> (r: String)
    ensures
        r@ == decimal(value as nat),
    decreases value,
{
    if value < 10 {
        digit_text(value).to_owned()
    } else {
        let mut text = decimal_text(value / 10);
        text.append(digit_text(value % 10));
        text
    }
}

/// The position of the first `separator` in `bytes`, or their length.
pub open spec fn find(bytes: Seq<u8>, separator: u8) -> int
    decreases bytes.len(),
{
    if bytes.len() == 0 || bytes[0] == separator {
        0
    } else {
        1 + find(bytes.drop_first(), separator)
    }
}

/// The pieces of `bytes` between the separators.
pub open spec fn split(bytes: Seq<u8>, separator: u8) -> Seq<Seq<u8>>
    decreases bytes.len(),
{
    let at = find(bytes, separator);
    if 0 <= at < bytes.len() {
        seq![bytes.take(at)] + split(bytes.skip(at + 1), separator)
    } else {
        seq![bytes]
    }
}

/// The first separator stands at `at`.
pub proof fn lemma_find_at(bytes: Seq<u8>, separator: u8, at: int)
    requires
        0 <= at <= bytes.len(),
        forall|j: int| 0 <= j < at ==> #[trigger] bytes[j] != separator,
        at < bytes.len() ==> bytes[at] == separator,
    ensures
        find(bytes, separator) == at,
    decreases at,
{
    if at > 0 {
        assert forall|j: int| 0 <= j < at - 1 implies #[trigger] bytes.drop_first()[j]
            != separator by {
            assert(bytes.drop_first()[j] == bytes[j + 1]);
        }
        lemma_find_at(bytes.drop_first(), separator, at - 1);
    }
}

/// What `find` finds.
pub proof fn lemma_find(bytes: Seq<u8>, separator: u8)
    ensures
        0 <= find(bytes, separator) <= bytes.len(),
        forall|j: int| 0 <= j < find(bytes, separator) ==> #[trigger] bytes[j] != separator,
        find(bytes, separator) < bytes.len() ==> bytes[find(bytes, separator)] == separator,
    decreases bytes.len(),
{
    if bytes.len() > 0 && bytes[0] != separator {
        lemma_find(bytes.drop_first(), separator);
        assert forall|j: int| 0 <= j < find(bytes, separator) implies #[trigger] bytes[j]
            != separator by {
            if j > 0 {
                assert(bytes.drop_first()[j - 1] == bytes[j]);
            }
        }
    }
}

/// The position of the first `separator`, or the length.
pub fn find_byte(bytes: &[u8], separator: u8) -> (r: usize)
    ensures
        r == find(bytes@, separator),
        r <= bytes@.len(),
        forall|j: int| 0 <= j < r ==> #[trigger] bytes@[j] != separator,
        r < bytes@.len() ==> bytes@[r as int] == separator,
{
    let mut i: usize = 0;
    while i < bytes.len() && bytes[i] != separator
        invariant
            i <= bytes.len(),
            forall|j: int| 0 <= j < i ==> #[trigger] bytes@[j] != separator,
        decreases bytes.len() - i,
    {
        i += 1;
    }
    proof {
        lemma_find_at(bytes@, separator, i as int);
    }
    i
}

/// The position of the last `separator` in `bytes`, or -1.
pub open spec fn find_last(bytes: Seq<u8>, separator: u8) -> int
    decreases bytes.len(),
{
    if bytes.len() == 0 {
        -1
    } else if bytes.last() == separator {
        bytes.len() - 1
    } else {
        find_last(bytes.drop_last(), separator)
    }
}

/// The last separator stands at `at`.
pub proof fn lemma_find_last_at(bytes: Seq<u8>, separator: u8, at: int)
    requires
        -1 <= at < bytes.len(),
        forall|j: int| at < j < bytes.len() ==> #[trigger] bytes[j] != separator,
        at >= 0 ==> bytes[at] == separator,
    ensures
        find_last(bytes, separator) == at,
    decreases bytes.len(),
{
    if bytes.len() > 0 && at < bytes.len() - 1 {
        assert(bytes.last() != separator);
        assert forall|j: int| at < j < bytes.drop_last().len() implies #[trigger] bytes.drop_last()[j]
            != separator by {
            assert(bytes.drop_last()[j] == bytes[j]);
        }
        lemma_find_last_at(bytes.drop_last(), separator, at);
    }
}

/// The position of the last `separator`.
pub fn find_last_byte(bytes: &[u8], separator: u8) -> (r: Option<usize>)
    ensures
        match r {
            Some(at) => {
                &&& at == find_last(bytes@, separator)
                &&& at < bytes@.len()
                &&& bytes@[at as int] == separator
            },
            None => find_last(bytes@, separator) == -1,
        },
{
    let mut i: usize = bytes.len();
    while i > 0
        invariant
            i <= bytes@.len(),
            forall|j: int| i <= j < bytes@.len() ==> #[trigger] bytes@[j] != separator,
        decreases i,
    {
        i -= 1;
        if bytes[i] == separator {
            proof {
                lemma_find_last_at(bytes@, separator, i as int);
            }
            return Some(i);
        }
    }
    proof {
        lemma_find_last_at(bytes@, separator, -1);
    }
    None
}

/// A row that is split by a separator which the first part lacks has one reading.
pub proof fn lemma_separated(
    left: Seq<u8>,
    behind: Seq<u8>,
    right: Seq<u8>,
    other: Seq<u8>,
    separator: u8,
)
    requires
        !has_byte(left, separator),
        !has_byte(right, separator),
    ensures
        left + seq![separator] + behind == right + seq![separator] + other <==> left == right
            && behind == other,
{
    let l = left + seq![separator] + behind;
    let r = right + seq![separator] + other;
    if l == r {
        lemma_find_at(l, separator, left.len() as int);
        lemma_find_at(r, separator, right.len() as int);
        assert(l.take(left.len() as int) =~= left);
        assert(r.take(right.len() as int) =~= right);
        assert(l.skip(left.len() as int + 1) =~= behind);
        assert(r.skip(right.len() as int + 1) =~= other);
    }
}

/// The byte sequences that a vector of slices holds.
pub open spec fn slices(pieces: Seq<&[u8]>) -> Seq<Seq<u8>> {
    Seq::new(pieces.len(), |i: int| pieces[i]@)
}

/// Splits `bytes` at every `separator`.
pub fn pieces<'a>(bytes: &'a [u8], separator: u8) -> (r: Vec<&'a [u8]>)
    ensures
        slices(r@) == split(bytes@, separator),
        r@.len() >= 1,
{
    let mut done: Vec<&'a [u8]> = Vec::new();
    let mut rest: &'a [u8] = bytes;
    proof {
        assert(slices(done@) + split(rest@, separator) =~= split(bytes@, separator));
    }
    loop
        invariant
            slices(done@) + split(rest@, separator) == split(bytes@, separator),
        decreases rest@.len(),
    {
        let at: usize = find_byte(rest, separator);
        if at >= rest.len() {
            let ghost before = done@;
            done.push(rest);
            proof {
                assert(slices(done@) =~= slices(before) + seq![rest@]);
            }
            return done;
        }
        let piece = vstd::slice::slice_subrange(rest, 0, at);
        let behind = vstd::slice::slice_subrange(rest, at + 1, rest.len());
        let ghost before = done@;
        done.push(piece);
        proof {
            assert(rest@.take(at as int) =~= piece@);
            assert(rest@.skip(at + 1) =~= behind@);
            assert(slices(done@) =~= slices(before) + seq![piece@]);
            assert(slices(done@) + split(behind@, separator) =~= slices(before) + split(
                rest@,
                separator,
            ));
        }
        rest = behind;
    }
}

/// A position beside an ASCII byte lies between characters.
pub open spec fn beside_ascii(bytes: Seq<u8>, at: int) -> bool {
    &&& 0 <= at <= bytes.len()
    &&& at == 0 || at == bytes.len() || bytes[at] < 128 || bytes[at - 1] < 128
}

proof fn lemma_boundary_behind_ascii(bytes: Seq<u8>, at: int)
    requires
        valid_utf8(bytes),
        0 <= at < bytes.len(),
        bytes[at] < 128,
    ensures
        is_char_boundary(bytes, at + 1),
    decreases bytes.len(),
{
    let length = length_of_first_scalar(bytes);
    utf8_byte_ranges_bitwise(bytes[at]);
    is_char_boundary_iff_not_is_continuation_byte(bytes, at);
    if at == 0 {
        reveal_with_fuel(is_char_boundary, 2);
    } else {
        reveal_with_fuel(is_char_boundary, 2);
        assert(at >= length);
        assert(pop_first_scalar(bytes)[at - length] == bytes[at]);
        lemma_boundary_behind_ascii(pop_first_scalar(bytes), at - length);
    }
}

/// Splits a string beside an ASCII byte.
pub fn split_text(value: &str, at: usize) -> (r: (&str, &str))
    requires
        beside_ascii(utf8(value@), at as int),
    ensures
        utf8(r.0@) == utf8(value@).subrange(0, at as int),
        utf8(r.1@) == utf8(value@).subrange(at as int, utf8(value@).len() as int),
        value@ == r.0@ + r.1@,
{
    let ghost bytes = utf8(value@);
    proof {
        encode_utf8_valid_utf8(value@);
        is_char_boundary_start_end_of_seq(bytes);
        if 0 < at < bytes.len() {
            if bytes[at as int] < 128 {
                is_char_boundary_iff_not_is_continuation_byte(bytes, at as int);
            } else {
                lemma_boundary_behind_ascii(bytes, at - 1);
            }
        }
    }
    let halves = value.split_at(at);
    proof {
        lemma_utf8_concat(halves.0@, halves.1@);
        assert(utf8(halves.0@) + utf8(halves.1@) =~= bytes);
        lemma_utf8_injective(value@, halves.0@ + halves.1@);
    }
    halves
}

/// What the alphabets hold, byte by byte.
pub proof fn law_alphabets_hold_their_bytes(byte: u8)
    ensures
        ({
            let lower = 'a' as u8 <= byte <= 'z' as u8;
            let upper = 'A' as u8 <= byte <= 'Z' as u8;
            let digit = '0' as u8 <= byte <= '9' as u8;
            let dash = byte == '-' as u8;
            let bar = byte == '_' as u8;
            let dot = byte == '.' as u8;
            let colon = byte == ':' as u8;
            let slash = byte == '/' as u8;
            &&& Alphabet::Identifier.admits(byte) <==> lower || digit || dash || bar
            &&& Alphabet::EnvironmentName.admits(byte) <==> lower || upper || digit || bar
            &&& Alphabet::ImageReference.admits(byte) <==> lower || upper || digit || slash || dot
                || bar || dash || colon || byte == '@' as u8
            &&& Alphabet::Token.admits(byte) <==> lower || upper || digit || dash || bar
            &&& Alphabet::DottedToken.admits(byte) <==> lower || upper || digit || dash || bar
                || dot
            &&& Alphabet::Label.admits(byte) <==> lower || upper || digit || dash || bar || dot
                || colon || slash
            &&& Alphabet::HostLabel.admits(byte) <==> lower || digit || dash
            &&& Alphabet::Digit.admits(byte) <==> digit
            &&& Alphabet::LowerHex.admits(byte) <==> digit || 'a' as u8 <= byte <= 'f' as u8
            &&& Alphabet::Hex.admits(byte) <==> digit || 'a' as u8 <= byte <= 'f' as u8 || 'A' as u8
                <= byte <= 'F' as u8
            &&& Alphabet::Registry.admits(byte) <==> lower || upper || digit || dot || dash || colon
                || bar
        }),
{
}

/// A piece behind the last separator is the last piece.
pub proof fn lemma_split_behind(front: Seq<u8>, name: Seq<u8>, separator: u8)
    requires
        !has_byte(name, separator),
    ensures
        split(front + seq![separator] + name, separator) == split(front, separator).push(name),
        split(name, separator) == seq![name],
        split(front, separator).len() >= 1,
    decreases front.len(),
{
    let bytes = front + seq![separator] + name;
    lemma_find(name, separator);
    lemma_find(front, separator);
    if find(name, separator) < name.len() {
        assert(name[find(name, separator)] == separator);
    }
    let at = find(front, separator);
    assert forall|j: int| 0 <= j < at implies #[trigger] bytes[j] != separator by {
        assert(bytes[j] == front[j]);
    }
    assert(bytes[at] == separator);
    lemma_find_at(bytes, separator, at);
    if at < front.len() {
        lemma_split_behind(front.skip(at + 1), name, separator);
        assert(bytes.skip(at + 1) =~= front.skip(at + 1) + seq![separator] + name);
        assert(bytes.take(at) =~= front.take(at));
        assert(split(bytes, separator) =~= split(front, separator).push(name));
    } else {
        assert(bytes.take(at) =~= front);
        assert(bytes.skip(at + 1) =~= name);
        assert(split(name, separator) =~= seq![name]);
        assert(split(front, separator) =~= seq![front]);
        assert(split(bytes, separator) =~= split(front, separator).push(name));
    }
}

/// Bytes are cut at every separator: what stands before the first is the first piece and the rest
/// follows, and bytes without a separator are one piece.
pub proof fn law_pieces_end_at_separators(piece: Seq<u8>, rest: Seq<u8>, separator: u8)
    requires
        !has_byte(piece, separator),
    ensures
        split(piece + seq![separator] + rest, separator) == seq![piece] + split(rest, separator),
        split(piece, separator) == seq![piece],
        find(piece + seq![separator] + rest, separator) == piece.len(),
        find(piece, separator) == piece.len(),
{
    let whole = piece + seq![separator] + rest;
    assert(forall|j: int| 0 <= j < piece.len() ==> #[trigger] whole[j] == piece[j]);
    assert(whole[piece.len() as int] == separator);
    lemma_find_at(whole, separator, piece.len() as int);
    lemma_find_at(piece, separator, piece.len() as int);
    assert(whole.take(piece.len() as int) =~= piece);
    assert(whole.skip(piece.len() as int + 1) =~= rest);
}

/// A number is written in decimal digits that stand for it, without a leading zero.
pub proof fn law_decimals_write_their_number(value: nat)
    ensures
        decimal(value).len() > 0,
        value < 10 ==> decimal(value).len() == 1 && decimal(value)[0] as int == 48 + value,
        value >= 10 ==> decimal(value).drop_last() == decimal(value / 10) && decimal(value).last() as int
            == 48 + value % 10,
        value > 0 ==> decimal(value)[0] != '0',
    decreases value,
{
    if value >= 10 {
        law_decimals_write_their_number(value / 10);
        assert(decimal(value).drop_last() =~= decimal(value / 10));
    }
}

/// Bytes begin with a prefix exactly where they are that prefix and something behind it, and end
/// with a suffix exactly where they are something and that suffix behind it.
pub proof fn law_prefixes_lead_and_suffixes_end(bytes: Seq<u8>, part: Seq<u8>)
    ensures
        begins_with(bytes, part) <==> exists|rest: Seq<u8>| bytes == #[trigger] (part + rest),
        finishes_with(bytes, part) <==> exists|front: Seq<u8>| bytes == #[trigger] (front + part),
        has_part(bytes, part) <==> exists|front: Seq<u8>, rest: Seq<u8>|
            bytes == #[trigger] (front + part + rest),
{
    if begins_with(bytes, part) {
        assert(bytes =~= part + bytes.skip(part.len() as int));
    }
    if exists|rest: Seq<u8>| bytes == #[trigger] (part + rest) {
        assert(bytes.subrange(0, part.len() as int) =~= part);
    }
    if finishes_with(bytes, part) {
        assert(bytes =~= bytes.take(bytes.len() - part.len()) + part);
    }
    if exists|front: Seq<u8>| bytes == #[trigger] (front + part) {
        assert(bytes.subrange(bytes.len() - part.len(), bytes.len() as int) =~= part);
    }
    if has_part(bytes, part) {
        let at = choose|at: int| #[trigger] stands_at(bytes, part, at);
        let front = bytes.take(at);
        let rest = bytes.skip(at + part.len());
        assert(bytes =~= front + part + rest);
    }
    if exists|front: Seq<u8>, rest: Seq<u8>| bytes == #[trigger] (front + part + rest) {
        let (front, rest) = choose|front: Seq<u8>, rest: Seq<u8>|
            bytes == #[trigger] (front + part + rest);
        let at = front.len() as int;
        assert(bytes.subrange(at, at + part.len()) =~= part);
        assert(stands_at(bytes, part, at));
    }
}

/// The last separator is the one with none behind it.
pub proof fn law_the_last_separator_has_none_behind_it(
    front: Seq<u8>,
    rest: Seq<u8>,
    separator: u8,
)
    requires
        !has_byte(rest, separator),
    ensures
        find_last(front + seq![separator] + rest, separator) == front.len(),
        find_last(rest, separator) == -1,
{
    let whole = front + seq![separator] + rest;
    let at = front.len() as int;
    assert forall|j: int| at < j < whole.len() implies #[trigger] whole[j] != separator by {
        assert(whole[j] == rest[j - at - 1]);
    }
    assert(whole[at] == separator);
    lemma_find_last_at(whole, separator, at);
    lemma_find_last_at(rest, separator, -1);
}

/// Rows of texts are viewed text by text, in their order, and an optional text as what it is.
pub proof fn law_texts_are_viewed_in_their_order(
    values: Seq<String>,
    slices_of: Seq<&str>,
    pieces_of: Seq<&[u8]>,
    value: String,
    i: int,
)
    ensures
        texts(values).len() == values.len(),
        0 <= i < values.len() ==> texts(values)[i] == values[i]@,
        borrowed(slices_of).len() == slices_of.len(),
        0 <= i < slices_of.len() ==> borrowed(slices_of)[i] == slices_of[i]@,
        slices(pieces_of).len() == pieces_of.len(),
        0 <= i < pieces_of.len() ==> slices(pieces_of)[i] == pieces_of[i]@,
        optional(Some(value)) == Some(value@),
        optional(None) is None,
{
}

/// Bytes are drawn from an alphabet where it holds each of them, and hold a byte where one of them
/// is it.
pub proof fn law_bytes_are_drawn_one_by_one(bytes: Seq<u8>, alphabet: Alphabet, byte: u8, last: u8)
    ensures
        drawn_from(Seq::<u8>::empty(), alphabet),
        drawn_from(bytes.push(last), alphabet) <==> drawn_from(bytes, alphabet) && alphabet.admits(
            last,
        ),
        !has_byte(Seq::<u8>::empty(), byte),
        has_byte(bytes.push(last), byte) <==> has_byte(bytes, byte) || last == byte,
{
    let longer = bytes.push(last);
    if drawn_from(longer, alphabet) {
        assert forall|i: int| 0 <= i < bytes.len() implies alphabet.admits(#[trigger] bytes[i]) by {
            assert(longer[i] == bytes[i]);
        }
        assert(longer[bytes.len() as int] == last);
    }
    assert(longer[bytes.len() as int] == last);
    if has_byte(bytes, byte) {
        let i = choose|i: int| 0 <= i < bytes.len() && #[trigger] bytes[i] == byte;
        assert(longer[i] == byte);
    }
    if has_byte(longer, byte) && last != byte {
        let i = choose|i: int| 0 <= i < longer.len() && #[trigger] longer[i] == byte;
        assert(bytes[i] == byte);
    }
}

} // verus!
