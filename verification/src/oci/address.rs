//! Internet addresses in text, networks, and the destinations a sandbox never reaches.

use crate::text;
use crate::text::Alphabet;
use vstd::prelude::*;

verus! {

/// An internet address as a number, most significant byte first.
#[derive(Clone, Copy, Debug, PartialEq, Eq, Structural)]
pub enum IpAddress {
    V4(u32),
    V6(u128),
}

/// The value of decimal digits.
pub open spec fn decimal_value(digits: Seq<u8>) -> nat
    decreases digits.len(),
{
    if digits.len() == 0 {
        0
    } else {
        decimal_value(digits.drop_last()) * 10 + (digits.last() - 48) as nat
    }
}

/// The value of a hexadecimal digit.
pub open spec fn hex_digit_value(digit: u8) -> nat {
    if text::is_digit(digit) {
        (digit - 48) as nat
    } else if text::is_lower(digit) {
        (digit - 87) as nat
    } else {
        (digit - 55) as nat
    }
}

/// The value of hexadecimal digits.
pub open spec fn hex_value(digits: Seq<u8>) -> nat
    decreases digits.len(),
{
    if digits.len() == 0 {
        0
    } else {
        hex_value(digits.drop_last()) * 16 + hex_digit_value(digits.last())
    }
}

/// A decimal octet: one to three digits, no leading zero, at most 255.
pub open spec fn octet(piece: Seq<u8>) -> Option<nat> {
    if 1 <= piece.len() <= 3 && text::drawn_from(piece, Alphabet::Digit) && (piece.len() == 1
        || piece[0] != 48) && decimal_value(piece) <= 255 {
        Some(decimal_value(piece))
    } else {
        None
    }
}

/// Four octets with dots between them.
pub open spec fn dotted(bytes: Seq<u8>) -> Option<nat> {
    let pieces = text::split(bytes, 46);
    if pieces.len() == 4 && octet(pieces[0]) is Some && octet(pieces[1]) is Some && octet(
        pieces[2],
    ) is Some && octet(pieces[3]) is Some {
        Some(
            octet(pieces[0])->0 * 0x100_0000 + octet(pieces[1])->0 * 0x1_0000 + octet(pieces[2])->0
                * 0x100 + octet(pieces[3])->0,
        )
    } else {
        None
    }
}

/// A group of one to four hexadecimal digits.
pub open spec fn group(piece: Seq<u8>) -> Option<nat> {
    if 1 <= piece.len() <= 4 && text::drawn_from(piece, Alphabet::Hex) {
        Some(hex_value(piece))
    } else {
        None
    }
}

/// The values of groups, if each piece is one.
pub open spec fn groups(pieces: Seq<Seq<u8>>) -> Option<Seq<nat>> {
    if forall|i: int| 0 <= i < pieces.len() ==> group(#[trigger] pieces[i]) is Some {
        Some(Seq::new(pieces.len(), |i: int| group(pieces[i])->0))
    } else {
        None
    }
}

/// Groups of which the last may be four octets that stand for two.
pub open spec fn groups_with_octets(pieces: Seq<Seq<u8>>) -> Option<Seq<nat>> {
    if pieces.len() > 0 && dotted(pieces.last()) is Some {
        match groups(pieces.drop_last()) {
            Some(front) => Some(
                front.push(dotted(pieces.last())->0 / 0x1_0000).push(
                    dotted(pieces.last())->0 % 0x1_0000,
                ),
            ),
            None => None,
        }
    } else {
        groups(pieces)
    }
}

/// The first `::` stands at `at`.
pub open spec fn gap_at(bytes: Seq<u8>, at: int) -> bool {
    &&& 0 <= at < bytes.len() - 1
    &&& bytes[at] == 58
    &&& bytes[at + 1] == 58
    &&& forall|j: int| 0 <= j < at ==> !(#[trigger] bytes[j] == 58 && bytes[j + 1] == 58)
}

/// The eight groups of a colon-separated address.
pub open spec fn eight_groups(bytes: Seq<u8>) -> Option<Seq<nat>> {
    if exists|at: int| gap_at(bytes, at) {
        let at = choose|at: int| gap_at(bytes, at);
        let front = bytes.take(at);
        let back = bytes.skip(at + 2);
        let head = if front.len() == 0 {
            Some(Seq::empty())
        } else {
            groups(text::split(front, 58))
        };
        let tail = if back.len() == 0 {
            Some(Seq::empty())
        } else {
            groups_with_octets(text::split(back, 58))
        };
        if head is Some && tail is Some && head->0.len() + tail->0.len() <= 7 {
            Some(
                head->0 + Seq::new((8 - head->0.len() - tail->0.len()) as nat, |i: int| 0nat)
                    + tail->0,
            )
        } else {
            None
        }
    } else {
        match groups_with_octets(text::split(bytes, 58)) {
            Some(all) => if all.len() == 8 {
                Some(all)
            } else {
                None
            },
            None => None,
        }
    }
}

/// The number that eight groups make up.
pub open spec fn groups_number(all: Seq<nat>) -> nat {
    all[0] * 0x1_0000_0000_0000_0000_0000_0000_0000 + all[1] * 0x1_0000_0000_0000_0000_0000_0000
        + all[2] * 0x1_0000_0000_0000_0000_0000 + all[3] * 0x1_0000_0000_0000_0000 + all[4]
        * 0x1_0000_0000_0000 + all[5] * 0x1_0000_0000 + all[6] * 0x1_0000 + all[7]
}

/// The address that a text denotes.
pub open spec fn address_of(bytes: Seq<u8>) -> Option<IpAddress> {
    if dotted(bytes) is Some {
        Some(IpAddress::V4(dotted(bytes)->0 as u32))
    } else if eight_groups(bytes) is Some {
        Some(IpAddress::V6(groups_number(eight_groups(bytes)->0) as u128))
    } else {
        None
    }
}

fn parse_decimal(digits: &[u8]) -> (r: u32)
    requires
        digits@.len() <= 3,
        text::drawn_from(digits@, Alphabet::Digit),
    ensures
        r == decimal_value(digits@),
        r <= 999,
{
    let mut value: u32 = 0;
    let mut i: usize = 0;
    while i < digits.len()
        invariant
            i <= digits.len() <= 3,
            text::drawn_from(digits@, Alphabet::Digit),
            value == decimal_value(digits@.take(i as int)),
            i == 0 ==> value == 0,
            i == 1 ==> value <= 9,
            i == 2 ==> value <= 99,
            i == 3 ==> value <= 999,
        decreases digits.len() - i,
    {
        proof {
            assert(digits@.take(i + 1).drop_last() =~= digits@.take(i as int));
            assert(Alphabet::Digit.admits(digits@[i as int]));
        }
        value = value * 10 + (digits[i] - 48) as u32;
        i += 1;
    }
    proof {
        assert(digits@.take(digits@.len() as int) =~= digits@);
    }
    value
}

fn parse_octet(piece: &[u8]) -> (r: Option<u32>)
    ensures
        r is Some <==> octet(piece@) is Some,
        r matches Some(value) ==> value == octet(piece@)->0 && value <= 255,
{
    if piece.len() == 0 || piece.len() > 3 || !text::bytes_drawn_from(piece, Alphabet::Digit) || (
    piece.len() != 1 && piece[0] == 48) {
        return None;
    }
    let value = parse_decimal(piece);
    if value <= 255 {
        Some(value)
    } else {
        None
    }
}

fn parse_dotted(bytes: &[u8]) -> (r: Option<u32>)
    ensures
        r is Some <==> dotted(bytes@) is Some,
        r matches Some(value) ==> value == dotted(bytes@)->0,
{
    let pieces = text::pieces(bytes, 46);
    proof {
        assert(text::slices(pieces@).len() == pieces@.len());
    }
    if pieces.len() != 4 {
        return None;
    }
    proof {
        assert(text::slices(pieces@)[0] == pieces@[0]@);
        assert(text::slices(pieces@)[1] == pieces@[1]@);
        assert(text::slices(pieces@)[2] == pieces@[2]@);
        assert(text::slices(pieces@)[3] == pieces@[3]@);
    }
    match (
        parse_octet(pieces[0]),
        parse_octet(pieces[1]),
        parse_octet(pieces[2]),
        parse_octet(pieces[3]),
    ) {
        (Some(a), Some(b), Some(c), Some(d)) => {
            Some(a * 0x100_0000 + b * 0x1_0000 + c * 0x100 + d)
        },
        _ => None,
    }
}

fn parse_group(piece: &[u8]) -> (r: Option<u32>)
    ensures
        r is Some <==> group(piece@) is Some,
        r matches Some(value) ==> value == group(piece@)->0 && value <= 0xffff,
{
    if piece.len() == 0 || piece.len() > 4 || !text::bytes_drawn_from(piece, Alphabet::Hex) {
        return None;
    }
    let mut value: u32 = 0;
    let mut i: usize = 0;
    while i < piece.len()
        invariant
            i <= piece.len() <= 4,
            text::drawn_from(piece@, Alphabet::Hex),
            value == hex_value(piece@.take(i as int)),
            i == 0 ==> value == 0,
            i == 1 ==> value <= 0xf,
            i == 2 ==> value <= 0xff,
            i == 3 ==> value <= 0xfff,
            i == 4 ==> value <= 0xffff,
        decreases piece.len() - i,
    {
        proof {
            assert(piece@.take(i + 1).drop_last() =~= piece@.take(i as int));
            assert(Alphabet::Hex.admits(piece@[i as int]));
        }
        let byte = piece[i];
        let digit: u32 = if byte <= 57 {
            (byte - 48) as u32
        } else if byte >= 97 {
            (byte - 87) as u32
        } else {
            (byte - 55) as u32
        };
        value = value * 16 + digit;
        i += 1;
    }
    proof {
        assert(piece@.take(piece@.len() as int) =~= piece@);
    }
    Some(value)
}

/// Group values as natural numbers.
pub open spec fn naturals(values: Seq<u32>) -> Seq<nat> {
    Seq::new(values.len(), |i: int| values[i] as nat)
}

fn parse_groups(pieces: &Vec<&[u8]>, count: usize) -> (r: Option<Vec<u32>>)
    requires
        count <= pieces@.len(),
    ensures
        r is Some <==> groups(text::slices(pieces@).take(count as int)) is Some,
        r matches Some(values) ==> {
            &&& naturals(values@) == groups(text::slices(pieces@).take(count as int))->0
            &&& forall|i: int| 0 <= i < values@.len() ==> #[trigger] values@[i] <= 0xffff
        },
{
    let ghost all = text::slices(pieces@).take(count as int);
    let mut values: Vec<u32> = Vec::new();
    let mut i: usize = 0;
    while i < count
        invariant
            i <= count <= pieces@.len(),
            all == text::slices(pieces@).take(count as int),
            values@.len() == i,
            forall|j: int|
                0 <= j < i ==> {
                    &&& group(#[trigger] all[j]) is Some
                    &&& values@[j] == group(all[j])->0
                    &&& values@[j] <= 0xffff
                },
        decreases count - i,
    {
        proof {
            assert(all[i as int] == pieces@[i as int]@);
        }
        match parse_group(pieces[i]) {
            Some(value) => {
                values.push(value);
            },
            None => {
                return None;
            },
        }
        i += 1;
    }
    proof {
        assert(groups(all) is Some);
        assert(naturals(values@) =~= groups(all)->0);
        assert forall|j: int| 0 <= j < values@.len() implies #[trigger] values@[j] <= 0xffff by {
            assert(group(all[j]) is Some);
        }
    }
    Some(values)
}

fn parse_groups_with_octets(pieces: &Vec<&[u8]>) -> (r: Option<Vec<u32>>)
    requires
        pieces@.len() >= 1,
    ensures
        r is Some <==> groups_with_octets(text::slices(pieces@)) is Some,
        r matches Some(values) ==> {
            &&& naturals(values@) == groups_with_octets(text::slices(pieces@))->0
            &&& forall|i: int| 0 <= i < values@.len() ==> #[trigger] values@[i] <= 0xffff
        },
{
    let ghost all = text::slices(pieces@);
    let last: usize = pieces.len() - 1;
    proof {
        assert(all.last() == pieces@[last as int]@);
        assert(all.take(last as int) =~= all.drop_last());
        assert(all.take(pieces@.len() as int) =~= all);
    }
    match parse_dotted(pieces[last]) {
        Some(number) => match parse_groups(pieces, last) {
            Some(mut values) => {
                let ghost front = values@;
                values.push(number / 0x1_0000);
                values.push(number % 0x1_0000);
                proof {
                    assert(naturals(values@) =~= naturals(front).push(
                        dotted(all.last())->0 / 0x1_0000,
                    ).push(dotted(all.last())->0 % 0x1_0000));
                }
                Some(values)
            },
            None => None,
        },
        None => parse_groups(pieces, pieces.len()),
    }
}

/// Where the first `::` stands.
fn find_gap(bytes: &[u8]) -> (r: Option<usize>)
    ensures
        r is Some <==> exists|at: int| gap_at(bytes@, at),
        r matches Some(at) ==> gap_at(bytes@, at as int) && at as int == choose|at: int|
            gap_at(bytes@, at),
{
    let mut i: usize = 0;
    while bytes.len() > 1 && i < bytes.len() - 1
        invariant
            bytes@.len() == 0 ==> i == 0,
            bytes@.len() > 0 ==> i < bytes@.len(),
            forall|j: int|
                0 <= j < i ==> !(#[trigger] bytes@[j] == 58 && bytes@[j + 1] == 58),
        decreases bytes.len() - i,
    {
        if bytes[i] == 58 && bytes[i + 1] == 58 {
            proof {
                assert(gap_at(bytes@, i as int));
                let other = choose|at: int| gap_at(bytes@, at);
                if other < i {
                    assert(bytes@[other] == 58 && bytes@[other + 1] == 58);
                } else if (i as int) < other {
                    assert(bytes@[i as int] == 58 && bytes@[i + 1] == 58);
                }
            }
            return Some(i);
        }
        i += 1;
    }
    None
}

fn number(values: &Vec<u32>) -> (r: u128)
    requires
        values@.len() == 8,
        forall|i: int| 0 <= i < 8 ==> #[trigger] values@[i] <= 0xffff,
    ensures
        r == groups_number(naturals(values@)),
{
    values[0] as u128 * 0x1_0000_0000_0000_0000_0000_0000_0000 + values[1] as u128
        * 0x1_0000_0000_0000_0000_0000_0000 + values[2] as u128 * 0x1_0000_0000_0000_0000_0000
        + values[3] as u128 * 0x1_0000_0000_0000_0000 + values[4] as u128 * 0x1_0000_0000_0000
        + values[5] as u128 * 0x1_0000_0000 + values[6] as u128 * 0x1_0000 + values[7] as u128
}

fn parse_eight_groups(bytes: &[u8]) -> (r: Option<u128>)
    ensures
        r is Some <==> eight_groups(bytes@) is Some,
        r matches Some(value) ==> value == groups_number(eight_groups(bytes@)->0),
{
    match find_gap(bytes) {
        Some(at) => {
            let length: usize = bytes.len();
            let front = vstd::slice::slice_subrange(bytes, 0, at);
            let back = vstd::slice::slice_subrange(bytes, at + 2, length);
            proof {
                assert(front@ =~= bytes@.take(at as int));
                assert(back@ =~= bytes@.skip(at + 2));
            }
            let head = if front.len() == 0 {
                let none: Vec<u32> = Vec::new();
                proof {
                    assert(naturals(none@) =~= Seq::<nat>::empty());
                }
                none
            } else {
                let pieces = text::pieces(front, 58);
                proof {
                    assert(text::slices(pieces@).take(pieces@.len() as int) =~= text::slices(
                        pieces@,
                    ));
                }
                match parse_groups(&pieces, pieces.len()) {
                    Some(values) => values,
                    None => {
                        return None;
                    },
                }
            };
            let tail = if back.len() == 0 {
                let none: Vec<u32> = Vec::new();
                proof {
                    assert(naturals(none@) =~= Seq::<nat>::empty());
                }
                none
            } else {
                let pieces = text::pieces(back, 58);
                match parse_groups_with_octets(&pieces) {
                    Some(values) => values,
                    None => {
                        return None;
                    },
                }
            };
            if head.len() > 7 || tail.len() > 7 - head.len() {
                return None;
            }
            let zeros: usize = 8 - head.len() - tail.len();
            let ghost first = naturals(head@);
            let mut all = head;
            let mut i: usize = 0;
            while i < zeros
                invariant
                    i <= zeros,
                    zeros == 8 - head@.len() - tail@.len(),
                    head@.len() + tail@.len() <= 7,
                    all@.len() == head@.len() + i,
                    first == naturals(head@),
                    forall|j: int| 0 <= j < all@.len() ==> #[trigger] all@[j] <= 0xffff,
                    naturals(all@) =~= first + Seq::new(i as nat, |k: int| 0nat),
                decreases zeros - i,
            {
                let ghost before = naturals(all@);
                all.push(0);
                i += 1;
                proof {
                    assert(naturals(all@) =~= before.push(0));
                    assert(Seq::new(i as nat, |k: int| 0nat) =~= Seq::new(
                        (i - 1) as nat,
                        |k: int| 0nat,
                    ).push(0));
                }
            }
            let mut j: usize = 0;
            let ghost padded = naturals(all@);
            while j < tail.len()
                invariant
                    j <= tail@.len(),
                    all@.len() == 8 - tail@.len() + j,
                    tail@.len() <= 7,
                    forall|k: int| 0 <= k < tail@.len() ==> #[trigger] tail@[k] <= 0xffff,
                    forall|k: int| 0 <= k < all@.len() ==> #[trigger] all@[k] <= 0xffff,
                    naturals(all@) =~= padded + naturals(tail@).take(j as int),
                decreases tail@.len() - j,
            {
                let ghost before = naturals(all@);
                all.push(tail[j]);
                j += 1;
                proof {
                    assert(naturals(all@) =~= before.push(naturals(tail@)[j - 1]));
                    assert(naturals(tail@).take(j as int) =~= naturals(tail@).take(j - 1).push(
                        naturals(tail@)[j - 1],
                    ));
                }
            }
            proof {
                assert(naturals(tail@).take(tail@.len() as int) =~= naturals(tail@));
                assert(naturals(all@) =~= eight_groups(bytes@)->0);
            }
            Some(number(&all))
        },
        None => {
            let pieces = text::pieces(bytes, 58);
            match parse_groups_with_octets(&pieces) {
                Some(values) => {
                    if values.len() == 8 {
                        Some(number(&values))
                    } else {
                        None
                    }
                },
                None => None,
            }
        },
    }
}

impl IpAddress {
    /// Reads an address in dotted or colon notation.
    pub fn parse(value: &str) -> (r: Option<IpAddress>)
        ensures
            r == address_of(text::utf8(value@)),
    {
        Self::parse_bytes(value.as_bytes())
    }

    pub fn parse_bytes(bytes: &[u8]) -> (r: Option<IpAddress>)
        ensures
            r == address_of(bytes@),
    {
        match parse_dotted(bytes) {
            Some(value) => Some(IpAddress::V4(value)),
            None => match parse_eight_groups(bytes) {
                Some(value) => Some(IpAddress::V6(value)),
                None => None,
            },
        }
    }
}

/// The bits of a V4 address that a prefix of `prefix` bits fixes.
pub open spec fn mask_v4(prefix: u32) -> u32 {
    if prefix == 0 {
        0
    } else {
        0xffff_ffffu32 << ((32 - prefix) as u32)
    }
}

/// The bits of a V6 address that a prefix of `prefix` bits fixes.
pub open spec fn mask_v6(prefix: u32) -> u128 {
    if prefix == 0 {
        0
    } else {
        0xffff_ffff_ffff_ffff_ffff_ffff_ffff_ffffu128 << ((128 - prefix) as u32)
    }
}

/// How many bits an address has.
pub open spec fn address_bits(address: IpAddress) -> u32 {
    match address {
        IpAddress::V4(_) => 32,
        IpAddress::V6(_) => 128,
    }
}

/// The network of `prefix` bits that an address lies in.
pub open spec fn network_of(address: IpAddress, prefix: u32) -> IpAddress {
    match address {
        IpAddress::V4(value) => IpAddress::V4(value & mask_v4(prefix)),
        IpAddress::V6(value) => IpAddress::V6(value & mask_v6(prefix)),
    }
}

/// Clears the bits of `address` behind the first `prefix`.
pub fn network_address(address: IpAddress, prefix: u32) -> (r: IpAddress)
    requires
        prefix <= address_bits(address),
    ensures
        r == network_of(address, prefix),
{
    match address {
        IpAddress::V4(value) => {
            let mask: u32 = if prefix == 0 {
                0
            } else {
                0xffff_ffffu32 << (32 - prefix)
            };
            IpAddress::V4(value & mask)
        },
        IpAddress::V6(value) => {
            let mask: u128 = if prefix == 0 {
                0
            } else {
                0xffff_ffff_ffff_ffff_ffff_ffff_ffff_ffffu128 << (128 - prefix)
            };
            IpAddress::V6(value & mask)
        },
    }
}

/// The value of a prefix length: digits, perhaps behind a plus sign, at most 255.
pub open spec fn prefix_value(bytes: Seq<u8>) -> Option<nat> {
    let digits = if bytes.len() > 0 && bytes[0] == 43 {
        bytes.skip(1)
    } else {
        bytes
    };
    if digits.len() > 0 && text::drawn_from(digits, Alphabet::Digit) && decimal_value(digits)
        <= 255 {
        Some(decimal_value(digits))
    } else {
        None
    }
}

/// The address and the prefix length of `address/prefix`.
pub open spec fn cidr_parts(bytes: Seq<u8>) -> Option<(IpAddress, nat)> {
    let at = text::find(bytes, 47);
    if at < bytes.len() && address_of(bytes.take(at)) is Some && prefix_value(
        bytes.skip(at + 1),
    ) is Some {
        Some((address_of(bytes.take(at))->0, prefix_value(bytes.skip(at + 1))->0))
    } else {
        None
    }
}

/// A network and its prefix, with no bit set behind the prefix.
pub open spec fn canonical_cidr(bytes: Seq<u8>) -> bool {
    match cidr_parts(bytes) {
        Some((address, prefix)) => prefix <= address_bits(address) && network_of(
            address,
            prefix as u32,
        ) == address,
        None => false,
    }
}

/// The canonical network in `bytes` holds `destination`.
pub open spec fn cidr_covers(bytes: Seq<u8>, destination: IpAddress) -> bool {
    &&& canonical_cidr(bytes)
    &&& address_bits((cidr_parts(bytes)->0).0) == address_bits(destination)
    &&& network_of(destination, (cidr_parts(bytes)->0).1 as u32) == (cidr_parts(bytes)->0).0
}

/// A longer row of digits is worth no less than its beginning.
proof fn lemma_decimal_grows(digits: Seq<u8>, count: int)
    requires
        0 <= count <= digits.len(),
        text::drawn_from(digits, Alphabet::Digit),
    ensures
        decimal_value(digits.take(count)) <= decimal_value(digits),
    decreases digits.len() - count,
{
    if count < digits.len() {
        assert(digits.take(count + 1).drop_last() =~= digits.take(count));
        assert(Alphabet::Digit.admits(digits[count]));
        lemma_decimal_grows(digits, count + 1);
    } else {
        assert(digits.take(count) =~= digits);
    }
}

fn parse_prefix(bytes: &[u8]) -> (r: Option<u32>)
    ensures
        r is Some <==> prefix_value(bytes@) is Some,
        r matches Some(value) ==> value == prefix_value(bytes@)->0 && value <= 255,
{
    let digits = if bytes.len() > 0 && bytes[0] == 43 {
        let rest = vstd::slice::slice_subrange(bytes, 1, bytes.len());
        proof {
            assert(rest@ =~= bytes@.skip(1));
        }
        rest
    } else {
        bytes
    };
    if digits.len() == 0 || !text::bytes_drawn_from(digits, Alphabet::Digit) {
        return None;
    }
    let mut value: u32 = 0;
    let mut i: usize = 0;
    while i < digits.len()
        invariant
            i <= digits.len(),
            text::drawn_from(digits@, Alphabet::Digit),
            digits@ == (if bytes@.len() > 0 && bytes@[0] == 43 {
                bytes@.skip(1)
            } else {
                bytes@
            }),
            value == decimal_value(digits@.take(i as int)),
            value <= 255,
        decreases digits.len() - i,
    {
        proof {
            assert(digits@.take(i + 1).drop_last() =~= digits@.take(i as int));
            assert(Alphabet::Digit.admits(digits@[i as int]));
        }
        value = value * 10 + (digits[i] - 48) as u32;
        i += 1;
        if value > 255 {
            proof {
                lemma_decimal_grows(digits@, i as int);
            }
            return None;
        }
    }
    proof {
        assert(digits@.take(digits@.len() as int) =~= digits@);
    }
    Some(value)
}

fn parse_cidr(value: &str) -> (r: Option<(IpAddress, u32)>)
    ensures
        r is Some <==> cidr_parts(text::utf8(value@)) is Some,
        r matches Some((address, prefix)) ==> {
            &&& address == (cidr_parts(text::utf8(value@))->0).0
            &&& prefix == (cidr_parts(text::utf8(value@))->0).1
            &&& prefix <= 255
        },
{
    let bytes = value.as_bytes();
    let length: usize = bytes.len();
    let at: usize = text::find_byte(bytes, 47);
    if at >= length {
        return None;
    }
    let front = vstd::slice::slice_subrange(bytes, 0, at);
    let back = vstd::slice::slice_subrange(bytes, at + 1, length);
    proof {
        assert(front@ =~= bytes@.take(at as int));
        assert(back@ =~= bytes@.skip(at + 1));
    }
    match (IpAddress::parse_bytes(front), parse_prefix(back)) {
        (Some(address), Some(prefix)) => Some((address, prefix)),
        _ => None,
    }
}

/// Why a destination network is refused.
pub open spec fn cidr_failure(value: Seq<char>) -> Option<Seq<char>> {
    if cidr_parts(text::utf8(value)) is None {
        Some("destination CIDR `"@ + value + "` is invalid"@)
    } else if !canonical_cidr(text::utf8(value)) {
        Some("destination CIDR `"@ + value + "` is not canonical"@)
    } else {
        None
    }
}

/// Accepts the canonical networks.
pub fn validate_cidr(value: &str) -> (r: Result<(IpAddress, u32), String>)
    ensures
        match r {
            Ok((address, prefix)) => {
                &&& cidr_failure(value@) is None
                &&& address == (cidr_parts(text::utf8(value@))->0).0
                &&& prefix == (cidr_parts(text::utf8(value@))->0).1
                &&& prefix <= address_bits(address)
            },
            Err(reason) => cidr_failure(value@) == Some(reason@),
        },
{
    match parse_cidr(value) {
        None => Err(text::join3("destination CIDR `", value, "` is invalid")),
        Some((address, prefix)) => {
            let maximum: u32 = match address {
                IpAddress::V4(_) => 32,
                IpAddress::V6(_) => 128,
            };
            if prefix > maximum || network_address(address, prefix) != address {
                return Err(text::join3("destination CIDR `", value, "` is not canonical"));
            }
            Ok((address, prefix))
        },
    }
}

/// Whether the canonical network `value` holds `destination`.
pub fn cidr_contains(value: &str, destination: IpAddress) -> (r: Result<bool, String>)
    ensures
        match r {
            Ok(inside) => cidr_failure(value@) is None && inside == cidr_covers(
                text::utf8(value@),
                destination,
            ),
            Err(reason) => cidr_failure(value@) == Some(reason@),
        },
{
    match validate_cidr(value) {
        Err(reason) => Err(reason),
        Ok((address, prefix)) => {
            let same_family = match (address, destination) {
                (IpAddress::V4(_), IpAddress::V4(_)) => true,
                (IpAddress::V6(_), IpAddress::V6(_)) => true,
                _ => false,
            };
            Ok(same_family && network_address(destination, prefix) == address)
        },
    }
}

/// A canonical network holds its own address.
pub proof fn law_network_holds_itself(bytes: Seq<u8>)
    requires
        canonical_cidr(bytes),
    ensures
        cidr_covers(bytes, (cidr_parts(bytes)->0).0),
{
}

/// Clearing the bits behind a prefix twice clears them once.
pub proof fn law_network_is_stable(address: IpAddress, prefix: u32)
    ensures
        network_of(network_of(address, prefix), prefix) == network_of(address, prefix),
{
    match address {
        IpAddress::V4(value) => {
            let mask = mask_v4(prefix);
            assert((value & mask) & mask == value & mask) by (bit_vector);
        },
        IpAddress::V6(value) => {
            let mask = mask_v6(prefix);
            assert((value & mask) & mask == value & mask) by (bit_vector);
        },
    }
}

/// The value of decimal digits, if there are any and they come to at most `maximum`.
pub open spec fn bounded_number(digits: Seq<u8>, maximum: nat) -> Option<nat> {
    if digits.len() > 0 && text::drawn_from(digits, Alphabet::Digit) && decimal_value(digits)
        <= maximum {
        Some(decimal_value(digits))
    } else {
        None
    }
}

fn parse_bounded(digits: &[u8], maximum: u32) -> (r: Option<u32>)
    ensures
        r is Some <==> bounded_number(digits@, maximum as nat) is Some,
        r matches Some(value) ==> value == bounded_number(digits@, maximum as nat)->0 && value
            <= maximum,
{
    if digits.len() == 0 || !text::bytes_drawn_from(digits, Alphabet::Digit) {
        return None;
    }
    let mut value: u64 = 0;
    let mut i: usize = 0;
    while i < digits.len()
        invariant
            i <= digits.len(),
            text::drawn_from(digits@, Alphabet::Digit),
            value == decimal_value(digits@.take(i as int)),
            value <= maximum,
        decreases digits.len() - i,
    {
        proof {
            assert(digits@.take(i + 1).drop_last() =~= digits@.take(i as int));
            assert(Alphabet::Digit.admits(digits@[i as int]));
        }
        value = value * 10 + (digits[i] - 48) as u64;
        i += 1;
        if value > maximum as u64 {
            proof {
                lemma_decimal_grows(digits@, i as int);
            }
            return None;
        }
    }
    proof {
        assert(digits@.take(digits@.len() as int) =~= digits@);
    }
    Some(value as u32)
}

/// An address of groups and its scope: `groups` or `groups%scope`. Scope zero is none.
pub open spec fn scoped_groups(bytes: Seq<u8>) -> Option<(u128, u32)> {
    let at = text::find(bytes, 37);
    let scope = if at < bytes.len() {
        bounded_number(bytes.skip(at + 1), u32::MAX as nat)
    } else {
        Some(0nat)
    };
    match (address_of(bytes.take(at)), scope) {
        (Some(IpAddress::V6(value)), Some(scope)) => Some((value, scope as u32)),
        _ => None,
    }
}

fn parse_scoped_groups(bytes: &[u8]) -> (r: Option<(u128, u32)>)
    ensures
        r == scoped_groups(bytes@),
{
    let length: usize = bytes.len();
    let at: usize = text::find_byte(bytes, 37);
    let front = vstd::slice::slice_subrange(bytes, 0, at);
    proof {
        assert(front@ =~= bytes@.take(at as int));
    }
    let scope: Option<u32> = if at < length {
        let back = vstd::slice::slice_subrange(bytes, at + 1, length);
        proof {
            assert(back@ =~= bytes@.skip(at + 1));
        }
        parse_bounded(back, u32::MAX)
    } else {
        Some(0)
    };
    match (IpAddress::parse_bytes(front), scope) {
        (Some(IpAddress::V6(value)), Some(scope)) => Some((value, scope)),
        _ => None,
    }
}

/// An address that is listened on: its scope, which is zero where there is none, and its port.
#[derive(Clone, Copy, Debug, PartialEq, Eq, Structural)]
pub struct SocketAddress {
    pub address: IpAddress,
    pub scope_id: u32,
    pub port: u16,
}

/// The socket address in `octets:port`, `[groups]:port` or `[groups%scope]:port`.
pub open spec fn socket_of(bytes: Seq<u8>) -> Option<SocketAddress> {
    if bytes.len() > 0 && bytes[0] == 91 {
        let end = text::find(bytes, 93);
        if end + 1 < bytes.len() && bytes[end + 1] == 58 {
            match (
                scoped_groups(bytes.subrange(1, end)),
                bounded_number(bytes.skip(end + 2), 65_535),
            ) {
                (Some((value, scope_id)), Some(port)) => Some(
                    SocketAddress { address: IpAddress::V6(value), scope_id, port: port as u16 },
                ),
                _ => None,
            }
        } else {
            None
        }
    } else {
        let end = text::find(bytes, 58);
        if end < bytes.len() {
            match (address_of(bytes.take(end)), bounded_number(bytes.skip(end + 1), 65_535)) {
                (Some(IpAddress::V4(value)), Some(port)) => Some(
                    SocketAddress { address: IpAddress::V4(value), scope_id: 0, port: port as u16 },
                ),
                _ => None,
            }
        } else {
            None
        }
    }
}

impl SocketAddress {
    /// Reads an address, its scope and its port.
    pub fn parse(value: &str) -> (r: Option<SocketAddress>)
        ensures
            r == socket_of(text::utf8(value@)),
    {
        let bytes = value.as_bytes();
        let length: usize = bytes.len();
        if length > 0 && bytes[0] == 91 {
            let end: usize = text::find_byte(bytes, 93);
            if end >= length || end + 1 >= length || bytes[end + 1] != 58 {
                return None;
            }
            let front = vstd::slice::slice_subrange(bytes, 1, end);
            let back = vstd::slice::slice_subrange(bytes, end + 2, length);
            proof {
                assert(back@ =~= bytes@.skip(end + 2));
            }
            return match (parse_scoped_groups(front), parse_bounded(back, 65_535)) {
                (Some((value, scope_id)), Some(port)) => Some(
                    SocketAddress { address: IpAddress::V6(value), scope_id, port: port as u16 },
                ),
                _ => None,
            };
        }
        let end: usize = text::find_byte(bytes, 58);
        if end >= length {
            return None;
        }
        let front = vstd::slice::slice_subrange(bytes, 0, end);
        let back = vstd::slice::slice_subrange(bytes, end + 1, length);
        proof {
            assert(front@ =~= bytes@.take(end as int));
            assert(back@ =~= bytes@.skip(end + 1));
        }
        match (IpAddress::parse_bytes(front), parse_bounded(back, 65_535)) {
            (Some(IpAddress::V4(value)), Some(port)) => Some(
                SocketAddress { address: IpAddress::V4(value), scope_id: 0, port: port as u16 },
            ),
            _ => None,
        }
    }
}

/// The destinations that belong to the worker, its host, or no single peer.
pub open spec fn protected(address: IpAddress) -> bool {
    match address {
        IpAddress::V4(value) => {
            ||| value < 0x0100_0000  // 0.0.0.0/8

            ||| 0x7f00_0000 <= value <= 0x7fff_ffff  // 127.0.0.0/8

            ||| 0x0a00_0000 <= value <= 0x0aff_ffff  // 10.0.0.0/8

            ||| 0xac10_0000 <= value <= 0xac1f_ffff  // 172.16.0.0/12

            ||| 0xc0a8_0000 <= value <= 0xc0a8_ffff  // 192.168.0.0/16

            ||| 0xa9fe_0000 <= value <= 0xa9fe_ffff  // 169.254.0.0/16

            ||| 0x6440_0000 <= value <= 0x647f_ffff  // 100.64.0.0/10

            ||| 0xc612_0000 <= value <= 0xc613_ffff  // 198.18.0.0/15

            ||| 0xe000_0000 <= value  // 224.0.0.0/4 and 240.0.0.0/4

        },
        IpAddress::V6(value) => {
            ||| value <= 1  // :: and ::1

            ||| 0xff00_0000_0000_0000_0000_0000_0000_0000 <= value  // ff00::/8

            ||| 0xfc00_0000_0000_0000_0000_0000_0000_0000 <= value
                <= 0xfdff_ffff_ffff_ffff_ffff_ffff_ffff_ffff  // fc00::/7

            ||| 0xfe80_0000_0000_0000_0000_0000_0000_0000 <= value
                <= 0xfebf_ffff_ffff_ffff_ffff_ffff_ffff_ffff  // fe80::/10

            ||| 0x2001_0db8_0000_0000_0000_0000_0000_0000 <= value
                <= 0x2001_0db8_ffff_ffff_ffff_ffff_ffff_ffff  // 2001:db8::/32

        },
    }
}

/// Whether a sandbox must never reach `address`.
pub fn is_protected_destination(address: IpAddress) -> (r: bool)
    ensures
        r == protected(address),
{
    match address {
        IpAddress::V4(value) => {
            value < 0x0100_0000 || (0x7f00_0000 <= value && value <= 0x7fff_ffff) || (0x0a00_0000
                <= value && value <= 0x0aff_ffff) || (0xac10_0000 <= value && value <= 0xac1f_ffff)
                || (0xc0a8_0000 <= value && value <= 0xc0a8_ffff) || (0xa9fe_0000 <= value && value
                <= 0xa9fe_ffff) || (0x6440_0000 <= value && value <= 0x647f_ffff) || (0xc612_0000
                <= value && value <= 0xc613_ffff) || 0xe000_0000 <= value
        },
        IpAddress::V6(value) => {
            value <= 1 || 0xff00_0000_0000_0000_0000_0000_0000_0000 <= value || (
            0xfc00_0000_0000_0000_0000_0000_0000_0000 <= value && value
                <= 0xfdff_ffff_ffff_ffff_ffff_ffff_ffff_ffff) || (
            0xfe80_0000_0000_0000_0000_0000_0000_0000 <= value && value
                <= 0xfebf_ffff_ffff_ffff_ffff_ffff_ffff_ffff) || (
            0x2001_0db8_0000_0000_0000_0000_0000_0000 <= value && value
                <= 0x2001_0db8_ffff_ffff_ffff_ffff_ffff_ffff)
        },
    }
}

/// Masking the low bits is shifting them out and back.
proof fn lemma_mask_v6(value: u128, shift: u32)
    requires
        shift < 128,
    ensures
        value & (0xffff_ffff_ffff_ffff_ffff_ffff_ffff_ffffu128 << shift) == (value >> shift)
            << shift,
        ((value >> shift) << shift) >> shift == value >> shift,
{
    assert(value & (0xffff_ffff_ffff_ffff_ffff_ffff_ffff_ffffu128 << shift) == (value >> shift)
        << shift) by (bit_vector);
    assert(((value >> shift) << shift) >> shift == value >> shift) by (bit_vector);
}

/// A canonical network holds exactly the addresses of its family that agree with it in the bits of
/// its prefix.
pub proof fn law_networks_hold_what_shares_their_prefix(bytes: Seq<u8>, destination: IpAddress)
    requires
        canonical_cidr(bytes),
    ensures
        (cidr_parts(bytes)->0).1 <= match (cidr_parts(bytes)->0).0 {
            IpAddress::V4(_) => 32nat,
            IpAddress::V6(_) => 128nat,
        },
        cidr_covers(bytes, destination) <==> {
            let (network, prefix) = cidr_parts(bytes)->0;
            match (network, destination) {
                (IpAddress::V4(own), IpAddress::V4(value)) => prefix == 0 || own >> ((32
                    - prefix) as u32) == value >> ((32 - prefix) as u32),
                (IpAddress::V6(own), IpAddress::V6(value)) => prefix == 0 || own >> ((128
                    - prefix) as u32) == value >> ((128 - prefix) as u32),
                _ => false,
            }
        },
{
    let (network, prefix) = cidr_parts(bytes)->0;
    match (network, destination) {
        (IpAddress::V4(own), IpAddress::V4(value)) => {
            let shift = (32 - prefix) as u32;
            if prefix == 0 {
                assert(value & 0 == 0) by (bit_vector);
                assert(own & 0 == 0) by (bit_vector);
            } else {
                assert(own & (0xffff_ffffu32 << shift) == own ==> (value & (0xffff_ffffu32 << shift)
                    == own <==> own >> shift == value >> shift)) by (bit_vector)
                    requires
                        shift < 32,
                ;
            }
        },
        (IpAddress::V6(own), IpAddress::V6(value)) => {
            let shift = (128 - prefix) as u32;
            if prefix == 0 {
                assert(value & 0 == 0) by (bit_vector);
                assert(own & 0 == 0) by (bit_vector);
            } else {
                lemma_mask_v6(own, shift);
                lemma_mask_v6(value, shift);
            }
        },
        _ => {},
    }
}

/// Destinations are protected exactly where they lie in one of the networks of the host, of private
/// use, of documentation or of many peers: a V4 address by its first bytes, a V6 address by its
/// first groups.
pub proof fn law_protected_networks(value: u32, wide: u128)
    ensures
        protected(IpAddress::V4(value)) <==> {
            let a = value / 16_777_216;
            let b = (value / 65_536) % 256;
            ||| a == 0
            ||| a == 10
            ||| a == 127
            ||| a >= 224
            ||| a == 100 && 64 <= b < 128
            ||| a == 169 && b == 254
            ||| a == 172 && 16 <= b < 32
            ||| a == 192 && b == 168
            ||| a == 198 && (b == 18 || b == 19)
        },
        protected(IpAddress::V6(wide)) <==> {
            let first = wide / 0x1_0000_0000_0000_0000_0000_0000_0000;
            let second = (wide / 0x1_0000_0000_0000_0000_0000_0000) % 0x1_0000;
            ||| wide == 0
            ||| wide == 1
            ||| 0xfc00 <= first < 0xfe00
            ||| 0xfe80 <= first < 0xfec0
            ||| first >= 0xff00
            ||| first == 0x2001 && second == 0x0db8
        },
{
}

/// An octet is written in one to three decimal digits, without a leading zero, and is at most 255.
pub proof fn law_octets_are_written_in_decimal(a: nat, b: nat, c: nat, piece: Seq<u8>)
    requires
        a <= 9,
        b <= 9,
        c <= 9,
    ensures
        octet(seq![(48 + a) as u8]) == Some(a),
        octet(seq![(48 + a) as u8, (48 + b) as u8]) == (if a == 0 {
            None
        } else {
            Some((10 * a + b) as nat)
        }),
        octet(seq![(48 + a) as u8, (48 + b) as u8, (48 + c) as u8]) == (if a == 0 || 100 * a + 10
            * b + c > 255 {
            None
        } else {
            Some((100 * a + 10 * b + c) as nat)
        }),
        piece.len() == 0 || piece.len() > 3 ==> octet(piece) is None,
        (exists|i: int| 0 <= i < piece.len() && !(48 <= #[trigger] piece[i] <= 57)) ==> octet(piece)
            is None,
{
    reveal_with_fuel(decimal_value, 4);
    let one = seq![(48 + a) as u8];
    let two = seq![(48 + a) as u8, (48 + b) as u8];
    let three = seq![(48 + a) as u8, (48 + b) as u8, (48 + c) as u8];
    assert(one.drop_last() =~= Seq::<u8>::empty());
    assert(two.drop_last() =~= one);
    assert(three.drop_last() =~= two);
    assert(decimal_value(one) == a);
    assert(decimal_value(two) == 10 * a + b);
    assert(decimal_value(three) == 100 * a + 10 * b + c);
    assert forall|i: int| 0 <= i < 3 implies Alphabet::Digit.admits(#[trigger] three[i]) by {
        text::law_alphabets_hold_their_bytes(three[i]);
    }
    assert forall|i: int| 0 <= i < 2 implies Alphabet::Digit.admits(#[trigger] two[i]) by {
        text::law_alphabets_hold_their_bytes(two[i]);
    }
    assert forall|i: int| 0 <= i < 1 implies Alphabet::Digit.admits(#[trigger] one[i]) by {
        text::law_alphabets_hold_their_bytes(one[i]);
    }
    if exists|i: int| 0 <= i < piece.len() && !(48 <= #[trigger] piece[i] <= 57) {
        let i = choose|i: int| 0 <= i < piece.len() && !(48 <= #[trigger] piece[i] <= 57);
        text::law_alphabets_hold_their_bytes(piece[i]);
        assert(!Alphabet::Digit.admits(piece[i]));
    }
}

/// Four octets with dots between are an address, the first octet the highest, and nothing else is.
pub proof fn law_four_octets_are_an_address(
    first: Seq<u8>,
    second: Seq<u8>,
    third: Seq<u8>,
    fourth: Seq<u8>,
    bytes: Seq<u8>,
)
    requires
        !text::has_byte(first, 46),
        !text::has_byte(second, 46),
        !text::has_byte(third, 46),
        !text::has_byte(fourth, 46),
        bytes == first + seq![46u8] + (second + seq![46u8] + (third + seq![46u8] + fourth)),
    ensures
        dotted(bytes) == match (octet(first), octet(second), octet(third), octet(fourth)) {
            (Some(a), Some(b), Some(c), Some(d)) => Some(
                (((a * 256 + b) * 256 + c) * 256 + d) as nat,
            ),
            _ => None,
        },
        dotted(bytes) matches Some(value) ==> value < 0x1_0000_0000 && address_of(bytes) == Some(
            IpAddress::V4(value as u32),
        ),
{
    text::law_pieces_end_at_separators(third, fourth, 46);
    text::law_pieces_end_at_separators(fourth, Seq::empty(), 46);
    text::law_pieces_end_at_separators(second, third + seq![46u8] + fourth, 46);
    text::law_pieces_end_at_separators(
        first,
        second + seq![46u8] + (third + seq![46u8] + fourth),
        46,
    );
    assert(text::split(bytes, 46) =~= seq![first, second, third, fourth]);
}

/// A text of more or fewer than four pieces between dots is no such address.
pub proof fn law_other_numbers_of_octets_are_none(bytes: Seq<u8>)
    requires
        text::split(bytes, 46).len() != 4,
    ensures
        dotted(bytes) is None,
{
}

/// A group is written in one to four hexadecimal digits of either case.
pub proof fn law_groups_are_written_in_hexadecimal(piece: Seq<u8>, digit: u8)
    ensures
        group(piece) is Some <==> 1 <= piece.len() <= 4 && (forall|i: int|
            0 <= i < piece.len() ==> (48 <= #[trigger] piece[i] <= 57 || 65 <= piece[i] <= 70 || 97
                <= piece[i] <= 102)),
        group(piece) is Some ==> group(piece)->0 == hex_value(piece),
        hex_value(Seq::<u8>::empty()) == 0,
        48 <= digit <= 57 ==> hex_value(piece.push(digit)) == hex_value(piece) * 16 + (digit - 48),
        65 <= digit <= 70 ==> hex_value(piece.push(digit)) == hex_value(piece) * 16 + (digit - 65)
            + 10,
        97 <= digit <= 102 ==> hex_value(piece.push(digit)) == hex_value(piece) * 16 + (digit - 97)
            + 10,
{
    assert(piece.push(digit).drop_last() =~= piece);
    assert forall|i: int| 0 <= i < piece.len() implies (Alphabet::Hex.admits(#[trigger] piece[i])
        <==> (48 <= piece[i] <= 57 || 65 <= piece[i] <= 70 || 97 <= piece[i] <= 102)) by {
        text::law_alphabets_hold_their_bytes(piece[i]);
    }
    if text::drawn_from(piece, Alphabet::Hex) {
        assert forall|i: int| 0 <= i < piece.len() implies (48 <= #[trigger] piece[i] <= 57 || 65
            <= piece[i] <= 70 || 97 <= piece[i] <= 102) by {
            assert(Alphabet::Hex.admits(piece[i]));
        }
    }
}

/// Pieces between colons are groups, and four octets at the end are two of them.
pub proof fn law_groups_are_read_in_their_order(pieces: Seq<Seq<u8>>, i: int)
    requires
        0 <= i < pieces.len(),
    ensures
        groups(pieces) is Some <==> forall|j: int|
            0 <= j < pieces.len() ==> group(#[trigger] pieces[j]) is Some,
        groups(pieces) matches Some(all) ==> all.len() == pieces.len() && Some(all[i]) == group(
            pieces[i],
        ),
        dotted(pieces.last()) is None ==> groups_with_octets(pieces) == groups(pieces),
        dotted(pieces.last()) matches Some(value) ==> match groups(pieces.drop_last()) {
            Some(front) => groups_with_octets(pieces) matches Some(all) && all.len() == front.len()
                + 2 && all.take(front.len() as int) == front && all[front.len() as int] * 65_536
                + all[front.len() as int + 1] == value && all[front.len() as int + 1] < 65_536,
            None => groups_with_octets(pieces) is None,
        },
{
    if dotted(pieces.last()) is Some {
        match groups(pieces.drop_last()) {
            Some(front) => {
                let all = groups_with_octets(pieces)->0;
                assert(all.take(front.len() as int) =~= front);
            },
            None => {},
        }
    }
}

/// Eight groups with colons between are an address, the first group the highest.
pub proof fn law_eight_groups_are_an_address(bytes: Seq<u8>, all: Seq<nat>)
    requires
        forall|j: int|
            0 <= j < bytes.len() - 1 ==> !(#[trigger] bytes[j] == 58 && bytes[j + 1] == 58),
        groups_with_octets(text::split(bytes, 58)) == Some(all),
    ensures
        all.len() == 8 ==> eight_groups(bytes) == Some(all),
        all.len() != 8 ==> eight_groups(bytes) is None,
{
    assert(!exists|at: int| gap_at(bytes, at));
}

/// Two colons stand for as many zero groups as are missing, at least one.
pub proof fn law_two_colons_stand_for_zero_groups(
    front: Seq<u8>,
    back: Seq<u8>,
    head: Seq<nat>,
    tail: Seq<nat>,
)
    requires
        front.len() > 0 ==> front.last() != 58,
        forall|j: int|
            0 <= j < front.len() - 1 ==> !(#[trigger] front[j] == 58 && front[j + 1] == 58),
        front.len() == 0 ==> head.len() == 0,
        front.len() > 0 ==> groups(text::split(front, 58)) == Some(head),
        back.len() == 0 ==> tail.len() == 0,
        back.len() > 0 ==> groups_with_octets(text::split(back, 58)) == Some(tail),
    ensures
        head.len() + tail.len() > 7 ==> eight_groups(front + seq![58u8, 58u8] + back) is None,
        head.len() + tail.len() <= 7 ==> (eight_groups(front + seq![58u8, 58u8] + back) matches Some(
            all,
        ) && all.len() == 8 && (forall|i: int|
            0 <= i < 8 ==> #[trigger] all[i] == (if i < head.len() {
                head[i]
            } else if i >= 8 - tail.len() {
                tail[i - (8 - tail.len())]
            } else {
                0
            }))),
{
    let bytes = front + seq![58u8, 58u8] + back;
    let at = front.len() as int;
    assert(bytes[at] == 58 && bytes[at + 1] == 58);
    assert forall|j: int| 0 <= j < at implies !(#[trigger] bytes[j] == 58 && bytes[j + 1] == 58) by {
        assert(bytes[j] == front[j]);
        if j + 1 < at {
            assert(bytes[j + 1] == front[j + 1]);
        }
    }
    assert(gap_at(bytes, at));
    let chosen = choose|at: int| gap_at(bytes, at);
    assert(gap_at(bytes, chosen));
    if chosen < at {
        assert(!(bytes[chosen] == 58 && bytes[chosen + 1] == 58));
    }
    if at < chosen {
        assert(!(bytes[at] == 58 && bytes[at + 1] == 58));
    }
    assert(chosen == at);
    assert(bytes.take(at) =~= front);
    assert(bytes.skip(at + 2) =~= back);
    assert(head.len() == 0 ==> head =~= Seq::<nat>::empty());
    assert(tail.len() == 0 ==> tail =~= Seq::<nat>::empty());
}

/// The number of an address is that of its groups, each sixteen bits.
pub proof fn law_groups_are_sixteen_bits_each(all: Seq<nat>)
    requires
        all.len() == 8,
    ensures
        groups_number(all) == ((((((all[0] * 65_536 + all[1]) * 65_536 + all[2]) * 65_536 + all[3])
            * 65_536 + all[4]) * 65_536 + all[5]) * 65_536 + all[6]) * 65_536 + all[7],
{
}

/// A text is an address of four octets where it reads as such, else of eight groups where it reads
/// as such, else none.
pub proof fn law_addresses_are_octets_or_groups(bytes: Seq<u8>)
    ensures
        match (dotted(bytes), eight_groups(bytes)) {
            (Some(value), _) => address_of(bytes) == Some(IpAddress::V4(value as u32)),
            (None, Some(all)) => address_of(bytes) == Some(
                IpAddress::V6(groups_number(all) as u128),
            ),
            (None, None) => address_of(bytes) is None,
        },
{
}

/// A network is written as an address, a slash and a prefix length of decimal digits, with one plus
/// sign at most.
pub proof fn law_networks_are_written_with_their_prefix(front: Seq<u8>, digits: Seq<u8>)
    requires
        !text::has_byte(front, 47),
    ensures
        cidr_parts(front) is None,
        cidr_parts(front + seq![47u8] + digits) == match (address_of(front), prefix_value(digits)) {
            (Some(address), Some(prefix)) => Some((address, prefix)),
            _ => None,
        },
        prefix_value(digits) is Some ==> prefix_value(digits)->0 <= 255,
        digits.len() > 0 && digits[0] != 43 ==> prefix_value(seq![43u8] + digits) == prefix_value(
            digits,
        ),
        prefix_value(Seq::<u8>::empty()) is None,
        digits.len() > 0 && (forall|i: int|
            0 <= i < digits.len() ==> 48 <= #[trigger] digits[i] <= 57) ==> prefix_value(digits)
            == (if decimal_value(digits) <= 255 {
            Some(decimal_value(digits))
        } else {
            None
        }),
{
    let whole = front + seq![47u8] + digits;
    text::law_pieces_end_at_separators(front, digits, 47);
    assert(whole.take(front.len() as int) =~= front);
    assert(whole.skip(front.len() as int + 1) =~= digits);
    assert((seq![43u8] + digits).skip(1) =~= digits);
    if forall|i: int| 0 <= i < digits.len() ==> 48 <= #[trigger] digits[i] <= 57 {
        assert forall|i: int| 0 <= i < digits.len() implies Alphabet::Digit.admits(
            #[trigger] digits[i],
        ) by {
            text::law_alphabets_hold_their_bytes(digits[i]);
        }
    }
}

/// Decimal digits read as the number they write.
pub proof fn law_decimal_digits_read_as_their_number(digits: Seq<u8>, digit: u8)
    requires
        48 <= digit <= 57,
    ensures
        decimal_value(Seq::<u8>::empty()) == 0,
        decimal_value(digits.push(digit)) == decimal_value(digits) * 10 + (digit - 48),
{
    assert(digits.push(digit).drop_last() =~= digits);
}

proof fn lemma_low_bits_v4(value: u32, prefix: u32)
    requires
        0 < prefix <= 32,
    ensures
        value & mask_v4(prefix) == value <==> (value >> ((32 - prefix) as u32)) << ((32
            - prefix) as u32) == value,
{
    let shift = (32 - prefix) as u32;
    assert(value & (0xffff_ffffu32 << shift) == (value >> shift) << shift) by (bit_vector)
        requires
            shift < 32,
    ;
}

proof fn lemma_low_bits_v6(value: u128, prefix: u32)
    requires
        0 < prefix <= 128,
    ensures
        value & mask_v6(prefix) == value <==> (value >> ((128 - prefix) as u32)) << ((128
            - prefix) as u32) == value,
{
    let shift = (128 - prefix) as u32;
    assert(value & (0xffff_ffff_ffff_ffff_ffff_ffff_ffff_ffffu128 << shift) == (value >> shift)
        << shift) by (bit_vector)
        requires
            shift < 128,
    ;
}

/// A network is canonical exactly where its prefix is no longer than the address, and no bit behind
/// the prefix is set.
pub proof fn law_canonical_networks_have_no_bits_behind_their_prefix(bytes: Seq<u8>)
    ensures
        canonical_cidr(bytes) <==> match cidr_parts(bytes) {
            None => false,
            Some((IpAddress::V4(value), prefix)) => prefix <= 32 && (if prefix == 0 {
                value == 0
            } else {
                (value >> ((32 - prefix) as u32)) << ((32 - prefix) as u32) == value
            }),
            Some((IpAddress::V6(value), prefix)) => prefix <= 128 && (if prefix == 0 {
                value == 0
            } else {
                (value >> ((128 - prefix) as u32)) << ((128 - prefix) as u32) == value
            }),
        },
{
    match cidr_parts(bytes) {
        Some((IpAddress::V4(value), prefix)) => {
            if 0 < prefix <= 32 {
                lemma_low_bits_v4(value, prefix as u32);
            }
            assert(value & 0u32 == 0u32) by (bit_vector);
        },
        Some((IpAddress::V6(value), prefix)) => {
            if 0 < prefix <= 128 {
                lemma_low_bits_v6(value, prefix as u32);
            }
            assert(value & 0u128 == 0u128) by (bit_vector);
        },
        None => {},
    }
}

/// A destination is refused as invalid where it does not read, and as not canonical where it reads
/// but is not.
pub proof fn law_refused_networks_say_why(value: Seq<char>)
    ensures
        cidr_failure(value) is None <==> canonical_cidr(text::utf8(value)),
        cidr_parts(text::utf8(value)) is None ==> cidr_failure(value) == Some(
            "destination CIDR `"@ + value + "` is invalid"@,
        ),
        cidr_parts(text::utf8(value)) is Some && !canonical_cidr(text::utf8(value))
            ==> cidr_failure(value) == Some("destination CIDR `"@ + value + "` is not canonical"@),
{
}

/// A socket address of octets is the address, a colon and a port.
pub proof fn law_plain_socket_addresses_are_hosts_and_ports(host: Seq<u8>, port: Seq<u8>)
    requires
        host.len() > 0,
        host[0] != 91,
        !text::has_byte(host, 58),
    ensures
        socket_of(host) is None,
        socket_of(host + seq![58u8] + port) == match (
            address_of(host),
            bounded_number(port, 65_535),
        ) {
            (Some(IpAddress::V4(own)), Some(number)) => Some(
                SocketAddress { address: IpAddress::V4(own), scope_id: 0, port: number as u16 },
            ),
            _ => None,
        },
{
    let plain = host + seq![58u8] + port;
    text::law_pieces_end_at_separators(host, port, 58);
    assert(plain.take(host.len() as int) =~= host);
    assert(plain.skip(host.len() as int + 1) =~= port);
    assert(plain[0] == host[0]);
}

/// What stands in brackets is an address of groups, with the number of its scope behind a percent
/// sign where it has one.
pub proof fn law_scopes_stand_behind_a_percent_sign(host: Seq<u8>, scope: Seq<u8>)
    requires
        !text::has_byte(host, 37),
    ensures
        scoped_groups(host) == match address_of(host) {
            Some(IpAddress::V6(value)) => Some((value, 0u32)),
            _ => None,
        },
        scoped_groups(host + seq![37u8] + scope) == match (
            address_of(host),
            bounded_number(scope, 4_294_967_295),
        ) {
            (Some(IpAddress::V6(value)), Some(id)) => Some((value, id as u32)),
            _ => None,
        },
{
    let whole = host + seq![37u8] + scope;
    text::law_pieces_end_at_separators(host, scope, 37);
    assert(host.take(host.len() as int) =~= host);
    assert(whole.take(host.len() as int) =~= host);
    assert(whole.skip(host.len() as int + 1) =~= scope);
}

/// A socket address of groups is the address in brackets, a colon and a port.
pub proof fn law_bracketed_socket_addresses_are_hosts_and_ports(inner: Seq<u8>, port: Seq<u8>)
    requires
        !text::has_byte(inner, 93),
    ensures
        socket_of(seq![91u8] + inner + seq![93u8, 58u8] + port) == match (
            scoped_groups(inner),
            bounded_number(port, 65_535),
        ) {
            (Some(own), Some(number)) => Some(
                SocketAddress {
                    address: IpAddress::V6(own.0),
                    scope_id: own.1,
                    port: number as u16,
                },
            ),
            _ => None,
        },
{
    lemma_bracketed(inner, port);
}

proof fn lemma_bracketed(inner: Seq<u8>, port: Seq<u8>)
    requires
        !text::has_byte(inner, 93),
    ensures
        ({
            let whole = seq![91u8] + inner + seq![93u8, 58u8] + port;
            &&& text::find(whole, 93) == inner.len() + 1
            &&& whole.subrange(1, inner.len() as int + 1) == inner
            &&& whole.skip(inner.len() as int + 3) == port
            &&& whole[0] == 91
            &&& whole[inner.len() as int + 2] == 58
            &&& whole.len() == inner.len() + 3 + port.len()
        }),
{
    let whole = seq![91u8] + inner + seq![93u8, 58u8] + port;
    assert forall|j: int| 0 <= j < inner.len() + 1 implies #[trigger] whole[j] != 93 by {
        if j > 0 {
            assert(whole[j] == inner[j - 1]);
        }
    }
    assert(whole[inner.len() as int + 1] == 93);
    text::lemma_find_at(whole, 93, inner.len() as int + 1);
    assert(whole.subrange(1, inner.len() as int + 1) =~= inner);
    assert(whole.skip(inner.len() as int + 3) =~= port);
}

/// A port or scope is decimal digits of a number that is not too large.
pub proof fn law_ports_and_scopes_are_decimal(digits: Seq<u8>, maximum: nat)
    ensures
        bounded_number(digits, maximum) is Some <==> digits.len() > 0 && (forall|i: int|
            0 <= i < digits.len() ==> 48 <= #[trigger] digits[i] <= 57) && decimal_value(digits)
            <= maximum,
        bounded_number(digits, maximum) is Some ==> bounded_number(digits, maximum)->0
            == decimal_value(digits),
{
    assert forall|i: int| 0 <= i < digits.len() implies (Alphabet::Digit.admits(
        #[trigger] digits[i],
    ) <==> 48 <= digits[i] <= 57) by {
        text::law_alphabets_hold_their_bytes(digits[i]);
    }
    if text::drawn_from(digits, Alphabet::Digit) {
        assert forall|i: int| 0 <= i < digits.len() implies 48 <= #[trigger] digits[i] <= 57 by {
            assert(Alphabet::Digit.admits(digits[i]));
        }
    }
}

} // verus!
