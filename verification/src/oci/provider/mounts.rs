//! The mount table of the kernel.

use crate::lines;
use crate::lines::{chars_of, lines_of, text_of, words_of};
use crate::oci::error::{SandboxError, SandboxFailure};
use crate::text;
use vstd::prelude::*;

verus! {

/// `rest` behind `front`, where `rest` is owed at all.
pub open spec fn behind(front: Seq<u8>, rest: Result<Seq<u8>, Seq<char>>) -> Result<
    Seq<u8>,
    Seq<char>,
> {
    match rest {
        Ok(bytes) => Ok(front + bytes),
        Err(text) => Err(text),
    }
}

/// The value of three octal digits.
pub open spec fn octal(bytes: Seq<u8>) -> int {
    (bytes[0] - 48) * 64 + (bytes[1] - 48) * 8 + (bytes[2] - 48)
}

/// Three octal digits that make a byte.
pub open spec fn is_octal_byte(bytes: Seq<u8>) -> bool {
    &&& bytes[0] < 56
    &&& bytes[1] < 56
    &&& bytes[2] < 56
    &&& octal(bytes) < 256
}

/// The path that a field of the mount table spells, with `\` before three octal digits for
/// the bytes that the table escapes.
pub open spec fn unescaped(field: Seq<u8>) -> Result<Seq<u8>, Seq<char>>
    decreases field.len(),
{
    if field.len() == 0 {
        Ok(Seq::empty())
    } else if field[0] != 92 {
        behind(seq![field[0]], unescaped(field.skip(1)))
    } else if field.len() < 4 || !text::is_digit(field[1]) || !text::is_digit(field[2])
        || !text::is_digit(field[3]) {
        Err("mountinfo contains an invalid escaped path"@)
    } else if !is_octal_byte(field.subrange(1, 4)) {
        Err("invalid mountinfo path escape"@)
    } else {
        behind(seq![octal(field.subrange(1, 4)) as u8], unescaped(field.skip(4)))
    }
}

/// Decodes a path of the mount table.
pub fn decode_mount_path(value: &str) -> (r: Result<Vec<u8>, SandboxError>)
    ensures
        match r {
            Ok(path) => unescaped(text::utf8(value@)) == Ok::<Seq<u8>, Seq<char>>(path@),
            Err(error) => exists|text: Seq<char>|
                unescaped(text::utf8(value@)) == Err::<Seq<u8>, Seq<char>>(text) && error@
                    == SandboxFailure::ImageProvider(text),
        },
{
    let bytes = value.as_bytes();
    let length: usize = bytes.len();
    let mut decoded: Vec<u8> = Vec::new();
    let mut index: usize = 0;
    proof {
        assert(bytes@.skip(0) =~= bytes@);
        assert(behind(Seq::empty(), unescaped(bytes@)) =~= unescaped(bytes@)) by {
            match unescaped(bytes@) {
                Ok(all) => {
                    assert(Seq::<u8>::empty() + all =~= all);
                },
                Err(_) => {},
            }
        }
    }
    while index < length
        invariant
            index <= length,
            length == bytes@.len(),
            bytes@ == text::utf8(value@),
            behind(decoded@, unescaped(bytes@.skip(index as int))) == unescaped(bytes@),
        decreases length - index,
    {
        let ghost rest = bytes@.skip(index as int);
        let ghost before = decoded@;
        if bytes[index] == 92 {
            if length - index < 4 || !(48 <= bytes[index + 1] && bytes[index + 1] <= 57) || !(48
                <= bytes[index + 2] && bytes[index + 2] <= 57) || !(48 <= bytes[index + 3]
                && bytes[index + 3] <= 57) {
                proof {
                    assert(unescaped(rest) == Err::<Seq<u8>, Seq<char>>(
                        "mountinfo contains an invalid escaped path"@,
                    ));
                }
                return Err(
                    SandboxError::ImageProvider(
                        "mountinfo contains an invalid escaped path".to_owned(),
                    ),
                );
            }
            let high: u16 = bytes[index + 1] as u16 - 48;
            let middle: u16 = bytes[index + 2] as u16 - 48;
            let low: u16 = bytes[index + 3] as u16 - 48;
            let octal_value: u16 = high * 64 + middle * 8 + low;
            if high >= 8 || middle >= 8 || low >= 8 || octal_value >= 256 {
                proof {
                    assert(unescaped(rest) == Err::<Seq<u8>, Seq<char>>(
                        "invalid mountinfo path escape"@,
                    ));
                }
                return Err(
                    SandboxError::ImageProvider("invalid mountinfo path escape".to_owned()),
                );
            }
            decoded.push(octal_value as u8);
            proof {
                assert(rest.skip(4) =~= bytes@.skip(index + 4));
                lemma_behind(before, octal_value as u8, unescaped(rest.skip(4)));
            }
            index += 4;
        } else {
            decoded.push(bytes[index]);
            proof {
                assert(rest.skip(1) =~= bytes@.skip(index + 1));
                lemma_behind(before, rest[0], unescaped(rest.skip(1)));
            }
            index += 1;
        }
    }
    proof {
        assert(decoded@ + Seq::<u8>::empty() =~= decoded@);
    }
    Ok(decoded)
}

proof fn lemma_behind(front: Seq<u8>, byte: u8, rest: Result<Seq<u8>, Seq<char>>)
    ensures
        behind(front.push(byte), rest) == behind(front, behind(seq![byte], rest)),
{
    match rest {
        Ok(bytes) => {
            assert(front.push(byte) + bytes =~= front + (seq![byte] + bytes));
        },
        Err(_) => {},
    }
}

/// The options of a mount hold `ro`.
pub open spec fn is_read_only(options: Seq<char>) -> bool {
    exists|i: int|
        0 <= i < text::split(text::utf8(options), 44).len() && #[trigger] text::split(
            text::utf8(options),
            44,
        )[i] == text::utf8("ro"@)
}

/// What the lines of a mount table say of `target`: not mounted, or whether read-only.
pub open spec fn mount_at(rows: Seq<Seq<char>>, target: Seq<u8>) -> Result<
    Option<bool>,
    SandboxFailure,
>
    decreases rows.len(),
{
    if rows.len() == 0 {
        Ok(None)
    } else {
        let fields = lines::words(rows[0]);
        if fields.len() < 6 {
            mount_at(rows.drop_first(), target)
        } else {
            match unescaped(text::utf8(fields[4])) {
                Err(text) => Err(SandboxFailure::ImageProvider(text)),
                Ok(path) => if path == target {
                    Ok(Some(is_read_only(fields[5])))
                } else {
                    mount_at(rows.drop_first(), target)
                },
            }
        }
    }
}

fn has_read_only(options: &str) -> (r: bool)
    ensures
        r == is_read_only(options@),
{
    let parts = text::pieces(options.as_bytes(), 44);
    let ghost all = text::split(text::utf8(options@), 44);
    let mut i: usize = 0;
    while i < parts.len()
        invariant
            i <= parts@.len(),
            text::slices(parts@) == all,
            all == text::split(text::utf8(options@), 44),
            forall|j: int| 0 <= j < i ==> #[trigger] all[j] != text::utf8("ro"@),
        decreases parts@.len() - i,
    {
        proof {
            assert(text::slices(parts@)[i as int] == parts@[i as int]@);
        }
        if text::same_bytes(parts[i], "ro".as_bytes()) {
            return true;
        }
        i += 1;
    }
    false
}

/// What a mount table says of `target`: `None` if nothing is mounted there, else whether the
/// mount is read-only.
pub fn mount_state(mountinfo: &str, target: &[u8]) -> (r: Result<Option<bool>, SandboxError>)
    ensures
        crate::oci::error::outcome(r) == mount_at(lines::lines(mountinfo@), target@),
{
    let chars = chars_of(mountinfo);
    let rows = lines_of(chars.as_slice());
    let ghost all = lines::lines(mountinfo@);
    let mut i: usize = 0;
    proof {
        assert(all.skip(0) =~= all);
    }
    while i < rows.len()
        invariant
            i <= rows@.len(),
            lines::slices(rows@) == all,
            all == lines::lines(mountinfo@),
            mount_at(all.skip(i as int), target@) == mount_at(all, target@),
        decreases rows@.len() - i,
    {
        let fields = words_of(rows[i]);
        let ghost own = lines::words(all[i as int]);
        proof {
            assert(lines::slices(rows@)[i as int] == rows@[i as int]@);
            assert(all.skip(i as int)[0] == all[i as int]);
            assert(all.skip(i as int).drop_first() =~= all.skip(i + 1));
            assert forall|j: int| 0 <= j < own.len() implies #[trigger] own[j] == fields@[j]@ by {
                assert(lines::slices(fields@)[j] == fields@[j]@);
            }
        }
        if fields.len() >= 6 {
            let place = text_of(fields[4]);
            let path = match decode_mount_path(place.as_str()) {
                Ok(path) => path,
                Err(error) => return Err(error),
            };
            if text::same_bytes(path.as_slice(), target) {
                let options = text_of(fields[5]);
                return Ok(Some(has_read_only(options.as_str())));
            }
        }
        i += 1;
    }
    Ok(None)
}

/// Whether `target` is mounted read-only.
pub fn mount_is_read_only(mountinfo: &str, target: &[u8]) -> (r: Result<bool, SandboxError>)
    ensures
        match mount_at(lines::lines(mountinfo@), target@) {
            Ok(state) => r == Ok::<bool, SandboxError>(state == Some(true)),
            Err(failure) => r matches Err(error) && error@ == failure,
        },
{
    match mount_state(mountinfo, target) {
        Ok(Some(read_only)) => Ok(read_only),
        Ok(None) => Ok(false),
        Err(error) => Err(error),
    }
}

/// A path of the mount table reads byte by byte, but for `\` before three octal digits, which read
/// as the byte of that number.
pub proof fn law_escaped_bytes_read_back(byte: u8, rest: Seq<u8>, read: Seq<u8>)
    requires
        unescaped(rest) == Ok::<Seq<u8>, Seq<char>>(read),
    ensures
        unescaped(Seq::<u8>::empty()) == Ok::<Seq<u8>, Seq<char>>(Seq::empty()),
        byte != 92 ==> unescaped(seq![byte] + rest) == Ok::<Seq<u8>, Seq<char>>(seq![byte] + read),
        unescaped(
            seq![
                92u8,
                (48 + byte / 64) as u8,
                (48 + byte / 8 % 8) as u8,
                (48 + byte % 8) as u8,
            ] + rest,
        ) == Ok::<Seq<u8>, Seq<char>>(seq![byte] + read),
{
    let plain = seq![byte] + rest;
    assert(plain.skip(1) =~= rest);
    let first = (48 + byte / 64) as u8;
    let second = (48 + byte / 8 % 8) as u8;
    let third = (48 + byte % 8) as u8;
    let escaped = seq![92u8, first, second, third] + rest;
    assert(escaped.skip(4) =~= rest);
    assert(escaped.subrange(1, 4) =~= seq![first, second, third]);
    assert(first == 48 + byte / 64 && second == 48 + byte / 8 % 8 && third == 48 + byte % 8);
    assert(byte as int == (byte as int / 64) * 64 + (byte as int / 8 % 8) * 8 + byte as int % 8);
    assert(octal(escaped.subrange(1, 4)) == byte);
    assert(is_octal_byte(escaped.subrange(1, 4)));
}

/// `\` without three digits behind it is refused, and so are digits of no byte.
pub proof fn law_other_escapes_are_refused(first: u8, second: u8, third: u8, rest: Seq<u8>)
    ensures
        rest.len() < 3 ==> unescaped(seq![92u8] + rest) == Err::<Seq<u8>, Seq<char>>(
            "mountinfo contains an invalid escaped path"@,
        ),
        !(48 <= first <= 57 && 48 <= second <= 57 && 48 <= third <= 57) ==> unescaped(
            seq![92u8, first, second, third] + rest,
        ) == Err::<Seq<u8>, Seq<char>>("mountinfo contains an invalid escaped path"@),
        48 <= first <= 57 && 48 <= second <= 57 && 48 <= third <= 57 && (first > 51 || second > 55
            || third > 55) ==> unescaped(seq![92u8, first, second, third] + rest) == Err::<
            Seq<u8>,
            Seq<char>,
        >("invalid mountinfo path escape"@),
{
    let escaped = seq![92u8, first, second, third] + rest;
    assert(escaped.subrange(1, 4) =~= seq![first, second, third]);
    assert(escaped[1] == first && escaped[2] == second && escaped[3] == third);
}

/// A mount is read-only exactly where `ro` is one of its options.
pub proof fn law_read_only_mounts_say_so(options: Seq<char>, option: Seq<u8>, rest: Seq<u8>)
    requires
        forall|i: int| 0 <= i < option.len() ==> #[trigger] option[i] != 44,
    ensures
        text::utf8(options) == option ==> (is_read_only(options) <==> option == seq![114u8, 111u8]),
        text::utf8(options) == option + seq![44u8] + rest ==> (is_read_only(options) <==> option
            == seq![114u8, 111u8] || exists|i: int|
            0 <= i < text::split(rest, 44).len() && #[trigger] text::split(rest, 44)[i] == seq![
                114u8,
                111u8,
            ]),
{
    reveal_strlit("ro");
    assert(vstd::utf8::is_ascii_chars("ro"@));
    vstd::utf8::is_ascii_chars_encode_utf8("ro"@);
    let own = text::utf8("ro"@);
    assert(own =~= seq![114u8, 111u8]);
    text::law_pieces_end_at_separators(option, rest, 44);
    let later = text::split(rest, 44);
    let pieces = text::split(text::utf8(options), 44);
    if text::utf8(options) == option {
        assert(pieces =~= seq![option]);
        assert(pieces[0] == option);
    }
    if text::utf8(options) == option + seq![44u8] + rest {
        assert(pieces == seq![option] + later);
        assert(pieces[0] == option);
        if is_read_only(options) && option != own {
            let i = choose|i: int| 0 <= i < pieces.len() && #[trigger] pieces[i] == own;
            assert(later[i - 1] == own);
        }
        if exists|i: int| 0 <= i < later.len() && #[trigger] later[i] == own {
            let i = choose|i: int| 0 <= i < later.len() && #[trigger] later[i] == own;
            assert(pieces[i + 1] == own);
        }
    }
}

/// The first row of six words or more whose fifth word spells the target tells whether it is
/// read-only. Shorter rows and rows of other targets say nothing.
pub proof fn law_mounts_are_found_by_their_target(
    row: Seq<char>,
    rows: Seq<Seq<char>>,
    target: Seq<u8>,
)
    ensures
        mount_at(Seq::<Seq<char>>::empty(), target) == Ok::<Option<bool>, SandboxFailure>(None),
        lines::words(row).len() <= 5 ==> mount_at(seq![row] + rows, target) == mount_at(rows, target),
        lines::words(row).len() >= 6 ==> match unescaped(text::utf8(lines::words(row)[4])) {
            Ok(path) => mount_at(seq![row] + rows, target) == (if path == target {
                Ok::<Option<bool>, SandboxFailure>(Some(is_read_only(lines::words(row)[5])))
            } else {
                mount_at(rows, target)
            }),
            Err(text) => mount_at(seq![row] + rows, target) == Err::<Option<bool>, SandboxFailure>(
                SandboxFailure::ImageProvider(text),
            ),
        },
{
    let whole = seq![row] + rows;
    assert(whole.drop_first() =~= rows);
    assert(whole[0] == row);
}

} // verus!
