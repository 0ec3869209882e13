//! The mount table, as far as volumes are looked up in it.

use crate::lines;
use crate::lines::{chars_of, lines_of, text_of, words_of};
use crate::paths;
use crate::paths::{component_list, spell};
use crate::text;
use vstd::prelude::*;

verus! {

/// The byte that an escape at the beginning of `field` stands for.
pub open spec fn escaped(field: Seq<u8>) -> Option<u8> {
    if field.len() < 4 || field[0] != 92 {
        None
    } else if field[1] == 48 && field[2] == 52 && field[3] == 48 {
        Some(32)
    } else if field[1] == 48 && field[2] == 49 && field[3] == 49 {
        Some(9)
    } else if field[1] == 48 && field[2] == 49 && field[3] == 50 {
        Some(10)
    } else if field[1] == 49 && field[2] == 51 && field[3] == 52 {
        Some(92)
    } else {
        None
    }
}

/// A field of the mount table with its spaces, tabs, line feeds and backslashes restored.
pub open spec fn unescaped(field: Seq<u8>) -> Seq<u8>
    decreases field.len(),
{
    if field.len() == 0 {
        Seq::empty()
    } else {
        match escaped(field) {
            Some(byte) => seq![byte] + unescaped(field.skip(4)),
            None => seq![field[0]] + unescaped(field.skip(1)),
        }
    }
}

/// Restores the spaces, tabs, line feeds and backslashes of a field of the mount table.
pub fn decode_mount_path(field: &[u8]) -> (r: Vec<u8>)
    ensures
        r@ == unescaped(field@),
{
    let length: usize = field.len();
    let mut decoded: Vec<u8> = Vec::new();
    let mut i: usize = 0;
    proof {
        assert(field@.skip(0) =~= field@);
        assert(decoded@ + unescaped(field@.skip(0)) =~= unescaped(field@));
    }
    while i < length
        invariant
            i <= length == field@.len(),
            decoded@ + unescaped(field@.skip(i as int)) == unescaped(field@),
        decreases length - i,
    {
        let ghost rest = field@.skip(i as int);
        let ghost before = decoded@;
        let byte: Option<u8> = if length - i < 4 || field[i] != 92 {
            None
        } else if field[i + 1] == 48 && field[i + 2] == 52 && field[i + 3] == 48 {
            Some(32)
        } else if field[i + 1] == 48 && field[i + 2] == 49 && field[i + 3] == 49 {
            Some(9)
        } else if field[i + 1] == 48 && field[i + 2] == 49 && field[i + 3] == 50 {
            Some(10)
        } else if field[i + 1] == 49 && field[i + 2] == 51 && field[i + 3] == 52 {
            Some(92)
        } else {
            None
        };
        proof {
            assert(escaped(rest) == byte);
        }
        match byte {
            Some(byte) => {
                decoded.push(byte);
                proof {
                    assert(rest.skip(4) =~= field@.skip(i + 4));
                    assert(decoded@ + unescaped(rest.skip(4)) =~= before + (seq![byte]
                        + unescaped(rest.skip(4))));
                }
                i += 4;
            },
            None => {
                decoded.push(field[i]);
                proof {
                    assert(rest.skip(1) =~= field@.skip(i + 1));
                    assert(decoded@ + unescaped(rest.skip(1)) =~= before + (seq![rest[0]]
                        + unescaped(rest.skip(1))));
                }
                i += 1;
            },
        }
    }
    proof {
        assert(field@.skip(length as int) =~= Seq::<u8>::empty());
        assert(decoded@ =~= unescaped(field@));
    }
    decoded
}

/// The line of the mount table tells of a mount at `target`.
pub open spec fn tells_of(row: Seq<char>, target: Seq<u8>) -> bool {
    let words = lines::words(row);
    words.len() > 4 && paths::spelling(unescaped(text::utf8(words[4]))) == paths::spelling(target)
}

/// A path as two spellings of one path share it.
pub fn spelling_of(path: &[u8]) -> (r: Vec<u8>)
    ensures
        r@ == paths::spelling(path@),
{
    let parts = component_list(path);
    let absolute = path.len() > 0 && path[0] == 47;
    let count: usize = parts.len();
    let spelled = spell(absolute, &parts, count);
    proof {
        let all = paths::strings(parts@);
        assert(all.len() == parts@.len());
        assert(all.take(count as int) =~= all);
    }
    spelled
}

/// Whether something is mounted at `target`.
pub fn is_mount(mountinfo: &str, target: &[u8]) -> (r: bool)
    ensures
        r == exists|i: int|
            0 <= i < lines::lines(mountinfo@).len() && tells_of(
                #[trigger] lines::lines(mountinfo@)[i],
                target@,
            ),
{
    let wanted = spelling_of(target);
    let chars = chars_of(mountinfo);
    let rows = lines_of(chars.as_slice());
    let ghost all = lines::lines(mountinfo@);
    let mut i: usize = 0;
    while i < rows.len()
        invariant
            i <= rows@.len(),
            lines::slices(rows@) == all,
            all == lines::lines(mountinfo@),
            wanted@ == paths::spelling(target@),
            forall|j: int| 0 <= j < i ==> !tells_of(#[trigger] all[j], target@),
        decreases rows@.len() - i,
    {
        let words = words_of(rows[i]);
        proof {
            assert(lines::slices(rows@)[i as int] == rows@[i as int]@);
            assert(lines::slices(words@).len() == words@.len());
        }
        if words.len() > 4 {
            let field = text_of(words[4]);
            proof {
                assert(lines::slices(words@)[4] == words@[4]@);
            }
            let decoded = decode_mount_path(field.as_str().as_bytes());
            let found = spelling_of(decoded.as_slice());
            if text::same_bytes(found.as_slice(), wanted.as_slice()) {
                proof {
                    assert(tells_of(all[i as int], target@));
                }
                return true;
            }
        }
        i += 1;
    }
    proof {
        assert(lines::slices(rows@).len() == rows@.len());
    }
    false
}

/// Space, tab, line feed and backslash are spelled in octal behind a backslash. All other bytes
/// read as they are.
pub proof fn law_volume_mount_paths_read_back(byte: u8, rest: Seq<u8>)
    ensures
        unescaped(Seq::<u8>::empty()) == Seq::<u8>::empty(),
        unescaped(seq![92u8, 48u8, 52u8, 48u8] + rest) == seq![32u8] + unescaped(rest),
        unescaped(seq![92u8, 48u8, 49u8, 49u8] + rest) == seq![9u8] + unescaped(rest),
        unescaped(seq![92u8, 48u8, 49u8, 50u8] + rest) == seq![10u8] + unescaped(rest),
        unescaped(seq![92u8, 49u8, 51u8, 52u8] + rest) == seq![92u8] + unescaped(rest),
        byte != 92 ==> unescaped(seq![byte] + rest) == seq![byte] + unescaped(rest),
{
    assert((seq![92u8, 48u8, 52u8, 48u8] + rest).skip(4) =~= rest);
    assert((seq![92u8, 48u8, 49u8, 49u8] + rest).skip(4) =~= rest);
    assert((seq![92u8, 48u8, 49u8, 50u8] + rest).skip(4) =~= rest);
    assert((seq![92u8, 49u8, 51u8, 52u8] + rest).skip(4) =~= rest);
    assert((seq![byte] + rest).skip(1) =~= rest);
}

/// A row tells of a target exactly where it has five words or more and the fifth spells the
/// target.
pub proof fn law_rows_tell_of_their_target(row: Seq<char>, target: Seq<u8>)
    ensures
        tells_of(row, target) <==> lines::words(row).len() >= 5 && paths::spelling(
            unescaped(text::utf8(lines::words(row)[4])),
        ) == paths::spelling(target),
{
}

} // verus!
