//! Command output as text: lines, words and white space.

use crate::text;
use vstd::prelude::*;
use vstd::utf8::*;

verus! {

/// The text that `bytes` decode to, with replacement characters for what is no UTF-8.
pub uninterp spec fn lossy(bytes: Seq<u8>) -> Seq<char>;

/// Calls `String::from_utf8_lossy`. The result is named `lossy`; well-formed UTF-8 is kept.
#[verifier::external_body]
pub(crate) fn lossy_text(bytes: &[u8]) -> (r: String)
    ensures
        r@ == lossy(bytes@),
        valid_utf8(bytes@) ==> encode_utf8(r@) == bytes@,
{
    String::from_utf8_lossy(bytes).into_owned()
}

/// Calls `String::from_iter`, which strings the characters together.
#[verifier::external_body]
pub(crate) fn text_of(chars: &[char]) -> (r: String)
    ensures
        r@ == chars@,
{
    String::from_iter(chars)
}

/// The characters of a string.
pub fn chars_of(value: &str) -> (r: Vec<char>)
    ensures
        r@ == value@,
{
    let mut chars: Vec<char> = Vec::new();
    let length: usize = value.unicode_len();
    for c in walk: value.chars()
        invariant
            walk.seq() == value@,
            chars@ == value@.take(walk.index() as int),
    {
        chars.push(c);
        proof {
            assert(value@.take(walk.index() as int + 1) =~= value@.take(walk.index() as int).push(
                value@[walk.index() as int],
            ));
        }
    }
    proof {
        assert(value@.take(length as int) =~= value@);
    }
    chars
}

/// The characters with the Unicode property `White_Space`.
pub open spec fn is_space(c: char) -> bool {
    let code = c as u32;
    ||| 0x09 <= code <= 0x0d
    ||| code == 0x20
    ||| code == 0x85
    ||| code == 0xa0
    ||| code == 0x1680
    ||| 0x2000 <= code <= 0x200a
    ||| code == 0x2028
    ||| code == 0x2029
    ||| code == 0x202f
    ||| code == 0x205f
    ||| code == 0x3000
}

/// Whether a character is white space.
pub fn is_whitespace(c: char) -> (r: bool)
    ensures
        r == is_space(c),
{
    let code: u32 = c as u32;
    (0x09 <= code && code <= 0x0d) || code == 0x20 || code == 0x85 || code == 0xa0 || code == 0x1680
        || (0x2000 <= code && code <= 0x200a) || code == 0x2028 || code == 0x2029 || code == 0x202f
        || code == 0x205f || code == 0x3000
}

/// The length of the longest initial run without `stop` characters.
pub open spec fn run_length(chars: Seq<char>, stop: spec_fn(char) -> bool) -> int
    decreases chars.len(),
{
    if chars.len() == 0 || stop(chars[0]) {
        0
    } else {
        1 + run_length(chars.drop_first(), stop)
    }
}

/// The run ends at `at`.
proof fn lemma_run_at(chars: Seq<char>, stop: spec_fn(char) -> bool, at: int)
    requires
        0 <= at <= chars.len(),
        forall|j: int| 0 <= j < at ==> !stop(#[trigger] chars[j]),
        at < chars.len() ==> stop(chars[at]),
    ensures
        run_length(chars, stop) == at,
    decreases at,
{
    if at > 0 {
        assert forall|j: int| 0 <= j < at - 1 implies !stop(#[trigger] chars.drop_first()[j]) by {
            assert(chars.drop_first()[j] == chars[j + 1]);
        }
        assert(!stop(chars[0]));
        lemma_run_at(chars.drop_first(), stop, at - 1);
    }
}

/// A run lies within its text.
pub proof fn lemma_run_bounds(chars: Seq<char>, stop: spec_fn(char) -> bool)
    ensures
        0 <= run_length(chars, stop) <= chars.len(),
    decreases chars.len(),
{
    if chars.len() > 0 && !stop(chars[0]) {
        lemma_run_bounds(chars.drop_first(), stop);
    }
}

/// The length of the first word of a text that starts with one.
pub open spec fn word_length(chars: Seq<char>) -> int {
    run_length(chars, |c: char| is_space(c))
}

/// The length of the first line, without its line feed.
pub open spec fn line_length(chars: Seq<char>) -> int {
    run_length(chars, |c: char| c == '\n')
}

/// A line without the carriage return before its line feed.
pub open spec fn without_return(line: Seq<char>) -> Seq<char> {
    if line.len() > 0 && line.last() == '\r' {
        line.drop_last()
    } else {
        line
    }
}

/// The lines of a text.
pub open spec fn lines(chars: Seq<char>) -> Seq<Seq<char>>
    decreases chars.len(),
{
    let at = line_length(chars);
    if chars.len() == 0 {
        Seq::empty()
    } else if 0 <= at < chars.len() {
        seq![without_return(chars.take(at))] + lines(chars.skip(at + 1))
    } else {
        seq![chars]
    }
}

/// The words of a text: the runs between white space.
pub open spec fn words(chars: Seq<char>) -> Seq<Seq<char>>
    decreases chars.len(),
{
    let at = word_length(chars);
    if chars.len() == 0 {
        Seq::empty()
    } else if 0 < at <= chars.len() {
        seq![chars.take(at)] + words(chars.skip(at))
    } else {
        words(chars.drop_first())
    }
}

/// A text without the white space around it.
pub open spec fn trimmed(chars: Seq<char>) -> Seq<char>
    decreases chars.len(),
{
    if chars.len() == 0 {
        chars
    } else if is_space(chars[0]) {
        trimmed(chars.drop_first())
    } else if is_space(chars.last()) {
        trimmed(chars.drop_last())
    } else {
        chars
    }
}

/// The character sequences that a vector of slices holds.
pub open spec fn slices(pieces: Seq<&[char]>) -> Seq<Seq<char>> {
    Seq::new(pieces.len(), |i: int| pieces[i]@)
}

fn line_end(chars: &[char]) -> (r: usize)
    ensures
        r == line_length(chars@),
        r <= chars@.len(),
{
    let ghost stop = |c: char| c == '\n';
    let mut i: usize = 0;
    while i < chars.len() && chars[i] != '\n'
        invariant
            i <= chars@.len(),
            stop == (|c: char| c == '\n'),
            forall|j: int| 0 <= j < i ==> !stop(#[trigger] chars@[j]),
        decreases chars@.len() - i,
    {
        i += 1;
    }
    proof {
        lemma_run_at(chars@, stop, i as int);
    }
    i
}

fn word_end(chars: &[char]) -> (r: usize)
    ensures
        r == word_length(chars@),
        r <= chars@.len(),
        r == 0 && chars@.len() > 0 ==> is_space(chars@[0]),
{
    let ghost stop = |c: char| is_space(c);
    let mut i: usize = 0;
    while i < chars.len() && !is_whitespace(chars[i])
        invariant
            i <= chars@.len(),
            stop == (|c: char| is_space(c)),
            forall|j: int| 0 <= j < i ==> !stop(#[trigger] chars@[j]),
        decreases chars@.len() - i,
    {
        i += 1;
    }
    proof {
        lemma_run_at(chars@, stop, i as int);
    }
    i
}

/// Splits a text into its lines.
pub fn lines_of<'a>(chars: &'a [char]) -> (r: Vec<&'a [char]>)
    ensures
        slices(r@) == lines(chars@),
{
    let mut done: Vec<&'a [char]> = Vec::new();
    let mut rest: &'a [char] = chars;
    proof {
        assert(slices(done@) + lines(rest@) =~= lines(chars@));
    }
    while rest.len() > 0
        invariant
            slices(done@) + lines(rest@) == lines(chars@),
        decreases rest@.len(),
    {
        let at: usize = line_end(rest);
        let ghost before = done@;
        if at >= rest.len() {
            done.push(rest);
            proof {
                assert(slices(done@) =~= slices(before) + seq![rest@]);
            }
            return done;
        }
        let mut end: usize = at;
        if at > 0 && rest[at - 1] == '\r' {
            end = at - 1;
        }
        let piece = vstd::slice::slice_subrange(rest, 0, end);
        let behind = vstd::slice::slice_subrange(rest, at + 1, rest.len());
        done.push(piece);
        proof {
            let line = rest@.take(at as int);
            assert(piece@ =~= without_return(line));
            assert(rest@.skip(at + 1) =~= behind@);
            assert(slices(done@) =~= slices(before) + seq![piece@]);
            assert(slices(done@) + lines(behind@) =~= slices(before) + lines(rest@));
        }
        rest = behind;
    }
    proof {
        assert(slices(done@) + lines(rest@) =~= slices(done@));
    }
    done
}

/// Splits a text into its words.
pub fn words_of<'a>(chars: &'a [char]) -> (r: Vec<&'a [char]>)
    ensures
        slices(r@) == words(chars@),
{
    let mut done: Vec<&'a [char]> = Vec::new();
    let mut rest: &'a [char] = chars;
    proof {
        assert(slices(done@) + words(rest@) =~= words(chars@));
    }
    while rest.len() > 0
        invariant
            slices(done@) + words(rest@) == words(chars@),
        decreases rest@.len(),
    {
        let at: usize = word_end(rest);
        let ghost before = done@;
        if at == 0 {
            let behind = vstd::slice::slice_subrange(rest, 1, rest.len());
            proof {
                assert(rest@.drop_first() =~= behind@);
            }
            rest = behind;
        } else {
            let piece = vstd::slice::slice_subrange(rest, 0, at);
            let behind = vstd::slice::slice_subrange(rest, at, rest.len());
            done.push(piece);
            proof {
                assert(rest@.take(at as int) =~= piece@);
                assert(rest@.skip(at as int) =~= behind@);
                assert(slices(done@) =~= slices(before) + seq![piece@]);
                assert(slices(done@) + words(behind@) =~= slices(before) + words(rest@));
            }
            rest = behind;
        }
    }
    proof {
        assert(slices(done@) + words(rest@) =~= slices(done@));
    }
    done
}

/// Takes the white space from both ends of a text.
pub fn trim<'a>(chars: &'a [char]) -> (r: &'a [char])
    ensures
        r@ == trimmed(chars@),
{
    let mut rest: &'a [char] = chars;
    while rest.len() > 0 && (is_whitespace(rest[0]) || is_whitespace(rest[rest.len() - 1]))
        invariant
            trimmed(rest@) == trimmed(chars@),
        decreases rest@.len(),
    {
        if is_whitespace(rest[0]) {
            let behind = vstd::slice::slice_subrange(rest, 1, rest.len());
            proof {
                assert(rest@.drop_first() =~= behind@);
            }
            rest = behind;
        } else {
            let before = vstd::slice::slice_subrange(rest, 0, rest.len() - 1);
            proof {
                assert(rest@.drop_last() =~= before@);
            }
            rest = before;
        }
    }
    rest
}

/// Whether the characters spell `value`.
pub fn spells(chars: &[char], value: &str) -> (r: bool)
    ensures
        r == (chars@ == value@),
{
    let own = text_of(chars);
    text::same(own.as_str(), value)
}

/// The length of a run without white space or without a line feed.
proof fn lemma_run(chars: Seq<char>, stop: spec_fn(char) -> bool)
    ensures
        0 <= run_length(chars, stop) <= chars.len(),
        forall|j: int| 0 <= j < run_length(chars, stop) ==> !stop(#[trigger] chars[j]),
        run_length(chars, stop) < chars.len() ==> stop(chars[run_length(chars, stop)]),
    decreases chars.len(),
{
    if chars.len() > 0 && !stop(chars[0]) {
        let rest = chars.drop_first();
        lemma_run(rest, stop);
        let at = run_length(chars, stop);
        assert forall|j: int| 0 <= j < at implies !stop(#[trigger] chars[j]) by {
            if j > 0 {
                assert(rest[j - 1] == chars[j]);
            }
        }
        if at < chars.len() {
            assert(rest[at - 1] == chars[at]);
        }
    }
}

/// A text is cut into lines at its line feeds: what stands before the first is the first line,
/// without a carriage return at its end, and the rest follows. A text without a line feed is one
/// line, and an empty one is none.
pub proof fn law_lines_end_at_line_feeds(line: Seq<char>, rest: Seq<char>)
    requires
        forall|i: int| 0 <= i < line.len() ==> #[trigger] line[i] != '\n',
    ensures
        lines(line + seq!['\n'] + rest) == seq![
            if line.len() > 0 && line.last() == '\r' {
                line.drop_last()
            } else {
                line
            },
        ] + lines(rest),
        line.len() > 0 ==> lines(line) == seq![line],
        lines(Seq::<char>::empty()) == Seq::<Seq<char>>::empty(),
{
    let stop = |c: char| c == '\n';
    let whole = line + seq!['\n'] + rest;
    assert(forall|j: int| 0 <= j < line.len() ==> #[trigger] whole[j] == line[j]);
    assert(whole[line.len() as int] == '\n');
    lemma_run_at(whole, stop, line.len() as int);
    lemma_run_at(line, stop, line.len() as int);
    assert(whole.take(line.len() as int) =~= line);
    assert(whole.skip(line.len() as int + 1) =~= rest);
}

/// A text is cut into words by its white space: white space at its beginning does not count, and
/// what stands before white space is a word before the others.
pub proof fn law_words_end_at_white_space(word: Seq<char>, space: char, rest: Seq<char>)
    requires
        forall|i: int| 0 <= i < word.len() ==> !is_space(#[trigger] word[i]),
        is_space(space),
    ensures
        word.len() > 0 ==> words(word + seq![space] + rest) == seq![word] + words(rest),
        words(seq![space] + rest) == words(rest),
        word.len() > 0 ==> words(word) == seq![word],
        words(Seq::<char>::empty()) == Seq::<Seq<char>>::empty(),
{
    let stop = |c: char| is_space(c);
    let later = seq![space] + rest;
    assert(later[0] == space);
    lemma_run_at(later, stop, 0);
    assert(later.drop_first() =~= rest);
    let whole = word + seq![space] + rest;
    assert(forall|j: int| 0 <= j < word.len() ==> #[trigger] whole[j] == word[j]);
    assert(whole[word.len() as int] == space);
    lemma_run_at(whole, stop, word.len() as int);
    lemma_run_at(word, stop, word.len() as int);
    assert(whole.take(word.len() as int) =~= word);
    assert(whole.skip(word.len() as int) =~= later);
    if word.len() > 0 {
        assert(word.take(word.len() as int) =~= word);
        assert(word.skip(word.len() as int) =~= Seq::<char>::empty());
        assert(words(word) =~= seq![word]) by {
            reveal_with_fuel(words, 2);
        }
        assert(words(whole) == seq![word] + words(later));
    }
}

/// The characters outside `from..to` are white space.
pub open spec fn is_space_outside(chars: Seq<char>, from: int, to: int) -> bool {
    forall|i: int| 0 <= i < chars.len() && !(from <= i < to) ==> is_space(#[trigger] chars[i])
}

proof fn lemma_trimmed(chars: Seq<char>) -> (kept: (int, int))
    ensures
        0 <= kept.0 <= kept.1 <= chars.len(),
        chars.subrange(kept.0, kept.1) == trimmed(chars),
        is_space_outside(chars, kept.0, kept.1),
        kept.0 < kept.1 ==> !is_space(chars[kept.0]) && !is_space(chars[kept.1 - 1]),
    decreases chars.len(),
{
    if chars.len() == 0 {
        assert(chars.subrange(0, 0) =~= chars);
        (0, 0)
    } else if is_space(chars[0]) {
        let rest = chars.drop_first();
        let (from, to) = lemma_trimmed(rest);
        assert(chars.subrange(from + 1, to + 1) =~= rest.subrange(from, to));
        assert forall|i: int| 0 <= i < chars.len() && !(from + 1 <= i < to + 1) implies is_space(
            #[trigger] chars[i],
        ) by {
            if i > 0 {
                assert(rest[i - 1] == chars[i]);
            }
        }
        if from < to {
            assert(rest[from] == chars[from + 1]);
            assert(rest[to - 1] == chars[to]);
        }
        (from + 1, to + 1)
    } else if is_space(chars.last()) {
        let rest = chars.drop_last();
        let (from, to) = lemma_trimmed(rest);
        assert(chars.subrange(from, to) =~= rest.subrange(from, to));
        assert forall|i: int| 0 <= i < chars.len() && !(from <= i < to) implies is_space(
            #[trigger] chars[i],
        ) by {
            if i < rest.len() {
                assert(rest[i] == chars[i]);
            }
        }
        if from < to {
            assert(rest[from] == chars[from]);
            assert(rest[to - 1] == chars[to - 1]);
        }
        (from, to)
    } else {
        assert(chars.subrange(0, chars.len() as int) =~= chars);
        (0, chars.len() as int)
    }
}

/// A text without the white space around it: what is left neither starts nor ends with white space,
/// and what is left out is nothing else.
pub proof fn law_trimmed_texts_lose_white_space_only(chars: Seq<char>) -> (kept: (int, int))
    ensures
        0 <= kept.0 <= kept.1 <= chars.len(),
        trimmed(chars) == chars.subrange(kept.0, kept.1),
        forall|i: int|
            0 <= i < chars.len() && !(kept.0 <= i < kept.1) ==> is_space(#[trigger] chars[i]),
        kept.0 < kept.1 ==> !is_space(chars[kept.0]) && !is_space(chars[kept.1 - 1]),
{
    lemma_trimmed(chars)
}

/// The white space of ASCII: tab, line feed, vertical tab, form feed, carriage return and space.
pub proof fn law_ascii_white_space(c: char)
    requires
        (c as u32) < 128,
    ensures
        is_space(c) <==> c == ' ' || c == '\t' || c == '\n' || c == '\r' || c as u32 == 11 || c as u32
            == 12,
{
}

/// Rows of slices are viewed slice by slice, in their order.
pub proof fn law_slices_are_viewed_in_their_order(pieces: Seq<&[char]>, i: int)
    requires
        0 <= i < pieces.len(),
    ensures
        slices(pieces).len() == pieces.len(),
        slices(pieces)[i] == pieces[i]@,
{
}

} // verus!
