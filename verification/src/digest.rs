//! Content identities: SHA-256 in lower-case hexadecimal.

use crate::text;
use crate::text::Alphabet;
use sha2::Digest;
use vstd::prelude::*;
use vstd::utf8::*;

verus! {

/// The SHA-256 hash of `bytes`.
pub uninterp spec fn sha256_of(bytes: Seq<u8>) -> Seq<u8>;

/// A SHA-256 computation under way.
#[verifier::external_body]
pub struct Hasher {
    state: sha2::Sha256,
}

/// The bytes that a hasher has taken so far.
pub uninterp spec fn absorbed(hasher: Hasher) -> Seq<u8>;

impl Hasher {
    /// Calls `sha2::Sha256::new`. The new hasher has taken no bytes.
    #[verifier::external_body]
    pub(crate) fn new() -> (r: Self)
        ensures
            absorbed(r) == Seq::<u8>::empty(),
    {
        Hasher { state: sha2::Sha256::new() }
    }

    /// Calls `sha2::Sha256::update`. The hasher takes `bytes` behind what it took before.
    #[verifier::external_body]
    pub(crate) fn update(&mut self, bytes: &[u8])
        ensures
            absorbed(*final(self)) == absorbed(*old(self)) + bytes@,
    {
        self.state.update(bytes);
    }

    /// Calls `sha2::Sha256::finalize`. The 32 bytes are named `sha256_of` what was taken.
    #[verifier::external_body]
    pub(crate) fn finalize(self) -> (r: Vec<u8>)
        ensures
            r@ == sha256_of(absorbed(self)),
            r@.len() == 32,
    {
        self.state.finalize().to_vec()
    }

    /// The hexadecimal hash of what was taken.
    pub fn hash(self) -> (r: String)
        ensures
            r@ == hash_text(absorbed(self)),
            is_hash(r@),
    {
        let ghost taken = absorbed(self);
        let digest = self.finalize();
        proof {
            lemma_hash(taken);
        }
        encode_hex(digest.as_slice())
    }

    /// The content identity of what was taken.
    pub fn identity(self) -> (r: String)
        ensures
            r@ == identity_text(absorbed(self)),
            is_identity(r@),
    {
        let hash = self.hash();
        proof {
            lemma_prefixed_hash(hash@);
        }
        text::join2("sha256:", hash.as_str())
    }
}

/// The lower-case hexadecimal digit of a value below sixteen.
pub open spec fn hex_digit(value: int) -> char {
    if value < 10 {
        (48 + value) as char
    } else {
        (87 + value) as char
    }
}

/// Each byte as its two lower-case hexadecimal digits, the high one first.
pub open spec fn hex_text(bytes: Seq<u8>) -> Seq<char> {
    Seq::new(
        2 * bytes.len(),
        |i: int|
            if i % 2 == 0 {
                hex_digit(bytes[i / 2] as int / 16)
            } else {
                hex_digit(bytes[i / 2] as int % 16)
            },
    )
}

/// Calls `hex::encode`, which writes each byte as two lower-case digits.
#[verifier::external_body]
fn encode_hex(bytes: &[u8]) -> (r: String)
    ensures
        r@ == hex_text(bytes@),
{
    hex::encode(bytes)
}

/// The hexadecimal SHA-256 hash of `bytes`.
pub open spec fn hash_text(bytes: Seq<u8>) -> Seq<char> {
    hex_text(sha256_of(bytes))
}

/// The content identity of `bytes`.
pub open spec fn identity_text(bytes: Seq<u8>) -> Seq<char> {
    "sha256:"@ + hash_text(bytes)
}

/// The shape of a hexadecimal hash: 64 lower-case digits.
pub open spec fn is_hash(value: Seq<char>) -> bool {
    text::utf8(value).len() == 64 && text::drawn_from(text::utf8(value), Alphabet::LowerHex)
}

/// The shape of a content identity: `sha256:` before a hash.
pub open spec fn is_identity(value: Seq<char>) -> bool {
    is_identity_encoding(text::utf8(value))
}

/// The encoding of a content identity.
pub open spec fn is_identity_encoding(bytes: Seq<u8>) -> bool {
    &&& bytes.len() == 71
    &&& text::begins_with(bytes, text::utf8("sha256:"@))
    &&& text::drawn_from(bytes.subrange(7, 71), Alphabet::LowerHex)
}

/// A hexadecimal digit is one byte of the hexadecimal alphabet.
proof fn lemma_hex_digit(value: int)
    requires
        0 <= value < 16,
    ensures
        (hex_digit(value) as int) < 128,
        Alphabet::LowerHex.admits(hex_digit(value) as u8),
{
}

/// Hexadecimal text is ASCII, two digits to the byte.
pub proof fn lemma_hex_text(bytes: Seq<u8>)
    ensures
        text::utf8(hex_text(bytes)).len() == 2 * bytes.len(),
        text::drawn_from(text::utf8(hex_text(bytes)), Alphabet::LowerHex),
{
    let chars = hex_text(bytes);
    assert forall|i: int| 0 <= i < chars.len() implies (#[trigger] chars[i] as int) < 128
        && Alphabet::LowerHex.admits(chars[i] as u8) by {
        let byte = bytes[i / 2];
        lemma_hex_digit(byte as int / 16);
        lemma_hex_digit(byte as int % 16);
    }
    assert(is_ascii_chars(chars));
    is_ascii_chars_encode_utf8(chars);
}

/// The encoding of the `sha256:` prefix.
pub proof fn lemma_prefix()
    ensures
        text::utf8("sha256:"@) == seq![115u8, 104u8, 97u8, 50u8, 53u8, 54u8, 58u8],
{
    reveal_strlit("sha256:");
    let chars = "sha256:"@;
    assert(is_ascii_chars(chars));
    is_ascii_chars_encode_utf8(chars);
    assert(text::utf8(chars) =~= seq![115u8, 104u8, 97u8, 50u8, 53u8, 54u8, 58u8]);
}

/// A hash has the shape of a hash.
proof fn lemma_hash(bytes: Seq<u8>)
    requires
        sha256_of(bytes).len() == 32,
    ensures
        is_hash(hash_text(bytes)),
{
    lemma_hex_text(sha256_of(bytes));
}

/// `sha256:` before a hash has the shape of a content identity.
pub proof fn lemma_prefixed_hash(hash: Seq<char>)
    requires
        is_hash(hash),
    ensures
        is_identity("sha256:"@ + hash),
        text::utf8("sha256:"@ + hash).subrange(7, 71) == text::utf8(hash),
{
    lemma_prefix();
    text::lemma_utf8_concat("sha256:"@, hash);
    let bytes = text::utf8("sha256:"@ + hash);
    assert(bytes.subrange(0, 7) =~= text::utf8("sha256:"@));
    assert(bytes.subrange(7, 71) =~= text::utf8(hash));
}

/// The hexadecimal SHA-256 hash of `bytes`.
pub fn hash(bytes: &[u8]) -> (r: String)
    ensures
        r@ == hash_text(bytes@),
        is_hash(r@),
{
    let mut hasher = Hasher::new();
    hasher.update(bytes);
    proof {
        assert(absorbed(hasher) =~= bytes@);
    }
    hasher.hash()
}

/// The content identity of `bytes`: `sha256:` and the hexadecimal hash.
pub fn identity(bytes: &[u8]) -> (r: String)
    ensures
        r@ == identity_text(bytes@),
        is_identity(r@),
{
    let hash = hash(bytes);
    proof {
        lemma_prefixed_hash(hash@);
    }
    text::join2("sha256:", hash.as_str())
}

/// Whether `value` has the shape of a content identity.
pub fn valid_digest(value: &str) -> (r: bool)
    ensures
        r == is_identity(value@),
{
    let bytes = value.as_bytes();
    bytes.len() == 71 && text::starts_with(value, "sha256:") && text::bytes_drawn_from(
        vstd::slice::slice_subrange(bytes, 7, 71),
        Alphabet::LowerHex,
    )
}

/// Whether `value` has the shape of a hexadecimal hash.
pub fn valid_hash(value: &str) -> (r: bool)
    ensures
        r == is_hash(value@),
{
    value.as_bytes().len() == 64 && text::all_bytes(value, Alphabet::LowerHex)
}

/// A content identity is `sha256:` and 64 digits below sixteen in lower case: two for each byte of
/// the hash, the high one first.
pub proof fn law_identities_write_their_hash(bytes: Seq<u8>, i: int)
    requires
        0 <= i < sha256_of(bytes).len(),
    ensures
        identity_text(bytes) == "sha256:"@ + hash_text(bytes),
        hash_text(bytes).len() == 2 * sha256_of(bytes).len(),
        ({
            let high = hash_text(bytes)[2 * i] as int;
            let low = hash_text(bytes)[2 * i + 1] as int;
            let value = |digit: int|
                if digit <= '9' as int {
                    digit - '0' as int
                } else {
                    digit - 'a' as int + 10
                };
            &&& '0' as int <= high <= '9' as int || 'a' as int <= high <= 'f' as int
            &&& '0' as int <= low <= '9' as int || 'a' as int <= low <= 'f' as int
            &&& 16 * value(high) + value(low) == sha256_of(bytes)[i]
        }),
{
    let byte = sha256_of(bytes)[i];
    assert(hash_text(bytes)[2 * i] == hex_digit(byte as int / 16));
    assert((2 * i + 1) / 2 == i && (2 * i + 1) % 2 == 1);
    assert(hash_text(bytes)[2 * i + 1] == hex_digit(byte as int % 16));
}

/// A text has the shape of a hash exactly where it is 64 lower-case hexadecimal digits, and that of
/// a content identity exactly where these stand behind `sha256:`.
pub proof fn law_shapes_of_identities(value: Seq<char>)
    ensures
        is_hash(value) <==> {
            let bytes = text::utf8(value);
            &&& bytes.len() == 64
            &&& forall|i: int|
                0 <= i < bytes.len() ==> '0' as u8 <= (#[trigger] bytes[i]) <= '9' as u8 || 'a' as u8
                    <= bytes[i] <= 'f' as u8
        },
        is_identity(value) <==> {
            let bytes = text::utf8(value);
            &&& bytes.len() == 71
            &&& bytes.take(7) == text::utf8("sha256:"@)
            &&& forall|i: int|
                7 <= i < bytes.len() ==> '0' as u8 <= (#[trigger] bytes[i]) <= '9' as u8 || 'a' as u8
                    <= bytes[i] <= 'f' as u8
        },
{
    let bytes = text::utf8(value);
    lemma_prefix();
    if bytes.len() == 71 {
        let hash = bytes.subrange(7, 71);
        assert(bytes.subrange(0, 7) =~= bytes.take(7));
        assert(forall|i: int| 0 <= i < 64 ==> #[trigger] hash[i] == bytes[i + 7]);
        if is_identity(value) {
            assert forall|i: int| 7 <= i < bytes.len() implies '0' as u8 <= (#[trigger] bytes[i])
                <= '9' as u8 || 'a' as u8 <= bytes[i] <= 'f' as u8 by {
                assert(Alphabet::LowerHex.admits(hash[i - 7]));
            }
        }
    }
}

} // verus!
