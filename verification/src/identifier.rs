//! Document identifiers: 128-bit values with a canonical textual form.

use vstd::arithmetic::power::pow;
use vstd::prelude::*;

verus! {

/// The identifier of a document, and the handle by which callers reach it.
///
/// Two handles with the same value name the same record.
#[derive(Clone, Copy, Debug, PartialEq, Eq, Hash, Structural)]
pub struct DocumentId {
    pub value: u128,
}

/// What `uuid::Uuid::parse_str` makes of a text: the 128-bit value of the
/// identifier it reads, most significant byte first, or `None` where it
/// rejects the text.
pub uninterp spec fn parsed_identifier(text: Seq<char>) -> Option<u128>;

/// The sixteen lower-case hexadecimal digits, in order.
pub open spec fn hex_digits() -> Seq<char> {
    seq!['0', '1', '2', '3', '4', '5', '6', '7', '8', '9', 'a', 'b', 'c', 'd', 'e', 'f']
}

/// The character at position `i` of the canonical text of `value`: a hyphen
/// at positions 8, 13, 18 and 23; elsewhere the next hexadecimal digit of
/// `value`, the most significant first.
pub open spec fn canonical_char(value: u128, i: int) -> char {
    if i == 8 || i == 13 || i == 18 || i == 23 {
        '-'
    } else {
        let hyphens_before: int = if i > 23 {
            4
        } else if i > 18 {
            3
        } else if i > 13 {
            2
        } else if i > 8 {
            1
        } else {
            0
        };
        let digit = i - hyphens_before;
        hex_digits()[(value as int / pow(16, (31 - digit) as nat)) % 16]
    }
}

/// The canonical text of an identifier, as `uuid::Uuid` displays it: 32
/// lower-case hexadecimal digits in groups of 8, 4, 4, 4 and 12, separated by
/// hyphens.
pub open spec fn canonical_text(value: u128) -> Seq<char> {
    Seq::new(36, |i: int| canonical_char(value, i))
}

/// The value carries the marks of a randomly generated identifier: version 4
/// in bits 76 to 79 and the RFC variant in bits 62 and 63.
pub open spec fn is_random_identifier(value: u128) -> bool {
    (value >> 76) & 0xf == 4 && (value >> 62) & 0x3 == 2
}

/// Draws a fresh identifier with `uuid::Uuid::new_v4` and takes its value
/// with `as_u128`.
///
/// The value is random; all that is claimed is that the version and variant
/// bits are set as `new_v4` sets them on every draw. `new_v4` panics where
/// the operating system cannot supply random bytes.
#[verifier::external_body]
pub(crate) fn fresh_id() -> (id: DocumentId)
    ensures
        is_random_identifier(id.value),
{
    DocumentId { value: uuid::Uuid::new_v4().as_u128() }
}

/// Reads an identifier from text with `uuid::Uuid::parse_str`; a text that the
/// parser rejects gives `None`.
///
/// The result is what [`parsed_identifier`] names, nothing is claimed of which
/// texts are accepted.
#[verifier::external_body]
pub(crate) fn parse_id(text: &str) -> (r: Option<DocumentId>)
    ensures
        match r {
            Some(id) => parsed_identifier(text@) == Some(id.value),
            None => parsed_identifier(text@) is None,
        },
{
    match uuid::Uuid::parse_str(text) {
        Ok(parsed) => Some(DocumentId { value: parsed.as_u128() }),
        Err(_) => None,
    }
}

/// Writes an identifier in its canonical form, by `uuid::Uuid::from_u128` and
/// the `Display` impl of `Uuid`.
///
/// Claimed of it: the text is the lower-case hyphenated form that
/// [`canonical_text`] spells out, and `parse_str` reads it back to the same
/// value, as the parser's documentation promises of every form the crate
/// writes.
#[verifier::external_body]
pub(crate) fn id_text(id: DocumentId) -> (text: String)
    ensures
        text@ == canonical_text(id.value),
        parsed_identifier(text@) == Some(id.value),
{
    uuid::Uuid::from_u128(id.value).to_string()
}

impl DocumentId {
    /// The canonical text of this identifier: 36 characters, which resolve to
    /// this identifier again.
    pub fn to_text(&self) -> (text: String)
        ensures
            text@ == canonical_text(self.value),
            text@.len() == 36,
            parsed_identifier(text@) == Some(self.value),
    {
        id_text(*self)
    }
}

/// The canonical text has 36 characters: hyphens at positions 8, 13, 18 and
/// 23, and a lower-case hexadecimal digit at every other.
pub proof fn lemma_canonical_text_shape(value: u128)
    ensures
        canonical_text(value).len() == 36,
        forall|i: int|
            0 <= i < 36 ==> (#[trigger] canonical_text(value)[i] == '-') == (i == 8 || i == 13
                || i == 18 || i == 23),
        forall|i: int|
            0 <= i < 36 && !(i == 8 || i == 13 || i == 18 || i == 23) ==> hex_digits().contains(
                #[trigger] canonical_text(value)[i],
            ),
{
    assert forall|i: int| 0 <= i < 36 && !(i == 8 || i == 13 || i == 18 || i == 23) implies {
        &&& hex_digits().contains(#[trigger] canonical_text(value)[i])
        &&& canonical_text(value)[i] != '-'
    } by {
        let hyphens_before: int = if i > 23 {
            4
        } else if i > 18 {
            3
        } else if i > 13 {
            2
        } else if i > 8 {
            1
        } else {
            0
        };
        let n = (value as int / pow(16, (31 - (i - hyphens_before)) as nat)) % 16;
        assert(0 <= n < 16);
        assert(canonical_text(value)[i] == hex_digits()[n]);
    }
}

} // verus!
