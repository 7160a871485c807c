//! Identities of extractions, pages and table-of-contents entries.

use vstd::arithmetic::power::pow;
use vstd::prelude::*;

verus! {

/// The character of a hexadecimal digit, in small letters.
pub open spec fn hex_char(d: int) -> char {
    if d < 10 {
        (48 + d) as char
    } else {
        (87 + d) as char
    }
}

/// The `k`-th of the 32 hexadecimal digits of `id`, the most significant first.
pub open spec fn nibble(id: u128, k: int) -> int {
    (id as int / pow(16, (31 - k) as nat)) % 16
}

/// How many hyphens stand before position `i` of a hyphenated identity.
pub open spec fn hyphens_before(i: int) -> int {
    if i <= 8 {
        0
    } else if i <= 13 {
        1
    } else if i <= 18 {
        2
    } else if i <= 23 {
        3
    } else {
        4
    }
}

/// The hyphenated text of an identity: 32 small hexadecimal digits in groups of
/// eight, four, four, four and twelve.
pub open spec fn uuid_text(id: u128) -> Seq<char> {
    Seq::new(
        36,
        |i: int|
            if i == 8 || i == 13 || i == 18 || i == 23 {
                '-'
            } else {
                hex_char(nibble(id, i - hyphens_before(i)))
            },
    )
}

/// Is `id` marked as a random identity (version four of the RFC variant)?
pub open spec fn is_random_id(id: u128) -> bool {
    nibble(id, 12) == 4 && 8 <= nibble(id, 16) < 12
}

/// What `uuid::Uuid::parse_str` makes of a text: the identity, or the text of
/// the error.
pub uninterp spec fn uuid_parsed(text: Seq<char>) -> Result<u128, Seq<char>>;

/// Does `text` read as the identity `id`?
pub open spec fn reads_as_id(text: Seq<char>, id: u128) -> bool {
    uuid_parsed(text) == Ok::<u128, Seq<char>>(id)
}

/// Calls `uuid::Uuid::new_v4`. Which identity comes out is left to chance; it is
/// marked as a random one.
#[verifier::external_body]
fn fresh() -> (r: u128)
    ensures
        is_random_id(r),
{
    uuid::Uuid::new_v4().as_u128()
}

/// Calls `to_string` on a `uuid::Uuid`: the hyphenated text, which
/// `uuid::Uuid::parse_str` reads back.
#[verifier::external_body]
pub(crate) fn id_text(id: u128) -> (r: String)
    ensures
        r@ == uuid_text(id),
        reads_as_id(r@, id),
{
    uuid::Uuid::from_u128(id).to_string()
}

/// Calls `uuid::Uuid::parse_str`, and `to_string` on its error.
#[verifier::external_body]
pub(crate) fn parse_id(text: &str) -> (r: Result<u128, String>)
    ensures
        match r {
            Ok(id) => uuid_parsed(text@) matches Ok(v) && v == id,
            Err(e) => uuid_parsed(text@) matches Err(v) && v == e@,
        },
{
    uuid::Uuid::parse_str(text).map(|id| id.as_u128()).map_err(|e| e.to_string())
}

/// Identity of an extraction run.
#[derive(Clone, Copy, Debug, PartialEq, Eq, Hash, Structural)]
pub struct ExtractionId(pub u128);

impl ExtractionId {
    pub fn new() -> (r: Self)
        ensures
            is_random_id(r.0),
    {
        ExtractionId(fresh())
    }
}

impl Default for ExtractionId {
    fn default() -> (r: Self)
        ensures
            is_random_id(r.0),
    {
        Self::new()
    }
}

/// Identity of one page's output of one extraction run.
#[derive(Clone, Copy, Debug, PartialEq, Eq, Hash, Structural)]
pub struct PageId(pub u128);

impl PageId {
    pub fn new() -> (r: Self)
        ensures
            is_random_id(r.0),
    {
        PageId(fresh())
    }
}

impl Default for PageId {
    fn default() -> (r: Self)
        ensures
            is_random_id(r.0),
    {
        Self::new()
    }
}

/// Identity of a table-of-contents entry.
#[derive(Clone, Copy, Debug, PartialEq, Eq, Hash, Structural)]
pub struct TocEntryId(pub u128);

impl TocEntryId {
    pub fn new() -> (r: Self)
        ensures
            is_random_id(r.0),
    {
        TocEntryId(fresh())
    }
}

impl Default for TocEntryId {
    fn default() -> (r: Self)
        ensures
            is_random_id(r.0),
    {
        Self::new()
    }
}

} // verus!
