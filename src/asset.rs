use vstd::prelude::*;

use crate::error::ImageAnalysisError;
use crate::text::{contains_text, occurs_in};

verus! {

/// The 128-bit identifier of a stored asset.
#[derive(Debug, Clone, Copy, PartialEq, Eq, Structural)]
pub struct AssetId(pub u128);

pub open spec fn is_hex_lower(c: char) -> bool {
    ('0' <= c && c <= '9') || ('a' <= c && c <= 'f')
}

pub open spec fn hex_val(c: char) -> int {
    if '0' <= c && c <= '9' {
        c as int - '0' as int
    } else {
        c as int - 'a' as int + 10
    }
}

/// Offsets of the dashes in the canonical 36-character identifier text.
pub open spec fn is_dash_offset(k: int) -> bool {
    k == 8 || k == 13 || k == 18 || k == 23
}

/// A canonical lower-case dashed identifier starts at position `i` of `s`.
pub open spec fn uuid_at(s: Seq<char>, i: int) -> bool {
    &&& 0 <= i
    &&& i + 36 <= s.len()
    &&& forall|k: int|
        0 <= k < 36 ==> if is_dash_offset(k) {
            #[trigger] s[i + k] == '-'
        } else {
            is_hex_lower(s[i + k])
        }
}

/// The marker that follows the identifier in a preview filename.
pub open spec fn preview_mark() -> Seq<char> {
    seq!['-', 'p', 'r', 'e', 'v', 'i', 'e', 'w']
}

/// An identifier followed by the preview marker starts at position `i`.
pub open spec fn preview_at(s: Seq<char>, i: int) -> bool {
    uuid_at(s, i) && i + 44 <= s.len() && s.subrange(i + 36, i + 44) == preview_mark()
}

/// Value of a sequence of hexadecimal digits, most significant first.
pub open spec fn hex_value(d: Seq<char>) -> int
    decreases d.len(),
{
    if d.len() == 0 {
        0
    } else {
        hex_value(d.drop_last()) * 16 + hex_val(d.last())
    }
}

/// The 32 hexadecimal digits of a dashed identifier text.
pub open spec fn uuid_digits(u: Seq<char>) -> Seq<char> {
    u.subrange(0, 8) + u.subrange(9, 13) + u.subrange(14, 18) + u.subrange(19, 23) + u.subrange(
        24,
        36,
    )
}

/// The number that a dashed identifier text writes.
pub open spec fn uuid_value(u: Seq<char>) -> int {
    hex_value(uuid_digits(u))
}

/// First position at or after `i` where `preview_at` holds.
pub open spec fn first_preview_from(s: Seq<char>, i: int) -> Option<int>
    decreases s.len() - i,
{
    if i < 0 || i >= s.len() {
        None
    } else if preview_at(s, i) {
        Some(i)
    } else {
        first_preview_from(s, i + 1)
    }
}

/// First position at or after `i` where `uuid_at` holds.
pub open spec fn first_uuid_from(s: Seq<char>, i: int) -> Option<int>
    decreases s.len() - i,
{
    if i < 0 || i >= s.len() {
        None
    } else if uuid_at(s, i) {
        Some(i)
    } else {
        first_uuid_from(s, i + 1)
    }
}

/// The identifier that a filename names: the leftmost identifier directly
/// followed by the preview marker, or failing that the leftmost identifier.
pub open spec fn resolved_id(s: Seq<char>) -> Option<int> {
    match first_preview_from(s, 0) {
        Some(i) => Some(uuid_value(s.subrange(i, i + 36))),
        None => match first_uuid_from(s, 0) {
            Some(i) => Some(uuid_value(s.subrange(i, i + 36))),
            None => None,
        },
    }
}

/// The substring that marks a preview image in a filename.
pub open spec fn preview_file_mark() -> Seq<char> {
    seq!['-', 'p', 'r', 'e', 'v', 'i', 'e', 'w', '.']
}

pub open spec fn is_preview_name(s: Seq<char>) -> bool {
    occurs_in(s, preview_file_mark())
}

/// Whether a filename belongs to a preview image.
pub fn is_preview_filename(filename: &str) -> (r: bool)
    ensures
        r == is_preview_name(filename@),
{
    proof {
        reveal_strlit("-preview.");
        assert("-preview."@ =~= preview_file_mark());
    }
    contains_text(filename, "-preview.")
}

/// Relies on `uuid::Uuid::parse_str` and `Uuid::as_u128`: a dashed text of
/// hexadecimal digits parses, and its value is those digits read as one
/// big-endian number.
#[verifier::external_body]
fn parse_uuid(text: &str) -> (r: Option<u128>)
    ensures
        text@.len() == 36 && uuid_at(text@, 0) ==> r is Some,
        text@.len() == 36 && uuid_at(text@, 0) ==> r.unwrap() as int == uuid_value(text@),
{
    match uuid::Uuid::parse_str(text) {
        Ok(u) => Some(u.as_u128()),
        Err(_) => None,
    }
}

fn uuid_at_exec(s: &str, n: usize, i: usize) -> (r: bool)
    requires
        n == s@.len(),
    ensures
        r == uuid_at(s@, i as int),
{
    if i > n || n - i < 36 {
        return false;
    }
    let mut k: usize = 0;
    while k < 36
        invariant
            n == s@.len(),
            i + 36 <= n,
            k <= 36,
            forall|j: int|
                0 <= j < k ==> if is_dash_offset(j) {
                    #[trigger] s@[i + j] == '-'
                } else {
                    is_hex_lower(s@[i + j])
                },
        decreases 36 - k,
    {
        let c = s.get_char(i + k);
        let ok = if k == 8 || k == 13 || k == 18 || k == 23 {
            c == '-'
        } else {
            ('0' <= c && c <= '9') || ('a' <= c && c <= 'f')
        };
        if !ok {
            assert(!uuid_at(s@, i as int)) by {
                assert(0 <= k < 36);
                if is_dash_offset(k as int) {
                    assert(s@[i + k] != '-');
                } else {
                    assert(!is_hex_lower(s@[i + k]));
                }
            }
            return false;
        }
        k = k + 1;
    }
    true
}

fn preview_at_exec(s: &str, n: usize, i: usize) -> (r: bool)
    requires
        n == s@.len(),
    ensures
        r == preview_at(s@, i as int),
{
    if !uuid_at_exec(s, n, i) {
        return false;
    }
    if n - i < 44 {
        return false;
    }
    let mark = "-preview";
    proof {
        reveal_strlit("-preview");
        assert(mark@ =~= preview_mark());
    }
    crate::text::matches_at(s, n, mark, 8, i + 36)
}

/// Derives the asset identifier from a filename: the leftmost canonical
/// dashed identifier directly followed by `-preview`, or failing that the
/// leftmost canonical dashed identifier anywhere in the name.
pub fn extract_uuid_from_preview_filename(filename: &str) -> (r: Result<AssetId, ImageAnalysisError>)
    ensures
        resolved_id(filename@) matches Some(v) ==> (r matches Ok(id) && id.0 as int == v),
        resolved_id(filename@) is None ==> (r matches Err(ImageAnalysisError::InvalidUuid { filename: f })
            && f@ == filename@),
{
    let n = filename.unicode_len();
    let mut i: usize = 0;
    while i < n
        invariant
            n == filename@.len(),
            i <= n,
            first_preview_from(filename@, 0) == first_preview_from(filename@, i as int),
        decreases n - i,
    {
        if preview_at_exec(filename, n, i) {
            return found_at(filename, n, i);
        }
        i = i + 1;
    }
    let mut i: usize = 0;
    while i < n
        invariant
            n == filename@.len(),
            i <= n,
            first_preview_from(filename@, 0) is None,
            first_uuid_from(filename@, 0) == first_uuid_from(filename@, i as int),
        decreases n - i,
    {
        if uuid_at_exec(filename, n, i) {
            return found_at(filename, n, i);
        }
        i = i + 1;
    }
    Err(ImageAnalysisError::InvalidUuid { filename: String::from_str(filename) })
}

fn found_at(filename: &str, n: usize, i: usize) -> (r: Result<AssetId, ImageAnalysisError>)
    requires
        n == filename@.len(),
        uuid_at(filename@, i as int),
    ensures
        (r matches Ok(id) && id.0 as int == uuid_value(filename@.subrange(i as int, i + 36))),
{
    let text = filename.substring_char(i, i + 36);
    proof {
        assert forall|k: int| 0 <= k < 36 implies if is_dash_offset(k) {
            #[trigger] text@[0 + k] == '-'
        } else {
            is_hex_lower(text@[0 + k])
        } by {
            assert(text@[0 + k] == filename@[i + k]);
        }
    }
    let value = parse_uuid(text);
    Ok(AssetId(value.unwrap()))
}

proof fn lemma_no_identifier_from(s: Seq<char>, i: int)
    requires
        forall|j: int| !uuid_at(s, j),
    ensures
        first_uuid_from(s, i) is None,
        first_preview_from(s, i) is None,
    decreases s.len() - i,
{
    if 0 <= i < s.len() {
        assert(!uuid_at(s, i));
        lemma_no_identifier_from(s, i + 1);
    }
}

/// A filename made of a canonical dashed identifier, the preview marker and
/// any ending resolves to exactly that identifier.
pub proof fn lemma_preview_round_trip(u: Seq<char>, rest: Seq<char>)
    requires
        u.len() == 36,
        uuid_at(u, 0),
    ensures
        resolved_id(u + preview_mark() + rest) == Some(uuid_value(u)),
{
    let s = u + preview_mark() + rest;
    assert forall|k: int| 0 <= k < 36 implies if is_dash_offset(k) {
        #[trigger] s[0 + k] == '-'
    } else {
        is_hex_lower(s[0 + k])
    } by {
        assert(s[0 + k] == u[0 + k]);
    }
    assert(s.subrange(36, 44) =~= preview_mark());
    assert(preview_at(s, 0));
    assert(s.subrange(0, 36) =~= u);
}

/// A filename holding no canonical dashed identifier resolves to nothing.
pub proof fn lemma_no_identifier_rejected(s: Seq<char>)
    requires
        forall|j: int| !uuid_at(s, j),
    ensures
        resolved_id(s) is None,
{
    lemma_no_identifier_from(s, 0);
}

} // verus!
