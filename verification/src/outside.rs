use vstd::prelude::*;
use vstd::utf8::{decode_utf8, valid_utf8};

use crate::patterns::{
    is_msg_table, location_in, media_tags, LOCATION_PATTERN, MEDIA_PATTERN, MSG_TABLE_PATTERN,
};
use crate::text::held;

verus! {

/// What `md5::compute` makes of some bytes.
pub uninterp spec fn md5_of(data: Seq<u8>) -> Seq<u8>;

/// `md5::compute`: the sixteen bytes of the MD5 digest, which depend on the data alone.
#[verifier::external_body]
pub(crate) fn md5_digest(data: &[u8]) -> (r: [u8; 16])
    ensures
        r@ == md5_of(data@),
{
    md5::compute(data).0
}

/// What `zstd::decode_all` makes of some bytes: nothing where they are no zstd frames.
pub uninterp spec fn zstd_decoded(data: Seq<u8>) -> Option<Seq<u8>>;

/// `zstd::decode_all`: the decompressed bytes, or nothing where it fails. Both depend on the data
/// alone.
#[verifier::external_body]
pub(crate) fn zstd_decode(data: &[u8]) -> (r: Option<Vec<u8>>)
    ensures
        match r {
            Some(v) => zstd_decoded(data@) == Some(v@),
            None => zstd_decoded(data@) is None,
        },
{
    zstd::decode_all(data).ok()
}

/// What `String::from_utf8_lossy` makes of some bytes.
pub uninterp spec fn lossy_text(data: Seq<u8>) -> Seq<char>;

/// `String::from_utf8_lossy`: the text of valid UTF-8; where the bytes are not valid, a text that
/// depends on them alone, with U+FFFD in place of what is not valid.
#[verifier::external_body]
pub(crate) fn utf8_lossy(data: &[u8]) -> (r: String)
    ensures
        r@ == lossy_text(data@),
        valid_utf8(data@) ==> r@ == decode_utf8(data@),
{
    String::from_utf8_lossy(data).into_owned()
}

/// `String::from_utf8`: the text, where the bytes are valid UTF-8.
#[verifier::external_body]
pub(crate) fn utf8_text(data: Vec<u8>) -> (r: Option<String>)
    ensures
        match r {
            Some(s) => valid_utf8(data@) && s@ == decode_utf8(data@),
            None => !valid_utf8(data@),
        },
{
    String::from_utf8(data).ok()
}

/// What `str::to_lowercase` makes of a text.
pub uninterp spec fn lowercase(s: Seq<char>) -> Seq<char>;

/// `str::to_lowercase`: the Unicode lower case of a text, which depends on the text alone.
#[verifier::external_body]
pub(crate) fn to_lowercase(s: &str) -> (r: String)
    ensures
        r@ == lowercase(s@),
{
    s.to_lowercase()
}

/// `regex::Regex::is_match`, for some texts: whether the pattern matches somewhere in each. The
/// pattern for the names of message tables is anchored at both ends, so it matches such names and
/// nothing else.
#[verifier::external_body]
pub(crate) fn regex_is_match(pattern: &str, texts: &Vec<&str>) -> (r: Option<Vec<bool>>)
    requires
        pattern@ == MSG_TABLE_PATTERN@,
    ensures
        r is Some,
        r->0@.len() == texts@.len(),
        forall|i: int| 0 <= i < texts@.len() ==> #[trigger] r->0@[i] == is_msg_table(texts@[i]@),
{
    let re = regex::Regex::new(pattern).ok()?;
    Some(texts.iter().map(|t| re.is_match(t)).collect())
}

/// `regex::Regex::find_iter`, for some texts: the number of matches in each that do not overlap,
/// taken from the left. The pattern for media is made of plain characters, so it matches just
/// those characters.
#[verifier::external_body]
pub(crate) fn regex_count(pattern: &str, texts: &Vec<&str>) -> (r: Option<Vec<usize>>)
    requires
        pattern@ == MEDIA_PATTERN@,
    ensures
        r is Some,
        r->0@.len() == texts@.len(),
        forall|i: int| 0 <= i < texts@.len() ==> #[trigger] r->0@[i] == media_tags(texts@[i]@),
{
    let re = regex::Regex::new(pattern).ok()?;
    Some(texts.iter().map(|t| re.find_iter(t).count()).collect())
}

/// `regex::Regex::captures`, for some texts: the text of the first group in the leftmost match in
/// each. Of the matches at one place the one counts in which the earlier repetition took the most
/// characters; with the pattern for locations that is the last place name in the tag.
#[verifier::external_body]
pub(crate) fn regex_capture(pattern: &str, texts: &Vec<&str>) -> (r: Option<Vec<Option<String>>>)
    requires
        pattern@ == LOCATION_PATTERN@,
    ensures
        r is Some,
        r->0@.len() == texts@.len(),
        forall|i: int|
            0 <= i < texts@.len() ==> held(#[trigger] r->0@[i]) == location_in(texts@[i]@),
{
    let re = regex::Regex::new(pattern).ok()?;
    let group = |t: &&str| re.captures(t).and_then(|c| c.get(1)).map(|m| m.as_str().to_string());
    Some(texts.iter().map(group).collect())
}

} // verus!
