use vstd::prelude::*;
use vstd::slice::{slice_subrange, slice_to_vec};
use vstd::utf8::{encode_utf8, is_ascii_chars, is_ascii_chars_encode_utf8};

use crate::config::Platform;
use crate::text::lemma_same_bytes;

verus! {

/// `/`.
pub const SLASH: u8 = 0x2f;

/// `\`.
pub const BACKSLASH: u8 = 0x5c;

/// `:`.
pub const COLON: u8 = 0x3a;

/// A path as the system spells it. Not every path is a text: its bytes are UTF-8 only where it is.
#[derive(Clone, Debug, PartialEq, Eq)]
pub struct NativePath {
    /// The bytes in which it is encoded.
    pub bytes: Vec<u8>,
}

impl View for NativePath {
    type V = Seq<u8>;

    open spec fn view(&self) -> Seq<u8> {
        self.bytes@
    }
}

/// The path that a text spells.
pub open spec fn spelled(text: Seq<char>) -> Seq<u8> {
    encode_utf8(text)
}

impl NativePath {
    /// The path that a text spells.
    pub fn of_text(text: &str) -> (r: NativePath)
        ensures
            r@ == spelled(text@),
    {
        NativePath { bytes: slice_to_vec(text.as_bytes()) }
    }

    /// The same path.
    pub fn copied(&self) -> (r: NativePath)
        ensures
            r@ == self@,
    {
        NativePath { bytes: slice_to_vec(self.bytes.as_slice()) }
    }
}

/// What a path that may be missing is.
pub open spec fn held_path(p: Option<NativePath>) -> Option<Seq<u8>> {
    match p {
        Some(q) => Some(q@),
        None => None,
    }
}

/// What some paths are.
pub open spec fn path_views(all: Seq<NativePath>) -> Seq<Seq<u8>> {
    all.map_values(|p: NativePath| p@)
}

/// A path, or another where there is none.
pub open spec fn or_path(p: Option<Seq<u8>>, other: Seq<u8>) -> Seq<u8> {
    match p {
        Some(q) => q,
        None => other,
    }
}

/// Whether a byte stands between the parts of a path on Windows.
pub open spec fn is_slash(b: u8) -> bool {
    b == SLASH || b == BACKSLASH
}

/// Whether a path begins with a drive: a letter and a colon.
pub open spec fn begins_with_drive(path: Seq<u8>) -> bool {
    &&& path.len() >= 2
    &&& (0x61 <= path[0] <= 0x7a || 0x41 <= path[0] <= 0x5a)
    &&& path[1] == COLON
}

/// Whether a path begins with two backslashes, as those of the network do.
pub open spec fn begins_with_network(path: Seq<u8>) -> bool {
    path.len() >= 2 && path[0] == BACKSLASH && path[1] == BACKSLASH
}

/// Whether a path is absolute: it begins with `/`; on Windows with a drive and a slash, or with two
/// backslashes.
pub open spec fn is_rooted_on(platform: Platform, path: Seq<u8>) -> bool {
    if platform == Platform::Windows {
        ||| begins_with_drive(path) && path.len() >= 3 && is_slash(path[2])
        ||| begins_with_network(path)
    } else {
        path.len() > 0 && path[0] == SLASH
    }
}

/// Where the part of a path that `i` lies in ends.
pub open spec fn part_end(path: Seq<u8>, i: int) -> int
    decreases path.len() - i,
{
    if i >= path.len() {
        path.len() as int
    } else if is_slash(path[i]) {
        i
    } else {
        part_end(path, i + 1)
    }
}

/// What names the volume of a path on Windows: its drive, or the server and the share.
pub open spec fn volume(path: Seq<u8>) -> Seq<u8> {
    if begins_with_drive(path) {
        path.take(2)
    } else if begins_with_network(path) {
        path.take(part_end(path, part_end(path, 2) + 1))
    } else {
        Seq::empty()
    }
}

/// A path below another, with `/` between the two where it is missing; an absolute path stands for
/// itself.
pub open spec fn below_on_unix(base: Seq<u8>, part: Seq<u8>) -> Seq<u8> {
    if part.len() > 0 && part[0] == SLASH {
        part
    } else if base.len() == 0 || base.last() == SLASH {
        base + part
    } else {
        base.push(SLASH) + part
    }
}

/// A path below another on Windows. One that names its volume stands for itself, one that begins
/// with a slash keeps the other's volume; else a backslash stands between the two where a slash is
/// missing, but not behind a drive alone.
/// Dots and slashes in the parts stay as they are, also below a path that begins with `\\?\`.
pub open spec fn below_on_windows(base: Seq<u8>, part: Seq<u8>) -> Seq<u8> {
    if begins_with_drive(part) || begins_with_network(part) {
        part
    } else if part.len() > 0 && is_slash(part[0]) {
        volume(base) + part
    } else if base.len() == 0 || is_slash(base.last()) || (base.len() == 2 && begins_with_drive(
        base,
    )) {
        base + part
    } else {
        base.push(BACKSLASH) + part
    }
}

/// A path below another.
pub open spec fn below_on(platform: Platform, base: Seq<u8>, part: Seq<u8>) -> Seq<u8> {
    if platform == Platform::Windows {
        below_on_windows(base, part)
    } else {
        below_on_unix(base, part)
    }
}

fn slash(b: u8) -> (r: bool)
    ensures
        r == is_slash(b),
{
    b == SLASH || b == BACKSLASH
}

fn has_drive(path: &[u8]) -> (r: bool)
    ensures
        r == begins_with_drive(path@),
{
    path.len() >= 2 && ((0x61 <= path[0] && path[0] <= 0x7a) || (0x41 <= path[0] && path[0]
        <= 0x5a)) && path[1] == COLON
}

fn has_network(path: &[u8]) -> (r: bool)
    ensures
        r == begins_with_network(path@),
{
    path.len() >= 2 && path[0] == BACKSLASH && path[1] == BACKSLASH
}

/// Whether a path is absolute.
pub fn is_absolute_on(platform: Platform, path: &NativePath) -> (r: bool)
    ensures
        r == is_rooted_on(platform, path@),
{
    let v = path.bytes.as_slice();
    if platform == Platform::Windows {
        (has_drive(v) && v.len() >= 3 && slash(v[2])) || has_network(v)
    } else {
        v.len() > 0 && v[0] == SLASH
    }
}

fn end_of_part(path: &[u8], i: usize) -> (r: usize)
    ensures
        r == part_end(path@, i as int),
        r <= path@.len(),
{
    let mut k: usize = i;
    if k > path.len() {
        k = path.len();
    }
    while k < path.len() && !slash(path[k])
        invariant
            k <= path@.len(),
            part_end(path@, i as int) == part_end(path@, k as int),
        decreases path@.len() - k,
    {
        k = k + 1;
    }
    k
}

fn volume_of(path: &[u8]) -> (r: Vec<u8>)
    ensures
        r@ == volume(path@),
{
    let n: usize = if has_drive(path) {
        2
    } else if has_network(path) {
        let server: usize = end_of_part(path, 2);
        if server < path.len() {
            end_of_part(path, server + 1)
        } else {
            path.len()
        }
    } else {
        0
    };
    let r = slice_to_vec(slice_subrange(path, 0, n));
    assert(r@ =~= volume(path@));
    r
}

/// Appends bytes to others.
fn append_bytes(out: &mut Vec<u8>, more: &[u8])
    ensures
        final(out)@ == old(out)@ + more@,
{
    let ghost before = out@;
    let mut i: usize = 0;
    assert(out@ =~= before + more@.take(0));
    while i < more.len()
        invariant
            i <= more@.len(),
            out@ == before + more@.take(i as int),
        decreases more@.len() - i,
    {
        out.push(more[i]);
        i = i + 1;
        assert(out@ =~= before + more@.take(i as int));
    }
    assert(more@.take(i as int) =~= more@);
}

/// What goes before a part of a path in the path below another.
fn kept_of(platform: Platform, base: &[u8], part: &[u8]) -> (r: Vec<u8>)
    ensures
        r@ + part@ == below_on(platform, base@, part@),
{
    let windows = platform == Platform::Windows;
    let empty: Vec<u8> = Vec::new();
    assert(empty@ + part@ =~= part@);
    if windows && (has_drive(part) || has_network(part)) {
        empty
    } else if windows && part.len() > 0 && slash(part[0]) {
        volume_of(base)
    } else if !windows && part.len() > 0 && part[0] == SLASH {
        empty
    } else {
        let mut kept = slice_to_vec(base);
        let n: usize = base.len();
        if n > 0 {
            if windows {
                if !slash(base[n - 1]) && !(n == 2 && has_drive(base)) {
                    kept.push(BACKSLASH);
                }
            } else if base[n - 1] != SLASH {
                kept.push(SLASH);
            }
        }
        kept
    }
}

/// The path that a text spells, below another.
pub fn join_on(platform: Platform, base: &NativePath, part: &str) -> (r: NativePath)
    ensures
        r@ == below_on(platform, base@, spelled(part@)),
{
    let bytes = part.as_bytes();
    let mut out = kept_of(platform, base.bytes.as_slice(), bytes);
    append_bytes(&mut out, bytes);
    NativePath { bytes: out }
}

/// An absolute path stands for itself, whatever it is taken from.
pub proof fn law_absolute_stands(platform: Platform, base: Seq<u8>, part: Seq<u8>)
    requires
        is_rooted_on(platform, part),
    ensures
        below_on(platform, base, part) == part,
{
}

/// Going down by a part that does not begin with a slash keeps what stands before it; on Windows
/// also a backslash counts, and a drive.
pub proof fn law_below_extends(platform: Platform, base: Seq<u8>, part: Seq<u8>)
    requires
        part.len() > 0 ==> part[0] != SLASH,
        platform == Platform::Windows && part.len() > 0 ==> part[0] != BACKSLASH,
        platform == Platform::Windows ==> !begins_with_drive(part),
    ensures
        base.is_prefix_of(below_on(platform, base, part)),
        part.is_suffix_of(below_on(platform, base, part)),
{
    let r = below_on(platform, base, part);
    assert(r.take(base.len() as int) =~= base);
    assert(r.skip(r.len() - part.len()) =~= part);
}

/// Plain letters, digits and signs are spelled by one byte each.
pub proof fn law_plain_spelling(text: Seq<char>)
    requires
        is_ascii_chars(text),
    ensures
        spelled(text).len() == text.len(),
        forall|i: int| 0 <= i < text.len() ==> #[trigger] spelled(text)[i] == text[i] as u8,
{
    is_ascii_chars_encode_utf8(text);
}

/// Two texts spell one path only where they are the same.
pub proof fn law_spelling_differs(a: Seq<char>, b: Seq<char>)
    ensures
        spelled(a) == spelled(b) <==> a == b,
{
    lemma_same_bytes(a, b);
}

} // verus!
