use vstd::prelude::*;

use crate::config::Platform;
use crate::paths::{
    below_on, held_path, is_rooted_on, or_path, part_end, path_views, volume, NativePath,
};

verus! {

/// Below a directory that does not end with a slash, a name stands behind a slash; below one that
/// does, or below none, behind nothing. A path from the root stands for itself.
pub proof fn law_below_elsewhere(platform: Platform, base: Seq<u8>, part: Seq<u8>)
    requires
        platform != Platform::Windows,
    ensures
        part.len() > 0 && part[0] == 47 ==> below_on(platform, base, part) == part,
        (part.len() == 0 || part[0] != 47) && base.len() > 0 && base.last() != 47 ==> below_on(
            platform,
            base,
            part,
        ) == base + seq![47u8] + part,
        (part.len() == 0 || part[0] != 47) && (base.len() == 0 || base.last() == 47) ==> below_on(
            platform,
            base,
            part,
        ) == base + part,
        is_rooted_on(platform, part) <==> part.len() > 0 && part[0] == 47,
{
    assert(base.push(47u8) =~= base + seq![47u8]);
}

/// On Windows a name stands behind a backslash, below a directory that does not end with a slash of
/// either kind and is more than a drive.
pub proof fn law_below_on_windows(base: Seq<u8>, part: Seq<u8>)
    requires
        part.len() > 0,
        part[0] != 47,
        part[0] != 92,
        part.len() > 1 ==> part[1] != 58,
    ensures
        base.len() > 2 && base.last() != 47 && base.last() != 92 ==> below_on(
            Platform::Windows,
            base,
            part,
        ) == base + seq![92u8] + part,
        base.len() > 0 && (base.last() == 47 || base.last() == 92) ==> below_on(
            Platform::Windows,
            base,
            part,
        ) == base + part,
        base.len() == 0 ==> below_on(Platform::Windows, base, part) == part,
{
    assert(base.push(92u8) =~= base + seq![92u8]);
    if base.len() == 0 {
        assert(base + part =~= part);
    }
}

/// On Windows a path that names a drive or a server stands for itself, and one that begins with a
/// slash keeps the drive.
pub proof fn law_roots_on_windows(base: Seq<u8>, part: Seq<u8>, drive: u8)
    requires
        65 <= drive <= 90 || 97 <= drive <= 122,
    ensures
        below_on(Platform::Windows, base, seq![drive, 58u8] + part) == seq![drive, 58u8] + part,
        below_on(Platform::Windows, base, seq![92u8, 92u8] + part) == seq![92u8, 92u8] + part,
        part.len() > 0 && part[0] == 47 ==> below_on(
            Platform::Windows,
            seq![drive, 58u8] + base,
            part,
        ) == seq![drive, 58u8] + part,
        is_rooted_on(Platform::Windows, seq![drive, 58u8, 92u8] + part),
        is_rooted_on(Platform::Windows, seq![drive, 58u8, 47u8] + part),
        is_rooted_on(Platform::Windows, seq![92u8, 92u8] + part),
{
    if part.len() > 0 && part[0] == 47 {
        let b = seq![drive, 58u8] + base;
        assert(volume(b) =~= seq![drive, 58u8]);
    }
}

/// A path is seen as its bytes, one that may be missing where it is there, and a row of paths one
/// by one.
pub proof fn law_path_seen(p: NativePath, all: Seq<NativePath>, i: int, other: Seq<u8>)
    requires
        0 <= i < all.len(),
    ensures
        p@ == p.bytes@,
        held_path(Some(p)) == Some(p.bytes@),
        held_path(None) is None,
        path_views(all).len() == all.len(),
        path_views(all)[i] == all[i].bytes@,
        or_path(Some(p.bytes@), other) == p.bytes@,
        or_path(None, other) == other,
{
}

/// On Windows a name below a drive alone stands right behind the colon, and one below a single
/// letter behind a backslash.
pub proof fn law_below_drive(part: Seq<u8>, drive: u8)
    requires
        part.len() > 0,
        part[0] != 47,
        part[0] != 92,
        part.len() > 1 ==> part[1] != 58,
        65 <= drive <= 90 || 97 <= drive <= 122,
    ensures
        below_on(Platform::Windows, seq![drive, 58u8], part) == seq![drive, 58u8] + part,
        below_on(Platform::Windows, seq![drive], part) == seq![drive, 92u8] + part,
{
    assert(seq![drive].push(92u8) =~= seq![drive, 92u8]);
}

/// On Windows a path that begins with a slash keeps the server and the share.
pub proof fn law_below_share(server: Seq<u8>, share: Seq<u8>, rest: Seq<u8>, part: Seq<u8>)
    requires
        forall|i: int| 0 <= i < server.len() ==> #[trigger] server[i] != 47 && server[i] != 92,
        forall|i: int| 0 <= i < share.len() ==> #[trigger] share[i] != 47 && share[i] != 92,
        rest.len() == 0 || rest[0] == 47 || rest[0] == 92,
        part.len() > 0,
        part[0] == 47 || part[0] == 92,
        part.len() > 1 ==> part[1] != 92,
    ensures
        below_on(
            Platform::Windows,
            seq![92u8, 92u8] + server + seq![92u8] + share + rest,
            part,
        ) == seq![92u8, 92u8] + server + seq![92u8] + share + part,
{
    let root = seq![92u8, 92u8] + server + seq![92u8] + share;
    let base = root + rest;
    let a = 2 + server.len() as int;
    assert forall|i: int| 2 <= i < a implies #[trigger] base[i] != 47 && base[i] != 92 by {
        assert(base[i] == server[i - 2]);
    }
    assert(base[a] == 92);
    lemma_part_end(base, 2, a);
    let b = a + 1 + share.len();
    assert forall|i: int| a + 1 <= i < b implies #[trigger] base[i] != 47 && base[i] != 92 by {
        assert(base[i] == share[i - a - 1]);
    }
    if rest.len() > 0 {
        assert(base[b] == rest[0]);
    }
    lemma_part_end(base, a + 1, b);
    assert(base.take(b) =~= root);
    assert(base[0] == 92 && base[1] == 92);
    assert(volume(base) == root);
}

proof fn lemma_part_end(path: Seq<u8>, from: int, to: int)
    requires
        0 <= from <= to <= path.len(),
        forall|i: int| from <= i < to ==> #[trigger] path[i] != 47 && path[i] != 92,
        to < path.len() ==> path[to] == 47 || path[to] == 92,
    ensures
        part_end(path, from) == to,
    decreases to - from,
{
    if from < to {
        lemma_part_end(path, from + 1, to);
    }
}

} // verus!
