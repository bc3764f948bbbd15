use vstd::prelude::*;

use crate::text::{find, lemma_find, lemma_find_some, occurs_at};

verus! {

/// The names of message tables.
pub const MSG_TABLE_PATTERN: &'static str = "^Msg_[0-9a-f]{32}$";

/// The opening tag of one medium of a post.
pub const MEDIA_PATTERN: &'static str = "<media>";

/// The tag of a post's location, with the place's name.
pub const LOCATION_PATTERN: &'static str = "<location[^>]*poiName=\"([^\"]*)\"";

/// Whether `c` is a lower-case hexadecimal digit.
pub open spec fn is_hex(c: char) -> bool {
    '0' <= c <= '9' || 'a' <= c <= 'f'
}

/// Whether a text is `Msg_` and thirty-two lower-case hexadecimal digits.
pub open spec fn is_msg_table(s: Seq<char>) -> bool {
    &&& s.len() == 36
    &&& s.take(4) == "Msg_"@
    &&& forall|i: int| 4 <= i < 36 ==> is_hex(#[trigger] s[i])
}

/// How often `p` stands in `s`, counted from the left and without overlaps.
pub open spec fn count_of(s: Seq<char>, p: Seq<char>) -> nat
    decreases s.len(),
{
    match find(s, p) {
        Some(i) => if p.len() > 0 && 0 <= i && i + p.len() <= s.len() {
            1 + count_of(s.skip(i + p.len()), p)
        } else {
            0
        },
        None => 0,
    }
}

/// Texts with a character between them that is not in `p` hold `p` as often as the two together.
pub proof fn lemma_count_apart(a: Seq<char>, c: char, b: Seq<char>, p: Seq<char>)
    requires
        p.len() > 0,
        !p.contains(c),
    ensures
        count_of(a.push(c) + b, p) == count_of(a, p) + count_of(b, p),
    decreases a.len(),
{
    let s = a.push(c) + b;
    let n = p.len() as int;
    let m = a.len() + 1;
    lemma_find_some(a, p);
    lemma_find_some(b, p);
    assert forall|j: int| occurs_at(s, p, j) implies #[trigger] occurs_at(a, p, j) || occurs_at(
        b,
        p,
        j - m,
    ) by {
        if j + n <= a.len() {
            assert(s.subrange(j, j + n) =~= a.subrange(j, j + n));
        } else if j <= a.len() {
            assert(s.subrange(j, j + n)[a.len() - j] == c);
        } else {
            assert(s.subrange(j, j + n) =~= b.subrange(j - m, j - m + n));
        }
    }
    match find(a, p) {
        Some(i) => {
            assert(s.subrange(i, i + n) =~= a.subrange(i, i + n));
            assert forall|j: int| 0 <= j < i implies !occurs_at(s, p, j) by {
                assert(!occurs_at(a, p, j));
            }
            lemma_find(s, p, i);
            assert(s.skip(i + n) =~= a.skip(i + n).push(c) + b);
            lemma_count_apart(a.skip(i + n), c, b, p);
        },
        None => match find(b, p) {
            Some(k) => {
                assert(s.subrange(k + m, k + m + n) =~= b.subrange(k, k + n));
                assert forall|j: int| 0 <= j < k + m implies !occurs_at(s, p, j) by {
                    assert(!occurs_at(a, p, j));
                }
                lemma_find(s, p, k + m);
                assert(s.skip(k + m + n) =~= b.skip(k + n));
            },
            None => {
                assert forall|j: int| !occurs_at(s, p, j) by {
                    assert(!occurs_at(a, p, j));
                }
            },
        },
    }
}

/// The number of `<media>` tags.
pub open spec fn media_tags(s: Seq<char>) -> nat {
    count_of(s, "<media>"@)
}

/// Whether a location tag begins at `i` and its place name begins at `k`: no `>` stands between
/// the tag's name and `poiName="`, and a quotation mark closes the name.
pub open spec fn location_at(s: Seq<char>, i: int, k: int) -> bool {
    &&& occurs_at(s, "<location"@, i)
    &&& i + 9 <= k - 9
    &&& occurs_at(s, "poiName=\""@, k - 9)
    &&& forall|j: int| i + 9 <= j < k - 9 ==> s[j] != '>'
    &&& s.skip(k).contains('"')
}

/// The first location tag with a place name, and in it the last place name.
pub open spec fn location_chosen(s: Seq<char>, i: int, k: int) -> bool {
    &&& location_at(s, i, k)
    &&& forall|i2: int, k2: int| location_at(s, i2, k2) ==> i <= i2 && (i2 == i ==> k2 <= k)
}

/// The place name in the first location tag that has one.
pub open spec fn location_in(s: Seq<char>) -> Option<Seq<char>> {
    if exists|i: int, k: int| location_at(s, i, k) {
        let (i, k) = choose|i: int, k: int| location_chosen(s, i, k);
        Some(s.skip(k).take(s.skip(k).index_of_first('"')->0))
    } else {
        None
    }
}

} // verus!
