use vstd::prelude::*;

use crate::text::{
    after, before, begins, ends, find, head, held, lemma_find, lemma_find_some,
    lemma_trim_start_word, lines_of, occurs, occurs_at, replaced, single_spaced, trim_end,
    trim_start, trimmed, views, white_space, word_len,
};

verus! {

/// Where a text stands in another, it is found there or farther to the left.
pub proof fn law_found(s: Seq<char>, p: Seq<char>, i: int)
    requires
        0 <= i,
        i + p.len() <= s.len(),
        s.subrange(i, i + p.len()) == p,
    ensures
        occurs(s, p),
        find(s, p) is Some,
        0 <= find(s, p)->0 <= i,
{
    assert(occurs_at(s, p, i));
    lemma_find_some(s, p);
    let k = find(s, p)->0;
    if i < k {
        assert(!occurs_at(s, p, i));
    }
}

/// Where a text is found in another, it stands there.
pub proof fn law_stands_where_found(s: Seq<char>, p: Seq<char>)
    ensures
        occurs(s, p) == (find(s, p) is Some),
        find(s, p) matches Some(i) ==> {
            &&& 0 <= i
            &&& i + p.len() <= s.len()
            &&& s.subrange(i, i + p.len()) == p
        },
{
    lemma_find_some(s, p);
}

/// The leftmost place is the one before which the text does not stand.
pub proof fn law_split_at_leftmost(a: Seq<char>, p: Seq<char>, b: Seq<char>)
    requires
        find(a + p + b, p) == Some(a.len() as int),
    ensures
        before(a + p + b, p) == a,
        after(a + p + b, p) == b,
{
    let s = a + p + b;
    assert(before(s, p) =~= a);
    assert(after(s, p) =~= b);
}

/// A text that does not stand in another leaves it whole.
pub proof fn law_split_nowhere(s: Seq<char>, p: Seq<char>)
    requires
        find(s, p) is None,
    ensures
        before(s, p) == s,
        after(s, p) == s,
{
}

/// A text begins with another just where it is the other with something behind it.
pub proof fn law_begins(s: Seq<char>, p: Seq<char>, rest: Seq<char>)
    ensures
        begins(p + rest, p),
        begins(s, p) ==> s == p + s.skip(p.len() as int),
        s.len() < p.len() ==> !begins(s, p),
{
    assert((p + rest).subrange(0, p.len() as int) =~= p);
    if begins(s, p) {
        assert(s =~= p + s.skip(p.len() as int));
    }
}

/// A text ends with another just where it is the other with something before it.
pub proof fn law_ends(s: Seq<char>, p: Seq<char>, rest: Seq<char>)
    ensures
        ends(rest + p, p),
        ends(s, p) ==> s == s.take(s.len() - p.len()) + p,
        s.len() < p.len() ==> !ends(s, p),
{
    let t = rest + p;
    assert(t.subrange(t.len() - p.len(), t.len() as int) =~= p);
    if ends(s, p) {
        assert(s =~= s.take(s.len() - p.len()) + p);
    }
}

/// The first characters of a text are as many as are asked for, or all.
pub proof fn law_head(s: Seq<char>, n: int)
    requires
        0 <= n,
    ensures
        head(s, n).len() == (if s.len() < n {
            s.len() as int
        } else {
            n
        }),
        forall|i: int| 0 <= i < head(s, n).len() ==> #[trigger] head(s, n)[i] == s[i],
{
}

/// The white space of Unicode.
pub proof fn law_white_space(c: char)
    ensures
        white_space(c) <==> {
            let u = c as u32;
            ||| 9 <= u <= 13 || u == 32 || u == 133 || u == 160 || u == 5760
            ||| 8192 <= u <= 8202 || u == 8232 || u == 8233 || u == 8239 || u == 8287 || u == 12288
        },
{
}

/// A trimmed text is what is left of a text between white space, and has none at its ends.
pub proof fn law_trimmed(s: Seq<char>) -> (i: int)
    ensures
        0 <= i,
        i + trimmed(s).len() <= s.len(),
        trimmed(s) == s.subrange(i, i + trimmed(s).len()),
        forall|k: int| 0 <= k < i ==> white_space(#[trigger] s[k]),
        forall|k: int| i + trimmed(s).len() <= k < s.len() ==> white_space(#[trigger] s[k]),
        trimmed(s).len() > 0 ==> !white_space(trimmed(s)[0]) && !white_space(trimmed(s).last()),
{
    let t = trim_start(s);
    let i = lemma_trim_start_is_suffix(s);
    lemma_trim_end_is_prefix(t);
    let r = trim_end(t);
    lemma_trim_start_word(s);
    assert(r =~= s.subrange(i, i + r.len()));
    assert forall|k: int| i + r.len() <= k < s.len() implies white_space(#[trigger] s[k]) by {
        assert(t[k - i] == s[k]);
    }
    if r.len() > 0 {
        assert(r[0] == t[0]);
    }
    i
}

proof fn lemma_trim_start_is_suffix(s: Seq<char>) -> (i: int)
    ensures
        0 <= i <= s.len(),
        trim_start(s) == s.skip(i),
        forall|k: int| 0 <= k < i ==> white_space(#[trigger] s[k]),
    decreases s.len(),
{
    if s.len() > 0 && white_space(s[0]) {
        let rest = s.skip(1);
        let j = lemma_trim_start_is_suffix(rest);
        assert(rest.skip(j) =~= s.skip(j + 1));
        assert forall|k: int| 0 <= k < j + 1 implies white_space(#[trigger] s[k]) by {
            if k > 0 {
                assert(rest[k - 1] == s[k]);
            }
        }
        j + 1
    } else {
        assert(s.skip(0) =~= s);
        0
    }
}

proof fn lemma_trim_end_is_prefix(s: Seq<char>)
    ensures
        trim_end(s).len() <= s.len(),
        trim_end(s) == s.take(trim_end(s).len() as int),
        forall|k: int| trim_end(s).len() <= k < s.len() ==> white_space(#[trigger] s[k]),
        trim_end(s).len() > 0 ==> !white_space(trim_end(s).last()),
    decreases s.len(),
{
    if s.len() > 0 && white_space(s.last()) {
        let rest = s.drop_last();
        lemma_trim_end_is_prefix(rest);
        let n = trim_end(rest).len() as int;
        assert(rest.take(n) =~= s.take(n));
        assert forall|k: int| n <= k < s.len() implies white_space(#[trigger] s[k]) by {
            if k < rest.len() {
                assert(rest[k] == s[k]);
            }
        }
    } else {
        assert(s.take(s.len() as int) =~= s);
    }
}

/// A text without white space at its ends is trimmed already.
pub proof fn law_trimmed_stays(s: Seq<char>)
    requires
        s.len() > 0 ==> !white_space(s[0]) && !white_space(s.last()),
    ensures
        trimmed(s) == s,
{
}

/// Whether a text holds no white space.
pub open spec fn is_word(s: Seq<char>) -> bool {
    forall|k: int| 0 <= k < s.len() ==> !white_space(#[trigger] s[k])
}

/// White space before a text does not count where it is put on one line.
pub proof fn law_line_skips_space(w: char, s: Seq<char>)
    requires
        white_space(w),
    ensures
        single_spaced(seq![w] + s) == single_spaced(s),
{
    let t = seq![w] + s;
    assert(t.skip(1) =~= s);
    assert(trim_start(t) == trim_start(s));
    if s.len() == 0 {
        assert(trim_start(s) =~= s);
    }
}

/// A word that stands alone is a line; with white space and more behind it, one space stands
/// between the word and the rest of the line.
pub proof fn law_line_of_words(word: Seq<char>, w: char, rest: Seq<char>)
    requires
        word.len() > 0,
        is_word(word),
        white_space(w),
    ensures
        single_spaced(word) == word,
        single_spaced(Seq::empty()) == Seq::<char>::empty(),
        single_spaced(word.push(w) + rest) == (if single_spaced(rest).len() == 0 {
            word
        } else {
            word.push(' ') + single_spaced(rest)
        }),
{
    assert(!white_space(word[0]));
    lemma_word_len_of(word, Seq::empty());
    assert(word + Seq::<char>::empty() =~= word);
    assert(word.take(word.len() as int) =~= word);
    assert(word.skip(word.len() as int) =~= Seq::empty());
    assert(trim_start(word) == word);
    assert(trim_start(Seq::<char>::empty()) =~= Seq::empty());
    assert(single_spaced(Seq::<char>::empty()) == Seq::<char>::empty());
    assert(single_spaced(word) == word);
    let s = word.push(w) + rest;
    let tail = seq![w] + rest;
    assert(s =~= word + tail);
    assert(!white_space(s[0]));
    lemma_word_len_of(word, tail);
    assert(trim_start(s) == s);
    assert(s.take(word.len() as int) =~= word);
    assert(s.skip(word.len() as int) =~= tail);
    law_line_skips_space(w, rest);
    assert(word + seq![' '] + single_spaced(rest) =~= word.push(' ') + single_spaced(rest));
}

proof fn lemma_word_len_of(word: Seq<char>, tail: Seq<char>)
    requires
        is_word(word),
        tail.len() > 0 ==> white_space(tail[0]),
    ensures
        word_len(word + tail) == word.len(),
    decreases word.len(),
{
    let s = word + tail;
    if word.len() > 0 {
        assert(s[0] == word[0]);
        assert(s.skip(1) =~= word.skip(1) + tail);
        assert forall|k: int| 0 <= k < word.skip(1).len() implies !white_space(
            #[trigger] word.skip(1)[k],
        ) by {
            assert(word[k + 1] == word.skip(1)[k]);
        }
        lemma_word_len_of(word.skip(1), tail);
    } else {
        assert(s =~= tail);
    }
}

/// The lines of a text: each ends with a line feed, and a carriage return before it does not count.
pub proof fn law_lines(line: Seq<char>, rest: Seq<char>)
    requires
        !line.contains('\n'),
    ensures
        lines_of(Seq::empty()) == Seq::<Seq<char>>::empty(),
        line.len() > 0 ==> lines_of(line) == seq![line],
        lines_of(line.push('\n') + rest) == seq![
            if line.len() > 0 && line.last() == '\r' {
                line.drop_last()
            } else {
                line
            },
        ] + lines_of(rest),
{
    let nl = seq!['\n'];
    lemma_find_some(line, nl);
    if let Some(i) = find(line, nl) {
        assert(line.subrange(i, i + 1)[0] == '\n');
        assert(line[i] == '\n');
    }
    let s = line.push('\n') + rest;
    let n = line.len() as int;
    assert(s.subrange(n, n + 1) =~= nl);
    assert forall|j: int| 0 <= j < n implies !occurs_at(s, nl, j) by {
        if s.subrange(j, j + 1) == nl {
            assert(s.subrange(j, j + 1)[0] == '\n');
            assert(line[j] == '\n');
        }
    }
    lemma_find(s, nl, n);
    assert(s.take(n) =~= line);
    assert(s.skip(n + 1) =~= rest);
}

/// Replacing begins at the leftmost place and goes on behind it.
pub proof fn law_replaced(a: Seq<char>, from: Seq<char>, b: Seq<char>, to: Seq<char>)
    requires
        from.len() > 0,
        find(a + from + b, from) == Some(a.len() as int),
    ensures
        replaced(a + from + b, from, to) == a + to + replaced(b, from, to),
{
    let s = a + from + b;
    assert(s.take(a.len() as int) =~= a);
    assert(s.skip((a.len() + from.len()) as int) =~= b);
}

/// A text in which there is nothing to replace stays as it is.
pub proof fn law_replaced_nowhere(s: Seq<char>, from: Seq<char>, to: Seq<char>)
    requires
        find(s, from) is None,
    ensures
        replaced(s, from, to) == s,
{
}

/// A text is not found in one that lacks its first character.
pub proof fn law_not_found_without(s: Seq<char>, p: Seq<char>, c: char)
    requires
        p.len() > 0,
        p[0] == c,
        !s.contains(c),
    ensures
        find(s, p) is None,
        !occurs(s, p),
{
    lemma_find_some(s, p);
    if let Some(i) = find(s, p) {
        assert(s.subrange(i, i + p.len())[0] == c);
        assert(s[i] == c);
    }
}

/// A text is found behind one that lacks its first character.
pub proof fn law_found_behind(a: Seq<char>, p: Seq<char>, b: Seq<char>, c: char)
    requires
        p.len() > 0,
        p[0] == c,
        !a.contains(c),
    ensures
        find(a + p + b, p) == Some(a.len() as int),
{
    let s = a + p + b;
    let n = a.len() as int;
    assert(s.subrange(n, n + p.len()) =~= p);
    assert forall|j: int| 0 <= j < n implies !occurs_at(s, p, j) by {
        if occurs_at(s, p, j) {
            assert(s.subrange(j, j + p.len())[0] == c);
            assert(a[j] == c);
        }
    }
    lemma_find(s, p, n);
}

/// The texts of a list are those of its strings, in their order.
pub proof fn law_views(v: Seq<String>)
    ensures
        views(v).len() == v.len(),
        forall|i: int| 0 <= i < v.len() ==> #[trigger] views(v)[i] == v[i]@,
{
}

/// A text that may be missing is there just where its string is.
pub proof fn law_held(s: String)
    ensures
        held(Some(s)) == Some(s@),
        held(None) is None,
{
}

} // verus!
