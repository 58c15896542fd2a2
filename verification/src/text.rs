//! Cutting text at a separator, character by character.

use vstd::prelude::*;

verus! {

/// Position of the first `c` in `s`; the length of `s` where it holds none.
pub open spec fn find(s: Seq<char>, c: char) -> nat
    decreases s.len(),
{
    if s.len() == 0 || s[0] == c {
        0
    } else {
        1 + find(s.drop_first(), c)
    }
}

/// The pieces that `s` falls into when it is cut at every `sep`. There is
/// always at least one piece, and no piece holds `sep`.
pub open spec fn segments(s: Seq<char>, sep: char) -> Seq<Seq<char>>
    decreases s.len(),
{
    let i = find(s, sep) as int;
    if i >= s.len() {
        seq![s]
    } else {
        seq![s.take(i)] + segments(s.skip(i + 1), sep)
    }
}

/// The texts of a sequence of strings.
pub open spec fn texts(v: Seq<String>) -> Seq<Seq<char>> {
    v.map_values(|s: String| s@)
}

/// A position is the one `find` gives when nothing before it is `c` and it
/// is either the end or holds `c`.
pub proof fn lemma_find_is(s: Seq<char>, c: char, i: int)
    requires
        0 <= i <= s.len(),
        forall|k: int| 0 <= k < i ==> s[k] != c,
        i < s.len() ==> s[i] == c,
    ensures
        find(s, c) == i,
    decreases s.len(),
{
    if s.len() != 0 && s[0] != c {
        let t = s.drop_first();
        assert forall|k: int| 0 <= k < i - 1 implies t[k] != c by {
            assert(t[k] == s[k + 1]);
        }
        lemma_find_is(t, c, i - 1);
    }
}

/// What `find` points at: the first `c`, with no `c` before it.
pub proof fn lemma_find_first(s: Seq<char>, c: char)
    ensures
        find(s, c) <= s.len(),
        find(s, c) < s.len() ==> s[find(s, c) as int] == c,
        forall|k: int| 0 <= k < find(s, c) ==> s[k] != c,
    decreases s.len(),
{
    if s.len() != 0 && s[0] != c {
        let t = s.drop_first();
        lemma_find_first(t, c);
        assert forall|k: int| 0 <= k < find(s, c) implies s[k] != c by {
            if k > 0 {
                assert(s[k] == t[k - 1]);
            }
        }
    }
}

/// The pieces of a text, put together again with `sep` between them.
pub open spec fn joined(pieces: Seq<Seq<char>>, sep: char) -> Seq<char>
    decreases pieces.len(),
{
    if pieces.len() == 0 {
        seq![]
    } else if pieces.len() == 1 {
        pieces[0]
    } else {
        pieces[0] + seq![sep] + joined(pieces.skip(1), sep)
    }
}

/// Cutting yields at least one piece, and the first piece is what stands
/// before the first separator. There is one piece only where the text holds
/// no separator.
pub proof fn lemma_segments_first(s: Seq<char>, sep: char)
    ensures
        segments(s, sep).len() >= 1,
        segments(s, sep)[0] == s.take(find(s, sep) as int),
        segments(s, sep).len() == 1 <==> find(s, sep) == s.len(),
{
    lemma_find_first(s, sep);
    reveal_with_fuel(segments, 2);
    let i = find(s, sep) as int;
    if i >= s.len() {
        assert(s.take(i) =~= s);
    }
}

/// Cutting loses nothing: the pieces, joined with the separator, are the
/// text. With [`lemma_segments_separator_free`] this says what the pieces
/// are.
pub proof fn lemma_segments_join(s: Seq<char>, sep: char)
    ensures
        joined(segments(s, sep), sep) == s,
    decreases s.len(),
{
    lemma_find_first(s, sep);
    let p = find(s, sep) as int;
    if p < s.len() {
        let rest = s.skip(p + 1);
        lemma_segments_join(rest, sep);
        lemma_segments_first(rest, sep);
        let pieces = segments(s, sep);
        assert(pieces.skip(1) =~= segments(rest, sep));
        assert(pieces[0] == s.take(p));
        assert(s.take(p) + seq![sep] + rest =~= s);
    }
}

/// No piece holds the separator.
pub proof fn lemma_segments_separator_free(s: Seq<char>, sep: char)
    ensures
        forall|i: int, k: int|
            0 <= i < segments(s, sep).len() && 0 <= k < segments(s, sep)[i].len()
                ==> #[trigger] segments(s, sep)[i][k] != sep,
    decreases s.len(),
{
    lemma_find_first(s, sep);
    let p = find(s, sep) as int;
    if p < s.len() {
        let rest = segments(s.skip(p + 1), sep);
        lemma_segments_separator_free(s.skip(p + 1), sep);
        assert forall|i: int, k: int|
            0 <= i < segments(s, sep).len() && 0 <= k < segments(s, sep)[i].len()
            implies #[trigger] segments(s, sep)[i][k] != sep by {
            if i > 0 {
                assert(segments(s, sep)[i] == rest[i - 1]);
            }
        }
    }
}

/// The characters of `s`, in order.
pub fn chars(s: &str) -> (out: Vec<char>)
    ensures
        out@ == s@,
{
    let mut out: Vec<char> = Vec::new();
    for c in it: s.chars()
        invariant
            it.seq() == s@,
            out@ == it.seq().take(it.index()),
    {
        out.push(c);
        proof {
            assert(out@ =~= it.seq().take(it.index() + 1));
        }
    }
    proof {
        assert(s@.take(s@.len() as int) =~= s@);
    }
    out
}

/// Whether two texts hold the same characters.
pub fn equal(a: &str, b: &str) -> (same: bool)
    ensures
        same == (a@ == b@),
{
    let x = chars(a);
    let y = chars(b);
    if x.len() != y.len() {
        return false;
    }
    let mut i: usize = 0;
    while i < x.len()
        invariant
            x@ == a@,
            y@ == b@,
            x.len() == y.len(),
            i <= x.len(),
            forall|k: int| 0 <= k < i ==> x@[k] == y@[k],
        decreases x.len() - i,
    {
        if x[i] != y[i] {
            return false;
        }
        i += 1;
    }
    proof {
        assert(x@ =~= y@);
    }
    true
}

/// Cuts `s` at every `sep`. The pieces come in the order in which they stand
/// in `s`; a text without `sep` gives itself as its only piece.
pub fn split(s: &str, sep: char) -> (out: Vec<String>)
    ensures
        texts(out@) == segments(s@, sep),
        out.len() >= 1,
{
    let cs = chars(s);
    let n = cs.len();
    let mut out: Vec<String> = Vec::new();
    let mut start: usize = 0;
    let mut i: usize = 0;
    proof {
        assert(s@.skip(0) =~= s@);
        assert(texts(out@) + segments(s@, sep) =~= segments(s@, sep));
    }
    while i < n
        invariant
            cs@ == s@,
            n == cs.len(),
            start <= i <= n,
            forall|k: int| start <= k < i ==> cs@[k] != sep,
            segments(s@, sep) == texts(out@) + segments(s@.skip(start as int), sep),
        decreases n - i,
    {
        if cs[i] == sep {
            let piece = s.substring_char(start, i).to_owned();
            proof {
                let rest = s@.skip(start as int);
                lemma_find_is(rest, sep, i - start);
                assert(rest.take(i - start) =~= s@.subrange(start as int, i as int));
                assert(rest.skip(i - start + 1) =~= s@.skip(i + 1));
                assert(texts(out@.push(piece)) =~= texts(out@) + seq![piece@]);
            }
            out.push(piece);
            start = i + 1;
        }
        i += 1;
    }
    let piece = s.substring_char(start, n).to_owned();
    proof {
        let rest = s@.skip(start as int);
        lemma_find_is(rest, sep, n - start);
        assert(rest =~= s@.subrange(start as int, n as int));
        assert(texts(out@.push(piece)) =~= texts(out@) + seq![piece@]);
    }
    out.push(piece);
    out
}

} // verus!
