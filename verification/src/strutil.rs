//! Text helpers: splitting on a separator character and joining with
//! one, with proofs that the two are inverses under the expected
//! conditions.

use vstd::prelude::*;

verus! {

/// Append one character to a string.
///
/// Relies on String::push: appends the given char to the end of this
/// String.
#[verifier::external_body]
pub fn push_char(s: &mut String, c: char)
    ensures
        final(s)@ == old(s)@.push(c),
{
    s.push(c);
}

/// The position of the first occurrence of `sep`, or the length of the
/// sequence when it does not occur.
pub open spec fn first_sep(s: Seq<char>, sep: char) -> int
    decreases s.len(),
{
    if s.len() == 0 {
        0
    } else if s[0] == sep {
        0
    } else {
        1 + first_sep(s.drop_first(), sep)
    }
}

/// The pieces of a sequence cut at every occurrence of `sep`; the
/// separators themselves are dropped, and n separators yield n + 1
/// pieces.
pub open spec fn spec_split(s: Seq<char>, sep: char) -> Seq<Seq<char>>
    decreases s.len(),
{
    let i = first_sep(s, sep);
    if 0 <= i < s.len() {
        seq![s.take(i)] + spec_split(s.skip(i + 1), sep)
    } else {
        seq![s]
    }
}

/// The pieces laid back to back with one `sep` between each pair.
pub open spec fn spec_join(parts: Seq<Seq<char>>, sep: char) -> Seq<char>
    decreases parts.len(),
{
    if parts.len() == 0 {
        Seq::empty()
    } else if parts.len() == 1 {
        parts[0]
    } else {
        parts[0] + seq![sep] + spec_join(parts.drop_first(), sep)
    }
}

/// A split always yields at least one piece.
pub proof fn lemma_split_min_len(s: Seq<char>, sep: char)
    ensures
        spec_split(s, sep).len() >= 1,
{
}

/// The first separator lies within the sequence, points at a separator,
/// and nothing before it is one.
pub proof fn lemma_first_sep_bounds(s: Seq<char>, sep: char)
    ensures
        0 <= first_sep(s, sep) <= s.len(),
        first_sep(s, sep) < s.len() ==> s[first_sep(s, sep)] == sep,
        forall|j: int| 0 <= j < first_sep(s, sep) ==> s[j] != sep,
    decreases s.len(),
{
    if s.len() != 0 && s[0] != sep {
        lemma_first_sep_bounds(s.drop_first(), sep);
        assert forall|j: int| 0 <= j < first_sep(s, sep) implies s[j] != sep by {
            if j > 0 {
                assert(s[j] == s.drop_first()[j - 1]);
            }
        }
    }
}

/// In a sequence without separators the first separator is the length.
pub proof fn lemma_first_sep_none(s: Seq<char>, sep: char)
    requires
        forall|j: int| 0 <= j < s.len() ==> s[j] != sep,
    ensures
        first_sep(s, sep) == s.len(),
    decreases s.len(),
{
    if s.len() != 0 {
        assert(s.drop_first() =~= s.subrange(1, s.len() as int));
        lemma_first_sep_none(s.drop_first(), sep);
    }
}

/// The first separator of `pre + [sep] + rest` is at the end of a
/// separator-free `pre`.
pub proof fn lemma_first_sep_concat(pre: Seq<char>, rest: Seq<char>, sep: char)
    requires
        forall|j: int| 0 <= j < pre.len() ==> pre[j] != sep,
    ensures
        first_sep(pre + seq![sep] + rest, sep) == pre.len(),
    decreases pre.len(),
{
    let s = pre + seq![sep] + rest;
    if pre.len() == 0 {
        assert(s[0] == sep);
    } else {
        assert(s[0] == pre[0]);
        assert(s.drop_first() =~= pre.drop_first() + seq![sep] + rest);
        lemma_first_sep_concat(pre.drop_first(), rest, sep);
    }
}

/// Splitting a separator-free sequence yields that one piece.
pub proof fn lemma_split_none(s: Seq<char>, sep: char)
    requires
        forall|j: int| 0 <= j < s.len() ==> s[j] != sep,
    ensures
        spec_split(s, sep) == seq![s],
{
    lemma_first_sep_none(s, sep);
}

/// Splitting cuts off a separator-free first piece before a separator.
pub proof fn lemma_split_unfold(pre: Seq<char>, rest: Seq<char>, sep: char)
    requires
        forall|j: int| 0 <= j < pre.len() ==> pre[j] != sep,
    ensures
        spec_split(pre + seq![sep] + rest, sep) == seq![pre] + spec_split(rest, sep),
{
    let s = pre + seq![sep] + rest;
    lemma_first_sep_concat(pre, rest, sep);
    assert(s.take(pre.len() as int) =~= pre);
    assert(s.skip(pre.len() as int + 1) =~= rest);
}

/// Joining the pieces of a split rebuilds the sequence.
pub proof fn lemma_join_split(s: Seq<char>, sep: char)
    ensures
        spec_join(spec_split(s, sep), sep) == s,
    decreases s.len(),
{
    lemma_first_sep_bounds(s, sep);
    let i = first_sep(s, sep);
    if i == s.len() {
        assert(spec_join(seq![s], sep) == s);
    } else {
        let rest = s.skip(i + 1);
        lemma_join_split(rest, sep);
        let parts = seq![s.take(i)] + spec_split(rest, sep);
        assert(parts.len() >= 2);
        assert(parts.drop_first() =~= spec_split(rest, sep));
        assert(parts[0] == s.take(i));
        assert(s.take(i) + seq![sep] + rest =~= s);
    }
}

/// Splitting a join recovers the pieces, as long as there is at least
/// one piece and no piece contains the separator.
pub proof fn lemma_split_join(parts: Seq<Seq<char>>, sep: char)
    requires
        parts.len() >= 1,
        forall|i: int, j: int|
            0 <= i < parts.len() && 0 <= j < parts[i].len() ==> #[trigger] parts[i][j] != sep,
    ensures
        spec_split(spec_join(parts, sep), sep) == parts,
    decreases parts.len(),
{
    if parts.len() == 1 {
        assert(parts[0] == spec_join(parts, sep));
        lemma_split_none(parts[0], sep);
        assert(spec_split(spec_join(parts, sep), sep) =~= parts);
    } else {
        let rest = parts.drop_first();
        lemma_split_join(rest, sep);
        lemma_split_unfold(parts[0], spec_join(rest, sep), sep);
        assert(seq![parts[0]] + spec_split(spec_join(rest, sep), sep) =~= parts);
    }
}

/// Appending one more piece extends a join by a separator and the piece.
pub proof fn lemma_join_push(parts: Seq<Seq<char>>, p: Seq<char>, sep: char)
    ensures
        parts.len() == 0 ==> spec_join(parts.push(p), sep) == p,
        parts.len() > 0 ==> spec_join(parts.push(p), sep) == spec_join(parts, sep) + seq![sep]
            + p,
    decreases parts.len(),
{
    let ext = parts.push(p);
    if parts.len() == 0 {
        assert(ext[0] == p);
    } else if parts.len() == 1 {
        assert(ext.drop_first() =~= seq![p]);
        assert(ext[0] == parts[0]);
        assert(spec_join(seq![p], sep) == p);
        assert(spec_join(ext, sep) == ext[0] + seq![sep] + spec_join(ext.drop_first(), sep));
        assert(spec_join(ext, sep) == parts[0] + seq![sep] + p);
    } else {
        lemma_join_push(parts.drop_first(), p, sep);
        assert(ext.drop_first() =~= parts.drop_first().push(p));
        assert(spec_join(ext, sep) == ext[0] + seq![sep] + spec_join(ext.drop_first(), sep));
        assert((parts[0] + seq![sep]) + (spec_join(parts.drop_first(), sep) + seq![sep] + p) =~= (
        (parts[0] + seq![sep]) + spec_join(parts.drop_first(), sep)) + seq![sep] + p);
        assert(spec_join(parts, sep) + seq![sep] + p =~= parts[0] + seq![sep] + (spec_join(
            parts.drop_first(),
            sep,
        ) + seq![sep] + p));
    }
}

/// The characters of all pieces taken together.
pub open spec fn total_len(parts: Seq<Seq<char>>) -> int
    decreases parts.len(),
{
    if parts.len() == 0 {
        0
    } else {
        parts[0].len() + total_len(parts.drop_first())
    }
}

/// A join is as long as its pieces plus one separator between each
/// pair.
pub proof fn lemma_join_len(parts: Seq<Seq<char>>, sep: char)
    requires
        parts.len() >= 1,
    ensures
        spec_join(parts, sep).len() == total_len(parts) + parts.len() - 1,
    decreases parts.len(),
{
    if parts.len() == 1 {
        assert(total_len(parts.drop_first()) == 0);
    } else {
        lemma_join_len(parts.drop_first(), sep);
    }
}

/// The view of each string in a vector, in order.
pub open spec fn views_of(parts: Seq<String>) -> Seq<Seq<char>> {
    parts.map(|i: int, p: String| p@)
}

/// Split a string at every occurrence of a separator character.
pub fn split_char(s: &String, sep: char) -> (r: Vec<String>)
    ensures
        views_of(r@) == spec_split(s@, sep),
{
    let n = s.as_str().unicode_len();
    let mut done: Vec<String> = Vec::new();
    let mut cur: String = String::new();
    let ghost mut start: int = 0;
    let mut i: usize = 0;
    proof {
        assert(s@.skip(0) =~= s@);
        assert(views_of(done@) =~= Seq::empty());
        assert(Seq::empty() + spec_split(s@, sep) =~= spec_split(s@, sep));
    }
    while i < n
        invariant
            n == s@.len(),
            i <= n,
            0 <= start <= i,
            cur@ == s@.subrange(start, i as int),
            forall|j: int| start <= j < i ==> s@[j] != sep,
            spec_split(s@, sep) == views_of(done@) + spec_split(s@.skip(start), sep),
        decreases n - i,
    {
        let c = s.as_str().get_char(i);
        if c == sep {
            proof {
                assert(s@.skip(start) =~= cur@ + seq![sep] + s@.skip(i + 1));
                lemma_split_unfold(cur@, s@.skip(i + 1), sep);
                assert(views_of(done@.push(cur)) =~= views_of(done@) + seq![cur@]);
                assert((views_of(done@) + seq![cur@]) + spec_split(s@.skip(i + 1), sep)
                    =~= views_of(done@) + (seq![cur@] + spec_split(s@.skip(i + 1), sep)));
            }
            done.push(cur);
            cur = String::new();
            proof {
                start = i + 1;
            }
        } else {
            push_char(&mut cur, c);
        }
        i += 1;
        proof {
            assert(cur@ =~= s@.subrange(start, i as int));
        }
    }
    proof {
        assert(s@.skip(start) =~= cur@);
        lemma_split_none(cur@, sep);
        assert(views_of(done@.push(cur)) =~= views_of(done@) + seq![cur@]);
        assert(views_of(done@) + seq![cur@] =~= spec_split(s@, sep));
    }
    done.push(cur);
    done
}

/// Join strings with a separator character between each pair.
pub fn join_char(parts: &Vec<String>, sep: char) -> (r: String)
    ensures
        r@ == spec_join(views_of(parts@), sep),
{
    let mut r = String::new();
    let mut i: usize = 0;
    while i < parts.len()
        invariant
            i <= parts@.len(),
            r@ == spec_join(views_of(parts@.take(i as int)), sep),
        decreases parts@.len() - i,
    {
        if i > 0 {
            push_char(&mut r, sep);
        }
        r.append(parts[i].as_str());
        proof {
            lemma_join_push(views_of(parts@.take(i as int)), parts@[i as int]@, sep);
            assert(views_of(parts@.take(i + 1)) =~= views_of(parts@.take(i as int)).push(
                parts@[i as int]@,
            ));
        }
        i += 1;
    }
    proof {
        assert(parts@.take(parts@.len() as int) =~= parts@);
    }
    r
}

} // verus!
