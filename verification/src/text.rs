//! Joining strings with a separator and splitting them again.

use vstd::prelude::*;
use vstd::std_specs::iter::IteratorSpec;
use vstd::string::*;

verus! {

/// The characters of each string of a sequence.
pub open spec fn strings_view(v: Seq<String>) -> Seq<Seq<char>> {
    v.map_values(|s: String| s@)
}

/// `parts` written one after the other, with `sep` between two neighbours.
pub open spec fn joined(parts: Seq<Seq<char>>, sep: char) -> Seq<char>
    decreases parts.len(),
{
    if parts.len() == 0 {
        Seq::empty()
    } else if parts.len() == 1 {
        parts[0]
    } else {
        joined(parts.drop_last(), sep) + seq![sep] + parts.last()
    }
}

/// The pieces of `s` between the occurrences of `sep`, as `str::split` yields
/// them: `n` occurrences give `n + 1` pieces, some of which may be empty.
pub open spec fn split_pieces(s: Seq<char>, sep: char) -> Seq<Seq<char>>
    decreases s.len(),
{
    if s.len() == 0 {
        seq![Seq::empty()]
    } else {
        let p = split_pieces(s.drop_last(), sep);
        if s.last() == sep {
            p.push(Seq::empty())
        } else {
            p.update(p.len() - 1, p.last().push(s.last()))
        }
    }
}

/// Appends one character to a string (`String::push`).
#[verifier::external_body]
fn push_char(s: &mut String, c: char)
    ensures
        final(s)@ == old(s)@.push(c),
{
    s.push(c);
}

pub proof fn lemma_split_nonempty(s: Seq<char>, sep: char)
    ensures
        split_pieces(s, sep).len() >= 1,
    decreases s.len(),
{
    if s.len() > 0 {
        lemma_split_nonempty(s.drop_last(), sep);
    }
}


/// Splitting `a`, `sep` and `b` written one after the other gives the pieces
/// of `a` followed by the pieces of `b`.
pub proof fn lemma_split_concat(a: Seq<char>, b: Seq<char>, sep: char)
    ensures
        split_pieces(a + seq![sep] + b, sep) == split_pieces(a, sep) + split_pieces(b, sep),
    decreases b.len(),
{
    let s = a + seq![sep] + b;
    if b.len() == 0 {
        assert(s.drop_last() =~= a);
        assert(split_pieces(b, sep) =~= seq![Seq::<char>::empty()]);
        assert(split_pieces(a, sep).push(Seq::empty()) =~= split_pieces(a, sep) + split_pieces(b, sep));
    } else {
        let b1 = b.drop_last();
        lemma_split_concat(a, b1, sep);
        lemma_split_nonempty(a, sep);
        lemma_split_nonempty(b1, sep);
        assert(s.drop_last() =~= a + seq![sep] + b1);
        assert(s.last() == b.last());
        let pa = split_pieces(a, sep);
        let pb1 = split_pieces(b1, sep);
        if b.last() == sep {
            assert((pa + pb1).push(Seq::empty()) =~= pa + pb1.push(Seq::empty()));
        } else {
            let q = pa + pb1;
            assert(q.update(q.len() - 1, q.last().push(b.last())) =~= pa + pb1.update(
                pb1.len() - 1,
                pb1.last().push(b.last()),
            ));
        }
    }
}

/// A string without `sep` is a single piece.
pub proof fn lemma_split_without_sep(s: Seq<char>, sep: char)
    requires
        !s.contains(sep),
    ensures
        split_pieces(s, sep) == seq![s],
    decreases s.len(),
{
    if s.len() > 0 {
        let t = s.drop_last();
        assert forall|i: int| 0 <= i < t.len() implies t[i] != sep by {
            assert(s[i] == t[i]);
        }
        lemma_split_without_sep(t, sep);
        assert(s.last() != sep) by {
            assert(s[s.len() - 1] == s.last());
        }
        assert(t.push(s.last()) =~= s);
        assert(seq![t].update(0, t.push(s.last())) =~= seq![s]);
    } else {
        assert(s =~= Seq::<char>::empty());
    }
}

/// Joining the pieces of a string with the separator it was split at gives
/// the string back, whatever the string.
pub proof fn law_join_split(s: Seq<char>, sep: char)
    ensures
        joined(split_pieces(s, sep), sep) == s,
    decreases s.len(),
{
    if s.len() == 0 {
        assert(joined(split_pieces(s, sep), sep) =~= s);
    } else {
        let t = s.drop_last();
        let c = s.last();
        law_join_split(t, sep);
        lemma_split_nonempty(t, sep);
        let p = split_pieces(t, sep);
        if c == sep {
            let q = p.push(Seq::empty());
            assert(q.drop_last() =~= p);
            assert(joined(q, sep) =~= s);
        } else {
            let q = p.update(p.len() - 1, p.last().push(c));
            if p.len() == 1 {
                assert(joined(q, sep) =~= s);
            } else {
                assert(q.drop_last() =~= p.drop_last());
                assert(joined(q, sep) =~= joined(p, sep).push(c));
                assert(t.push(c) =~= s);
            }
        }
    }
}

/// Splitting the join of at least one string, none of which holds the
/// separator, gives back the same strings in the same order.
pub proof fn law_split_join(parts: Seq<Seq<char>>, sep: char)
    requires
        parts.len() >= 1,
        forall|i: int| 0 <= i < parts.len() ==> !(#[trigger] parts[i]).contains(sep),
    ensures
        split_pieces(joined(parts, sep), sep) == parts,
    decreases parts.len(),
{
    if parts.len() == 1 {
        lemma_split_without_sep(parts[0], sep);
        assert(seq![parts[0]] =~= parts);
    } else {
        let init = parts.drop_last();
        assert forall|i: int| 0 <= i < init.len() implies !(#[trigger] init[i]).contains(sep) by {
            assert(init[i] == parts[i]);
        }
        law_split_join(init, sep);
        assert(!parts[parts.len() - 1].contains(sep));
        lemma_split_without_sep(parts.last(), sep);
        lemma_split_concat(joined(init, sep), parts.last(), sep);
        assert(init + seq![parts.last()] =~= parts);
    }
}

/// Joins `parts` with `sep` between neighbours (`[String]::join`).
pub fn join_with(parts: &Vec<String>, sep: char) -> (r: String)
    ensures
        r@ == joined(strings_view(parts@), sep),
{
    let mut r = String::new();
    let n = parts.len();
    let ghost pv = strings_view(parts@);
    let mut i: usize = 0;
    while i < n
        invariant
            n == parts@.len(),
            pv == strings_view(parts@),
            0 <= i <= n,
            r@ == joined(pv.take(i as int), sep),
        decreases n - i,
    {
        if i != 0 {
            push_char(&mut r, sep);
        }
        r.append(parts[i].as_str());
        assert(pv.take(i + 1).drop_last() =~= pv.take(i as int));
        i = i + 1;
    }
    assert(pv.take(n as int) =~= pv);
    r
}

/// Splits `s` at every occurrence of `sep` (`str::split` with a `char`).
pub fn split_on(s: &str, sep: char) -> (r: Vec<String>)
    ensures
        strings_view(r@) == split_pieces(s@, sep),
{
    let mut pieces: Vec<String> = Vec::new();
    let mut cur = String::new();
    let mut it = s.chars();
    let ghost done: Seq<char> = Seq::empty();
    assert(s@ =~= done + it.remaining());
    loop
        invariant
            s@ == done + it.remaining(),
            strings_view(pieces@).push(cur@) == split_pieces(done, sep),
        ensures
            done == s@,
            strings_view(pieces@).push(cur@) == split_pieces(done, sep),
        decreases s@.len() - done.len(),
    {
        match it.next() {
            None => {
                assert(done =~= s@);
                break;
            },
            Some(c) => {
                proof {
                    lemma_split_nonempty(done, sep);
                    let nd = done.push(c);
                    assert(nd.drop_last() =~= done);
                    assert(s@ =~= nd + it.remaining());
                    done = nd;
                }
                if c == sep {
                    let finished = cur;
                    pieces.push(finished);
                    cur = String::new();
                    assert(strings_view(pieces@).push(cur@) =~= split_pieces(done, sep));
                } else {
                    push_char(&mut cur, c);
                    assert(strings_view(pieces@).push(cur@) =~= split_pieces(done, sep));
                }
            },
        }
    }
    pieces.push(cur);
    assert(strings_view(pieces@) =~= split_pieces(s@, sep));
    pieces
}

} // verus!
