//! Splitting a sequence at a separator, as a mathematical function.

use vstd::prelude::*;

verus! {

/// The pieces of `s` between occurrences of `sep`, in order. There is always
/// at least one piece: a sequence without `sep` is its own single piece, and
/// each occurrence of `sep` starts a new, possibly empty, piece.
pub open spec fn split_on<T>(s: Seq<T>, sep: T) -> Seq<Seq<T>>
    decreases s.len(),
{
    if s.len() == 0 {
        seq![Seq::<T>::empty()]
    } else {
        let head = split_on(s.drop_last(), sep);
        if s.last() == sep {
            head.push(Seq::<T>::empty())
        } else {
            head.drop_last().push(head.last().push(s.last()))
        }
    }
}

/// The views of a sequence of strings.
pub open spec fn texts(v: Seq<String>) -> Seq<Seq<char>> {
    v.map_values(|s: String| s@)
}

/// Splitting always yields at least one piece.
pub proof fn lemma_split_nonempty<T>(s: Seq<T>, sep: T)
    ensures
        split_on(s, sep).len() >= 1,
    decreases s.len(),
{
    if s.len() > 0 {
        lemma_split_nonempty(s.drop_last(), sep);
    }
}

/// Reading one more element either opens a new empty piece (a separator) or
/// extends the piece that is currently open.
pub proof fn lemma_split_step<T>(s: Seq<T>, sep: T, done: Seq<Seq<T>>, open: Seq<T>, x: T)
    requires
        split_on(s, sep) == done.push(open),
    ensures
        x == sep ==> split_on(s.push(x), sep) == done.push(open).push(Seq::<T>::empty()),
        x != sep ==> split_on(s.push(x), sep) == done.push(open.push(x)),
{
    let t = s.push(x);
    assert(t.drop_last() =~= s);
    assert(t.last() == x);
    assert(done.push(open).drop_last() =~= done);
    assert(done.push(open).last() == open);
}

/// A sequence in which the separator does not occur is a single piece.
pub proof fn lemma_split_without_separator<T>(s: Seq<T>, sep: T)
    requires
        forall|i: int| 0 <= i < s.len() ==> s[i] != sep,
    ensures
        split_on(s, sep) == seq![s],
    decreases s.len(),
{
    if s.len() == 0 {
        assert(s =~= Seq::<T>::empty());
    } else {
        lemma_split_without_separator(s.drop_last(), sep);
        let head = split_on(s.drop_last(), sep);
        assert(head.drop_last() =~= Seq::<Seq<T>>::empty());
        assert(head.last().push(s.last()) =~= s);
        assert(head.drop_last().push(s) =~= seq![s]);
    }
}

/// The separator does not occur in the last piece.
pub proof fn lemma_last_piece_without_separator<T>(s: Seq<T>, sep: T)
    ensures
        split_on(s, sep).len() >= 1,
        forall|i: int|
            0 <= i < split_on(s, sep).last().len() ==> split_on(s, sep).last()[i] != sep,
    decreases s.len(),
{
    if s.len() > 0 {
        lemma_last_piece_without_separator(s.drop_last(), sep);
    }
}

/// Splitting does not depend on where a sequence is cut in two: the pieces of
/// `s + t` are the finished pieces of `s`, followed by the pieces of what the
/// open last piece of `s` and `t` make together.
pub proof fn lemma_split_concat<T>(s: Seq<T>, t: Seq<T>, sep: T)
    ensures
        split_on(s, sep).len() >= 1,
        split_on(s + t, sep) == split_on(s, sep).drop_last() + split_on(
            split_on(s, sep).last() + t,
            sep,
        ),
    decreases t.len(),
{
    lemma_last_piece_without_separator(s, sep);
    let done = split_on(s, sep).drop_last();
    let open = split_on(s, sep).last();
    if t.len() == 0 {
        assert(s + t =~= s);
        assert(open + t =~= open);
        lemma_split_without_separator(open, sep);
        assert(done + seq![open] =~= split_on(s, sep));
    } else {
        let front = t.drop_last();
        lemma_split_concat(s, front, sep);
        lemma_split_nonempty(open + front, sep);
        let tail = split_on(open + front, sep);
        assert((s + t).drop_last() =~= s + front);
        assert((open + t).drop_last() =~= open + front);
        if t.last() == sep {
            assert((done + tail).push(Seq::<T>::empty()) =~= done + tail.push(Seq::<T>::empty()));
        } else {
            let grown = tail.last().push(t.last());
            assert((done + tail).drop_last().push(grown) =~= done + tail.drop_last().push(grown));
        }
    }
}

} // verus!
