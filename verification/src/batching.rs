//! Grouping a stream of items into bounded-size batches.
//!
//! A batch is flushed as soon as it reaches the configured size, and once
//! more, as a final partial batch, when the input ends.  Batching is purely a
//! grouping step: concatenating the batches gives back the input unchanged,
//! whatever size was configured.

use vstd::prelude::*;

verus! {

/// The input cut into chunks of `n` from the front, the last chunk possibly
/// shorter, none empty.
pub open spec fn spec_batches<T>(s: Seq<T>, n: int) -> Seq<Seq<T>>
    decreases s.len(),
    when n >= 1
{
    if s.len() == 0 {
        Seq::empty()
    } else if s.len() <= n {
        seq![s]
    } else {
        seq![s.take(n)] + spec_batches(s.skip(n), n)
    }
}

/// The batches of a vector of vectors, as mathematical sequences.
pub open spec fn batches_view<T>(s: Seq<Vec<T>>) -> Seq<Seq<T>> {
    s.map_values(|v: Vec<T>| v@)
}

/// Concatenating the batches gives back the input.
pub proof fn lemma_batches_flatten<T>(s: Seq<T>, n: int)
    requires
        n >= 1,
    ensures
        spec_batches(s, n).flatten() == s,
    decreases s.len(),
{
    if s.len() == 0 {
    } else if s.len() <= n {
        let b = spec_batches(s, n);
        assert(b =~= seq![s]);
        assert(b.first() == s);
        assert(b.drop_first() =~= Seq::<Seq<T>>::empty());
        assert(b.flatten() == s + Seq::<Seq<T>>::empty().flatten());
        assert(s + Seq::<T>::empty() =~= s);
    } else {
        lemma_batches_flatten(s.skip(n), n);
        let b = spec_batches(s, n);
        assert(b =~= seq![s.take(n)] + spec_batches(s.skip(n), n));
        assert(b.first() == s.take(n));
        assert(b.drop_first() =~= spec_batches(s.skip(n), n));
        assert(b.flatten() == s.take(n) + spec_batches(s.skip(n), n).flatten());
        assert(s.take(n) + s.skip(n) =~= s);
    }
}

/// Batch sizes do not change dispatch content: for one input, the
/// concatenation of the batches is the same whatever sizes were configured.
pub proof fn lemma_batch_size_equivalence<T>(s: Seq<T>, n1: int, n2: int)
    requires
        n1 >= 1,
        n2 >= 1,
    ensures
        spec_batches(s, n1).flatten() == spec_batches(s, n2).flatten(),
{
    lemma_batches_flatten(s, n1);
    lemma_batches_flatten(s, n2);
}

/// Every batch is non-empty and at most `n` long, and only the last batch may
/// be shorter than `n`.
pub proof fn lemma_batches_shape<T>(s: Seq<T>, n: int)
    requires
        n >= 1,
    ensures
        forall|i: int|
            0 <= i < spec_batches(s, n).len() ==> 0 < (#[trigger] spec_batches(s, n)[i]).len()
                <= n,
        forall|i: int|
            0 <= i < spec_batches(s, n).len() - 1 ==> (#[trigger] spec_batches(s, n)[i]).len()
                == n,
    decreases s.len(),
{
    if s.len() == 0 {
    } else if s.len() <= n {
    } else {
        lemma_batches_shape(s.skip(n), n);
        let b = spec_batches(s, n);
        assert forall|i: int| 0 <= i < b.len() implies 0 < (#[trigger] b[i]).len() <= n by {
            if i > 0 {
                assert(b[i] == spec_batches(s.skip(n), n)[i - 1]);
            }
        }
        assert forall|i: int| 0 <= i < b.len() - 1 implies (#[trigger] b[i]).len() == n by {
            if i > 0 {
                assert(b[i] == spec_batches(s.skip(n), n)[i - 1]);
            }
        }
    }
}

/// Batching commutes with mapping a function over the items.
pub proof fn lemma_batches_map<T, U>(s: Seq<T>, n: int, f: spec_fn(T) -> U)
    requires
        n >= 1,
    ensures
        spec_batches(s, n).map_values(|t: Seq<T>| t.map_values(f)) == spec_batches(
            s.map_values(f),
            n,
        ),
    decreases s.len(),
{
    let m = s.map_values(f);
    if s.len() == 0 {
        assert(spec_batches(s, n).map_values(|t: Seq<T>| t.map_values(f)) =~= spec_batches(m, n));
    } else if s.len() <= n {
        assert(spec_batches(s, n) =~= seq![s]);
        assert(spec_batches(m, n) =~= seq![m]);
        assert(seq![s].map_values(|t: Seq<T>| t.map_values(f)) =~= seq![m]);
    } else {
        lemma_batches_map(s.skip(n), n, f);
        assert(m.take(n) =~= s.take(n).map_values(f));
        assert(m.skip(n) =~= s.skip(n).map_values(f));
        assert(spec_batches(s, n).map_values(|t: Seq<T>| t.map_values(f)) =~= seq![
            s.take(n).map_values(f),
        ] + spec_batches(s.skip(n), n).map_values(|t: Seq<T>| t.map_values(f)));
        assert(spec_batches(m, n) =~= seq![m.take(n)] + spec_batches(m.skip(n), n));
    }
}

/// Cuts the items into batches of at most `size`, in arrival order, flushing
/// a batch whenever it fills and the remainder at the end.
pub fn make_batches<T>(items: Vec<T>, size: usize) -> (r: Vec<Vec<T>>)
    requires
        size >= 1,
    ensures
        batches_view(r@) == spec_batches(items@, size as int),
{
    let ghost orig: Seq<T> = items@;
    let mut rest = items;
    let mut out: Vec<Vec<T>> = Vec::new();
    while rest.len() > 0
        invariant
            size >= 1,
            spec_batches(orig, size as int) =~= batches_view(out@) + spec_batches(
                rest@,
                size as int,
            ),
        decreases rest.len(),
    {
        let ghost pre = rest@;
        let mut chunk: Vec<T> = Vec::new();
        while chunk.len() < size && rest.len() > 0
            invariant
                chunk@.len() <= size,
                chunk@ + rest@ =~= pre,
            decreases rest.len(),
        {
            let x = rest.remove(0);
            chunk.push(x);
            proof {
                assert(chunk@ + rest@ =~= pre);
            }
        }
        proof {
            if pre.len() <= size as int {
                assert(rest@.len() == 0);
                assert(chunk@ =~= pre);
                assert(spec_batches(pre, size as int) =~= seq![chunk@] + spec_batches(
                    rest@,
                    size as int,
                ));
            } else {
                assert(chunk@.len() == size);
                assert(chunk@ =~= pre.take(size as int));
                assert(rest@ =~= pre.skip(size as int));
                assert(spec_batches(pre, size as int) =~= seq![chunk@] + spec_batches(
                    rest@,
                    size as int,
                ));
            }
        }
        out.push(chunk);
        proof {
            assert(batches_view(out@) =~= batches_view(out@.drop_last()) + seq![
                out@.last()@,
            ]);
        }
    }
    proof {
        assert(batches_view(out@) =~= spec_batches(orig, size as int));
    }
    out
}


} // verus!
