//! Putting the chunks of a record back into one payload.
//!
//! The payload is defined without reference to any sorting: it is the data of
//! the chunks with index 0, then of those with index 1, and so on up to 255,
//! chunks of one index in the order in which they arrived.

use crate::state::{Chunk, ChunkView};
use vstd::prelude::*;
use vstd::seq_lib::{to_multiset_insert, to_multiset_remove};

verus! {

/// The chunks of a vector as mathematical values.
pub open spec fn chunk_views(s: Seq<Chunk>) -> Seq<ChunkView> {
    s.map_values(|c: Chunk| c@)
}

/// The data of those chunks of `s` whose index is `index`, in their order.
pub open spec fn spec_data_at(s: Seq<ChunkView>, index: u8) -> Seq<u8>
    decreases s.len(),
{
    if s.len() == 0 {
        Seq::empty()
    } else if s.last().index == index {
        spec_data_at(s.drop_last(), index) + s.last().data
    } else {
        spec_data_at(s.drop_last(), index)
    }
}

/// The data of the chunks whose index is below `bound`, by ascending index.
pub open spec fn spec_join_below(s: Seq<ChunkView>, bound: int) -> Seq<u8>
    decreases bound,
{
    if bound <= 0 {
        Seq::empty()
    } else {
        spec_join_below(s, bound - 1) + spec_data_at(s, (bound - 1) as u8)
    }
}

/// The payload that the chunks make up: their data by ascending index.
pub open spec fn spec_join(s: Seq<ChunkView>) -> Seq<u8> {
    spec_join_below(s, 256)
}

/// The data of all chunks, one after the other, in the order of `s`.
pub open spec fn spec_concat(s: Seq<ChunkView>) -> Seq<u8>
    decreases s.len(),
{
    if s.len() == 0 {
        Seq::empty()
    } else {
        spec_concat(s.drop_last()) + s.last().data
    }
}

/// The sum of the lengths of the data of all chunks.
pub open spec fn spec_total_len(s: Seq<ChunkView>) -> nat
    decreases s.len(),
{
    if s.len() == 0 {
        0
    } else {
        spec_total_len(s.drop_last()) + s.last().data.len()
    }
}

/// No index is larger than one that comes later.
pub open spec fn sorted_by_index(s: Seq<ChunkView>) -> bool {
    forall|i: int, j: int| 0 <= i < j < s.len() ==> s[i].index <= s[j].index
}

/// No two chunks have the same index.
pub open spec fn distinct_indices(s: Seq<ChunkView>) -> bool {
    forall|i: int, j: int| 0 <= i < j < s.len() ==> s[i].index != s[j].index
}

/// The data found under an index in `a + b` is what is found in `a`, then
/// what is found in `b`.
pub proof fn lemma_data_at_add(a: Seq<ChunkView>, b: Seq<ChunkView>, index: u8)
    ensures
        spec_data_at(a + b, index) == spec_data_at(a, index) + spec_data_at(b, index),
    decreases b.len(),
{
    if b.len() == 0 {
        assert(a + b =~= a);
        assert(spec_data_at(a, index) + spec_data_at(b, index) =~= spec_data_at(a, index));
    } else {
        assert((a + b).drop_last() =~= a + b.drop_last());
        assert((a + b).last() == b.last());
        lemma_data_at_add(a, b.drop_last(), index);
        if b.last().index == index {
            assert(spec_data_at(a, index) + (spec_data_at(b.drop_last(), index) + b.last().data)
                =~= (spec_data_at(a, index) + spec_data_at(b.drop_last(), index)) + b.last().data);
        }
    }
}

/// Nothing is found under an index that no chunk has.
pub proof fn lemma_data_at_absent(s: Seq<ChunkView>, index: u8)
    requires
        forall|i: int| 0 <= i < s.len() ==> s[i].index != index,
    ensures
        spec_data_at(s, index) == Seq::<u8>::empty(),
    decreases s.len(),
{
    if s.len() > 0 {
        lemma_data_at_absent(s.drop_last(), index);
    }
}

/// Moving a chunk towards the front, past chunks of other indices only,
/// changes the data found under no index.
pub proof fn lemma_move_keeps_data_at(s: Seq<ChunkView>, from: int, to: int, index: u8)
    requires
        0 <= to <= from < s.len(),
        forall|k: int| to <= k < from ==> s[k].index != s[from].index,
    ensures
        spec_data_at(s.remove(from).insert(to, s[from]), index) == spec_data_at(s, index),
{
    let a = s.subrange(0, to);
    let mid = s.subrange(to, from);
    let x = seq![s[from]];
    let b = s.subrange(from + 1, s.len() as int);
    assert(s =~= ((a + mid) + x) + b);
    assert(s.remove(from).insert(to, s[from]) =~= ((a + x) + mid) + b);
    lemma_data_at_add((a + mid) + x, b, index);
    lemma_data_at_add(a + mid, x, index);
    lemma_data_at_add(a, mid, index);
    lemma_data_at_add((a + x) + mid, b, index);
    lemma_data_at_add(a + x, mid, index);
    lemma_data_at_add(a, x, index);
    if s[from].index == index {
        lemma_data_at_absent(mid, index);
    } else {
        lemma_data_at_absent(x, index);
    }
    assert(spec_data_at(a, index) + spec_data_at(mid, index) + spec_data_at(x, index)
        =~= spec_data_at(a, index) + spec_data_at(x, index) + spec_data_at(mid, index));
}

/// Below the index of a chunk, adding that chunk changes nothing.
pub proof fn lemma_join_below_push_high(s: Seq<ChunkView>, x: ChunkView, bound: int)
    requires
        bound <= x.index,
    ensures
        spec_join_below(s.push(x), bound) == spec_join_below(s, bound),
    decreases bound,
{
    if bound > 0 {
        lemma_join_below_push_high(s, x, bound - 1);
        assert(s.push(x).drop_last() =~= s);
    }
}

/// Above the largest index, nothing more is found.
pub proof fn lemma_join_below_saturates(s: Seq<ChunkView>, max: u8, bound: int)
    requires
        forall|i: int| 0 <= i < s.len() ==> s[i].index <= max,
        max < bound <= 256,
    ensures
        spec_join_below(s, bound) == spec_join_below(s, max + 1),
    decreases bound,
{
    if bound > max + 1 {
        lemma_join_below_saturates(s, max, bound - 1);
        lemma_data_at_absent(s, (bound - 1) as u8);
        assert(spec_join_below(s, bound - 1) + Seq::<u8>::empty() =~= spec_join_below(s, bound - 1));
    }
}

/// No chunks make up an empty payload.
pub proof fn lemma_join_below_empty(s: Seq<ChunkView>, bound: int)
    requires
        s.len() == 0,
    ensures
        spec_join_below(s, bound) == Seq::<u8>::empty(),
    decreases bound,
{
    if bound > 0 {
        lemma_join_below_empty(s, bound - 1);
        assert(Seq::<u8>::empty() + Seq::<u8>::empty() =~= Seq::<u8>::empty());
    }
}

/// Chunks that are sorted by index make up the payload as they stand.
pub proof fn lemma_sorted_join(s: Seq<ChunkView>)
    requires
        sorted_by_index(s),
    ensures
        spec_join(s) == spec_concat(s),
    decreases s.len(),
{
    if s.len() == 0 {
        lemma_join_below_empty(s, 256);
    } else {
        let x = s.last();
        let d = s.drop_last();
        let m = x.index;
        assert(s =~= d.push(x));
        lemma_sorted_join(d);
        assert forall|i: int| 0 <= i < s.len() implies s[i].index <= m by {
            if i < s.len() - 1 {
                assert(s[i].index <= s[s.len() - 1].index);
            }
        }
        assert forall|i: int| 0 <= i < d.len() implies d[i].index <= m by {
            assert(d[i] == s[i]);
        }
        lemma_join_below_saturates(s, m, 256);
        lemma_join_below_saturates(d, m, 256);
        lemma_join_below_push_high(d, x, m as int);
        assert(spec_join_below(s, m + 1) == spec_join_below(s, m as int) + spec_data_at(s, m));
        assert(spec_join_below(d, m + 1) == spec_join_below(d, m as int) + spec_data_at(d, m));
        assert(spec_join_below(d, m as int) + (spec_data_at(d, m) + x.data)
            =~= (spec_join_below(d, m as int) + spec_data_at(d, m)) + x.data);
    }
}

/// Chunks under which the same data is found at every index make up the same
/// payload.
pub proof fn lemma_join_below_same(a: Seq<ChunkView>, b: Seq<ChunkView>, bound: int)
    requires
        forall|index: u8| spec_data_at(a, index) == spec_data_at(b, index),
    ensures
        spec_join_below(a, bound) == spec_join_below(b, bound),
    decreases bound,
{
    if bound > 0 {
        lemma_join_below_same(a, b, bound - 1);
    }
}

/// One more chunk makes the payload below a bound longer by its data where
/// its index is below the bound, and not at all elsewhere.
pub proof fn lemma_join_below_len_push(s: Seq<ChunkView>, x: ChunkView, bound: int)
    requires
        bound <= 256,
    ensures
        spec_join_below(s.push(x), bound).len() == spec_join_below(s, bound).len() + if x.index < bound {
            x.data.len()
        } else {
            0
        },
    decreases bound,
{
    if bound > 0 {
        lemma_join_below_len_push(s, x, bound - 1);
        assert(s.push(x).drop_last() =~= s);
    }
}

/// The payload is as long as the data of all chunks together.
pub proof fn lemma_join_len(s: Seq<ChunkView>)
    ensures
        spec_join(s).len() == spec_total_len(s),
    decreases s.len(),
{
    if s.len() == 0 {
        lemma_join_below_empty(s, 256);
    } else {
        lemma_join_len(s.drop_last());
        lemma_join_below_len_push(s.drop_last(), s.last(), 256);
        assert(s.drop_last().push(s.last()) =~= s);
    }
}

/// Among chunks of distinct indices, what is found under the index of a chunk
/// is the data of that chunk.
pub proof fn lemma_data_at_unique(s: Seq<ChunkView>, i: int)
    requires
        distinct_indices(s),
        0 <= i < s.len(),
    ensures
        spec_data_at(s, s[i].index) == s[i].data,
    decreases s.len(),
{
    let d = s.drop_last();
    if i == s.len() - 1 {
        assert forall|k: int| 0 <= k < d.len() implies d[k].index != s[i].index by {
            assert(d[k] == s[k]);
        }
        lemma_data_at_absent(d, s[i].index);
        assert(Seq::<u8>::empty() + s[i].data =~= s[i].data);
    } else {
        assert(s[i].index != s[s.len() - 1].index);
        assert(d[i] == s[i]);
        lemma_data_at_unique(d, i);
    }
}

/// What occurs among some chunks occurs among the same chunks in another
/// order.
pub proof fn lemma_reordered_contains(a: Seq<ChunkView>, b: Seq<ChunkView>, x: ChunkView)
    requires
        a.to_multiset() == b.to_multiset(),
        a.contains(x),
    ensures
        b.contains(x),
{
    a.to_multiset_ensures();
    b.to_multiset_ensures();
    assert(a.to_multiset().count(x) > 0);
    assert(b.to_multiset().count(x) > 0);
}

/// Chunks of distinct indices, put in another order, still have distinct
/// indices.
pub proof fn lemma_reordered_distinct(a: Seq<ChunkView>, b: Seq<ChunkView>)
    requires
        distinct_indices(a),
        a.to_multiset() == b.to_multiset(),
    ensures
        distinct_indices(b),
{
    a.to_multiset_ensures();
    b.to_multiset_ensures();
    assert(a.no_duplicates()) by {
        assert forall|i: int, j: int| 0 <= i < a.len() && 0 <= j < a.len() && i != j implies a[i] != a[j] by {
            if i < j {
                assert(a[i].index != a[j].index);
            } else {
                assert(a[j].index != a[i].index);
            }
        }
    }
    a.lemma_multiset_has_no_duplicates();
    b.lemma_multiset_has_no_duplicates_conv();
    assert forall|i: int, j: int| 0 <= i < j < b.len() implies b[i].index != b[j].index by {
        assert(b.contains(b[i]));
        assert(b.contains(b[j]));
        lemma_reordered_contains(b, a, b[i]);
        lemma_reordered_contains(b, a, b[j]);
        let p = choose|p: int| 0 <= p < a.len() && a[p] == b[i];
        let q = choose|q: int| 0 <= q < a.len() && a[q] == b[j];
        assert(b[i] != b[j]);
        if p < q {
            assert(a[p].index != a[q].index);
        } else {
            assert(a[q].index != a[p].index);
        }
    }
}

/// The payload does not depend on the order in which chunks of distinct
/// indices arrived.
pub proof fn lemma_join_ignores_order(a: Seq<ChunkView>, b: Seq<ChunkView>)
    requires
        distinct_indices(a),
        a.to_multiset() == b.to_multiset(),
    ensures
        spec_join(a) == spec_join(b),
{
    lemma_reordered_distinct(a, b);
    a.to_multiset_ensures();
    b.to_multiset_ensures();
    assert forall|index: u8| spec_data_at(a, index) == spec_data_at(b, index) by {
        if exists|i: int| 0 <= i < a.len() && a[i].index == index {
            let i = choose|i: int| 0 <= i < a.len() && a[i].index == index;
            assert(a.contains(a[i]));
            lemma_reordered_contains(a, b, a[i]);
            let j = choose|j: int| 0 <= j < b.len() && b[j] == a[i];
            lemma_data_at_unique(a, i);
            lemma_data_at_unique(b, j);
        } else {
            assert forall|j: int| 0 <= j < b.len() implies b[j].index != index by {
                assert(b.contains(b[j]));
                lemma_reordered_contains(b, a, b[j]);
            }
            lemma_data_at_absent(a, index);
            lemma_data_at_absent(b, index);
        }
    }
    lemma_join_below_same(a, b, 256);
}

/// Whatever the order in which chunks of distinct indices arrived, the
/// payload is their data put together by ascending index.
pub proof fn lemma_join_is_ascending_concat(arrived: Seq<ChunkView>, ascending: Seq<ChunkView>)
    requires
        distinct_indices(arrived),
        arrived.to_multiset() == ascending.to_multiset(),
        sorted_by_index(ascending),
    ensures
        spec_join(arrived) == spec_concat(ascending),
{
    lemma_join_ignores_order(arrived, ascending);
    lemma_sorted_join(ascending);
}

/// Sorts the chunks by index, leaving chunks of one index in their order.
pub fn sort_by_index(chunks: &mut Vec<Chunk>)
    ensures
        sorted_by_index(chunk_views(final(chunks)@)),
        chunk_views(final(chunks)@).to_multiset() == chunk_views(old(chunks)@).to_multiset(),
        forall|index: u8| spec_data_at(chunk_views(final(chunks)@), index) == spec_data_at(chunk_views(old(chunks)@), index),
{
    let n = chunks.len();
    let mut i: usize = 1;
    while i < n
        invariant
            n == chunks@.len(),
            1 <= i,
            i <= n || n == 0,
            sorted_by_index(chunk_views(chunks@).take(i as int)) || n == 0,
            chunk_views(chunks@).to_multiset() == chunk_views(old(chunks)@).to_multiset(),
            forall|index: u8| spec_data_at(chunk_views(chunks@), index) == spec_data_at(chunk_views(old(chunks)@), index),
        decreases n - i,
    {
        let key = chunks[i].index;
        let mut j: usize = i;
        while j > 0 && chunks[j - 1].index > key
            invariant
                j <= i < n,
                n == chunks@.len(),
                key == chunks@[i as int].index,
                forall|k: int| j <= k < i ==> chunks@[k].index > key,
            decreases j,
        {
            j -= 1;
        }
        let ghost before = chunk_views(chunks@);
        let moved = chunks.remove(i);
        chunks.insert(j, moved);
        proof {
            let after = chunk_views(chunks@);
            assert(after =~= before.remove(i as int).insert(j as int, before[i as int]));
            to_multiset_remove(before, i as int);
            to_multiset_insert(before.remove(i as int), j as int, before[i as int]);
            before.to_multiset_ensures();
            assert(before.contains(before[i as int]));
            assert(after.to_multiset() =~= before.to_multiset());
            assert forall|index: u8| spec_data_at(after, index) == spec_data_at(before, index) by {
                lemma_move_keeps_data_at(before, i as int, j as int, index);
            }
            let sorted = after.take(i as int + 1);
            let prefix = before.take(i as int);
            assert forall|a: int, b: int| 0 <= a < b < sorted.len() implies sorted[a].index <= sorted[b].index by {
                let pa = if a < j { a } else { a - 1 };
                let pb = if b < j { b } else { b - 1 };
                if a != j {
                    assert(after[a] == before[pa]);
                }
                if b != j {
                    assert(after[b] == before[pb]);
                }
                if a != j && b != j {
                    assert(prefix[pa].index <= prefix[pb].index);
                }
                if b == j && j > 0 {
                    assert(prefix[a].index <= prefix[j - 1].index);
                }
            }
        }
        i += 1;
    }
    proof {
        if n > 0 {
            assert(chunk_views(chunks@).take(i as int) =~= chunk_views(chunks@));
        }
    }
}

} // verus!
