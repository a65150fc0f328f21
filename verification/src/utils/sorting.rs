//! Largest-first stable ordering of report entries by their total size.
use vstd::prelude::*;
use vstd::multiset::Multiset;
use vstd::seq_lib::lemma_multiset_commutative;

verus! {

/// Entries that carry a total size.
pub trait SpecSize: Sized {
    spec fn size_key(&self) -> int;
}

/// Report entries whose total size can be read.
pub trait SizeKey: SpecSize {
    fn size_of(&self) -> (r: u64)
        ensures
            r as int == self.size_key(),
    ;
}

/// Index of the first entry with the largest size (0 for an empty sequence).
pub open spec fn first_max_index<T: SpecSize>(s: Seq<T>) -> int
    decreases s.len(),
{
    if s.len() <= 1 {
        0
    } else {
        let k = first_max_index(s.drop_last());
        if s.last().size_key() > s[k].size_key() {
            s.len() - 1
        } else {
            k
        }
    }
}

/// `s` ordered largest size first; entries of equal size keep their order
/// (a stable sort, as `sort_by(|a, b| b.total_size.cmp(&a.total_size))`).
pub open spec fn sort_by_size<T: SpecSize>(s: Seq<T>) -> Seq<T>
    decreases s.len(),
{
    if s.len() == 0 {
        seq![]
    } else {
        let i = first_max_index(s);
        if 0 <= i < s.len() {
            seq![s[i]] + sort_by_size(s.remove(i))
        } else {
            seq![]
        }
    }
}

/// No entry is larger than one before it.
pub open spec fn sorted_by_size<T: SpecSize>(s: Seq<T>) -> bool {
    forall|i: int, j: int| 0 <= i < j < s.len() ==> #[trigger] s[i].size_key() >= #[trigger] s[j].size_key()
}

pub proof fn lemma_first_max_index<T: SpecSize>(s: Seq<T>)
    requires
        s.len() > 0,
    ensures
        0 <= first_max_index(s) < s.len(),
        forall|j: int| 0 <= j < s.len() ==> #[trigger] s[j].size_key() <= s[first_max_index(s)].size_key(),
        forall|j: int| 0 <= j < first_max_index(s) ==> #[trigger] s[j].size_key() < s[first_max_index(s)].size_key(),
    decreases s.len(),
{
    if s.len() > 1 {
        lemma_first_max_index(s.drop_last());
        assert forall|j: int| 0 <= j < s.len() - 1 implies #[trigger] s[j] == s.drop_last()[j] by {}
    }
}

/// Ordering by size keeps every entry, as often as it occurs.
pub proof fn lemma_sort_by_size_permutation<T: SpecSize>(s: Seq<T>)
    ensures
        sort_by_size(s).to_multiset() == s.to_multiset(),
    decreases s.len(),
{
    broadcast use vstd::seq_lib::group_to_multiset_ensures;

    if s.len() == 0 {
        assert(sort_by_size(s) =~= s);
    } else {
        lemma_first_max_index(s);
        let i = first_max_index(s);
        let t = sort_by_size(s.remove(i));
        lemma_sort_by_size_permutation(s.remove(i));
        lemma_multiset_commutative(seq![s[i]], t);
        assert(seq![s[i]].to_multiset() =~= Multiset::empty().insert(s[i])) by {
            assert(seq![s[i]] =~= Seq::<T>::empty().push(s[i]));
        }
        assert(s.to_multiset().count(s[i]) > 0) by {
            assert(s.contains(s[i]));
        }
        assert(sort_by_size(s).to_multiset() =~= s.to_multiset());
    }
}

/// Ordering by size puts no entry after a smaller one.
pub proof fn lemma_sort_by_size_sorted<T: SpecSize>(s: Seq<T>)
    ensures
        sorted_by_size(sort_by_size(s)),
        sort_by_size(s).len() == s.len(),
    decreases s.len(),
{
    broadcast use vstd::seq_lib::group_to_multiset_ensures;

    if s.len() > 0 {
        lemma_first_max_index(s);
        let i = first_max_index(s);
        let rest = s.remove(i);
        let t = sort_by_size(rest);
        lemma_sort_by_size_sorted(rest);
        lemma_sort_by_size_permutation(rest);
        let r = sort_by_size(s);
        assert(r == seq![s[i]] + t);
        assert forall|a: int, b: int| 0 <= a < b < r.len() implies #[trigger] r[a].size_key()
            >= #[trigger] r[b].size_key() by {
            assert(r[b] == t[b - 1]);
            if a > 0 {
                assert(r[a] == t[a - 1]);
            } else {
                assert(t.contains(t[b - 1]));
                assert(t.to_multiset().count(t[b - 1]) > 0);
                assert(rest.contains(t[b - 1]));
                let w = choose|w: int| 0 <= w < rest.len() && rest[w] == t[b - 1];
                if w < i {
                    assert(rest[w] == s[w]);
                } else {
                    assert(rest[w] == s[w + 1]);
                }
            }
        }
    }
}

/// Index of the first entry with the largest size.
fn first_max<T: SizeKey>(v: &Vec<T>) -> (i: usize)
    requires
        v.len() > 0,
    ensures
        i as int == first_max_index(v@),
        i < v.len(),
{
    let mut best: usize = 0;
    let mut best_size = v[0].size_of();
    let mut j: usize = 1;
    assert(v@.take(1).len() == 1);
    while j < v.len()
        invariant
            1 <= j <= v.len(),
            best < j,
            best as int == first_max_index(v@.take(j as int)),
            best_size as int == v@[best as int].size_key(),
        decreases v.len() - j,
    {
        assert(v@.take(j + 1).drop_last() =~= v@.take(j as int));
        assert(v@.take(j + 1)[best as int] == v@[best as int]);
        let s = v[j].size_of();
        if s > best_size {
            best = j;
            best_size = s;
        }
        j = j + 1;
    }
    assert(v@.take(v.len() as int) =~= v@);
    best
}

/// `v` ordered largest size first, entries of equal size in their order.
pub fn sort_by_size_desc<T: SizeKey>(v: Vec<T>) -> (r: Vec<T>)
    ensures
        r@ == sort_by_size(v@),
{
    let ghost orig = v@;
    let mut rest = v;
    let mut out: Vec<T> = Vec::new();
    assert(out@ + sort_by_size(rest@) =~= sort_by_size(orig));
    while rest.len() > 0
        invariant
            sort_by_size(orig) == out@ + sort_by_size(rest@),
        decreases rest.len(),
    {
        let i = first_max(&rest);
        let ghost before = rest@;
        let x = rest.remove(i);
        assert(sort_by_size(before) == seq![x] + sort_by_size(rest@));
        out.push(x);
        assert(out@ + sort_by_size(rest@) =~= sort_by_size(orig));
    }
    assert(sort_by_size(rest@) =~= Seq::<T>::empty());
    assert(out@ =~= sort_by_size(orig));
    out
}


/// Ordering by size commutes with a map that keeps sizes.
pub proof fn lemma_sort_by_size_map<A: SpecSize, B: SpecSize>(s: Seq<A>, f: spec_fn(A) -> B)
    requires
        forall|x: A| #[trigger] f(x).size_key() == x.size_key(),
    ensures
        sort_by_size(s).map_values(f) == sort_by_size(s.map_values(f)),
    decreases s.len(),
{
    let t = s.map_values(f);
    if s.len() > 0 {
        lemma_first_max_index_map(s, f);
        let i = first_max_index(s);
        lemma_first_max_index(s);
        assert(s.remove(i).map_values(f) =~= t.remove(i));
        lemma_sort_by_size_map(s.remove(i), f);
        assert(sort_by_size(s).map_values(f) =~= seq![f(s[i])] + sort_by_size(s.remove(i)).map_values(f));
    } else {
        assert(sort_by_size(s).map_values(f) =~= sort_by_size(t));
    }
}

pub proof fn lemma_first_max_index_map<A: SpecSize, B: SpecSize>(s: Seq<A>, f: spec_fn(A) -> B)
    requires
        forall|x: A| #[trigger] f(x).size_key() == x.size_key(),
    ensures
        first_max_index(s) == first_max_index(s.map_values(f)),
    decreases s.len(),
{
    if s.len() > 1 {
        lemma_first_max_index_map(s.drop_last(), f);
        assert(s.drop_last().map_values(f) =~= s.map_values(f).drop_last());
        lemma_first_max_index(s.drop_last());
    }
}

} // verus!
