//! Stable ordering of a sequence by a rank that its items carry.
//!
//! The sorted form of a sequence is defined item by item: each item, in the
//! order in which it stood, is placed behind every item already placed that
//! does not rank above it. Items of equal rank therefore keep their order.

use vstd::prelude::*;

verus! {

/// A type whose values are ranked by a total preorder.
pub trait Ranked: Sized {
    /// Whether `self` may stand before `other` in rank order.
    spec fn ranks_le(self, other: Self) -> bool;

    /// Of any two values, one may stand before the other.
    proof fn ranks_total(a: Self, b: Self)
        ensures
            a.ranks_le(b) || b.ranks_le(a),
    ;

    /// Rank order composes.
    proof fn ranks_transitive(a: Self, b: Self, c: Self)
        requires
            a.ranks_le(b),
            b.ranks_le(c),
        ensures
            a.ranks_le(c),
    ;

    /// Decides `ranks_le` at run time.
    fn stands_before(&self, other: &Self) -> (r: bool)
        ensures
            r == self.ranks_le(*other),
    ;
}

/// Every item may stand before every item behind it.
pub open spec fn in_rank_order<T: Ranked>(s: Seq<T>) -> bool {
    forall|i: int, j: int| 0 <= i < j < s.len() ==> (#[trigger] s[i]).ranks_le(#[trigger] s[j])
}

/// The index at which `x` joins `s`: directly behind the last item of `s`
/// that may stand before `x`, or at the front if there is none.
pub open spec fn slot_for<T: Ranked>(s: Seq<T>, x: T) -> int
    decreases s.len(),
{
    if s.len() == 0 {
        0
    } else if s.last().ranks_le(x) {
        s.len() as int
    } else {
        slot_for(s.drop_last(), x)
    }
}

/// `s` with `x` placed at its slot.
pub open spec fn place<T: Ranked>(s: Seq<T>, x: T) -> Seq<T> {
    s.insert(slot_for(s, x), x)
}

/// The stable rank-ordered form of `s`.
pub open spec fn ranked<T: Ranked>(s: Seq<T>) -> Seq<T>
    decreases s.len(),
{
    if s.len() == 0 {
        Seq::empty()
    } else {
        place(ranked(s.drop_last()), s.last())
    }
}

/// The slot lies within the sequence, the item in front of it may stand
/// before `x`, and no item from the slot on may.
pub proof fn lemma_slot_for<T: Ranked>(s: Seq<T>, x: T)
    ensures
        0 <= slot_for(s, x) <= s.len(),
        slot_for(s, x) > 0 ==> s[slot_for(s, x) - 1].ranks_le(x),
        forall|i: int| slot_for(s, x) <= i < s.len() ==> !(#[trigger] s[i]).ranks_le(x),
    decreases s.len(),
{
    if s.len() > 0 && !s.last().ranks_le(x) {
        let front = s.drop_last();
        lemma_slot_for(front, x);
        assert forall|i: int| slot_for(s, x) <= i < s.len() implies !(#[trigger] s[i]).ranks_le(
            x,
        ) by {
            if i < front.len() {
                assert(s[i] == front[i]);
            }
        }
    }
}

/// The sorted form is as long as the sequence.
pub proof fn lemma_ranked_len<T: Ranked>(s: Seq<T>)
    ensures
        ranked(s).len() == s.len(),
    decreases s.len(),
{
    if s.len() > 0 {
        lemma_ranked_len(s.drop_last());
        lemma_slot_for(ranked(s.drop_last()), s.last());
    }
}

/// Placing an item into a rank-ordered sequence leaves it rank-ordered.
pub proof fn lemma_place_in_order<T: Ranked>(s: Seq<T>, x: T)
    requires
        in_rank_order(s),
    ensures
        in_rank_order(place(s, x)),
{
    let k = slot_for(s, x);
    let t = place(s, x);
    lemma_slot_for(s, x);
    assert forall|i: int, j: int| 0 <= i < j < t.len() implies (#[trigger] t[i]).ranks_le(
        #[trigger] t[j],
    ) by {
        if j < k {
            assert(t[i] == s[i] && t[j] == s[j]);
        } else if j == k {
            assert(t[i] == s[i]);
            if i < k - 1 {
                T::ranks_transitive(s[i], s[k - 1], x);
            }
        } else if i == k {
            assert(t[j] == s[j - 1]);
            T::ranks_total(x, s[j - 1]);
        } else if i < k {
            assert(t[i] == s[i] && t[j] == s[j - 1]);
        } else {
            assert(t[i] == s[i - 1] && t[j] == s[j - 1]);
        }
    }
}

/// The sorted form is rank-ordered.
pub proof fn lemma_ranked_in_order<T: Ranked>(s: Seq<T>)
    ensures
        in_rank_order(ranked(s)),
    decreases s.len(),
{
    if s.len() > 0 {
        lemma_ranked_in_order(s.drop_last());
        lemma_place_in_order(ranked(s.drop_last()), s.last());
    }
}

/// Inserting an item anywhere adds exactly that item.
pub proof fn lemma_insert_items<A>(s: Seq<A>, k: int, x: A)
    requires
        0 <= k <= s.len(),
    ensures
        s.insert(k, x).to_multiset() =~= s.to_multiset().insert(x),
{
    broadcast use vstd::seq_lib::group_to_multiset_ensures;

    let t = s.insert(k, x);
    assert(t[k] == x);
    assert(t.remove(k) =~= s);
    assert(t.contains(x));
    assert(t.remove(k).to_multiset() =~= t.to_multiset().remove(t[k]));
    assert(t.to_multiset().count(x) > 0);
}

/// Placing an item adds exactly that item.
pub proof fn lemma_place_items<T: Ranked>(s: Seq<T>, x: T)
    ensures
        place(s, x).to_multiset() =~= s.to_multiset().insert(x),
{
    lemma_slot_for(s, x);
    lemma_insert_items(s, slot_for(s, x), x);
}

/// The sorted form holds the same items, each as often as before.
pub proof fn lemma_ranked_items<T: Ranked>(s: Seq<T>)
    ensures
        ranked(s).to_multiset() =~= s.to_multiset(),
    decreases s.len(),
{
    broadcast use vstd::seq_lib::group_to_multiset_ensures;

    if s.len() > 0 {
        lemma_ranked_items(s.drop_last());
        lemma_place_items(ranked(s.drop_last()), s.last());
        assert(s.drop_last().push(s.last()) =~= s);
    } else {
        assert(ranked(s) =~= s);
    }
}

/// Whatever is read off each item, the sorted form shows the same
/// readings, each as often as before.
pub proof fn lemma_ranked_keeps_readings<T: Ranked, K>(s: Seq<T>, reading: spec_fn(T) -> K)
    ensures
        ranked(s).map_values(reading).to_multiset() =~= s.map_values(reading).to_multiset(),
    decreases s.len(),
{
    broadcast use vstd::seq_lib::group_to_multiset_ensures;

    if s.len() > 0 {
        let front = s.drop_last();
        let x = s.last();
        let sorted_front = ranked(front);
        let k = slot_for(sorted_front, x);
        lemma_ranked_keeps_readings(front, reading);
        lemma_slot_for(sorted_front, x);
        lemma_insert_items(sorted_front.map_values(reading), k, reading(x));
        assert(place(sorted_front, x).map_values(reading) =~= sorted_front.map_values(
            reading,
        ).insert(k, reading(x)));
        assert(s.map_values(reading) =~= front.map_values(reading).push(reading(x)));
    } else {
        assert(ranked(s).map_values(reading) =~= s.map_values(reading));
    }
}

/// A rank-ordered sequence is its own sorted form.
pub proof fn lemma_ranked_fixed<T: Ranked>(s: Seq<T>)
    requires
        in_rank_order(s),
    ensures
        ranked(s) =~= s,
    decreases s.len(),
{
    if s.len() > 0 {
        let front = s.drop_last();
        assert forall|i: int, j: int| 0 <= i < j < front.len() implies (#[trigger] front[i]).ranks_le(
            #[trigger] front[j],
        ) by {
            assert(front[i] == s[i] && front[j] == s[j]);
        }
        lemma_ranked_fixed(front);
        if front.len() > 0 {
            assert(front.last() == s[s.len() - 2]);
            assert(s[s.len() - 2].ranks_le(s[s.len() - 1]));
        }
        assert(slot_for(front, s.last()) == front.len());
    }
}

/// Sorting what is already sorted changes nothing.
pub proof fn lemma_ranked_idempotent<T: Ranked>(s: Seq<T>)
    ensures
        ranked(ranked(s)) =~= ranked(s),
{
    lemma_ranked_in_order(s);
    lemma_ranked_fixed(ranked(s));
}

/// Whether two items are of the same rank: each may stand before the other.
pub open spec fn same_rank<T: Ranked>(a: T, b: T) -> bool {
    a.ranks_le(b) && b.ranks_le(a)
}

/// The items of the same rank as `x`.
pub open spec fn rank_class<T: Ranked>(x: T) -> spec_fn(T) -> bool {
    |y: T| same_rank(y, x)
}

/// Filtering a sequence of which no item passes leaves nothing.
proof fn lemma_filter_none<A>(s: Seq<A>, p: spec_fn(A) -> bool)
    requires
        forall|i: int| 0 <= i < s.len() ==> !p(#[trigger] s[i]),
    ensures
        s.filter(p) =~= Seq::empty(),
    decreases s.len(),
{
    if s.len() == 0 {
        s.lemma_filter_len(p);
    } else {
        let front = s.drop_last();
        assert forall|i: int| 0 <= i < front.len() implies !p(#[trigger] front[i]) by {
            assert(front[i] == s[i]);
        }
        lemma_filter_none(front, p);
        front.lemma_filter_push(s.last(), p);
        assert(front.push(s.last()) =~= s);
    }
}

/// Sorting is stable: the items of one rank stand in the sorted form in
/// the order in which they stood before.
pub proof fn lemma_ranked_stable<T: Ranked>(s: Seq<T>, x: T)
    ensures
        ranked(s).filter(rank_class(x)) == s.filter(rank_class(x)),
    decreases s.len(),
{
    let p = rank_class(x);
    if s.len() == 0 {
        assert(ranked(s) =~= s);
    } else {
        let front = s.drop_last();
        let last = s.last();
        let sorted_front = ranked(front);
        let k = slot_for(sorted_front, last);
        let before = sorted_front.take(k);
        let behind = sorted_front.skip(k);
        lemma_ranked_stable(front, x);
        lemma_slot_for(sorted_front, last);
        assert(before + behind =~= sorted_front);
        assert(place(sorted_front, last) =~= before.push(last) + behind);
        Seq::filter_distributes_over_add(before, behind, p);
        Seq::filter_distributes_over_add(before.push(last), behind, p);
        before.lemma_filter_push(last, p);
        front.lemma_filter_push(last, p);
        assert(front.push(last) =~= s);
        if p(last) {
            assert forall|i: int| 0 <= i < behind.len() implies !p(#[trigger] behind[i]) by {
                assert(behind[i] == sorted_front[k + i]);
                if p(behind[i]) {
                    T::ranks_transitive(behind[i], x, last);
                }
            }
            lemma_filter_none(behind, p);
            assert(before.filter(p) + behind.filter(p) =~= before.filter(p));
            assert(before.filter(p).push(last) + behind.filter(p) =~= before.filter(p).push(last));
        }
    }
}

/// Places `x` into the rank-ordered vector `v`.
pub fn place_ranked<T: Ranked>(v: &mut Vec<T>, x: T)
    ensures
        final(v)@ == place(old(v)@, x),
{
    let mut k: usize = v.len();
    proof {
        assert(v@.take(k as int) =~= v@);
    }
    while k > 0 && !v[k - 1].stands_before(&x)
        invariant
            k <= v.len(),
            v@ == old(v)@,
            slot_for(v@, x) == slot_for(v@.take(k as int), x),
        decreases k,
    {
        proof {
            assert(v@.take(k as int).last() == v@[k - 1]);
            assert(v@.take(k as int).drop_last() =~= v@.take(k - 1));
        }
        k -= 1;
    }
    proof {
        if k > 0 {
            assert(v@.take(k as int).last() == v@[k - 1]);
        }
        assert(v@.take(k as int).len() == k);
    }
    v.insert(k, x);
}

/// Sorts `v` stably into rank order.
pub fn sort_ranked<T: Ranked>(v: Vec<T>) -> (r: Vec<T>)
    ensures
        r@ == ranked(v@),
        in_rank_order(r@),
        r@.to_multiset() == v@.to_multiset(),
{
    let ghost whole = v@;
    let mut rest = v;
    let mut out: Vec<T> = Vec::new();
    let mut done: usize = 0;
    let total: usize = rest.len();
    while done < total
        invariant
            total == whole.len(),
            done <= total,
            rest@ == whole.skip(done as int),
            out@ == ranked(whole.take(done as int)),
        decreases total - done,
    {
        let x = rest.remove(0);
        proof {
            assert(x == whole[done as int]);
            assert(whole.skip(done as int).remove(0) =~= whole.skip(done + 1));
            assert(whole.take(done + 1).drop_last() =~= whole.take(done as int));
            assert(whole.take(done + 1).last() == whole[done as int]);
        }
        place_ranked(&mut out, x);
        done += 1;
    }
    proof {
        assert(whole.take(total as int) =~= whole);
        lemma_ranked_in_order(whole);
        lemma_ranked_items(whole);
    }
    out
}

} // verus!
