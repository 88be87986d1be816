//! The order in which migrations run: by name, as strings compare.

use vstd::prelude::*;
use vstd::relations::{sorted_by, total_ordering};
use vstd::seq_lib::{lemma_sorted_unique, to_multiset_build, to_multiset_remove};
use vstd::utf8::{encode_utf8, encode_utf8_decode_utf8};

verus! {

/// Whether `a` comes before `b` byte by byte: at the first place where
/// they differ `a` has the smaller byte, or `a` ends there and `b` goes on.
pub open spec fn bytes_lt(a: Seq<u8>, b: Seq<u8>) -> bool
    decreases a.len(),
{
    if b.len() == 0 {
        false
    } else if a.len() == 0 {
        true
    } else if a[0] != b[0] {
        a[0] < b[0]
    } else {
        bytes_lt(a.drop_first(), b.drop_first())
    }
}

/// Whether the name `a` comes before the name `b`: the order of strings,
/// which is that of their UTF-8 bytes.
pub open spec fn name_lt(a: Seq<char>, b: Seq<char>) -> bool {
    bytes_lt(encode_utf8(a), encode_utf8(b))
}

/// Whether unit `i` runs before unit `j`: by name, and among units of one
/// name the one that was handed in first.
pub open spec fn runs_before(names: Seq<Seq<char>>, i: int, j: int) -> bool {
    name_lt(names[i], names[j]) || (!name_lt(names[j], names[i]) && i < j)
}

/// Whether `order` lists every index of `names` once, each before all
/// that run after it.
pub open spec fn is_run_order(names: Seq<Seq<char>>, order: Seq<usize>) -> bool {
    &&& order.len() == names.len()
    &&& forall|a: int| 0 <= a < order.len() ==> 0 <= #[trigger] order[a] < names.len()
    &&& forall|v: usize| v < names.len() ==> #[trigger] order.contains(v)
    &&& forall|a: int, b: int|
        0 <= a < b < order.len() ==> runs_before(names, #[trigger] order[a] as int, #[trigger] order[b] as int)
}

/// No byte string comes before itself.
pub proof fn lemma_bytes_lt_irreflexive(a: Seq<u8>)
    ensures
        !bytes_lt(a, a),
    decreases a.len(),
{
    if a.len() > 0 {
        lemma_bytes_lt_irreflexive(a.drop_first());
    }
}

/// Of two byte strings one comes before the other, or they are the same.
pub proof fn lemma_bytes_lt_total(a: Seq<u8>, b: Seq<u8>)
    ensures
        bytes_lt(a, b) || bytes_lt(b, a) || a == b,
    decreases a.len(),
{
    if a.len() == 0 || b.len() == 0 {
        if a.len() == 0 && b.len() == 0 {
            assert(a =~= b);
        }
    } else if a[0] == b[0] {
        lemma_bytes_lt_total(a.drop_first(), b.drop_first());
        if a.drop_first() == b.drop_first() {
            assert(a =~= seq![a[0]] + a.drop_first());
            assert(b =~= seq![b[0]] + b.drop_first());
        }
    }
}

/// What comes before something that comes before a third comes before
/// the third.
pub proof fn lemma_bytes_lt_transitive(a: Seq<u8>, b: Seq<u8>, c: Seq<u8>)
    requires
        bytes_lt(a, b),
        bytes_lt(b, c),
    ensures
        bytes_lt(a, c),
    decreases a.len(),
{
    if a.len() > 0 && a[0] == b[0] && b[0] == c[0] {
        lemma_bytes_lt_transitive(a.drop_first(), b.drop_first(), c.drop_first());
    }
}

/// No unit runs before itself.
pub proof fn lemma_runs_before_irreflexive(names: Seq<Seq<char>>, i: int)
    ensures
        !runs_before(names, i, i),
{
    lemma_bytes_lt_irreflexive(encode_utf8(names[i]));
}

/// Running before is transitive.
pub proof fn lemma_runs_before_transitive(names: Seq<Seq<char>>, i: int, j: int, k: int)
    requires
        runs_before(names, i, j),
        runs_before(names, j, k),
    ensures
        runs_before(names, i, k),
{
    let a = encode_utf8(names[i]);
    let b = encode_utf8(names[j]);
    let c = encode_utf8(names[k]);
    lemma_bytes_lt_total(a, b);
    lemma_bytes_lt_total(b, c);
    lemma_bytes_lt_irreflexive(a);
    lemma_bytes_lt_irreflexive(b);
    lemma_bytes_lt_irreflexive(c);
    if bytes_lt(a, b) && bytes_lt(b, c) {
        lemma_bytes_lt_transitive(a, b, c);
    }
    if bytes_lt(c, a) && bytes_lt(a, b) {
        lemma_bytes_lt_transitive(c, a, b);
    }
    if bytes_lt(b, c) && bytes_lt(c, a) {
        lemma_bytes_lt_transitive(b, c, a);
    }
}

/// A unit that runs before another does not have the greater name.
pub proof fn lemma_runs_before_ascends(names: Seq<Seq<char>>, i: int, j: int)
    requires
        runs_before(names, i, j),
    ensures
        !name_lt(names[j], names[i]),
{
    let x = encode_utf8(names[i]);
    let y = encode_utf8(names[j]);
    if bytes_lt(x, y) && bytes_lt(y, x) {
        lemma_bytes_lt_transitive(x, y, x);
        lemma_bytes_lt_irreflexive(x);
    }
}

/// In a run order the names never go down.
pub proof fn lemma_names_ascend(names: Seq<Seq<char>>, order: Seq<usize>, a: int, b: int)
    requires
        is_run_order(names, order),
        0 <= a < b < order.len(),
    ensures
        !name_lt(names[order[b] as int], names[order[a] as int]),
{
    lemma_runs_before_ascends(names, order[a] as int, order[b] as int);
}

/// There is only one run order: the order of a run does not depend on
/// anything but the names and, among equal names, on who came first.
pub proof fn lemma_run_order_unique(names: Seq<Seq<char>>, first: Seq<usize>, second: Seq<usize>)
    requires
        is_run_order(names, first),
        is_run_order(names, second),
    ensures
        first == second,
{
    assert forall|k: int| 0 <= k < first.len() implies first[k] == second[k] by {
        lemma_prefixes_agree(names, first, second, k + 1);
        assert(first.take(k + 1)[k] == second.take(k + 1)[k]);
    }
    assert(first =~= second);
}

/// Two run orders agree on their first `k` places.
proof fn lemma_prefixes_agree(names: Seq<Seq<char>>, first: Seq<usize>, second: Seq<usize>, k: int)
    requires
        is_run_order(names, first),
        is_run_order(names, second),
        0 <= k <= names.len(),
    ensures
        first.take(k) == second.take(k),
    decreases k,
{
    if k == 0 {
        assert(first.take(0) =~= second.take(0));
    } else {
        lemma_prefixes_agree(names, first, second, k - 1);
        let v = first[k - 1] as int;
        let w = second[k - 1] as int;
        assert forall|a: int| 0 <= a < k - 1 implies first[a] == second[a] by {
            assert(first.take(k - 1)[a] == second.take(k - 1)[a]);
        }
        if v != w {
            assert(second.contains(first[k - 1]));
            assert(first.contains(second[k - 1]));
            let b = choose|b: int| 0 <= b < second.len() && second[b] == first[k - 1];
            let c = choose|c: int| 0 <= c < first.len() && first[c] == second[k - 1];
            lemma_runs_before_irreflexive(names, v);
            lemma_runs_before_irreflexive(names, w);
            if b < k - 1 {
                assert(runs_before(names, first[b] as int, first[k - 1] as int));
            }
            if c < k - 1 {
                assert(runs_before(names, second[c] as int, second[k - 1] as int));
            }
            assert(runs_before(names, second[k - 1] as int, second[b] as int));
            assert(runs_before(names, first[k - 1] as int, first[c] as int));
            lemma_runs_before_transitive(names, v, w, v);
        }
        assert(first.take(k) =~= second.take(k));
    }
}

/// The names of the units in the order in which they run.
pub open spec fn names_in_order(names: Seq<Seq<char>>, order: Seq<usize>) -> Seq<Seq<char>> {
    Seq::new(order.len(), |a: int| names[order[a] as int])
}

/// Whether the name `a` does not come after the name `b`.
pub open spec fn name_le(a: Seq<char>, b: Seq<char>) -> bool {
    !name_lt(b, a)
}

/// Names are in a total order.
proof fn lemma_names_totally_ordered()
    ensures
        total_ordering(|a: Seq<char>, b: Seq<char>| name_le(a, b)),
{
    let le = |a: Seq<char>, b: Seq<char>| name_le(a, b);
    assert forall|x: Seq<char>| #[trigger] le(x, x) by {
        lemma_bytes_lt_irreflexive(encode_utf8(x));
    }
    assert forall|x: Seq<char>, y: Seq<char>| #[trigger] le(x, y) && #[trigger] le(y, x) implies x
        == y by {
        lemma_bytes_lt_total(encode_utf8(x), encode_utf8(y));
        encode_utf8_decode_utf8(x);
        encode_utf8_decode_utf8(y);
    }
    assert forall|x: Seq<char>, y: Seq<char>, z: Seq<char>| #[trigger] le(x, y) && #[trigger] le(
        y,
        z,
    ) implies le(x, z) by {
        let a = encode_utf8(x);
        let b = encode_utf8(y);
        let c = encode_utf8(z);
        lemma_bytes_lt_total(a, b);
        if bytes_lt(c, a) && bytes_lt(a, b) {
            lemma_bytes_lt_transitive(c, a, b);
        }
    }
    assert forall|x: Seq<char>, y: Seq<char>| #[trigger] le(x, y) || #[trigger] le(y, x) by {
        let a = encode_utf8(x);
        let b = encode_utf8(y);
        if bytes_lt(a, b) && bytes_lt(b, a) {
            lemma_bytes_lt_transitive(a, b, a);
            lemma_bytes_lt_irreflexive(a);
        }
    }
}

/// Whether `places` holds `n` different numbers below `n`.
spec fn is_shuffle(places: Seq<int>, n: int) -> bool {
    &&& places.len() == n
    &&& forall|a: int| 0 <= a < places.len() ==> 0 <= #[trigger] places[a] < n
    &&& forall|a: int, b: int| 0 <= a < b < places.len() ==> #[trigger] places[a] != #[trigger] places[b]
}

/// The items at the given places, in the order of the places.
spec fn picked<A>(items: Seq<A>, places: Seq<int>) -> Seq<A> {
    Seq::new(places.len(), |a: int| items[places[a]])
}

/// Items picked in a shuffled order are the same items.
proof fn lemma_picked_are_all<A>(items: Seq<A>, places: Seq<int>)
    requires
        is_shuffle(places, items.len() as int),
    ensures
        picked(items, places).to_multiset() == items.to_multiset(),
    decreases items.len(),
{
    if items.len() == 0 {
        assert(picked(items, places) =~= items);
    } else {
        let n = items.len() as int;
        let last = places[n - 1];
        let fewer = items.remove(last);
        let rest = Seq::new((n - 1) as nat, |a: int| if places[a] < last { places[a] } else { places[a] - 1 });
        assert forall|a: int, b: int| 0 <= a < b < rest.len() implies #[trigger] rest[a] != #[trigger] rest[b] by {
            assert(places[a] != places[b]);
            assert(places[a] != places[n - 1]);
            assert(places[b] != places[n - 1]);
        }
        assert forall|a: int| 0 <= a < rest.len() implies 0 <= #[trigger] rest[a] < n - 1 by {
            assert(places[a] != places[n - 1]);
        }
        lemma_picked_are_all(fewer, rest);
        assert forall|a: int| 0 <= a < n - 1 implies picked(fewer, rest)[a] == picked(items, places)[a] by {
            assert(places[a] != places[n - 1]);
        }
        assert(picked(items, places) =~= picked(fewer, rest).push(items[last]));
        to_multiset_build(picked(fewer, rest), items[last]);
        to_multiset_remove(items, last);
        items.to_multiset_ensures();
        assert(items.to_multiset().count(items[last]) > 0);
        assert(items.to_multiset().remove(items[last]).insert(items[last]) =~= items.to_multiset());
    }
}

/// The names in run order are the names that were handed in.
proof fn lemma_order_keeps_names(names: Seq<Seq<char>>, order: Seq<usize>)
    requires
        is_run_order(names, order),
    ensures
        names_in_order(names, order).to_multiset() == names.to_multiset(),
        sorted_by(names_in_order(names, order), |a: Seq<char>, b: Seq<char>| name_le(a, b)),
{
    let places = Seq::new(order.len(), |a: int| order[a] as int);
    assert forall|a: int, b: int| 0 <= a < b < places.len() implies #[trigger] places[a] != #[trigger] places[b] by {
        assert(runs_before(names, order[a] as int, order[b] as int));
        lemma_runs_before_irreflexive(names, order[a] as int);
    }
    lemma_picked_are_all(names, places);
    assert(picked(names, places) =~= names_in_order(names, order));
    let sorted = names_in_order(names, order);
    let le = |a: Seq<char>, b: Seq<char>| name_le(a, b);
    assert forall|i: int, j: int| 0 <= i < j < sorted.len() implies #[trigger] le(sorted[i], sorted[j]) by {
        lemma_names_ascend(names, order, i, j);
    }
}

/// Units run in the order of their names, however they were handed in.
///
/// Two lists that hold the same names, each as often as the other, give
/// the same names in run order.
pub proof fn lemma_order_forgets_handing_in(
    first: Seq<Seq<char>>,
    first_order: Seq<usize>,
    second: Seq<Seq<char>>,
    second_order: Seq<usize>,
)
    requires
        is_run_order(first, first_order),
        is_run_order(second, second_order),
        first.to_multiset() == second.to_multiset(),
    ensures
        names_in_order(first, first_order) == names_in_order(second, second_order),
{
    lemma_names_totally_ordered();
    lemma_order_keeps_names(first, first_order);
    lemma_order_keeps_names(second, second_order);
    lemma_sorted_unique(
        names_in_order(first, first_order),
        names_in_order(second, second_order),
        |a: Seq<char>, b: Seq<char>| name_le(a, b),
    );
}

/// Whether the string `a` comes before the string `b`.
pub fn name_less(a: &str, b: &str) -> (r: bool)
    ensures
        r == name_lt(a@, b@),
{
    let x = a.as_bytes();
    let y = b.as_bytes();
    let mut i: usize = 0;
    proof {
        assert(x@.skip(0) =~= x@);
        assert(y@.skip(0) =~= y@);
    }
    while i < x.len() && i < y.len()
        invariant
            i <= x@.len(),
            i <= y@.len(),
            x@ == encode_utf8(a@),
            y@ == encode_utf8(b@),
            bytes_lt(x@, y@) == bytes_lt(x@.skip(i as int), y@.skip(i as int)),
        decreases x@.len() - i,
    {
        proof {
            assert(x@.skip(i as int).drop_first() =~= x@.skip(i + 1));
            assert(y@.skip(i as int).drop_first() =~= y@.skip(i + 1));
        }
        if x[i] != y[i] {
            return x[i] < y[i];
        }
        i += 1;
    }
    x.len() < y.len()
}

/// The order in which the units of the given names run: the one order
/// for which [`is_run_order`] holds.
pub fn sort_order(names: &Vec<String>) -> (order: Vec<usize>)
    ensures
        is_run_order(names.deep_view(), order@),
{
    let ghost all = names.deep_view();
    let mut order: Vec<usize> = Vec::new();
    let mut i: usize = 0;
    while i < names.len()
        invariant
            i <= names.len(),
            all == names.deep_view(),
            all.len() == names.len(),
            order.len() == i,
            forall|a: int| 0 <= a < order.len() ==> 0 <= #[trigger] order[a] < i,
            forall|v: usize| v < i ==> #[trigger] order@.contains(v),
            forall|a: int, b: int|
                0 <= a < b < order.len() ==> runs_before(all, #[trigger] order[a] as int, #[trigger] order[b] as int),
        decreases names.len() - i,
    {
        let mut p: usize = i;
        while p > 0 && name_less(names[i].as_str(), names[order[p - 1]].as_str())
            invariant
                p <= i,
                i < names.len(),
                all == names.deep_view(),
                all.len() == names.len(),
                order.len() == i,
                forall|a: int| 0 <= a < order.len() ==> 0 <= #[trigger] order[a] < i,
                forall|a: int| p <= a < order.len() ==> name_lt(all[i as int], all[#[trigger] order[a] as int]),
            decreases p,
        {
            proof {
                assert(names[order[p - 1] as int]@ == all[order[p - 1] as int]);
                assert(names[i as int]@ == all[i as int]);
            }
            p -= 1;
        }
        let ghost before = order@;
        order.insert(p, i);
        proof {
            assert(names[i as int]@ == all[i as int]);
            let after = order@;
            assert forall|v: usize| v < i + 1 implies #[trigger] after.contains(v) by {
                if v < i {
                    assert(before.contains(v));
                    let a = choose|a: int| 0 <= a < before.len() && before[a] == v;
                    if a < p {
                        assert(after[a] == v);
                    } else {
                        assert(after[a + 1] == v);
                    }
                } else {
                    assert(after[p as int] == v);
                }
            }
            assert forall|a: int, b: int| 0 <= a < b < after.len() implies runs_before(
                all,
                #[trigger] after[a] as int,
                #[trigger] after[b] as int,
            ) by {
                if b < p {
                    assert(after[a] == before[a] && after[b] == before[b]);
                } else if b == p {
                    // `after[a]` is old and left of the new unit
                    assert(after[a] == before[a]);
                    if p > 0 {
                        assert(names[order[p - 1] as int]@ == all[before[p - 1] as int]);
                        assert(!name_lt(all[i as int], all[before[p - 1] as int]));
                        assert(runs_before(all, before[p - 1] as int, i as int));
                        if a < p - 1 {
                            assert(runs_before(all, before[a] as int, before[p - 1] as int));
                            lemma_runs_before_transitive(
                                all,
                                before[a] as int,
                                before[p - 1] as int,
                                i as int,
                            );
                        }
                    }
                } else if a == p {
                    assert(after[b] == before[b - 1]);
                } else if a < p {
                    assert(after[a] == before[a] && after[b] == before[b - 1]);
                } else {
                    assert(after[a] == before[a - 1] && after[b] == before[b - 1]);
                }
            }
        }
        i += 1;
    }
    order
}

} // verus!
