//! Entries ordered by a text key.

use crate::text::{comes_before, text_less};
use vstd::prelude::*;
use vstd::seq_lib::*;

verus! {

/// The entries with `e` put in behind every entry whose key does not come after its key.
pub open spec fn insert_by_key<V>(s: Seq<(Seq<char>, V)>, e: (Seq<char>, V)) -> Seq<
    (Seq<char>, V),
>
    decreases s.len(),
{
    if s.len() > 0 && text_less(e.0, s.last().0) {
        insert_by_key(s.drop_last(), e).push(s.last())
    } else {
        s.push(e)
    }
}

/// The entries in the order of their keys; entries with one key keep their order.
pub open spec fn sort_by_key<V>(s: Seq<(Seq<char>, V)>) -> Seq<(Seq<char>, V)>
    decreases s.len(),
{
    if s.len() == 0 {
        s
    } else {
        insert_by_key(sort_by_key(s.drop_last()), s.last())
    }
}

/// Whether no key comes before that of an earlier entry.
pub open spec fn keys_ascend<V>(s: Seq<(Seq<char>, V)>) -> bool {
    forall|i: int, j: int|
        0 <= i < j < s.len() ==> !text_less((#[trigger] s[j]).0, (#[trigger] s[i]).0)
}

/// No text comes before itself.
pub proof fn text_less_irreflexive(a: Seq<char>)
    ensures
        !text_less(a, a),
    decreases a.len(),
{
    if a.len() > 0 {
        text_less_irreflexive(a.drop_first());
    }
}

/// The order of texts is transitive.
pub proof fn text_less_transitive(a: Seq<char>, b: Seq<char>, c: Seq<char>)
    requires
        text_less(a, b),
        text_less(b, c),
    ensures
        text_less(a, c),
    decreases a.len(),
{
    if a.len() > 0 && a[0] == b[0] && b[0] == c[0] {
        text_less_transitive(a.drop_first(), b.drop_first(), c.drop_first());
    }
}

/// Of two different texts one comes before the other.
pub proof fn text_less_total(a: Seq<char>, b: Seq<char>)
    ensures
        a == b || text_less(a, b) || text_less(b, a),
    decreases a.len(),
{
    if a.len() > 0 && b.len() > 0 && a[0] == b[0] {
        text_less_total(a.drop_first(), b.drop_first());
        if a.drop_first() == b.drop_first() {
            assert(a =~= seq![a[0]] + a.drop_first());
            assert(b =~= seq![b[0]] + b.drop_first());
        }
    } else if a.len() == 0 && b.len() == 0 {
        assert(a =~= b);
    }
}

proof fn insert_keeps_order<V>(s: Seq<(Seq<char>, V)>, e: (Seq<char>, V))
    requires
        keys_ascend(s),
    ensures
        keys_ascend(insert_by_key(s, e)),
        insert_by_key(s, e).to_multiset() == s.to_multiset().insert(e),
    decreases s.len(),
{
    broadcast use group_to_multiset_ensures;

    if s.len() > 0 && text_less(e.0, s.last().0) {
        let below = s.drop_last();
        insert_keeps_order(below, e);
        let inner = insert_by_key(below, e);
        let r = inner.push(s.last());
        assert(s =~= below.push(s.last()));
        assert forall|i: int, j: int| 0 <= i < j < r.len() implies !text_less(
            (#[trigger] r[j]).0,
            (#[trigger] r[i]).0,
        ) by {
            if j == r.len() - 1 {
                assert(inner.to_multiset().count(r[i]) > 0);
                if text_less(s.last().0, r[i].0) {
                    if r[i] == e {
                        text_less_transitive(s.last().0, e.0, s.last().0);
                        text_less_irreflexive(s.last().0);
                    } else {
                        assert(below.to_multiset().count(r[i]) > 0);
                        assert(below.contains(r[i]));
                        let k = choose|k: int| 0 <= k < below.len() && below[k] == r[i];
                        assert(s[k] == r[i]);
                    }
                }
            }
        }
    } else {
        let r = s.push(e);
        assert forall|i: int, j: int| 0 <= i < j < r.len() implies !text_less(
            (#[trigger] r[j]).0,
            (#[trigger] r[i]).0,
        ) by {
            if j == s.len() {
                if text_less(e.0, s[i].0) {
                    text_less_total(s[i].0, s.last().0);
                    if i < s.len() - 1 {
                        assert(!text_less(s.last().0, s[i].0));
                        if s[i].0 != s.last().0 {
                            text_less_transitive(e.0, s[i].0, s.last().0);
                        }
                    }
                }
            }
        }
    }
}

/// Sorting puts the same entries into ascending order of their keys.
pub proof fn sort_by_key_sorts<V>(s: Seq<(Seq<char>, V)>)
    ensures
        keys_ascend(sort_by_key(s)),
        sort_by_key(s).to_multiset() == s.to_multiset(),
        sort_by_key(s).len() == s.len(),
    decreases s.len(),
{
    broadcast use group_to_multiset_ensures;

    if s.len() > 0 {
        sort_by_key_sorts(s.drop_last());
        insert_keeps_order(sort_by_key(s.drop_last()), s.last());
        assert(s =~= s.drop_last().push(s.last()));
        s.to_multiset_ensures();
        sort_by_key(s).to_multiset_ensures();
    }
}

/// [`sort_by_key`]: the entries in the order of their keys.
pub fn sorted_by_key<T: DeepView>(entries: Vec<(String, T)>) -> (r: Vec<(String, T)>)
    ensures
        r.deep_view() == sort_by_key(entries.deep_view()),
{
    let ghost all = entries.deep_view();
    let ghost given = entries@;
    let mut out: Vec<(String, T)> = Vec::new();
    assert(out.deep_view() =~= sort_by_key(all.take(0)));
    for entry in it: entries.into_iter()
        invariant
            it.seq() == given,
            all.len() == given.len(),
            forall|j: int| 0 <= j < given.len() ==> #[trigger] all[j] == given[j].deep_view(),
            out.deep_view() == sort_by_key(all.take(it.index() as int)),
    {
        let ghost e = entry.deep_view();
        let ghost before = out.deep_view();
        proof {
            let k = it.index() as int;
            assert(all.take(k + 1).drop_last() =~= all.take(k));
            assert(all.take(k + 1).last() == e);
        }
        let mut at: usize = out.len();
        assert(before.take(at as int) =~= before);
        assert(before.skip(at as int) =~= Seq::empty());
        assert(insert_by_key(before.take(at as int), e) + before.skip(at as int)
            =~= insert_by_key(before, e));
        while at > 0 && comes_before(entry.0.as_str(), out[at - 1].0.as_str())
            invariant
                at <= out@.len(),
                e == entry.deep_view(),
                before == out.deep_view(),
                insert_by_key(before, e) == insert_by_key(before.take(at as int), e)
                    + before.skip(at as int),
            decreases at,
        {
            proof {
                let here = before.take(at as int);
                assert(here.last() == out@[at - 1].deep_view());
                assert(here.drop_last() =~= before.take(at - 1));
                assert(insert_by_key(here, e) + before.skip(at as int)
                    =~= insert_by_key(before.take(at - 1), e) + before.skip(at - 1));
            }
            at = at - 1;
        }
        proof {
            let here = before.take(at as int);
            if at > 0 {
                assert(here.last() == out@[at - 1].deep_view());
            }
            assert(insert_by_key(here, e) == here.push(e));
        }
        out.insert(at, entry);
        assert(out.deep_view() =~= before.take(at as int).push(e) + before.skip(at as int));
    }
    assert(all.take(all.len() as int) =~= all);
    out
}

/// Texts are ordered by their first difference: a text comes before every longer one that begins
/// with it, and of two texts that differ the one with the smaller character at the first
/// difference comes first.
pub proof fn the_first_difference_decides(
    common: Seq<char>,
    low: char,
    high: char,
    a: Seq<char>,
    b: Seq<char>,
)
    requires
        low < high,
    ensures
        text_less(common, common + seq![low] + a),
        text_less(common + seq![low] + a, common + seq![high] + b),
        !text_less(common + seq![high] + b, common + seq![low] + a),
    decreases common.len(),
{
    let one = common + seq![low] + a;
    let two = common + seq![high] + b;
    if common.len() == 0 {
        assert(one[0] == low && two[0] == high);
    } else {
        let rest = common.drop_first();
        assert(one[0] == common[0] && two[0] == common[0]);
        assert(one.drop_first() =~= rest + seq![low] + a);
        assert(two.drop_first() =~= rest + seq![high] + b);
        the_first_difference_decides(rest, low, high, a, b);
    }
}

} // verus!
