//! The order in which the capabilities of a container are listed, so that one
//! declaration is always written out alike.

use crate::schema::{capabilities, CapabilityIteration};
use vstd::prelude::*;
use vstd::string::StrSliceExecFns;

verus! {

/// Whether text `a` comes before text `b`: at the first place where the two
/// differ `a` has the lower character, or `a` ends there and `b` goes on.
pub open spec fn precedes(a: Seq<char>, b: Seq<char>) -> bool
    decreases a.len(),
{
    if b.len() == 0 {
        false
    } else if a.len() == 0 {
        true
    } else if a[0] != b[0] {
        (a[0] as int) < (b[0] as int)
    } else {
        precedes(a.drop_first(), b.drop_first())
    }
}

/// Of two texts at most one comes before the other.
pub proof fn lemma_precedes_asymmetric(a: Seq<char>, b: Seq<char>)
    requires
        precedes(a, b),
    ensures
        !precedes(b, a),
    decreases a.len(),
{
    if a.len() > 0 && b.len() > 0 && a[0] == b[0] {
        lemma_precedes_asymmetric(a.drop_first(), b.drop_first());
    }
}

/// What comes before a text comes before what the text comes before.
pub proof fn lemma_precedes_transitive(a: Seq<char>, b: Seq<char>, c: Seq<char>)
    requires
        precedes(a, b),
        precedes(b, c),
    ensures
        precedes(a, c),
    decreases a.len(),
{
    if a.len() > 0 && b.len() > 0 && c.len() > 0 && a[0] == b[0] && b[0] == c[0] {
        lemma_precedes_transitive(a.drop_first(), b.drop_first(), c.drop_first());
    }
}

/// Tells whether text `a` comes before text `b`.
pub fn comes_before(a: &str, b: &str) -> (r: bool)
    ensures
        r == precedes(a@, b@),
{
    let la = a.unicode_len();
    let lb = b.unicode_len();
    let mut i: usize = 0;
    assert(a@.skip(0) =~= a@ && b@.skip(0) =~= b@);
    while i < la && i < lb
        invariant
            i <= la,
            i <= lb,
            la == a@.len(),
            lb == b@.len(),
            precedes(a@, b@) == precedes(a@.skip(i as int), b@.skip(i as int)),
        decreases la - i,
    {
        let ca = a.get_char(i);
        let cb = b.get_char(i);
        proof {
            assert(a@.skip(i as int)[0] == ca);
            assert(b@.skip(i as int)[0] == cb);
            assert(a@.skip(i as int).drop_first() =~= a@.skip(i + 1));
            assert(b@.skip(i as int).drop_first() =~= b@.skip(i + 1));
        }
        if ca != cb {
            return (ca as u32) < (cb as u32);
        }
        i = i + 1;
    }
    i < lb
}

/// Whether the capabilities are listed in order: none comes before one that
/// is listed before it.
pub open spec fn in_order(iterations: Seq<CapabilityIteration>) -> bool {
    forall|i: int, j: int|
        0 <= i < j < iterations.len() ==> !precedes(
            (#[trigger] iterations[j]).capability@,
            (#[trigger] iterations[i]).capability@,
        )
}

/// Putting a value into a sequence adds it to what the sequence holds.
proof fn lemma_insert_holds<A>(s: Seq<A>, i: int, a: A)
    requires
        0 <= i <= s.len(),
    ensures
        s.insert(i, a).to_multiset() == s.to_multiset().insert(a),
{
    broadcast use vstd::seq_lib::group_to_multiset_ensures;

    let t = s.insert(i, a);
    assert(t.remove(i) =~= s);
    assert(t[i] == a);
    assert(t.to_multiset().count(a) > 0) by {
        assert(t.contains(a));
    }
    assert(t.to_multiset() =~= t.to_multiset().remove(a).insert(a));
}

/// Of two different texts one comes before the other.
pub proof fn lemma_precedes_total(a: Seq<char>, b: Seq<char>)
    requires
        a != b,
    ensures
        precedes(a, b) || precedes(b, a),
    decreases a.len(),
{
    if a.len() > 0 && b.len() > 0 && a[0] == b[0] {
        if a.drop_first() == b.drop_first() {
            assert(a =~= seq![a[0]] + a.drop_first());
            assert(b =~= seq![b[0]] + b.drop_first());
        }
        lemma_precedes_total(a.drop_first(), b.drop_first());
    } else if a.len() > 0 && b.len() > 0 {
        assert((a[0] as int) != (b[0] as int));
    } else if a.len() == 0 {
        assert(b.len() > 0) by {
            if b.len() == 0 {
                assert(a =~= b);
            }
        }
    }
}

/// Listing in order leaves no choice: two lists in order that hold the same
/// capabilities, no two of them written alike, are the same list. So the same
/// capabilities, however they were listed first, are listed alike in order.
pub proof fn lemma_order_unique(a: Seq<CapabilityIteration>, b: Seq<CapabilityIteration>)
    requires
        a.to_multiset() == b.to_multiset(),
        in_order(a),
        in_order(b),
        capabilities(a).no_duplicates(),
    ensures
        a == b,
    decreases a.len(),
{
    broadcast use vstd::seq_lib::group_to_multiset_ensures;

    a.to_multiset_ensures();
    b.to_multiset_ensures();
    assert(a.len() == b.len());
    assert forall|i: int, j: int| 0 <= i < a.len() && 0 <= j < a.len() && i != j implies a[i] != a[j] by {
        assert(capabilities(a)[i] != capabilities(a)[j]);
    }
    a.lemma_multiset_has_no_duplicates();
    b.lemma_multiset_has_no_duplicates_conv();
    if a.len() > 0 {
        let x = a[0];
        let y = b[0];
        assert(a.contains(x));
        assert(b.contains(y));
        assert(b.to_multiset().count(x) > 0);
        assert(a.to_multiset().count(y) > 0);
        let k = choose|k: int| 0 <= k < b.len() && b[k] == x;
        let j = choose|j: int| 0 <= j < a.len() && a[j] == y;
        if k > 0 {
            assert(!precedes(b[k].capability@, b[0].capability@));
            if j > 0 {
                assert(!precedes(a[j].capability@, a[0].capability@));
                if x.capability@ != y.capability@ {
                    lemma_precedes_total(x.capability@, y.capability@);
                }
                assert(capabilities(a)[0] == capabilities(a)[j]);
            }
            assert(false);
        }
        assert(a.remove(0) =~= a.drop_first());
        assert(b.remove(0) =~= b.drop_first());
        assert(a.drop_first().to_multiset() =~= b.drop_first().to_multiset());
        assert forall|i: int, j: int| 0 <= i < j < a.drop_first().len() implies !precedes(
            (#[trigger] a.drop_first()[j]).capability@,
            (#[trigger] a.drop_first()[i]).capability@,
        ) by {
            assert(a.drop_first()[i] == a[i + 1] && a.drop_first()[j] == a[j + 1]);
        }
        assert forall|i: int, j: int| 0 <= i < j < b.drop_first().len() implies !precedes(
            (#[trigger] b.drop_first()[j]).capability@,
            (#[trigger] b.drop_first()[i]).capability@,
        ) by {
            assert(b.drop_first()[i] == b[i + 1] && b.drop_first()[j] == b[j + 1]);
        }
        assert forall|i: int, j: int|
            0 <= i < a.drop_first().len() && 0 <= j < a.drop_first().len() && i != j implies capabilities(
            a.drop_first(),
        )[i] != capabilities(a.drop_first())[j] by {
            assert(capabilities(a)[i + 1] != capabilities(a)[j + 1]);
        }
        lemma_order_unique(a.drop_first(), b.drop_first());
        assert(a =~= seq![a[0]] + a.drop_first());
        assert(b =~= seq![b[0]] + b.drop_first());
    } else {
        assert(a =~= b);
    }
}

/// Lists the capabilities in order: the same capabilities, none before one
/// that it comes before.
pub fn sort_capabilities(iterations: Vec<CapabilityIteration>) -> (sorted: Vec<CapabilityIteration>)
    ensures
        sorted@.to_multiset() == iterations@.to_multiset(),
        in_order(sorted@),
{
    broadcast use vstd::seq_lib::group_to_multiset_ensures;

    let ghost all = iterations@;
    let mut sorted: Vec<CapabilityIteration> = Vec::new();
    for item in it: iterations.into_iter()
        invariant
            it.seq() == all,
            sorted@.to_multiset() == all.take(it.index()).to_multiset(),
            in_order(sorted@),
    {
        let ghost before = sorted@;
        let mut p: usize = 0;
        while p < sorted.len() && !comes_before(item.capability.as_str(), sorted[p].capability.as_str())
            invariant
                p <= sorted.len(),
                sorted@ == before,
                forall|k: int| 0 <= k < p ==> !precedes(item.capability@, (#[trigger] sorted@[k]).capability@),
            decreases sorted.len() - p,
        {
            p = p + 1;
        }
        proof {
            let after = before.insert(p as int, item);
            let seen = all.take(it.index());
            lemma_insert_holds(before, p as int, item);
            assert(item == all[it.index()]);
            assert(all.take(it.index() + 1) =~= seen.push(item));
            seen.to_multiset_ensures();
            assert(seen.push(item).to_multiset() =~= seen.to_multiset().insert(item));
            assert(after.to_multiset() =~= all.take(it.index() + 1).to_multiset());
            assert forall|i: int, j: int| 0 <= i < j < after.len() implies !precedes(
                (#[trigger] after[j]).capability@,
                (#[trigger] after[i]).capability@,
            ) by {
                if j < p {
                    assert(after[i] == before[i] && after[j] == before[j]);
                } else if j == p {
                    assert(after[i] == before[i]);
                } else if i < p {
                    assert(after[i] == before[i] && after[j] == before[j - 1]);
                } else if i == p {
                    assert(after[j] == before[j - 1]);
                    if precedes(before[j - 1].capability@, item.capability@) {
                        if j - 1 == p {
                            lemma_precedes_asymmetric(before[j - 1].capability@, item.capability@);
                        } else {
                            lemma_precedes_transitive(
                                before[j - 1].capability@,
                                item.capability@,
                                before[p as int].capability@,
                            );
                            assert(!precedes(before[j - 1].capability@, before[p as int].capability@));
                        }
                    }
                } else {
                    assert(after[i] == before[i - 1] && after[j] == before[j - 1]);
                }
            }
        }
        sorted.insert(p, item);
    }
    proof {
        assert(all.take(all.len() as int) =~= all);
    }
    sorted
}

} // verus!
