//! Bindings: what a scenario binds each of its names to.
//!
//! A list of bindings denotes a map, in which a later pair overrides an
//! earlier one with the same key.

use crate::raw::pairs_view;
use vstd::prelude::*;

verus! {

pub type Bindings = Map<Seq<char>, Seq<char>>;

/// The map that a list of pairs denotes.
pub open spec fn pairs_map(pairs: Seq<(Seq<char>, Seq<char>)>) -> Bindings
    decreases pairs.len(),
{
    if pairs.len() == 0 {
        Map::empty()
    } else {
        pairs_map(pairs.drop_last()).insert(pairs.last().0, pairs.last().1)
    }
}

/// No key occurs twice.
pub open spec fn keys_distinct(pairs: Seq<(Seq<char>, Seq<char>)>) -> bool {
    forall|i: int, j: int|
        0 <= i < pairs.len() && 0 <= j < pairs.len() && i != j ==> (#[trigger] pairs[i]).0 != (
        #[trigger] pairs[j]).0
}

/// `key` occurs among the pairs.
pub open spec fn has_key(pairs: Seq<(Seq<char>, Seq<char>)>, key: Seq<char>) -> bool {
    exists|i: int| 0 <= i < pairs.len() && (#[trigger] pairs[i]).0 == key
}

/// The map of a list has exactly the keys of the list.
pub proof fn lemma_pairs_map_dom(pairs: Seq<(Seq<char>, Seq<char>)>)
    ensures
        forall|k: Seq<char>| #[trigger] pairs_map(pairs).contains_key(k) <==> has_key(pairs, k),
    decreases pairs.len(),
{
    if pairs.len() > 0 {
        let front = pairs.drop_last();
        lemma_pairs_map_dom(front);
        assert forall|k: Seq<char>| #[trigger]
            pairs_map(pairs).contains_key(k) <==> has_key(pairs, k) by {
            if has_key(pairs, k) {
                let i = choose|i: int| 0 <= i < pairs.len() && (#[trigger] pairs[i]).0 == k;
                if i < pairs.len() - 1 {
                    assert(front[i].0 == k);
                    assert(has_key(front, k));
                    assert(pairs_map(front).contains_key(k));
                } else {
                    assert(k == pairs.last().0);
                }
                assert(pairs_map(pairs).contains_key(k));
            }
            if pairs_map(pairs).contains_key(k) {
                if k == pairs.last().0 {
                    assert(pairs[pairs.len() - 1].0 == k);
                } else {
                    assert(pairs_map(front).contains_key(k));
                    assert(has_key(front, k));
                    let i = choose|i: int| 0 <= i < front.len() && (#[trigger] front[i]).0 == k;
                    assert(pairs[i].0 == k);
                }
            }
        }
    }
}

/// Where no key occurs twice, the map binds each key to the value beside it.
pub proof fn lemma_pairs_map_distinct(pairs: Seq<(Seq<char>, Seq<char>)>)
    requires
        keys_distinct(pairs),
    ensures
        forall|i: int|
            0 <= i < pairs.len() ==> pairs_map(pairs).contains_key((#[trigger] pairs[i]).0)
                && pairs_map(pairs)[pairs[i].0] == pairs[i].1,
    decreases pairs.len(),
{
    if pairs.len() > 0 {
        let front = pairs.drop_last();
        assert forall|i: int, j: int|
            0 <= i < front.len() && 0 <= j < front.len() && i != j implies (#[trigger] front[i]).0
            != (#[trigger] front[j]).0 by {
            assert(front[i] == pairs[i] && front[j] == pairs[j]);
        }
        lemma_pairs_map_distinct(front);
        assert forall|i: int| 0 <= i < pairs.len() implies pairs_map(pairs).contains_key(
            (#[trigger] pairs[i]).0,
        ) && pairs_map(pairs)[pairs[i].0] == pairs[i].1 by {
            if i < pairs.len() - 1 {
                assert(front[i] == pairs[i]);
                assert(pairs[i].0 != pairs[pairs.len() - 1].0);
            }
        }
    }
}

/// The map of two lists, one after the other, is the map of the first
/// overridden key by key by the map of the second.
pub proof fn law_later_bindings_override_earlier(
    a: Seq<(Seq<char>, Seq<char>)>,
    b: Seq<(Seq<char>, Seq<char>)>,
)
    ensures
        pairs_map(a + b) == pairs_map(a).union_prefer_right(pairs_map(b)),
    decreases b.len(),
{
    if b.len() == 0 {
        assert(a + b =~= a);
        assert(pairs_map(a).union_prefer_right(pairs_map(b)) =~= pairs_map(a));
    } else {
        law_later_bindings_override_earlier(a, b.drop_last());
        assert((a + b).drop_last() =~= a + b.drop_last());
        assert((a + b).last() == b.last());
        assert(pairs_map(a + b) =~= pairs_map(a).union_prefer_right(pairs_map(b)));
    }
}

/// The map binds a key to the value beside its last occurrence.
pub proof fn lemma_pairs_map_last(pairs: Seq<(Seq<char>, Seq<char>)>, key: Seq<char>, i: int)
    requires
        0 <= i < pairs.len(),
        pairs[i].0 == key,
        forall|j: int| i < j < pairs.len() ==> (#[trigger] pairs[j]).0 != key,
    ensures
        pairs_map(pairs).contains_key(key),
        pairs_map(pairs)[key] == pairs[i].1,
    decreases pairs.len(),
{
    if i < pairs.len() - 1 {
        let front = pairs.drop_last();
        assert(front[i] == pairs[i]);
        assert forall|j: int| i < j < front.len() implies (#[trigger] front[j]).0 != key by {
            assert(front[j] == pairs[j]);
        }
        lemma_pairs_map_last(front, key, i);
        assert(pairs[pairs.len() - 1].0 != key);
    }
}

/// Binds `key` to `value` in a list without repeated keys: in place where the
/// key is bound already, at the end where it is not.
fn bind(acc: &mut Vec<(String, String)>, key: &String, value: &String)
    requires
        keys_distinct(pairs_view(old(acc)@)),
    ensures
        keys_distinct(pairs_view(final(acc)@)),
        pairs_map(pairs_view(final(acc)@)) == pairs_map(pairs_view(old(acc)@)).insert(
            key@,
            value@,
        ),
{
    let ghost before = pairs_view(acc@);
    let mut i: usize = 0;
    while i < acc.len()
        invariant
            i <= acc.len(),
            acc@ == old(acc)@,
            before == pairs_view(old(acc)@),
            keys_distinct(before),
            forall|j: int| 0 <= j < i ==> (#[trigger] pairs_view(acc@)[j]).0 != key@,
        decreases acc.len() - i,
    {
        if acc[i].0 == *key {
            acc.set(i, (key.clone(), value.clone()));
            proof {
                let after = pairs_view(acc@);
                assert(after =~= before.update(i as int, (key@, value@)));
                assert forall|a: int, b: int|
                    0 <= a < after.len() && 0 <= b < after.len() && a != b implies (
                #[trigger] after[a]).0 != (#[trigger] after[b]).0 by {
                    assert(after[a].0 == before[a].0 && after[b].0 == before[b].0);
                }
                lemma_pairs_map_distinct(before);
                lemma_pairs_map_distinct(after);
                lemma_pairs_map_dom(before);
                lemma_pairs_map_dom(after);
                assert forall|k: Seq<char>| #[trigger]
                    pairs_map(after).contains_key(k) <==> pairs_map(before).insert(
                        key@,
                        value@,
                    ).contains_key(k) by {
                    if has_key(after, k) {
                        let a = choose|a: int| 0 <= a < after.len() && (#[trigger] after[a]).0 == k;
                        assert(before[a].0 == k);
                    }
                    if has_key(before, k) {
                        let a = choose|a: int|
                            0 <= a < before.len() && (#[trigger] before[a]).0 == k;
                        assert(after[a].0 == k);
                    }
                    if k == key@ {
                        assert(after[i as int].0 == k);
                    }
                }
                assert forall|k: Seq<char>| #[trigger]
                    pairs_map(after).contains_key(k) implies pairs_map(after)[k]
                    == pairs_map(before).insert(key@, value@)[k] by {
                    let a = choose|a: int| 0 <= a < after.len() && (#[trigger] after[a]).0 == k;
                    assert(pairs_map(after)[after[a].0] == after[a].1);
                    if a != i {
                        assert(before[a] == after[a]);
                        assert(pairs_map(before)[before[a].0] == before[a].1);
                        assert(after[a].0 != after[i as int].0);
                    }
                }
                assert(pairs_map(after) =~= pairs_map(before).insert(key@, value@));
            }
            return ;
        }
        i += 1;
    }
    acc.push((key.clone(), value.clone()));
    proof {
        let after = pairs_view(acc@);
        assert(after =~= before.push((key@, value@)));
        assert(after.drop_last() =~= before);
        assert forall|a: int, b: int|
            0 <= a < after.len() && 0 <= b < after.len() && a != b implies (#[trigger] after[a]).0
            != (#[trigger] after[b]).0 by {
            if a < before.len() {
                assert(after[a] == before[a]);
            }
            if b < before.len() {
                assert(after[b] == before[b]);
            }
        }
    }
}

/// Binds every pair of `pairs`, in order.
fn bind_all(acc: &mut Vec<(String, String)>, pairs: &Vec<(String, String)>)
    requires
        keys_distinct(pairs_view(old(acc)@)),
    ensures
        keys_distinct(pairs_view(final(acc)@)),
        pairs_map(pairs_view(final(acc)@)) == pairs_map(
            pairs_view(old(acc)@),
        ).union_prefer_right(pairs_map(pairs_view(pairs@))),
{
    let ghost base = pairs_map(pairs_view(acc@));
    let mut i: usize = 0;
    assert(pairs_view(pairs@).take(0) =~= Seq::empty());
    assert(base.union_prefer_right(Map::empty()) =~= base);
    while i < pairs.len()
        invariant
            i <= pairs.len(),
            keys_distinct(pairs_view(acc@)),
            pairs_map(pairs_view(acc@)) == base.union_prefer_right(
                pairs_map(pairs_view(pairs@).take(i as int)),
            ),
        decreases pairs.len() - i,
    {
        bind(acc, &pairs[i].0, &pairs[i].1);
        proof {
            let done = pairs_view(pairs@).take(i as int);
            let next = pairs_view(pairs@).take(i + 1);
            assert(next.drop_last() =~= done);
            assert(next.last() == (pairs@[i as int].0@, pairs@[i as int].1@));
            assert(pairs_map(pairs_view(acc@)) =~= base.union_prefer_right(pairs_map(next)));
        }
        i += 1;
    }
    assert(pairs_view(pairs@).take(i as int) =~= pairs_view(pairs@));
}

/// The bindings of a scenario: those it inherits, overridden key by key by its
/// own. The list returned repeats no key.
pub fn overlay(inherited: &Vec<(String, String)>, own: &Vec<(String, String)>) -> (r: Vec<
    (String, String),
>)
    ensures
        keys_distinct(pairs_view(r@)),
        pairs_map(pairs_view(r@)) == pairs_map(pairs_view(inherited@)).union_prefer_right(
            pairs_map(pairs_view(own@)),
        ),
{
    let mut acc: Vec<(String, String)> = Vec::new();
    assert(pairs_view(acc@) =~= Seq::empty());
    bind_all(&mut acc, inherited);
    assert(pairs_map(pairs_view(acc@)) =~= pairs_map(pairs_view(inherited@)));
    bind_all(&mut acc, own);
    acc
}

/// Looks a key up in a list of bindings: the value beside its last
/// occurrence, if it occurs.
pub fn lookup<'a>(bindings: &'a Vec<(String, String)>, key: &str) -> (r: Option<&'a String>)
    ensures
        r is Some <==> pairs_map(pairs_view(bindings@)).contains_key(key@),
        r matches Some(v) ==> v@ == pairs_map(pairs_view(bindings@))[key@],
{
    let wanted = key.to_owned();
    let mut i: usize = bindings.len();
    while i > 0
        invariant
            i <= bindings.len(),
            wanted@ == key@,
            forall|j: int|
                i <= j < bindings.len() ==> (#[trigger] pairs_view(bindings@)[j]).0 != key@,
        decreases i,
    {
        i -= 1;
        if bindings[i].0 == wanted {
            proof {
                assert(pairs_view(bindings@)[i as int] == (key@, bindings@[i as int].1@));
                lemma_pairs_map_last(pairs_view(bindings@), key@, i as int);
            }
            return Some(&bindings[i].1);
        }
    }
    proof {
        lemma_pairs_map_dom(pairs_view(bindings@));
    }
    None
}

} // verus!
