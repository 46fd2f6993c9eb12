//! Sets of texts held as strictly ascending sequences, so that a set has one
//! representation whatever the order in which its elements arrived.

use crate::text::{
    lemma_text_lt_asymmetric, lemma_text_lt_connected, lemma_text_lt_transitive, str_eq,
    text_less, text_lt,
};
use crate::views::{deep, lemma_deep_insert, lemma_deep_of_vec};
use vstd::prelude::*;

verus! {

/// Number of leading elements of `set` that come before `item`.
pub open spec fn text_rank(set: Seq<Seq<char>>, item: Seq<char>) -> nat
    decreases set.len(),
{
    if set.len() > 0 && text_lt(set[0], item) {
        1 + text_rank(set.drop_first(), item)
    } else {
        0
    }
}

/// `set` with `item` in its place, unless the element in that place is
/// `item` already.
pub open spec fn set_insert(set: Seq<Seq<char>>, item: Seq<char>) -> Seq<Seq<char>> {
    let r = text_rank(set, item) as int;
    if r < set.len() && set[r] == item {
        set
    } else {
        set.insert(r, item)
    }
}

/// `set` with every text of `items` inserted, in order.
pub open spec fn set_insert_all(set: Seq<Seq<char>>, items: Seq<Seq<char>>) -> Seq<Seq<char>>
    decreases items.len(),
{
    if items.len() == 0 {
        set
    } else {
        set_insert(set_insert_all(set, items.drop_last()), items.last())
    }
}

/// Whether the texts stand in strictly ascending order.
pub open spec fn ascending(set: Seq<Seq<char>>) -> bool {
    forall|i: int, j: int| 0 <= i < j < set.len() ==> text_lt(#[trigger] set[i], #[trigger] set[j])
}

/// The elements before `item`'s rank come before `item`; the one at the rank
/// does not.
pub proof fn lemma_text_rank_splits(set: Seq<Seq<char>>, item: Seq<char>)
    ensures
        text_rank(set, item) <= set.len(),
        forall|i: int| 0 <= i < text_rank(set, item) ==> text_lt(#[trigger] set[i], item),
        text_rank(set, item) < set.len() ==> !text_lt(set[text_rank(set, item) as int], item),
    decreases set.len(),
{
    if set.len() > 0 && text_lt(set[0], item) {
        let rest = set.drop_first();
        lemma_text_rank_splits(rest, item);
        assert forall|i: int| 0 <= i < text_rank(set, item) implies text_lt(
            #[trigger] set[i],
            item,
        ) by {
            if i > 0 {
                assert(set[i] == rest[i - 1]);
            }
        }
        if text_rank(set, item) < set.len() {
            assert(set[text_rank(set, item) as int] == rest[text_rank(rest, item) as int]);
        }
    }
}

/// Inserting into an ascending sequence leaves it ascending.
pub proof fn lemma_set_insert_ascending(set: Seq<Seq<char>>, item: Seq<char>)
    requires
        ascending(set),
    ensures
        ascending(set_insert(set, item)),
{
    let r = text_rank(set, item) as int;
    let after = set_insert(set, item);
    lemma_text_rank_splits(set, item);
    if !(r < set.len() && set[r] == item) {
        assert forall|j: int| r <= j < set.len() implies text_lt(item, #[trigger] set[j]) by {
            lemma_text_lt_connected(set[r], item);
            if j > r {
                lemma_text_lt_transitive(item, set[r], set[j]);
            }
        }
        assert forall|i: int, j: int| 0 <= i < j < after.len() implies text_lt(
            #[trigger] after[i],
            #[trigger] after[j],
        ) by {
            if j < r {
            } else if j == r {
            } else if i < r {
                lemma_text_lt_transitive(set[i], item, set[j - 1]);
            } else if i == r {
            } else {
                assert(after[i] == set[i - 1]);
                assert(after[j] == set[j - 1]);
            }
        }
    }
}

/// What an ascending sequence holds after an insertion: what it held, and
/// the inserted text.
pub proof fn lemma_set_insert_contains(set: Seq<Seq<char>>, item: Seq<char>, x: Seq<char>)
    ensures
        set_insert(set, item).contains(x) <==> (set.contains(x) || x == item),
{
    let r = text_rank(set, item) as int;
    let after = set_insert(set, item);
    lemma_text_rank_splits(set, item);
    if r < set.len() && set[r] == item {
        if x == item {
            assert(set[r] == x);
        }
    } else {
        if after.contains(x) {
            let k = choose|k: int| 0 <= k < after.len() && after[k] == x;
            if k < r {
                assert(set[k] == x);
            } else if k > r {
                assert(set[k - 1] == x);
            }
        }
        if set.contains(x) {
            let k = choose|k: int| 0 <= k < set.len() && set[k] == x;
            if k < r {
                assert(after[k] == x);
            } else {
                assert(after[k + 1] == x);
            }
        }
        if x == item {
            assert(after[r] == x);
        }
    }
}

/// Inserting texts one by one into an ascending sequence leaves it
/// ascending.
pub proof fn lemma_set_insert_all_ascending(set: Seq<Seq<char>>, items: Seq<Seq<char>>)
    requires
        ascending(set),
    ensures
        ascending(set_insert_all(set, items)),
    decreases items.len(),
{
    if items.len() > 0 {
        lemma_set_insert_all_ascending(set, items.drop_last());
        lemma_set_insert_ascending(set_insert_all(set, items.drop_last()), items.last());
    }
}

/// Puts `item` into its place in `set`, unless it is there already.
pub fn insert_text(set: &mut Vec<String>, item: String)
    ensures
        final(set).deep_view() == set_insert(old(set).deep_view(), item@),
{
    let n = set.len();
    let ghost texts = set.deep_view();
    let mut i: usize = 0;
    proof {
        assert(texts.skip(0) =~= texts);
        lemma_text_rank_splits(texts, item@);
    }
    loop
        invariant
            i <= n,
            n == set@.len(),
            texts == set.deep_view(),
            *set == *old(set),
            text_rank(texts, item@) == i + text_rank(texts.skip(i as int), item@),
        ensures
            i <= n,
            n == set@.len(),
            texts == set.deep_view(),
            *set == *old(set),
            i == text_rank(texts, item@),
        decreases n - i,
    {
        if i >= n {
            break;
        }
        proof {
            assert(texts.skip(i as int)[0] == set@[i as int]@);
            assert(texts.skip(i as int).drop_first() =~= texts.skip(i + 1));
        }
        if !text_less(set[i].as_str(), item.as_str()) {
            break;
        }
        i = i + 1;
    }
    let present = i < n && str_eq(set[i].as_str(), item.as_str());
    proof {
        if i < n {
            assert(texts[i as int] == set@[i as int]@);
        }
    }
    if !present {
        let ghost before = set@;
        set.insert(i, item);
        proof {
            lemma_deep_of_vec(*set);
            lemma_deep_of_vec(*old(set));
            lemma_deep_insert(before, i as int, item);
        }
    }
}

/// Number of leading elements of `sorted` that do not come after `item`.
pub open spec fn rank_after(sorted: Seq<Seq<char>>, item: Seq<char>) -> nat
    decreases sorted.len(),
{
    if sorted.len() > 0 && !text_lt(item, sorted[0]) {
        1 + rank_after(sorted.drop_first(), item)
    } else {
        0
    }
}

/// The texts in ascending order; equal texts stay together.
pub open spec fn sorted_texts(texts: Seq<Seq<char>>) -> Seq<Seq<char>>
    decreases texts.len(),
{
    if texts.len() == 0 {
        Seq::empty()
    } else {
        let rest = sorted_texts(texts.drop_last());
        rest.insert(rank_after(rest, texts.last()) as int, texts.last())
    }
}

/// Whether no text comes after a later one.
pub open spec fn non_descending(texts: Seq<Seq<char>>) -> bool {
    forall|i: int, j: int|
        0 <= i < j < texts.len() ==> !text_lt(#[trigger] texts[j], #[trigger] texts[i])
}

/// No text is below every text that comes before it.
pub proof fn lemma_not_below(a: Seq<char>, b: Seq<char>, c: Seq<char>)
    requires
        !text_lt(b, a),
        !text_lt(c, b),
    ensures
        !text_lt(c, a),
{
    if text_lt(c, a) {
        lemma_text_lt_connected(a, b);
        lemma_text_lt_connected(b, c);
        if a == b {
        } else if b == c {
        } else {
            lemma_text_lt_transitive(c, a, b);
        }
    }
}

/// The elements before `item`'s rank do not come after `item`; the one at
/// the rank does.
pub proof fn lemma_rank_after_splits(sorted: Seq<Seq<char>>, item: Seq<char>)
    ensures
        rank_after(sorted, item) <= sorted.len(),
        forall|i: int| 0 <= i < rank_after(sorted, item) ==> !text_lt(item, #[trigger] sorted[i]),
        rank_after(sorted, item) < sorted.len() ==> text_lt(
            item,
            sorted[rank_after(sorted, item) as int],
        ),
    decreases sorted.len(),
{
    if sorted.len() > 0 && !text_lt(item, sorted[0]) {
        let rest = sorted.drop_first();
        lemma_rank_after_splits(rest, item);
        assert forall|i: int| 0 <= i < rank_after(sorted, item) implies !text_lt(
            item,
            #[trigger] sorted[i],
        ) by {
            if i > 0 {
                assert(sorted[i] == rest[i - 1]);
            }
        }
        if rank_after(sorted, item) < sorted.len() {
            assert(sorted[rank_after(sorted, item) as int] == rest[rank_after(rest, item) as int]);
        }
    }
}

/// The sorted texts stand in ascending order and are the given texts, each
/// as often as it was given.
pub proof fn lemma_sorted_texts(texts: Seq<Seq<char>>)
    ensures
        non_descending(sorted_texts(texts)),
        sorted_texts(texts).to_multiset() == texts.to_multiset(),
        sorted_texts(texts).len() == texts.len(),
    decreases texts.len(),
{
    if texts.len() == 0 {
        assert(texts =~= Seq::empty());
    } else {
        let front = texts.drop_last();
        let rest = sorted_texts(front);
        let last = texts.last();
        let r = rank_after(rest, last) as int;
        let out = sorted_texts(texts);
        lemma_sorted_texts(front);
        lemma_rank_after_splits(rest, last);
        assert forall|i: int, j: int| 0 <= i < j < out.len() implies !text_lt(
            #[trigger] out[j],
            #[trigger] out[i],
        ) by {
            if j < r {
            } else if j == r {
            } else if i < r {
                assert(out[j] == rest[j - 1]);
                if j - 1 >= r {
                    lemma_text_lt_asymmetric(last, rest[r]);
                    if j - 1 > r {
                        lemma_not_below(last, rest[r], rest[j - 1]);
                    }
                    lemma_not_below(rest[i], last, rest[j - 1]);
                }
            } else if i == r {
                assert(out[j] == rest[j - 1]);
                lemma_text_lt_asymmetric(last, rest[r]);
                if j - 1 > r {
                    lemma_not_below(last, rest[r], rest[j - 1]);
                }
            } else {
                assert(out[i] == rest[i - 1]);
                assert(out[j] == rest[j - 1]);
            }
        }
        vstd::seq_lib::to_multiset_insert(rest, r, last);
        assert(texts =~= front.push(last));
        vstd::seq_lib::to_multiset_build(front, last);
    }
}

/// The texts in ascending order.
pub fn sort_texts(texts: Vec<String>) -> (out: Vec<String>)
    ensures
        out.deep_view() == sorted_texts(texts.deep_view()),
{
    let ghost all = texts@;
    let mut out: Vec<String> = Vec::new();
    proof {
        lemma_deep_of_vec(texts);
        assert(out.deep_view() =~= Seq::<Seq<char>>::empty());
        assert(deep(all.take(0)) =~= Seq::<Seq<char>>::empty());
    }
    for text in it: texts
        invariant
            it.seq() == all,
            out.deep_view() == sorted_texts(deep(all.take(it.index() as int))),
    {
        let ghost done = it.index() as int;
        proof {
            assert(deep(all.take(done + 1)).drop_last() =~= deep(all.take(done)));
            assert(deep(all.take(done + 1)).last() == text@);
        }
        let n = out.len();
        let ghost sorted = out.deep_view();
        let mut at: usize = 0;
        proof {
            assert(sorted.skip(0) =~= sorted);
        }
        while at < n && !text_less(text.as_str(), out[at].as_str())
            invariant
                at <= n,
                n == out@.len(),
                sorted == out.deep_view(),
                rank_after(sorted, text@) == at + rank_after(sorted.skip(at as int), text@),
            decreases n - at,
        {
            proof {
                assert(sorted.skip(at as int)[0] == out@[at as int]@);
                assert(sorted.skip(at as int).drop_first() =~= sorted.skip(at + 1));
            }
            at = at + 1;
        }
        proof {
            if at < n {
                assert(sorted.skip(at as int)[0] == out@[at as int]@);
            }
        }
        let ghost before = out@;
        out.insert(at, text);
        proof {
            lemma_deep_of_vec(out);
            lemma_deep_insert(before, at as int, text);
            assert(deep(before) =~= sorted);
        }
    }
    proof {
        assert(all.take(all.len() as int) =~= all);
    }
    out
}

/// What an ascending sequence holds after texts were inserted one by one:
/// what it held, and the inserted texts.
pub proof fn lemma_set_insert_all_contains(
    set: Seq<Seq<char>>,
    items: Seq<Seq<char>>,
    x: Seq<char>,
)
    ensures
        set_insert_all(set, items).contains(x) <==> (set.contains(x) || items.contains(x)),
    decreases items.len(),
{
    if items.len() > 0 {
        let front = items.drop_last();
        lemma_set_insert_all_contains(set, front, x);
        lemma_set_insert_contains(set_insert_all(set, front), items.last(), x);
        if items.contains(x) {
            let k = choose|k: int| 0 <= k < items.len() && items[k] == x;
            if k < front.len() {
                assert(front[k] == x);
            }
        }
        if front.contains(x) {
            let k = choose|k: int| 0 <= k < front.len() && front[k] == x;
            assert(items[k] == x);
        }
        if x == items.last() {
            assert(items[items.len() - 1] == x);
        }
    }
}

} // verus!
