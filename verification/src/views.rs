//! Facts about the deep views of vectors: how `push` and `insert` on a vector
//! show in the sequence of its items' views.

use vstd::prelude::*;

verus! {

/// The views of the items of `s`, in order.
pub open spec fn deep<T: DeepView>(s: Seq<T>) -> Seq<T::V> {
    Seq::new(s.len(), |i: int| s[i].deep_view())
}

/// The deep view of a vector is the views of its items.
pub proof fn lemma_deep_of_vec<T: DeepView>(v: Vec<T>)
    ensures
        v.deep_view() == deep(v@),
{
    assert(v.deep_view() =~= deep(v@));
}

/// The views of the items after a push.
pub proof fn lemma_deep_push<T: DeepView>(s: Seq<T>, item: T)
    ensures
        deep(s.push(item)) == deep(s).push(item.deep_view()),
{
    assert(deep(s.push(item)) =~= deep(s).push(item.deep_view()));
}

/// The views of the items after an insertion.
pub proof fn lemma_deep_insert<T: DeepView>(s: Seq<T>, i: int, item: T)
    requires
        0 <= i <= s.len(),
    ensures
        deep(s.insert(i, item)) == deep(s).insert(i, item.deep_view()),
{
    assert(deep(s.insert(i, item)) =~= deep(s).insert(i, item.deep_view()));
}

/// The deep view of a vector after `push`.
pub proof fn lemma_vec_pushed<T: DeepView>(before: Seq<T>, after: Vec<T>, item: T)
    requires
        after@ == before.push(item),
    ensures
        after.deep_view() == deep(before).push(item.deep_view()),
{
    lemma_deep_push(before, item);
    lemma_deep_of_vec(after);
}

} // verus!
