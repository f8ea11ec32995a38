//! Small facts about the deep views of vectors, as the loops that build
//! vectors item by item need them.

use vstd::prelude::*;

verus! {

/// Pushing an item onto a vector pushes the item's view onto the vector's
/// deep view.
pub proof fn lemma_deep_view_push<T: DeepView>(shorter: Vec<T>, longer: Vec<T>, item: T)
    requires
        longer@ == shorter@.push(item),
    ensures
        longer.deep_view() == shorter.deep_view().push(item.deep_view()),
{
    assert(longer.deep_view() =~= shorter.deep_view().push(item.deep_view()));
}

/// Taking one more item of a sequence pushes that item onto what was taken.
pub proof fn lemma_take_next<A>(items: Seq<A>, count: int)
    requires
        0 <= count < items.len(),
    ensures
        items.take(count + 1) == items.take(count).push(items[count]),
{
    assert(items.take(count + 1) =~= items.take(count).push(items[count]));
}

/// Inserting an item into a vector inserts the item's view into the vector's
/// deep view, at the same place.
pub proof fn lemma_deep_view_insert<T: DeepView>(
    shorter: Vec<T>,
    longer: Vec<T>,
    at: int,
    item: T,
)
    requires
        0 <= at <= shorter@.len(),
        longer@ == shorter@.insert(at, item),
    ensures
        longer.deep_view() == shorter.deep_view().insert(at, item.deep_view()),
{
    assert(longer.deep_view() =~= shorter.deep_view().insert(at, item.deep_view()));
}

} // verus!
