//! A stable sort over the models of what is sorted.
use vstd::prelude::*;

verus! {

/// `sorted` with `item` placed behind everything that need not follow it.
pub open spec fn placed<A>(
    sorted: Seq<A>,
    item: A,
    before: spec_fn(A, A) -> bool,
) -> Seq<A>
    decreases sorted.len(),
{
    if sorted.len() == 0 || !before(item, sorted.last()) {
        sorted.push(item)
    } else {
        placed(sorted.drop_last(), item, before).push(sorted.last())
    }
}

/// `items`, each placed in turn among those that came before it.
pub open spec fn stably_sorted<A>(items: Seq<A>, before: spec_fn(A, A) -> bool) -> Seq<A>
    decreases items.len(),
{
    if items.len() == 0 {
        items
    } else {
        placed(stably_sorted(items.drop_last(), before), items.last(), before)
    }
}

/// Nothing in `items` comes before something that stands ahead of it.
pub open spec fn in_order<A>(items: Seq<A>, before: spec_fn(A, A) -> bool) -> bool {
    forall|i: int, j: int|
        0 <= i < j < items.len() ==> !before(#[trigger] items[j], #[trigger] items[i])
}

/// `before` orders what it speaks of, up to ties.
pub open spec fn orders<A>(before: spec_fn(A, A) -> bool) -> bool {
    &&& forall|a: A| !#[trigger] before(a, a)
    &&& forall|a: A, b: A, c: A|
        #![trigger before(a, b), before(b, c)]
        before(a, b) && before(b, c) ==> before(a, c)
    &&& forall|a: A, b: A, c: A|
        #![trigger before(a, c), before(a, b)]
        #![trigger before(a, c), before(b, c)]
        before(a, c) ==> before(a, b) || before(b, c)
}

/// Neither of `a` and `b` comes before the other.
pub open spec fn tied<A>(a: A, b: A, before: spec_fn(A, A) -> bool) -> bool {
    !before(a, b) && !before(b, a)
}

/// Those of `items` that tie with `x`, in the order in which they stand.
pub open spec fn ties<A>(items: Seq<A>, x: A, before: spec_fn(A, A) -> bool) -> Seq<A> {
    items.filter(|y: A| tied(x, y, before))
}

/// What a stable sort can sort: an order on its model, and a function that decides it.
pub trait Sortable: DeepView + Sized {
    /// The order on the models.
    spec fn order() -> spec_fn(Self::V, Self::V) -> bool;

    /// Whether `self` comes before `other`.
    fn goes_before(&self, other: &Self) -> (result: bool)
        ensures
            result == Self::order()(self.deep_view(), other.deep_view()),
    ;
}

/// Places one item into a sorted list, behind everything that need not follow it.
fn place<T: Sortable>(sorted: &mut Vec<T>, item: T)
    ensures
        final(sorted).deep_view() == placed(old(sorted).deep_view(), item.deep_view(), T::order()),
{
    let mut at: usize = sorted.len();
    let ghost models = sorted.deep_view();
    let ghost whole = placed(models, item.deep_view(), T::order());
    assert(models.take(at as int) == models);
    assert(whole == placed(models.take(at as int), item.deep_view(), T::order()) + models.skip(
        at as int,
    ));
    while at > 0 && item.goes_before(&sorted[at - 1])
        invariant
            at <= sorted.len(),
            models == sorted.deep_view(),
            whole == placed(models.take(at as int), item.deep_view(), T::order()) + models.skip(
                at as int,
            ),
        decreases at,
    {
        proof {
            let head = models.take(at as int);
            assert(head.last() == sorted@[at - 1].deep_view());
            assert(head.drop_last() == models.take(at - 1));
            assert(placed(head.drop_last(), item.deep_view(), T::order()).push(head.last())
                + models.skip(at as int) == placed(
                models.take(at - 1),
                item.deep_view(),
                T::order(),
            ) + models.skip(at - 1));
        }
        at -= 1;
    }
    let ghost model = item.deep_view();
    proof {
        if at > 0 {
            assert(models.take(at as int).last() == sorted@[at - 1].deep_view());
        }
        assert(whole == models.take(at as int).push(model) + models.skip(at as int));
    }
    let ghost elements = sorted@;
    sorted.insert(at, item);
    assert(sorted@ == elements.insert(at as int, item));
    assert(sorted.deep_view() == whole);
}

/// Sorts a list; what ties keeps its order.
pub fn stable_sort<T: Sortable>(items: Vec<T>) -> (result: Vec<T>)
    ensures
        result.deep_view() == stably_sorted(items.deep_view(), T::order()),
{
    let mut result: Vec<T> = Vec::new();
    let ghost models = items.deep_view();
    assert(models.take(0) == Seq::<T::V>::empty());
    for item in iter: items
        invariant
            iter.seq() == items@,
            models == items.deep_view(),
            result.deep_view() == stably_sorted(models.take(iter.index() as int), T::order()),
    {
        proof {
            let n = iter.index() as int;
            assert(models.take(n + 1).drop_last() == models.take(n));
            assert(models.take(n + 1).last() == item.deep_view());
        }
        place(&mut result, item);
    }
    assert(models.take(models.len() as int) == models);
    result
}


proof fn lemma_placed<A>(sorted: Seq<A>, item: A, before: spec_fn(A, A) -> bool)
    requires
        orders(before),
        in_order(sorted, before),
    ensures
        in_order(placed(sorted, item, before), before),
        placed(sorted, item, before).len() == sorted.len() + 1,
        placed(sorted, item, before).to_multiset() == sorted.to_multiset().insert(item),
        forall|x: A|
            #[trigger] ties(placed(sorted, item, before), x, before) == ties(
                sorted.push(item),
                x,
                before,
            ),
    decreases sorted.len(),
{
    let result = placed(sorted, item, before);
    if sorted.len() == 0 || !before(item, sorted.last()) {
        sorted.to_multiset_ensures();
        assert forall|i: int, j: int| 0 <= i < j < result.len() implies !before(
            #[trigger] result[j],
            #[trigger] result[i],
        ) by {
            if j == sorted.len() && before(item, sorted[i]) {
                assert(i < sorted.len() - 1);
                assert(!before(sorted.last(), sorted[i]));
                assert(before(item, sorted.last()));
            }
        }
    } else {
        let head = sorted.drop_last();
        let last = sorted.last();
        let inner = placed(head, item, before);
        lemma_placed(head, item, before);
        assert(result == inner.push(last));
        assert forall|i: int, j: int| 0 <= i < j < result.len() implies !before(
            #[trigger] result[j],
            #[trigger] result[i],
        ) by {
            if j == inner.len() {
                inner.to_multiset_ensures();
                head.to_multiset_ensures();
                assert(inner.contains(inner[i]));
                assert(head.to_multiset().insert(item).count(inner[i]) > 0);
                if inner[i] == item {
                    if before(last, item) {
                        assert(before(item, item));
                    }
                } else {
                    assert(head.contains(inner[i]));
                    let k = choose|k: int| 0 <= k < head.len() && head[k] == inner[i];
                    assert(!before(sorted[sorted.len() - 1], sorted[k]));
                }
            }
        }
        assert(head.push(last) == sorted);
        head.to_multiset_ensures();
        inner.to_multiset_ensures();
        assert(result.to_multiset() =~= sorted.to_multiset().insert(item));
        assert forall|x: A|
            #[trigger] ties(result, x, before) == ties(sorted.push(item), x, before) by {
            assert(ties(inner, x, before) == ties(head.push(item), x, before));
            lemma_ties_push(inner, last, x, before);
            lemma_ties_push(head, item, x, before);
            lemma_ties_push(head, last, x, before);
            lemma_ties_push(sorted, item, x, before);
            if tied(x, last, before) && tied(x, item, before) {
                assert(before(item, x) || before(x, last));
            }
        }
    }
}

proof fn lemma_ties_push<A>(items: Seq<A>, item: A, x: A, before: spec_fn(A, A) -> bool)
    ensures
        ties(items.push(item), x, before) == if tied(x, item, before) {
            ties(items, x, before).push(item)
        } else {
            ties(items, x, before)
        },
{
    reveal(Seq::filter);
    assert(items.push(item).drop_last() == items);
}

/// A stable sort keeps every item, puts the items in order, and leaves those
/// that tie in the order in which they came.
pub proof fn lemma_stably_sorted<A>(items: Seq<A>, before: spec_fn(A, A) -> bool)
    requires
        orders(before),
    ensures
        in_order(stably_sorted(items, before), before),
        stably_sorted(items, before).len() == items.len(),
        stably_sorted(items, before).to_multiset() == items.to_multiset(),
        forall|x: A|
            #[trigger] ties(stably_sorted(items, before), x, before) == ties(items, x, before),
    decreases items.len(),
{
    if items.len() > 0 {
        let head = items.drop_last();
        let item = items.last();
        let inner = stably_sorted(head, before);
        lemma_stably_sorted(head, before);
        lemma_placed(inner, item, before);
        assert(head.push(item) == items);
        head.to_multiset_ensures();
        assert forall|x: A|
            #[trigger] ties(stably_sorted(items, before), x, before) == ties(items, x, before) by {
            assert(ties(inner, x, before) == ties(head, x, before));
            lemma_ties_push(inner, item, x, before);
            lemma_ties_push(head, item, x, before);
            assert(ties(placed(inner, item, before), x, before) == ties(
                inner.push(item),
                x,
                before,
            ));
        }
    }
}

/// Sorting what is in order already changes nothing.
pub proof fn lemma_sorted_unchanged<A>(items: Seq<A>, before: spec_fn(A, A) -> bool)
    requires
        in_order(items, before),
    ensures
        stably_sorted(items, before) == items,
    decreases items.len(),
{
    if items.len() > 0 {
        let head = items.drop_last();
        assert(in_order(head, before)) by {
            assert forall|i: int, j: int| 0 <= i < j < head.len() implies !before(
                #[trigger] head[j],
                #[trigger] head[i],
            ) by {
                assert(!before(items[j], items[i]));
            }
        }
        lemma_sorted_unchanged(head, before);
        if head.len() > 0 {
            assert(!before(items[items.len() - 1], items[head.len() - 1]));
        }
        assert(head.push(items.last()) == items);
    }
}

/// Items no two of which tie can be put in order in one way only.
pub proof fn lemma_one_order<A>(a: Seq<A>, b: Seq<A>, before: spec_fn(A, A) -> bool)
    requires
        in_order(a, before),
        in_order(b, before),
        a.to_multiset() == b.to_multiset(),
        forall|i: int, j: int|
            0 <= i < j < a.len() ==> !tied(#[trigger] a[i], #[trigger] a[j], before),
    ensures
        a == b,
    decreases a.len(),
{
    a.to_multiset_ensures();
    b.to_multiset_ensures();
    assert(a.len() == b.len());
    if a.len() > 0 {
        let x = a.last();
        let y = b.last();
        assert(b.contains(y));
        assert(b.to_multiset().count(y) > 0);
        assert(a.contains(y));
        assert(a.contains(x));
        assert(a.to_multiset().count(x) > 0);
        assert(b.contains(x));
        let i = choose|i: int| 0 <= i < a.len() && a[i] == y;
        let j = choose|j: int| 0 <= j < b.len() && b[j] == x;
        if i < a.len() - 1 {
            assert(!tied(a[i], a[a.len() - 1], before));
            assert(!before(a[a.len() - 1], a[i]));
            assert(before(y, x));
            if j < b.len() - 1 {
                assert(!before(b[b.len() - 1], b[j]));
            }
        }
        assert(x == y);
        let head_a = a.drop_last();
        let head_b = b.drop_last();
        head_a.to_multiset_ensures();
        head_b.to_multiset_ensures();
        assert(head_a.push(x) == a);
        assert(head_b.push(y) == b);
        assert(head_a.to_multiset() == a.to_multiset().remove(x));
        assert(head_b.to_multiset() == b.to_multiset().remove(y));
        assert forall|i: int, j: int| 0 <= i < j < head_a.len() implies !before(
            #[trigger] head_a[j],
            #[trigger] head_a[i],
        ) by {
            assert(!before(a[j], a[i]));
        }
        assert forall|i: int, j: int| 0 <= i < j < head_b.len() implies !before(
            #[trigger] head_b[j],
            #[trigger] head_b[i],
        ) by {
            assert(!before(b[j], b[i]));
        }
        assert forall|i: int, j: int| 0 <= i < j < head_a.len() implies !tied(
            #[trigger] head_a[i],
            #[trigger] head_a[j],
            before,
        ) by {
            assert(!tied(a[i], a[j], before));
        }
        lemma_one_order(head_a, head_b, before);
        assert(a == b);
    }
}

/// What holds of every item holds of every item that is placed.
proof fn lemma_placed_all<A>(
    sorted: Seq<A>,
    item: A,
    before: spec_fn(A, A) -> bool,
    holds: spec_fn(A) -> bool,
)
    requires
        forall|i: int| 0 <= i < sorted.len() ==> holds(#[trigger] sorted[i]),
        holds(item),
    ensures
        forall|i: int|
            0 <= i < placed(sorted, item, before).len() ==> holds(
                #[trigger] placed(sorted, item, before)[i],
            ),
    decreases sorted.len(),
{
    if sorted.len() > 0 && before(item, sorted.last()) {
        let head = sorted.drop_last();
        assert forall|i: int| 0 <= i < head.len() implies holds(#[trigger] head[i]) by {
            assert(holds(sorted[i]));
        }
        lemma_placed_all(head, item, before, holds);
        let inner = placed(head, item, before);
        let outer = placed(sorted, item, before);
        assert forall|i: int| 0 <= i < outer.len() implies holds(#[trigger] outer[i]) by {
            if i < inner.len() {
                assert(holds(inner[i]));
            } else {
                assert(holds(sorted[sorted.len() - 1]));
            }
        }
    }
}

/// What holds of every item holds of every sorted item.
pub proof fn lemma_sorted_all<A>(
    items: Seq<A>,
    before: spec_fn(A, A) -> bool,
    holds: spec_fn(A) -> bool,
)
    requires
        forall|i: int| 0 <= i < items.len() ==> holds(#[trigger] items[i]),
    ensures
        forall|i: int|
            0 <= i < stably_sorted(items, before).len() ==> holds(
                #[trigger] stably_sorted(items, before)[i],
            ),
    decreases items.len(),
{
    if items.len() > 0 {
        let head = items.drop_last();
        assert forall|i: int| 0 <= i < head.len() implies holds(#[trigger] head[i]) by {
            assert(holds(items[i]));
        }
        lemma_sorted_all(head, before, holds);
        assert(holds(items[items.len() - 1]));
        lemma_placed_all(stably_sorted(head, before), items.last(), before, holds);
    }
}

/// What holds of every two items, whichever comes first, holds of every two items
/// once one more is placed.
proof fn lemma_placed_pairwise<A>(
    sorted: Seq<A>,
    item: A,
    before: spec_fn(A, A) -> bool,
    holds: spec_fn(A, A) -> bool,
)
    requires
        pairwise(sorted, holds),
        forall|i: int|
            0 <= i < sorted.len() ==> holds(#[trigger] sorted[i], item) && holds(item, sorted[i]),
    ensures
        pairwise(placed(sorted, item, before), holds),
    decreases sorted.len(),
{
    let outer = placed(sorted, item, before);
    if sorted.len() > 0 && before(item, sorted.last()) {
        let head = sorted.drop_last();
        let last = sorted.last();
        assert(pairwise(head, holds)) by {
            assert forall|i: int, j: int| 0 <= i < j < head.len() implies holds(
                #[trigger] head[i],
                #[trigger] head[j],
            ) && holds(head[j], head[i]) by {
                assert(holds(sorted[i], sorted[j]));
            }
        }
        assert forall|i: int| 0 <= i < head.len() implies holds(#[trigger] head[i], item) && holds(
            item,
            head[i],
        ) by {
            assert(holds(sorted[i], item));
        }
        lemma_placed_pairwise(head, item, before, holds);
        let inner = placed(head, item, before);
        let with_last = |x: A| holds(x, last) && holds(last, x);
        assert forall|i: int| 0 <= i < head.len() implies with_last(#[trigger] head[i]) by {
            assert(holds(sorted[i], sorted[sorted.len() - 1]));
        }
        assert(holds(sorted[sorted.len() - 1], item));
        lemma_placed_all(head, item, before, with_last);
        assert forall|i: int, j: int| 0 <= i < j < outer.len() implies holds(
            #[trigger] outer[i],
            #[trigger] outer[j],
        ) && holds(outer[j], outer[i]) by {
            if j < inner.len() {
                assert(holds(inner[i], inner[j]));
            } else {
                assert(with_last(inner[i]));
            }
        }
    } else {
        assert forall|i: int, j: int| 0 <= i < j < outer.len() implies holds(
            #[trigger] outer[i],
            #[trigger] outer[j],
        ) && holds(outer[j], outer[i]) by {
            if j < sorted.len() {
                assert(holds(sorted[i], sorted[j]));
            } else {
                assert(holds(sorted[i], item));
            }
        }
    }
}

/// Whether `holds` is true of every two of `items`, whichever comes first.
pub open spec fn pairwise<A>(items: Seq<A>, holds: spec_fn(A, A) -> bool) -> bool {
    forall|i: int, j: int|
        0 <= i < j < items.len() ==> holds(#[trigger] items[i], #[trigger] items[j]) && holds(
            items[j],
            items[i],
        )
}

/// What holds of every two items, whichever comes first, holds of every two sorted
/// items.
pub proof fn lemma_sorted_pairwise<A>(
    items: Seq<A>,
    before: spec_fn(A, A) -> bool,
    holds: spec_fn(A, A) -> bool,
)
    requires
        pairwise(items, holds),
    ensures
        pairwise(stably_sorted(items, before), holds),
    decreases items.len(),
{
    if items.len() > 0 {
        let head = items.drop_last();
        let last = items.last();
        assert(pairwise(head, holds)) by {
            assert forall|i: int, j: int| 0 <= i < j < head.len() implies holds(
                #[trigger] head[i],
                #[trigger] head[j],
            ) && holds(head[j], head[i]) by {
                assert(holds(items[i], items[j]));
            }
        }
        lemma_sorted_pairwise(head, before, holds);
        let with_last = |x: A| holds(x, last) && holds(last, x);
        assert forall|i: int| 0 <= i < head.len() implies with_last(#[trigger] head[i]) by {
            assert(holds(items[i], items[items.len() - 1]));
        }
        lemma_sorted_all(head, before, with_last);
        assert forall|i: int| 0 <= i < stably_sorted(head, before).len() implies holds(
            #[trigger] stably_sorted(head, before)[i],
            last,
        ) && holds(last, stably_sorted(head, before)[i]) by {
            assert(with_last(stably_sorted(head, before)[i]));
        }
        lemma_placed_pairwise(stably_sorted(head, before), last, before, holds);
    }
}

/// Whether `holds` is true of every two of `items` in the order in which a stable sort
/// leaves them.
pub open spec fn settled<A>(
    items: Seq<A>,
    before: spec_fn(A, A) -> bool,
    holds: spec_fn(A, A) -> bool,
) -> bool {
    forall|i: int, j: int|
        0 <= i < j < items.len() ==> if before(#[trigger] items[j], #[trigger] items[i]) {
            holds(items[j], items[i])
        } else {
            holds(items[i], items[j])
        }
}

/// Whether `holds` is true of every item and every item behind it.
pub open spec fn successively<A>(items: Seq<A>, holds: spec_fn(A, A) -> bool) -> bool {
    forall|i: int, j: int|
        0 <= i < j < items.len() ==> holds(#[trigger] items[i], #[trigger] items[j])
}

/// What holds of every item and every item behind it goes on to do so once one more is
/// placed.
proof fn lemma_placed_successively<A>(
    sorted: Seq<A>,
    item: A,
    before: spec_fn(A, A) -> bool,
    holds: spec_fn(A, A) -> bool,
)
    requires
        orders(before),
        in_order(sorted, before),
        successively(sorted, holds),
        forall|i: int|
            0 <= i < sorted.len() ==> if before(item, #[trigger] sorted[i]) {
                holds(item, sorted[i])
            } else {
                holds(sorted[i], item)
            },
    ensures
        successively(placed(sorted, item, before), holds),
    decreases sorted.len(),
{
    let outer = placed(sorted, item, before);
    if sorted.len() > 0 && before(item, sorted.last()) {
        let head = sorted.drop_last();
        let last = sorted[sorted.len() - 1];
        assert(successively(head, holds)) by {
            assert forall|i: int, j: int| 0 <= i < j < head.len() implies holds(
                #[trigger] head[i],
                #[trigger] head[j],
            ) by {
                assert(holds(sorted[i], sorted[j]));
            }
        }
        assert(in_order(head, before)) by {
            assert forall|i: int, j: int| 0 <= i < j < head.len() implies !before(
                #[trigger] head[j],
                #[trigger] head[i],
            ) by {
                assert(!before(sorted[j], sorted[i]));
            }
        }
        assert forall|i: int| 0 <= i < head.len() implies if before(item, #[trigger] head[i]) {
            holds(item, head[i])
        } else {
            holds(head[i], item)
        } by {
            assert(head[i] == sorted[i]);
        }
        lemma_placed_successively(head, item, before, holds);
        let inner = placed(head, item, before);
        let with_last = |x: A| holds(x, last);
        assert forall|i: int| 0 <= i < head.len() implies with_last(#[trigger] head[i]) by {
            assert(holds(sorted[i], sorted[sorted.len() - 1]));
        }
        assert(with_last(item));
        lemma_placed_all(head, item, before, with_last);
        assert forall|i: int, j: int| 0 <= i < j < outer.len() implies holds(
            #[trigger] outer[i],
            #[trigger] outer[j],
        ) by {
            if j < inner.len() {
                assert(holds(inner[i], inner[j]));
            } else {
                assert(with_last(inner[i]));
            }
        }
    } else {
        assert forall|i: int, j: int| 0 <= i < j < outer.len() implies holds(
            #[trigger] outer[i],
            #[trigger] outer[j],
        ) by {
            if j < sorted.len() {
                assert(holds(sorted[i], sorted[j]));
            } else if before(item, sorted[i]) {
                assert(i < sorted.len() - 1);
                assert(!before(sorted[sorted.len() - 1], sorted[i]));
                assert(before(item, sorted.last()));
            }
        }
    }
}

/// What holds of every two items in the order in which a stable sort leaves them holds
/// of every sorted item and every sorted item behind it.
pub proof fn lemma_sorted_successively<A>(
    items: Seq<A>,
    before: spec_fn(A, A) -> bool,
    holds: spec_fn(A, A) -> bool,
)
    requires
        orders(before),
        settled(items, before, holds),
    ensures
        successively(stably_sorted(items, before), holds),
    decreases items.len(),
{
    if items.len() > 0 {
        let head = items.drop_last();
        let last = items[items.len() - 1];
        assert(settled(head, before, holds)) by {
            assert forall|i: int, j: int| 0 <= i < j < head.len() implies if before(
                #[trigger] head[j],
                #[trigger] head[i],
            ) {
                holds(head[j], head[i])
            } else {
                holds(head[i], head[j])
            } by {
                assert(head[i] == items[i]);
                assert(head[j] == items[j]);
            }
        }
        lemma_sorted_successively(head, before, holds);
        lemma_stably_sorted(head, before);
        let sorted = stably_sorted(head, before);
        let with_last = |x: A|
            if before(last, x) {
                holds(last, x)
            } else {
                holds(x, last)
            };
        assert forall|i: int| 0 <= i < head.len() implies with_last(#[trigger] head[i]) by {
            assert(head[i] == items[i]);
        }
        lemma_sorted_all(head, before, with_last);
        assert forall|i: int| 0 <= i < sorted.len() implies if before(last, #[trigger] sorted[i]) {
            holds(last, sorted[i])
        } else {
            holds(sorted[i], last)
        } by {
            assert(with_last(sorted[i]));
        }
        lemma_placed_successively(sorted, last, before, holds);
    }
}

/// A sorted list holds what the list held, and nothing else.
pub proof fn lemma_sorted_holds<A>(items: Seq<A>, before: spec_fn(A, A) -> bool, x: A)
    requires
        orders(before),
    ensures
        stably_sorted(items, before).contains(x) <==> items.contains(x),
{
    lemma_stably_sorted(items, before);
    items.to_multiset_ensures();
    stably_sorted(items, before).to_multiset_ensures();
    assert(items.contains(x) <==> items.to_multiset().count(x) > 0);
    assert(stably_sorted(items, before).contains(x) <==> stably_sorted(
        items,
        before,
    ).to_multiset().count(x) > 0);
}

} // verus!
