//! Selecting the elements of a sequence that satisfy a predicate.

use vstd::prelude::*;

verus! {

/// Filtering one more element of a prefix.
pub proof fn lemma_filter_take_next<A>(items: Seq<A>, keep: spec_fn(A) -> bool, i: int)
    requires
        0 <= i < items.len(),
    ensures
        items.take(i + 1).filter(keep) == (if keep(items[i]) {
            items.take(i).filter(keep).push(items[i])
        } else {
            items.take(i).filter(keep)
        }),
{
    reveal(Seq::filter);
    assert(items.take(i + 1).drop_last() =~= items.take(i));
    assert(items.take(i + 1).last() == items[i]);
}

/// Filtering nothing gives nothing.
pub proof fn lemma_filter_empty<A>(items: Seq<A>, keep: spec_fn(A) -> bool)
    requires
        items.len() == 0,
    ensures
        items.filter(keep) == Seq::<A>::empty(),
{
    reveal(Seq::filter);
}

/// Filtering a suffix, split at its first element.
pub proof fn lemma_filter_skip_next<A>(items: Seq<A>, keep: spec_fn(A) -> bool, i: int)
    requires
        0 <= i < items.len(),
    ensures
        items.skip(i).filter(keep) == (if keep(items[i]) {
            seq![items[i]] + items.skip(i + 1).filter(keep)
        } else {
            items.skip(i + 1).filter(keep)
        }),
{
    let first = seq![items[i]];
    assert(items.skip(i) =~= first + items.skip(i + 1));
    Seq::filter_distributes_over_add(first, items.skip(i + 1), keep);
    lemma_filter_take_next(first, keep, 0);
    lemma_filter_empty(first.take(0), keep);
    assert(first.take(1) =~= first);
    assert(first.take(0).filter(keep).push(items[i]) =~= first);
    assert(Seq::<A>::empty() + items.skip(i + 1).filter(keep) =~= items.skip(i + 1).filter(keep));
}

/// The index of the first element that satisfies a predicate, or the length.
pub open spec fn first_index<A>(items: Seq<A>, wanted: spec_fn(A) -> bool) -> int
    decreases items.len(),
{
    if items.len() == 0 {
        0
    } else if wanted(items[0]) {
        0
    } else {
        1 + first_index(items.drop_first(), wanted)
    }
}

/// `first_index` is where a search from the front stops.
pub proof fn lemma_first_index<A>(items: Seq<A>, wanted: spec_fn(A) -> bool, i: int)
    requires
        0 <= i <= items.len(),
        forall|j: int| 0 <= j < i ==> !wanted(#[trigger] items[j]),
        i < items.len() ==> wanted(items[i]),
    ensures
        first_index(items, wanted) == i,
    decreases items.len(),
{
    if items.len() != 0 && i > 0 {
        assert(!wanted(items[0]));
        assert forall|j: int| 0 <= j < i - 1 implies !wanted(
            #[trigger] items.drop_first()[j],
        ) by {
            assert(items.drop_first()[j] == items[j + 1]);
        }
        lemma_first_index(items.drop_first(), wanted, i - 1);
    }
}

/// What `first_index` says of the elements up to it.
pub proof fn lemma_first_index_found<A>(items: Seq<A>, wanted: spec_fn(A) -> bool)
    ensures
        0 <= first_index(items, wanted) <= items.len(),
        forall|j: int| 0 <= j < first_index(items, wanted) ==> !wanted(#[trigger] items[j]),
        first_index(items, wanted) < items.len() ==> wanted(items[first_index(items, wanted)]),
    decreases items.len(),
{
    if items.len() != 0 && !wanted(items[0]) {
        let rest = items.drop_first();
        lemma_first_index_found(rest, wanted);
        assert forall|j: int| 0 <= j < first_index(items, wanted) implies !wanted(
            #[trigger] items[j],
        ) by {
            if j > 0 {
                assert(rest[j - 1] == items[j]);
            }
        }
    }
}

/// The wanted element of highest rank; of several, the last.
pub open spec fn last_max<A>(
    items: Seq<A>,
    wanted: spec_fn(A) -> bool,
    rank: spec_fn(A) -> int,
) -> Option<A>
    decreases items.len(),
{
    if items.len() == 0 {
        None
    } else {
        let last = items.last();
        match last_max(items.drop_last(), wanted, rank) {
            Some(best) if !wanted(last) || rank(last) < rank(best) => Some(best),
            best => if wanted(last) {
                Some(last)
            } else {
                best
            },
        }
    }
}

/// The element of highest rank is wanted, belongs to the sequence and is outranked by no
/// wanted element; there is one exactly when some element is wanted.
pub proof fn lemma_last_max<A>(items: Seq<A>, wanted: spec_fn(A) -> bool, rank: spec_fn(A) -> int)
    ensures
        match last_max(items, wanted, rank) {
            Some(best) => {
                &&& items.contains(best)
                &&& wanted(best)
                &&& forall|i: int|
                    0 <= i < items.len() && wanted(#[trigger] items[i]) ==> rank(items[i]) <= rank(
                        best,
                    )
            },
            None => forall|i: int| 0 <= i < items.len() ==> !wanted(#[trigger] items[i]),
        },
    decreases items.len(),
{
    if items.len() > 0 {
        let init = items.drop_last();
        let last = items.last();
        lemma_last_max(init, wanted, rank);
        let before = last_max(init, wanted, rank);
        assert(items.contains(last)) by {
            assert(items[items.len() - 1] == last);
        }
        if let Some(best) = before {
            let i = init.index_of(best);
            assert(items[i] == best);
        }
        assert forall|i: int| 0 <= i < init.len() implies #[trigger] items[i] == init[i] by {}
    }
}

/// Where the element of highest rank stands: nothing before it ranks higher, and everything
/// wanted behind it ranks lower.
pub proof fn lemma_last_max_place<A>(
    items: Seq<A>,
    wanted: spec_fn(A) -> bool,
    rank: spec_fn(A) -> int,
) -> (place: int)
    ensures
        last_max(items, wanted, rank) matches Some(best) ==> {
            &&& 0 <= place < items.len()
            &&& items[place] == best
            &&& wanted(items[place])
            &&& forall|i: int|
                0 <= i < place && wanted(#[trigger] items[i]) ==> rank(items[i]) <= rank(best)
            &&& forall|i: int|
                place < i < items.len() && wanted(#[trigger] items[i]) ==> rank(items[i]) < rank(
                    best,
                )
        },
    decreases items.len(),
{
    if items.len() > 0 {
        let init = items.drop_last();
        let before = lemma_last_max_place(init, wanted, rank);
        lemma_last_max(init, wanted, rank);
        assert forall|i: int| 0 <= i < init.len() implies #[trigger] items[i] == init[i] by {}
        let last = items.last();
        match last_max(init, wanted, rank) {
            Some(best) if !wanted(last) || rank(last) < rank(best) => before,
            _ => items.len() - 1,
        }
    } else {
        0
    }
}

/// Extending a prefix by one element in the search for the highest rank.
pub proof fn lemma_last_max_take_next<A>(
    items: Seq<A>,
    wanted: spec_fn(A) -> bool,
    rank: spec_fn(A) -> int,
    i: int,
)
    requires
        0 <= i < items.len(),
    ensures
        last_max(items.take(i + 1), wanted, rank) == (match last_max(items.take(i), wanted, rank) {
            Some(best) if !wanted(items[i]) || rank(items[i]) < rank(best) => Some(best),
            best => if wanted(items[i]) {
                Some(items[i])
            } else {
                best
            },
        }),
{
    assert(items.take(i + 1).drop_last() =~= items.take(i));
    assert(items.take(i + 1).last() == items[i]);
}

/// The predicate of being another identifier.
pub open spec fn other_than(id: u64) -> spec_fn(u64) -> bool {
    |candidate: u64| candidate != id
}

/// The identifiers other than `id`, in order.
pub open spec fn without_id(ids: Seq<u64>, id: u64) -> Seq<u64> {
    ids.filter(other_than(id))
}

/// Remove every occurrence of an identifier.
pub fn remove_id(ids: &mut Vec<u64>, id: u64)
    ensures
        final(ids)@ == without_id(old(ids)@, id),
{
    let ghost before = ids@;
    let ghost keep = other_than(id);
    let mut kept: Vec<u64> = Vec::new();
    let mut i: usize = 0;
    proof {
        lemma_filter_empty(before.take(0), keep);
    }
    while i < ids.len()
        invariant
            i <= ids@.len(),
            ids@ == before,
            keep == other_than(id),
            kept@ == before.take(i as int).filter(keep),
        decreases ids@.len() - i,
    {
        proof {
            lemma_filter_take_next(before, keep, i as int);
        }
        if ids[i] != id {
            kept.push(ids[i]);
        }
        i = i + 1;
    }
    assert(before.take(i as int) =~= before);
    *ids = kept;
}

/// Whether an identifier is in a list.
pub fn has_id(ids: &Vec<u64>, id: u64) -> (found: bool)
    ensures
        found == ids@.contains(id),
{
    let mut i: usize = 0;
    while i < ids.len()
        invariant
            i <= ids@.len(),
            forall|j: int| 0 <= j < i ==> ids@[j] != id,
        decreases ids@.len() - i,
    {
        if ids[i] == id {
            assert(ids@[i as int] == id);
            return true;
        }
        i = i + 1;
    }
    false
}

/// Nothing but the removed identifier leaves a list.
pub proof fn lemma_without_id(ids: Seq<u64>, id: u64, candidate: u64)
    ensures
        without_id(ids, id).contains(candidate) <==> candidate != id && ids.contains(candidate),
{
    broadcast use vstd::seq_lib::group_filter_ensures;

    let kept = without_id(ids, id);
    if kept.contains(candidate) {
        let i = kept.index_of(candidate);
        assert(other_than(id)(kept[i]));
        ids.lemma_filter_contains_rev(other_than(id), candidate);
    }
    if candidate != id && ids.contains(candidate) {
        let i = ids.index_of(candidate);
        ids.lemma_filter_contains(other_than(id), i);
    }
}

/// The predicate of being another number.
pub open spec fn unlike(number: u32) -> spec_fn(u32) -> bool {
    |candidate: u32| candidate != number
}

/// The numbers other than `number`, in order.
pub open spec fn without_number(numbers: Seq<u32>, number: u32) -> Seq<u32> {
    numbers.filter(unlike(number))
}

/// A list of numbers with one more at its end, unless it is there already.
pub open spec fn with_number(numbers: Seq<u32>, number: u32) -> Seq<u32> {
    if numbers.contains(number) {
        numbers
    } else {
        numbers.push(number)
    }
}

/// Whether a number is in a list.
pub fn has_number(numbers: &Vec<u32>, number: u32) -> (found: bool)
    ensures
        found == numbers@.contains(number),
{
    let mut i: usize = 0;
    while i < numbers.len()
        invariant
            i <= numbers@.len(),
            forall|j: int| 0 <= j < i ==> numbers@[j] != number,
        decreases numbers@.len() - i,
    {
        if numbers[i] == number {
            assert(numbers@[i as int] == number);
            return true;
        }
        i = i + 1;
    }
    false
}

/// Add a number to a list unless it is there already. Tells whether it was added.
pub fn insert_number(numbers: &mut Vec<u32>, number: u32) -> (added: bool)
    ensures
        final(numbers)@ == with_number(old(numbers)@, number),
        added == !old(numbers)@.contains(number),
{
    if has_number(numbers, number) {
        false
    } else {
        numbers.push(number);
        true
    }
}

/// Remove every occurrence of a number.
pub fn remove_number(numbers: &mut Vec<u32>, number: u32)
    ensures
        final(numbers)@ == without_number(old(numbers)@, number),
{
    let ghost before = numbers@;
    let ghost keep = unlike(number);
    let mut kept: Vec<u32> = Vec::new();
    let mut i: usize = 0;
    proof {
        lemma_filter_empty(before.take(0), keep);
    }
    while i < numbers.len()
        invariant
            i <= numbers@.len(),
            numbers@ == before,
            keep == unlike(number),
            kept@ == before.take(i as int).filter(keep),
        decreases numbers@.len() - i,
    {
        proof {
            lemma_filter_take_next(before, keep, i as int);
        }
        if numbers[i] != number {
            kept.push(numbers[i]);
        }
        i = i + 1;
    }
    assert(before.take(i as int) =~= before);
    *numbers = kept;
}

/// Nothing but the removed number leaves a list.
pub proof fn lemma_without_number(numbers: Seq<u32>, number: u32, candidate: u32)
    ensures
        without_number(numbers, number).contains(candidate) <==> candidate != number
            && numbers.contains(candidate),
{
    broadcast use vstd::seq_lib::group_filter_ensures;

    let kept = without_number(numbers, number);
    if kept.contains(candidate) {
        let i = kept.index_of(candidate);
        assert(unlike(number)(kept[i]));
        numbers.lemma_filter_contains_rev(unlike(number), candidate);
    }
    if candidate != number && numbers.contains(candidate) {
        let i = numbers.index_of(candidate);
        numbers.lemma_filter_contains(unlike(number), i);
    }
}

} // verus!
