//! What the durable queues promise about the order in which elements leave,
//! given a store that answers as `store` describes.

use crate::collections::codec::Encodable;
use crate::collections::durable::{
    popped_value, score_of, HasAsyncQueue, RedisFifoQueue, RedisLifoQueue,
};
use crate::collections::store::{
    is_lowest, lemma_bytes_precede_total, lemma_lowest_is_lowest, lemma_lowest_is_unique,
    list_after, list_after_repeated, list_reply, lowest, served_first, sorted_set_after,
    sorted_set_reply, StoreCommandView, StoreReplyView,
};
use vstd::prelude::*;

verus! {

/// Taking `times` items off the right end of a list that has as many leaves
/// the items to their left.
proof fn lemma_right_pops(list: Seq<Seq<u8>>, key: Seq<char>, times: nat)
    requires
        times <= list.len(),
    ensures
        list_after_repeated(list, StoreCommandView::ListPopRight { key }, times)
            == list.subrange(0, list.len() - times),
    decreases times,
{
    let pop = StoreCommandView::ListPopRight { key };
    if times == 0 {
        assert(list.subrange(0, list.len() as int) =~= list);
    } else {
        lemma_right_pops(list_after(list, pop), key, (times - 1) as nat);
        assert(list.drop_last().subrange(0, list.len() - times) =~= list.subrange(
            0,
            list.len() - times,
        ));
    }
}

/// A push makes the list one longer, a pop that finds an item makes it one
/// shorter, and a clear leaves nothing.
pub proof fn lemma_list_length_steps(list: Seq<Seq<u8>>, key: Seq<char>, payload: Seq<u8>)
    ensures
        list_after(list, StoreCommandView::ListPushLeft { key, payload }).len() == list.len() + 1,
        list.len() > 0 ==> list_after(list, StoreCommandView::ListPopRight { key }).len()
            == list.len() - 1,
        list.len() > 0 ==> list_after(list, StoreCommandView::ListPopLeft { key }).len()
            == list.len() - 1,
        list_after(list, StoreCommandView::Delete { key }).len() == 0,
        list_reply(list, StoreCommandView::ListLength { key }) == StoreReplyView::Length(
            list.len(),
        ),
{
}

/// A pop takes the item at its end of the list whether or not the item's
/// bytes decode: the reply holds the bytes of that item and of no other, the
/// item is gone from the list, and the items behind it stay as they were.
/// Where the bytes do not decode, the pop hands out no element.
pub proof fn lemma_pop_takes_one_item<'a, C, T: Clone + Encodable>(
    list: Seq<Seq<u8>>,
    key: Seq<char>,
)
    requires
        list.len() > 0,
    ensures
        ({
            let from_right = <RedisFifoQueue<'a, C> as HasAsyncQueue<T>>::pop_command(key);
            let from_left = <RedisLifoQueue<'a, C> as HasAsyncQueue<T>>::pop_command(key);
            &&& list_reply(list, from_right) == StoreReplyView::Payload(list.last())
            &&& list_after(list, from_right) == list.drop_last()
            &&& popped_value::<T>(list_reply(list, from_right)) == T::decoding(list.last())
            &&& list_reply(list, from_left) == StoreReplyView::Payload(list.first())
            &&& list_after(list, from_left) == list.drop_first()
            &&& popped_value::<T>(list_reply(list, from_left)) == T::decoding(list.first())
        }),
{
}

/// First in, first out. After `a` and then `b` were pushed onto a FIFO
/// queue, the elements that were there before leave first, oldest first;
/// the next pop hands out `a`, the one after it `b`, and then the queue is
/// empty. On a queue that was empty, the first two pops hand out `a`, then
/// `b`.
pub proof fn lemma_fifo_order<'a, C, T: Clone + Encodable>(
    list: Seq<Seq<u8>>,
    key: Seq<char>,
    a: T::V,
    b: T::V,
)
    requires
        T::representable(a),
        T::representable(b),
    ensures
        ({
            let push_a = StoreCommandView::ListPushLeft { key, payload: T::encoding(a) };
            let push_b = StoreCommandView::ListPushLeft { key, payload: T::encoding(b) };
            let pop = <RedisFifoQueue<'a, C> as HasAsyncQueue<T>>::pop_command(key);
            let filled = list_after(list_after(list, push_a), push_b);
            let ready = list_after_repeated(filled, pop, list.len());
            &&& forall|i: nat|
                i < list.len() ==> #[trigger] list_reply(list_after_repeated(filled, pop, i), pop)
                    == StoreReplyView::Payload(list[list.len() - 1 - i])
            &&& popped_value::<T>(list_reply(ready, pop)) == Some(a)
            &&& popped_value::<T>(list_reply(list_after(ready, pop), pop)) == Some(b)
            &&& list_after(list_after(ready, pop), pop).len() == 0
        }),
{
    let push_a = StoreCommandView::ListPushLeft { key, payload: T::encoding(a) };
    let push_b = StoreCommandView::ListPushLeft { key, payload: T::encoding(b) };
    let pop = StoreCommandView::ListPopRight { key };
    let filled = list_after(list_after(list, push_a), push_b);
    let ready = list_after_repeated(filled, pop, list.len());
    assert(filled =~= seq![T::encoding(b), T::encoding(a)] + list);
    lemma_right_pops(filled, key, list.len());
    assert(ready =~= seq![T::encoding(b), T::encoding(a)]);
    assert(list_after(ready, pop) =~= seq![T::encoding(b)]);
    T::lemma_round_trip(a);
    T::lemma_round_trip(b);
    assert forall|i: nat| i < list.len() implies #[trigger] list_reply(
        list_after_repeated(filled, pop, i),
        pop,
    ) == StoreReplyView::Payload(list[list.len() - 1 - i]) by {
        lemma_right_pops(filled, key, i);
    }
}

/// First in, first out, on a queue that was empty: after `a` and then `b`
/// were pushed, the next pop hands out `a`, the one after it `b`, and then
/// the queue is empty again.
pub proof fn lemma_fifo_order_from_empty<'a, C, T: Clone + Encodable>(
    key: Seq<char>,
    a: T::V,
    b: T::V,
)
    requires
        T::representable(a),
        T::representable(b),
    ensures
        ({
            let push_a = StoreCommandView::ListPushLeft { key, payload: T::encoding(a) };
            let push_b = StoreCommandView::ListPushLeft { key, payload: T::encoding(b) };
            let pop = <RedisFifoQueue<'a, C> as HasAsyncQueue<T>>::pop_command(key);
            let filled = list_after(list_after(Seq::empty(), push_a), push_b);
            &&& popped_value::<T>(list_reply(filled, pop)) == Some(a)
            &&& popped_value::<T>(list_reply(list_after(filled, pop), pop)) == Some(b)
            &&& list_after(list_after(filled, pop), pop).len() == 0
        }),
{
    lemma_fifo_order::<C, T>(Seq::empty(), key, a, b);
}

/// Last in, first out. After `a` and then `b` were pushed onto a LIFO
/// queue, whatever it held, the next pop hands out `b`, the one after it
/// `a`, and the queue is then as it was before the two pushes.
pub proof fn lemma_lifo_order<'a, C, T: Clone + Encodable>(
    list: Seq<Seq<u8>>,
    key: Seq<char>,
    a: T::V,
    b: T::V,
)
    requires
        T::representable(a),
        T::representable(b),
    ensures
        ({
            let push_a = StoreCommandView::ListPushLeft { key, payload: T::encoding(a) };
            let push_b = StoreCommandView::ListPushLeft { key, payload: T::encoding(b) };
            let pop = <RedisLifoQueue<'a, C> as HasAsyncQueue<T>>::pop_command(key);
            let filled = list_after(list_after(list, push_a), push_b);
            &&& popped_value::<T>(list_reply(filled, pop)) == Some(b)
            &&& popped_value::<T>(list_reply(list_after(filled, pop), pop)) == Some(a)
            &&& list_after(list_after(filled, pop), pop) == list
        }),
{
    let push_a = StoreCommandView::ListPushLeft { key, payload: T::encoding(a) };
    let push_b = StoreCommandView::ListPushLeft { key, payload: T::encoding(b) };
    let pop = StoreCommandView::ListPopLeft { key };
    let filled = list_after(list_after(list, push_a), push_b);
    assert(filled =~= seq![T::encoding(b), T::encoding(a)] + list);
    assert(list_after(filled, pop) =~= seq![T::encoding(a)] + list);
    assert(list_after(list_after(filled, pop), pop) =~= list);
    T::lemma_round_trip(a);
    T::lemma_round_trip(b);
}

/// The sorted set after `times` pops in a row.
pub open spec fn sorted_set_after_pops(set: Map<Seq<u8>, int>, key: Seq<char>, times: nat) -> Map<
    Seq<u8>,
    int,
>
    decreases times,
{
    if times == 0 {
        set
    } else {
        sorted_set_after(
            sorted_set_after_pops(set, key, (times - 1) as nat),
            StoreCommandView::SortedSetTakeLowest { key },
        )
    }
}

/// The reply to the pop that follows `earlier` pops in a row.
pub open spec fn nth_pop_reply(set: Map<Seq<u8>, int>, key: Seq<char>, earlier: nat)
    -> StoreReplyView {
    sorted_set_reply(
        sorted_set_after_pops(set, key, earlier),
        StoreCommandView::SortedSetTakeLowest { key },
    )
}

/// After `times` pops, that many members are gone, and those that stay
/// have the scores they had.
proof fn lemma_after_pops(set: Map<Seq<u8>, int>, key: Seq<char>, times: nat)
    requires
        set.dom().finite(),
        times <= set.dom().len(),
    ensures
        sorted_set_after_pops(set, key, times).dom().finite(),
        sorted_set_after_pops(set, key, times).dom().len() == set.dom().len() - times,
        forall|member: Seq<u8>| #[trigger]
            sorted_set_after_pops(set, key, times).dom().contains(member) ==> set.dom().contains(
                member,
            ) && sorted_set_after_pops(set, key, times)[member] == set[member],
    decreases times,
{
    if times > 0 {
        let before = sorted_set_after_pops(set, key, (times - 1) as nat);
        let after = sorted_set_after_pops(set, key, times);
        lemma_after_pops(set, key, (times - 1) as nat);
        lemma_lowest_is_lowest(before);
        assert forall|member: Seq<u8>| #[trigger] after.dom().contains(member) implies set.dom()
            .contains(member) && after[member] == set[member] by {
            assert(before.dom().contains(member));
        }
    }
}

/// Pops only take members away: what is there after `later` pops was
/// there after `earlier` pops, if `earlier` is not more than `later`.
proof fn lemma_pops_shrink(set: Map<Seq<u8>, int>, key: Seq<char>, earlier: nat, later: nat)
    requires
        set.dom().finite(),
        earlier <= later <= set.dom().len(),
    ensures
        forall|member: Seq<u8>| #[trigger]
            sorted_set_after_pops(set, key, later).dom().contains(member)
                ==> sorted_set_after_pops(set, key, earlier).dom().contains(member)
                && sorted_set_after_pops(set, key, later)[member] == sorted_set_after_pops(
                set,
                key,
                earlier,
            )[member],
    decreases later,
{
    if earlier < later {
        let start = sorted_set_after_pops(set, key, earlier);
        let before = sorted_set_after_pops(set, key, (later - 1) as nat);
        let after = sorted_set_after_pops(set, key, later);
        lemma_pops_shrink(set, key, earlier, (later - 1) as nat);
        assert forall|member: Seq<u8>| #[trigger] after.dom().contains(member) implies start.dom()
            .contains(member) && after[member] == start[member] by {
            assert(before.dom().contains(member));
        }
    }
}

/// Lowest score first. Of the pops that empty a priority queue, made in a
/// row, each hands out a member of the set, and an earlier one hands out a
/// member with a score no higher than a later one does; where the scores
/// are equal, the earlier member's bytes come first in dictionary order.
pub proof fn lemma_priority_order(
    set: Map<Seq<u8>, int>,
    key: Seq<char>,
    earlier: nat,
    later: nat,
)
    requires
        set.dom().finite(),
        earlier < later < set.dom().len(),
    ensures
        nth_pop_reply(set, key, earlier) matches StoreReplyView::Payload(first)
            && nth_pop_reply(set, key, later) matches StoreReplyView::Payload(second)
            && set.dom().contains(first) && set.dom().contains(second) && served_first(
            set,
            first,
            second,
        ) && set[first] <= set[second],
{
    let at_earlier = sorted_set_after_pops(set, key, earlier);
    let at_later = sorted_set_after_pops(set, key, later);
    lemma_after_pops(set, key, earlier);
    lemma_after_pops(set, key, later);
    lemma_pops_shrink(set, key, earlier, later);
    lemma_lowest_is_lowest(at_earlier);
    lemma_lowest_is_lowest(at_later);
    let first = lowest(at_earlier);
    let second = lowest(at_later);
    assert(at_later.dom().contains(second));
    assert(at_earlier.dom().contains(second));
    assert(at_earlier.dom().contains(first));
    assert(set.dom().contains(first) && set[first] == at_earlier[first]);
    assert(set.dom().contains(second) && set[second] == at_earlier[second]);
    assert(served_first(at_earlier, first, second));
}

/// No element twice, none lost. Of the pops that empty a priority queue,
/// made in a row, no two hand out the same member; after `times` of them
/// the set holds `times` members less, and each member still there kept its
/// score.
pub proof fn lemma_pops_are_distinct(
    set: Map<Seq<u8>, int>,
    key: Seq<char>,
    earlier: nat,
    later: nat,
)
    requires
        set.dom().finite(),
        earlier < later < set.dom().len(),
    ensures
        nth_pop_reply(set, key, earlier) matches StoreReplyView::Payload(first) && nth_pop_reply(
            set,
            key,
            later,
        ) matches StoreReplyView::Payload(second) && first != second && set.dom().contains(first)
            && set.dom().contains(second),
        sorted_set_after_pops(set, key, later + 1).dom().len() == set.dom().len() - (later + 1),
        sorted_set_after_pops(set, key, later + 1).submap_of(set),
{
    let at_earlier = sorted_set_after_pops(set, key, earlier);
    let at_next = sorted_set_after_pops(set, key, earlier + 1);
    let at_later = sorted_set_after_pops(set, key, later);
    lemma_after_pops(set, key, earlier);
    lemma_after_pops(set, key, later);
    lemma_after_pops(set, key, later + 1);
    lemma_pops_shrink(set, key, earlier + 1, later);
    lemma_lowest_is_lowest(at_earlier);
    lemma_lowest_is_lowest(at_later);
    assert(at_next == at_earlier.remove(lowest(at_earlier)));
    assert(at_earlier.dom().contains(lowest(at_earlier)));
    assert(at_later.dom().contains(lowest(at_later)));
    assert(at_next.dom().contains(lowest(at_later)));
}

/// The lower score leaves first, whatever the order of the pushes. After
/// two different elements were pushed onto an empty priority queue, the one
/// with the lower score, given or by default, is handed out by the next pop
/// and the other by the pop after it; then the queue is empty.
pub proof fn lemma_lower_score_leaves_first<T: Clone + Encodable>(
    key: Seq<char>,
    a: T::V,
    priority_a: Option<i32>,
    b: T::V,
    priority_b: Option<i32>,
)
    requires
        T::representable(a),
        T::representable(b),
        a != b,
        score_of(priority_a) < score_of(priority_b),
    ensures
        ({
            let push_a = StoreCommandView::SortedSetAdd {
                key,
                score: score_of(priority_a),
                member: T::encoding(a),
            };
            let push_b = StoreCommandView::SortedSetAdd {
                key,
                score: score_of(priority_b),
                member: T::encoding(b),
            };
            let pop = StoreCommandView::SortedSetTakeLowest { key };
            let a_then_b = sorted_set_after(sorted_set_after(Map::empty(), push_a), push_b);
            let b_then_a = sorted_set_after(sorted_set_after(Map::empty(), push_b), push_a);
            &&& a_then_b == b_then_a
            &&& popped_value::<T>(sorted_set_reply(a_then_b, pop)) == Some(a)
            &&& popped_value::<T>(sorted_set_reply(sorted_set_after(a_then_b, pop), pop)) == Some(
                b,
            )
            &&& sorted_set_after(sorted_set_after(a_then_b, pop), pop).dom().len() == 0
        }),
{
    let first = T::encoding(a);
    let second = T::encoding(b);
    T::lemma_round_trip(a);
    T::lemma_round_trip(b);
    assert(first != second);
    let nothing = Map::<Seq<u8>, int>::empty();
    let both = nothing.insert(first, score_of(priority_a)).insert(second, score_of(priority_b));
    let other_way = nothing.insert(second, score_of(priority_b)).insert(
        first,
        score_of(priority_a),
    );
    assert(both =~= other_way);
    lemma_bytes_precede_total(first, first);
    lemma_bytes_precede_total(second, second);
    assert(both.dom() =~= set![first, second]);
    assert(is_lowest(both, first));
    lemma_lowest_is_unique(both, first);
    let rest = both.remove(first);
    assert(rest.dom() =~= set![second]);
    assert(is_lowest(rest, second));
    lemma_lowest_is_unique(rest, second);
    assert(rest.remove(second).dom() =~= Set::<Seq<u8>>::empty());
}

/// A push of a member that is not yet in the set makes the set one larger;
/// a push of a member that is there only gives it the new score. A pop that
/// finds a member makes the set one smaller, and a clear leaves nothing.
pub proof fn lemma_sorted_set_length_steps(
    set: Map<Seq<u8>, int>,
    key: Seq<char>,
    score: int,
    member: Seq<u8>,
)
    requires
        set.dom().finite(),
    ensures
        ({
            let add = StoreCommandView::SortedSetAdd { key, score, member };
            let pop = StoreCommandView::SortedSetTakeLowest { key };
            &&& sorted_set_after(set, add).dom().len() == if set.dom().contains(member) {
                set.dom().len()
            } else {
                set.dom().len() + 1
            }
            &&& sorted_set_after(set, add)[member] == score
            &&& set.dom().len() > 0 ==> sorted_set_after(set, pop).dom().len() == set.dom().len()
                - 1
            &&& sorted_set_after(set, StoreCommandView::Delete { key }).dom().len() == 0
        }),
{
    if set.dom().len() > 0 {
        lemma_lowest_is_lowest(set);
    }
    assert(sorted_set_after(set, StoreCommandView::Delete { key }).dom() =~= Set::<
        Seq<u8>,
    >::empty());
}

} // verus!
