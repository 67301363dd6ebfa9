//! What holds of the lists: the queue, the sidebar and the history.

use vstd::multiset::*;
use vstd::prelude::*;
use vstd::seq_lib::*;

use crate::models::{DraftView, ReadingsView};
use crate::store::{
    arranged, distinct, first_of, lemma_slot_bounds, order_key, releases, slot, Order, StoreView,
};

verus! {

/// The drafts stand in order.
pub open spec fn in_order(s: Seq<DraftView>, order: Order) -> bool {
    forall|i: int, j: int|
        0 <= i < j < s.len() ==> order_key(order, #[trigger] s[i]) <= order_key(
            order,
            #[trigger] s[j],
        )
}

/// Of an ordered row, what stands before a slot does not come after the key, and what stands
/// behind it does.
proof fn lemma_slot_divides(s: Seq<DraftView>, order: Order, key: int)
    requires
        in_order(s, order),
    ensures
        0 <= slot(s, order, key) <= s.len(),
        forall|i: int| 0 <= i < slot(s, order, key) ==> order_key(order, #[trigger] s[i]) <= key,
        forall|i: int|
            slot(s, order, key) <= i < s.len() ==> order_key(order, #[trigger] s[i]) > key,
    decreases s.len(),
{
    if s.len() > 0 {
        if order_key(order, s.last()) <= key {
            assert forall|i: int| 0 <= i < s.len() implies order_key(order, #[trigger] s[i])
                <= key by {
                if i < s.len() - 1 {
                    assert(order_key(order, s[i]) <= order_key(order, s[s.len() - 1]));
                }
            }
        } else {
            let front = s.drop_last();
            assert forall|i: int, j: int| 0 <= i < j < front.len() implies order_key(
                order,
                #[trigger] front[i],
            ) <= order_key(order, #[trigger] front[j]) by {
                assert(order_key(order, s[i]) <= order_key(order, s[j]));
            }
            lemma_slot_divides(front, order, key);
            assert forall|i: int| 0 <= i < slot(s, order, key) implies order_key(
                order,
                #[trigger] s[i],
            ) <= key by {
                assert(front[i] == s[i]);
            }
            assert forall|i: int| slot(s, order, key) <= i < s.len() implies order_key(
                order,
                #[trigger] s[i],
            ) > key by {
                if i < s.len() - 1 {
                    assert(front[i] == s[i]);
                }
            }
        }
    }
}

/// Arranging puts the drafts in order.
pub proof fn arranging_orders(s: Seq<DraftView>, order: Order)
    ensures
        in_order(arranged(s, order), order),
    decreases s.len(),
{
    if s.len() > 0 {
        let before = arranged(s.drop_last(), order);
        let key = order_key(order, s.last());
        arranging_orders(s.drop_last(), order);
        lemma_slot_divides(before, order, key);
        let at = slot(before, order, key);
        let after = arranged(s, order);
        assert forall|i: int, j: int| 0 <= i < j < after.len() implies order_key(
            order,
            #[trigger] after[i],
        ) <= order_key(order, #[trigger] after[j]) by {
            let i0 = if i < at { i } else { i - 1 };
            let j0 = if j < at { j } else { j - 1 };
            if i == at {
                assert(after[j] == before[j0]);
            } else if j == at {
                assert(after[i] == before[i0]);
            } else {
                assert(after[i] == before[i0]);
                assert(after[j] == before[j0]);
                assert(order_key(order, before[i0]) <= order_key(order, before[j0]));
            }
        }
    }
}

/// Arranging neither loses a draft nor makes one.
pub proof fn arranging_keeps_every_draft(s: Seq<DraftView>, order: Order)
    ensures
        arranged(s, order).to_multiset() == s.to_multiset(),
        arranged(s, order).len() == s.len(),
        forall|d: DraftView| #[trigger] arranged(s, order).contains(d) <==> s.contains(d),
    decreases s.len(),
{
    if s.len() > 0 {
        let before = arranged(s.drop_last(), order);
        let key = order_key(order, s.last());
        arranging_keeps_every_draft(s.drop_last(), order);
        lemma_slot_bounds(before, order, key);
        to_multiset_insert(before, slot(before, order, key), s.last());
        to_multiset_build(s.drop_last(), s.last());
        assert(s.drop_last().push(s.last()) =~= s);
    }
    to_multiset_len(s);
    to_multiset_len(arranged(s, order));
    assert forall|d: DraftView| #[trigger] arranged(s, order).contains(d) <==> s.contains(d) by {
        to_multiset_contains(s, d);
        to_multiset_contains(arranged(s, order), d);
    }
}

/// Filtering with one more draft in the middle.
proof fn lemma_filter_insert(
    s: Seq<DraftView>,
    at: int,
    d: DraftView,
    pred: spec_fn(DraftView) -> bool,
)
    requires
        0 <= at <= s.len(),
    ensures
        s.insert(at, d).filter(pred) == s.take(at).filter(pred) + (if pred(d) {
            seq![d]
        } else {
            seq![]
        }) + s.skip(at).filter(pred),
{
    let one = seq![d];
    assert(s.insert(at, d) =~= s.take(at) + one + s.skip(at));
    Seq::filter_distributes_over_add(s.take(at), one, pred);
    Seq::filter_distributes_over_add(s.take(at) + one, s.skip(at), pred);
    reveal(Seq::filter);
    assert(one.drop_last() =~= Seq::empty());
    assert(Seq::<DraftView>::empty().filter(pred) =~= Seq::empty());
    assert(one.filter(pred) =~= if pred(d) {
        one
    } else {
        Seq::empty()
    });
}

/// Nothing is left where nothing is wanted.
proof fn lemma_filter_none(s: Seq<DraftView>, pred: spec_fn(DraftView) -> bool)
    requires
        forall|i: int| 0 <= i < s.len() ==> !pred(#[trigger] s[i]),
    ensures
        s.filter(pred) == Seq::<DraftView>::empty(),
    decreases s.len(),
{
    reveal(Seq::filter);
    if s.len() > 0 {
        assert(!pred(s[s.len() - 1]));
        assert forall|i: int| 0 <= i < s.drop_last().len() implies !pred(
            #[trigger] s.drop_last()[i],
        ) by {
            assert(s.drop_last()[i] == s[i]);
        }
        lemma_filter_none(s.drop_last(), pred);
    }
}

/// Arranging is fair: the drafts with one and the same key stay in the order they stood in.
pub proof fn arranging_is_stable(s: Seq<DraftView>, order: Order, key: int)
    ensures
        arranged(s, order).filter(|d: DraftView| order_key(order, d) == key) == s.filter(
            |d: DraftView| order_key(order, d) == key,
        ),
    decreases s.len(),
{
    let pred = |d: DraftView| order_key(order, d) == key;
    reveal(Seq::filter);
    if s.len() > 0 {
        let before = arranged(s.drop_last(), order);
        let d = s.last();
        arranging_is_stable(s.drop_last(), order, key);
        arranging_orders(s.drop_last(), order);
        lemma_slot_divides(before, order, order_key(order, d));
        let at = slot(before, order, order_key(order, d));
        lemma_filter_insert(before, at, d, pred);
        assert(before =~= before.take(at) + before.skip(at));
        Seq::filter_distributes_over_add(before.take(at), before.skip(at), pred);
        if pred(d) {
            assert forall|i: int| 0 <= i < before.skip(at).len() implies !pred(
                #[trigger] before.skip(at)[i],
            ) by {
                assert(before.skip(at)[i] == before[at + i]);
            }
            lemma_filter_none(before.skip(at), pred);
            assert(arranged(s, order).filter(pred) =~= before.filter(pred).push(d));
        } else {
            assert(arranged(s, order).filter(pred) =~= before.filter(pred));
        }
    }
}

/// What is left of a row after filtering it.
proof fn lemma_filter_members(s: Seq<DraftView>, pred: spec_fn(DraftView) -> bool, d: DraftView)
    ensures
        s.filter(pred).contains(d) <==> s.contains(d) && pred(d),
{
    if s.filter(pred).contains(d) {
        let i = choose|i: int| 0 <= i < s.filter(pred).len() && s.filter(pred)[i] == d;
        s.lemma_filter_pred(pred, i);
        s.lemma_filter_contains_rev(pred, d);
    }
    if s.contains(d) && pred(d) {
        let i = choose|i: int| 0 <= i < s.len() && s[i] == d;
        s.lemma_filter_contains(pred, i);
    }
}

/// The queue holds exactly the armed drafts whose condition the readings meet, and the
/// oldest comes first.
pub proof fn the_queue_is_what_may_go(s: StoreView, r: ReadingsView)
    ensures
        forall|d: DraftView| #[trigger]
            s.releasable(r).contains(d) <==> s.rows.contains(d) && d.state is Armed
                && d.trigger.satisfied(r, d.seen_busy),
        forall|i: int, j: int|
            0 <= i < j < s.releasable(r).len() ==> (#[trigger] s.releasable(r)[i]).created_at <= (
            #[trigger] s.releasable(r)[j]).created_at,
        s.releasable(r).to_multiset() == s.rows.filter(
            |d: DraftView| releases(d, r),
        ).to_multiset(),
{
    let pred = |d: DraftView| releases(d, r);
    let picked = s.rows.filter(pred);
    arranging_orders(picked, Order::Created);
    arranging_keeps_every_draft(picked, Order::Created);
    assert forall|d: DraftView| #[trigger]
        s.releasable(r).contains(d) <==> s.rows.contains(d) && d.state is Armed
            && d.trigger.satisfied(r, d.seen_busy) by {
        lemma_filter_members(s.rows, pred, d);
    }
    let queue = s.releasable(r);
    assert forall|i: int, j: int| 0 <= i < j < queue.len() implies (#[trigger] queue[i]).created_at
        <= (#[trigger] queue[j]).created_at by {
        assert(order_key(Order::Created, queue[i]) <= order_key(Order::Created, queue[j]));
    }
}

/// The first of the queue is as old as any draft that may go.
pub proof fn the_oldest_goes_first(s: StoreView, r: ReadingsView, d: DraftView)
    requires
        s.rows.contains(d),
        d.state is Armed,
        d.trigger.satisfied(r, d.seen_busy),
    ensures
        s.releasable(r).len() > 0,
        s.releasable(r).first().created_at <= d.created_at,
{
    the_queue_is_what_may_go(s, r);
    assert(s.releasable(r).contains(d));
    let i = choose|i: int| 0 <= i < s.releasable(r).len() && s.releasable(r)[i] == d;
    if i > 0 {
        assert(s.releasable(r)[0].created_at <= s.releasable(r)[i].created_at);
    }
}

/// The start of a row holds nothing that the row does not hold.
proof fn lemma_first_of(s: Seq<DraftView>, limit: nat, d: DraftView)
    ensures
        first_of(s, limit).len() <= limit,
        first_of(s, limit).contains(d) ==> s.contains(d),
        s.len() <= limit ==> first_of(s, limit) == s,
{
    if first_of(s, limit).contains(d) {
        let i = choose|i: int| 0 <= i < first_of(s, limit).len() && first_of(s, limit)[i] == d;
        assert(s[i] == d);
    }
}

/// The sidebar shows every draft that is not sent, once, and none that is, the one touched last
/// first.
pub proof fn the_sidebar_shows_what_is_not_sent(s: StoreView)
    ensures
        forall|d: DraftView| #[trigger]
            s.open_drafts().contains(d) <==> s.rows.contains(d) && !(d.state is Sent),
        s.open_drafts().to_multiset() == s.rows.filter(
            |d: DraftView| !(d.state is Sent),
        ).to_multiset(),
        forall|i: int, j: int|
            0 <= i < j < s.open_drafts().len() ==> (#[trigger] s.open_drafts()[i]).updated_at >= (
            #[trigger] s.open_drafts()[j]).updated_at,
{
    let pred = |d: DraftView| !(d.state is Sent);
    let shown = s.open_drafts();
    arranging_orders(s.rows.filter(pred), Order::Updated);
    arranging_keeps_every_draft(s.rows.filter(pred), Order::Updated);
    assert forall|d: DraftView| #[trigger] shown.contains(d) <==> s.rows.contains(d) && !(
    d.state is Sent) by {
        lemma_filter_members(s.rows, pred, d);
    }
    assert forall|i: int, j: int| 0 <= i < j < shown.len() implies (#[trigger] shown[i]).updated_at
        >= (#[trigger] shown[j]).updated_at by {
        assert(order_key(Order::Updated, shown[i]) <= order_key(Order::Updated, shown[j]));
    }
}

/// The history shows only drafts that are sent, never more than asked for, and all of them
/// where that many were asked for. It shows them the one sent last first, and none that it
/// leaves out was sent later than one it shows.
pub proof fn the_history_shows_what_is_sent(s: StoreView, limit: nat)
    ensures
        forall|d: DraftView| #[trigger]
            s.sent_drafts(limit).contains(d) ==> s.rows.contains(d) && d.state is Sent,
        s.rows.filter(|d: DraftView| d.state is Sent).len() <= limit ==> (forall|d: DraftView|
            s.rows.contains(d) && d.state is Sent ==> #[trigger] s.sent_drafts(limit).contains(d)),
        s.sent_drafts(limit).len() <= limit,
        forall|i: int, j: int|
            0 <= i < j < s.sent_drafts(limit).len() ==> order_key(
                Order::Sent,
                #[trigger] s.sent_drafts(limit)[i],
            ) <= order_key(Order::Sent, #[trigger] s.sent_drafts(limit)[j]),
        forall|d: DraftView, e: DraftView|
            s.rows.contains(d) && d.state is Sent && !(#[trigger] s.sent_drafts(limit).contains(d))
                && #[trigger] s.sent_drafts(limit).contains(e) ==> order_key(Order::Sent, e)
                <= order_key(Order::Sent, d),
{
    let pred = |d: DraftView| d.state is Sent;
    let all = arranged(s.rows.filter(pred), Order::Sent);
    let shown = s.sent_drafts(limit);
    arranging_orders(s.rows.filter(pred), Order::Sent);
    arranging_keeps_every_draft(s.rows.filter(pred), Order::Sent);
    lemma_first_of(all, limit, arbitrary());
    assert forall|d: DraftView| #[trigger] shown.contains(d) implies s.rows.contains(d)
        && d.state is Sent by {
        lemma_first_of(all, limit, d);
        lemma_filter_members(s.rows, pred, d);
    }
    if s.rows.filter(pred).len() <= limit {
        assert forall|d: DraftView| s.rows.contains(d) && d.state is Sent implies
            #[trigger] shown.contains(d) by {
            lemma_filter_members(s.rows, pred, d);
            assert(all.contains(d));
        }
    }
    assert forall|i: int, j: int| 0 <= i < j < shown.len() implies order_key(
        Order::Sent,
        #[trigger] shown[i],
    ) <= order_key(Order::Sent, #[trigger] shown[j]) by {
        assert(order_key(Order::Sent, all[i]) <= order_key(Order::Sent, all[j]));
    }
    assert forall|d: DraftView, e: DraftView|
        s.rows.contains(d) && d.state is Sent && !(#[trigger] shown.contains(d))
            && #[trigger] shown.contains(e) implies order_key(Order::Sent, e) <= order_key(
        Order::Sent,
        d,
    ) by {
        lemma_filter_members(s.rows, pred, d);
        assert(all.contains(d));
        let i = choose|i: int| 0 <= i < all.len() && all[i] == d;
        let j = choose|j: int| 0 <= j < shown.len() && shown[j] == e;
        assert(all[j] == e);
        if i < shown.len() {
            assert(shown[i] == d);
        }
        assert(order_key(Order::Sent, all[j]) <= order_key(Order::Sent, all[i]));
    }
}

/// The history goes by when each draft was sent: one that stands before another was sent no
/// earlier, one of which the instant is not known comes after all of which it is, and none that
/// is left out was sent later than one that is shown.
pub proof fn the_history_goes_by_when_drafts_were_sent(s: StoreView, limit: nat)
    ensures
        forall|i: int, j: int|
            0 <= i < j < s.sent_drafts(limit).len() && (
            #[trigger] s.sent_drafts(limit)[j]).sent_at is Some ==> (
            #[trigger] s.sent_drafts(limit)[i]).sent_at is Some && s.sent_drafts(limit)[i].sent_at->0
                >= s.sent_drafts(limit)[j].sent_at->0,
        forall|d: DraftView, e: DraftView|
            s.rows.contains(d) && d.state is Sent && d.sent_at is Some && !(
            #[trigger] s.sent_drafts(limit).contains(d)) && #[trigger] s.sent_drafts(
                limit,
            ).contains(e) ==> e.sent_at is Some && e.sent_at->0 >= d.sent_at->0,
        forall|d: DraftView|
            s.rows.contains(d) && d.state is Sent && !(#[trigger] s.sent_drafts(limit).contains(d))
                ==> s.sent_drafts(limit).len() == limit,
{
    the_history_shows_what_is_sent(s, limit);
    let shown = s.sent_drafts(limit);
    assert forall|i: int, j: int|
        0 <= i < j < shown.len() && (#[trigger] shown[j]).sent_at is Some implies (
    #[trigger] shown[i]).sent_at is Some && shown[i].sent_at->0 >= shown[j].sent_at->0 by {
        assert(order_key(Order::Sent, shown[i]) <= order_key(Order::Sent, shown[j]));
    }
    let pred = |d: DraftView| d.state is Sent;
    arranging_keeps_every_draft(s.rows.filter(pred), Order::Sent);
}

/// No list shows a draft twice.
pub proof fn no_list_repeats_a_draft(s: StoreView, r: ReadingsView, limit: nat)
    requires
        s.wf(),
    ensures
        forall|i: int, j: int|
            0 <= i < j < s.releasable(r).len() ==> (#[trigger] s.releasable(r)[i]).id != (
            #[trigger] s.releasable(r)[j]).id,
        forall|i: int, j: int|
            0 <= i < j < s.open_drafts().len() ==> (#[trigger] s.open_drafts()[i]).id != (
            #[trigger] s.open_drafts()[j]).id,
        forall|i: int, j: int|
            0 <= i < j < s.sent_drafts(limit).len() ==> (#[trigger] s.sent_drafts(limit)[i]).id != (
            #[trigger] s.sent_drafts(limit)[j]).id,
{
    lemma_arranged_distinct(s, |d: DraftView| releases(d, r), Order::Created);
    lemma_arranged_distinct(s, |d: DraftView| !(d.state is Sent), Order::Updated);
    lemma_arranged_distinct(s, |d: DraftView| d.state is Sent, Order::Sent);
}

/// Some of the drafts, arranged, are distinct.
proof fn lemma_arranged_distinct(s: StoreView, pred: spec_fn(DraftView) -> bool, order: Order)
    requires
        s.wf(),
    ensures
        distinct(arranged(s.rows.filter(pred), order)),
{
    let picked = s.rows.filter(pred);
    let all = arranged(picked, order);
    lemma_filter_distinct(s.rows, pred);
    assert(picked.no_duplicates()) by {
        assert forall|i: int, j: int| 0 <= i < j < picked.len() implies picked[i] != picked[j] by {
            assert(picked[i].id != picked[j].id);
        }
    }
    picked.lemma_multiset_has_no_duplicates();
    arranging_keeps_every_draft(picked, order);
    all.lemma_multiset_has_no_duplicates_conv();
    assert forall|i: int, j: int| 0 <= i < j < all.len() implies (#[trigger] all[i]).id != (
    #[trigger] all[j]).id by {
        assert(all.contains(all[i]));
        assert(all.contains(all[j]));
        let a = choose|a: int| 0 <= a < picked.len() && picked[a] == all[i];
        let b = choose|b: int| 0 <= b < picked.len() && picked[b] == all[j];
        assert(all[i] != all[j]);
        if a < b {
            assert(picked[a].id != picked[b].id);
        } else if b < a {
            assert(picked[b].id != picked[a].id);
        }
    }
}

/// Some of distinct drafts are distinct.
proof fn lemma_filter_distinct(s: Seq<DraftView>, pred: spec_fn(DraftView) -> bool)
    requires
        distinct(s),
    ensures
        distinct(s.filter(pred)),
    decreases s.len(),
{
    reveal(Seq::filter);
    if s.len() > 0 {
        let front = s.drop_last();
        assert forall|i: int, j: int| 0 <= i < j < front.len() implies (#[trigger] front[i]).id != (
        #[trigger] front[j]).id by {
            assert(s[i].id != s[j].id);
        }
        lemma_filter_distinct(front, pred);
        let kept = s.filter(pred);
        assert forall|i: int, j: int| 0 <= i < j < kept.len() implies (#[trigger] kept[i]).id != (
        #[trigger] kept[j]).id by {
            let before = front.filter(pred);
            if j < before.len() {
                assert(before[i].id != before[j].id);
            } else {
                assert(before.contains(before[i]));
                lemma_filter_members(front, pred, before[i]);
                let k = choose|k: int| 0 <= k < front.len() && front[k] == before[i];
                assert(s[k].id != s[s.len() - 1].id);
            }
        }
    }
}

/// A draft is in the sidebar or in the history, never in both.
pub proof fn sent_and_open_are_apart(s: StoreView, limit: nat, d: DraftView)
    ensures
        !(s.open_drafts().contains(d) && s.sent_drafts(limit).contains(d)),
{
    the_sidebar_shows_what_is_not_sent(s);
    the_history_shows_what_is_sent(s, limit);
}

} // verus!
