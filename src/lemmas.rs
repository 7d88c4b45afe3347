use vstd::prelude::*;
use crate::clock::SECONDS_PER_DAY;
use crate::fefo::{after_sale, available, drains_before, eligible, fefo_draw, stock_ahead};
use crate::models::{LedgerError, Pharmacy, StockBatch, TransferRecord};
use crate::pharmacy::{expiring, u32_max};

verus! {

/// Units of the medicine held by the lots, over all warehouses.
pub open spec fn medicine_stock(s: Seq<StockBatch>, medicine_id: u32) -> nat
    decreases s.len(),
{
    if s.len() == 0 {
        0
    } else {
        medicine_stock(s.drop_last(), medicine_id) + if s.last().medicine_id == medicine_id {
            s.last().quantity as nat
        } else {
            0
        }
    }
}

/// Units that the transfer records show taken out of lot `batch_id`: the
/// opening quantities of the lots split off from it.
pub open spec fn moved_out(log: Seq<TransferRecord>, batch_id: u32) -> nat
    decreases log.len(),
{
    if log.len() == 0 {
        0
    } else {
        moved_out(log.drop_last(), batch_id) + if log.last().batch_id == batch_id {
            log.last().quantity as nat
        } else {
            0
        }
    }
}

/// The largest lot id, or 0 when there is no lot.
pub open spec fn max_batch_id(s: Seq<StockBatch>) -> nat
    decreases s.len(),
{
    if s.len() == 0 {
        0
    } else if max_batch_id(s.drop_last()) >= s.last().id {
        max_batch_id(s.drop_last())
    } else {
        s.last().id as nat
    }
}

proof fn lemma_medicine_stock_update(s: Seq<StockBatch>, i: int, x: StockBatch, medicine_id: u32)
    requires
        0 <= i < s.len(),
    ensures
        medicine_stock(s.update(i, x), medicine_id) + (if s[i].medicine_id == medicine_id {
            s[i].quantity as nat
        } else {
            0
        }) == medicine_stock(s, medicine_id) + (if x.medicine_id == medicine_id {
            x.quantity as nat
        } else {
            0
        }),
    decreases s.len(),
{
    if i == s.len() - 1 {
        assert(s.update(i, x).drop_last() =~= s.drop_last());
    } else {
        assert(s.update(i, x).drop_last() =~= s.drop_last().update(i, x));
        lemma_medicine_stock_update(s.drop_last(), i, x, medicine_id);
    }
}

proof fn lemma_max_batch_id(s: Seq<StockBatch>)
    requires
        forall|i: int| 0 <= i < s.len() ==> s[i].id == i + 1,
    ensures
        max_batch_id(s) == s.len(),
    decreases s.len(),
{
    if s.len() > 0 {
        lemma_max_batch_id(s.drop_last());
    }
}

/// A transfer keeps, for every medicine, the units held over all warehouses:
/// the source loses exactly what the new lot holds.
pub proof fn lemma_transfer_conserves_stock(
    old: Pharmacy,
    new: Pharmacy,
    batch_id: u32,
    to_warehouse_id: u32,
    quantity: u32,
    now: i64,
    medicine_id: u32,
)
    requires
        old.wf(),
        old.transfer_error(batch_id, to_warehouse_id, quantity) is None,
        Pharmacy::transferred(old, new, batch_id, to_warehouse_id, quantity, now),
    ensures
        new.batches@[batch_id - 1].quantity + new.batches@.last().quantity
            == old.batches@[batch_id - 1].quantity,
        medicine_stock(new.batches@, medicine_id) == medicine_stock(old.batches@, medicine_id),
{
    let s = old.batches@[batch_id - 1];
    let rest = StockBatch { quantity: (s.quantity - quantity) as u32, ..s };
    let updated = old.batches@.update(batch_id - 1, rest);
    lemma_medicine_stock_update(old.batches@, batch_id - 1, rest, medicine_id);
    assert(new.batches@.drop_last() =~= updated);
}

/// A transfer keeps, for every lot, what the lot holds plus what transfers
/// have taken out of it into new lots: a lot's opening quantity is always
/// accounted for, however often it is split.
pub proof fn lemma_transfer_conserves_lot(
    old: Pharmacy,
    new: Pharmacy,
    batch_id: u32,
    to_warehouse_id: u32,
    quantity: u32,
    now: i64,
    lot: u32,
)
    requires
        old.wf(),
        old.transfer_error(batch_id, to_warehouse_id, quantity) is None,
        Pharmacy::transferred(old, new, batch_id, to_warehouse_id, quantity, now),
        old.has_batch(lot),
    ensures
        new.batches@[lot - 1].quantity + moved_out(new.transfer_log@, lot)
            == old.batches@[lot - 1].quantity + moved_out(old.transfer_log@, lot),
{
    assert(new.transfer_log@.drop_last() =~= old.transfer_log@);
}

/// A transfer of more than the lot holds, to a warehouse that exists, is
/// refused with the quantity the lot holds; the operation then changes nothing.
pub proof fn lemma_no_partial_transfer(p: Pharmacy, batch_id: u32, to_warehouse_id: u32, quantity: u32)
    requires
        p.wf(),
        p.has_batch(batch_id),
        p.has_warehouse(to_warehouse_id),
        quantity > p.batches@[batch_id - 1].quantity,
    ensures
        p.transfer_error(batch_id, to_warehouse_id, quantity) == Some(
            LedgerError::InsufficientQuantity { available: p.batches@[batch_id - 1].quantity },
        ),
{
}

/// A sale of more than the warehouse holds of the medicine is refused with
/// the shortfall, and nothing changes.
pub proof fn lemma_sale_shortfall(p: Pharmacy, medicine_id: u32, quantity: u32, warehouse_id: u32)
    requires
        p.wf(),
        p.has_warehouse(warehouse_id),
        p.export_log@.len() < u32_max(),
        available(p.batches@, medicine_id, warehouse_id) < quantity,
    ensures
        p.sale_error(medicine_id, quantity, warehouse_id) == Some(
            LedgerError::InsufficientStock {
                short_by: (quantity - available(p.batches@, medicine_id, warehouse_id)) as u32,
            },
        ),
{
}

/// Two sales of the same request from the same state leave every lot the
/// same: the allocation depends on the state and the request alone.
pub proof fn lemma_sale_deterministic(
    old: Pharmacy,
    first: Pharmacy,
    second: Pharmacy,
    medicine_id: u32,
    quantity: u32,
    warehouse_id: u32,
    now1: i64,
    now2: i64,
)
    requires
        Pharmacy::sold(old, first, medicine_id, quantity, warehouse_id, now1),
        Pharmacy::sold(old, second, medicine_id, quantity, warehouse_id, now2),
    ensures
        first.batches@ == second.batches@,
        first.batches@ == after_sale(old.batches@, medicine_id, warehouse_id, quantity as nat),
{
}

/// An import gives the new lot the largest lot id so far plus one; the
/// lots already there keep theirs, so no id is ever given twice.
pub proof fn lemma_import_fresh_id(
    old: Pharmacy,
    new: Pharmacy,
    medicine_id: u32,
    medicine_name: String,
    warehouse_id: u32,
    quantity: u32,
    unit_price: u64,
    expiry_date: i64,
    now: i64,
)
    requires
        old.wf(),
        old.import_error(warehouse_id, quantity, unit_price) is None,
        Pharmacy::imported(
            old,
            new,
            medicine_id,
            medicine_name,
            warehouse_id,
            quantity,
            unit_price,
            expiry_date,
            now,
        ),
    ensures
        new.batches@.last().id == max_batch_id(old.batches@) + 1,
        forall|i: int| 0 <= i < old.batches@.len() ==> new.batches@[i].id == old.batches@[i].id,
        forall|i: int, j: int|
            0 <= i < j < new.batches@.len() ==> new.batches@[i].id != new.batches@[j].id,
{
    lemma_max_batch_id(old.batches@);
    assert forall|i: int| 0 <= i < new.batches@.len() implies new.batches@[i].id == i + 1 by {
        if i < old.batches@.len() {
            assert(new.batches@[i] == old.batches@[i]);
        }
    }
}

/// A transfer gives the new lot the largest lot id so far plus one; the
/// lots already there, drained or not, keep theirs, so no id is ever given
/// twice.
pub proof fn lemma_transfer_fresh_id(
    old: Pharmacy,
    new: Pharmacy,
    batch_id: u32,
    to_warehouse_id: u32,
    quantity: u32,
    now: i64,
)
    requires
        old.wf(),
        old.transfer_error(batch_id, to_warehouse_id, quantity) is None,
        Pharmacy::transferred(old, new, batch_id, to_warehouse_id, quantity, now),
    ensures
        new.batches@.last().id == max_batch_id(old.batches@) + 1,
        forall|i: int| 0 <= i < old.batches@.len() ==> new.batches@[i].id == old.batches@[i].id,
        forall|i: int, j: int|
            0 <= i < j < new.batches@.len() ==> new.batches@[i].id != new.batches@[j].id,
{
    lemma_max_batch_id(old.batches@);
    assert forall|i: int| 0 <= i < new.batches@.len() implies new.batches@[i].id == i + 1 by {
        if i < old.batches@.len() {
            assert(new.batches@[i].id == old.batches@[i].id);
        }
    }
}

proof fn lemma_expiring_contains(s: Seq<StockBatch>, limit: int, x: StockBatch)
    ensures
        expiring(s, limit).contains(x) <==> (s.contains(x) && x.quantity > 0 && x.expiry_date
            <= limit),
    decreases s.len(),
{
    if s.len() > 0 {
        lemma_expiring_contains(s.drop_last(), limit, x);
        let e = expiring(s.drop_last(), limit);
        if s.last().quantity > 0 && s.last().expiry_date <= limit {
            assert(expiring(s, limit) == e.push(s.last()));
            if expiring(s, limit).contains(x) && x != s.last() {
                let k = choose|k: int| 0 <= k < e.len() + 1 && e.push(s.last())[k] == x;
                assert(e[k] == x);
            }
            if e.contains(x) {
                let k = choose|k: int| 0 <= k < e.len() && e[k] == x;
                assert(e.push(s.last())[k] == x);
            }
            assert(e.push(s.last())[e.len() as int] == s.last());
        }
        if s.contains(x) && x != s.last() {
            let k = choose|k: int| 0 <= k < s.len() && s[k] == x;
            assert(s.drop_last()[k] == x);
        }
        if s.drop_last().contains(x) {
            let k = choose|k: int| 0 <= k < s.len() - 1 && s.drop_last()[k] == x;
            assert(s[k] == x);
        }
        assert(s[s.len() - 1] == s.last());
    }
}

/// A lot that holds stock and expires exactly `days` days after `now` is
/// among the lots expiring within `days` days; had it expired one day later,
/// it would not be.
pub proof fn lemma_expiry_boundary(s: Seq<StockBatch>, i: int, days: u32, now: i64)
    requires
        0 <= i < s.len(),
        s[i].quantity > 0,
    ensures
        s[i].expiry_date == now + days * SECONDS_PER_DAY ==> expiring(
            s,
            now + days * SECONDS_PER_DAY,
        ).contains(s[i]),
        s[i].expiry_date == now + (days + 1) * SECONDS_PER_DAY ==> !expiring(
            s,
            now + days * SECONDS_PER_DAY,
        ).contains(s[i]),
{
    lemma_expiring_contains(s, now + days * SECONDS_PER_DAY, s[i]);
}

/// Sum of `f` over the lots.
pub open spec fn sum_by(s: Seq<StockBatch>, f: spec_fn(StockBatch) -> nat) -> nat
    decreases s.len(),
{
    if s.len() == 0 {
        0
    } else {
        sum_by(s.drop_last(), f) + f(s.last())
    }
}

/// No two lots share an id.
pub open spec fn distinct_ids(s: Seq<StockBatch>) -> bool {
    forall|i: int, j: int| 0 <= i < s.len() && 0 <= j < s.len() && i != j ==> s[i].id != s[j].id
}

/// Units a sale of `quantity` takes from the lots of `s`, a part of `all`.
pub open spec fn drawn_total(
    s: Seq<StockBatch>,
    all: Seq<StockBatch>,
    medicine_id: u32,
    warehouse_id: u32,
    quantity: nat,
) -> nat {
    sum_by(s, |b: StockBatch| fefo_draw(all, medicine_id, warehouse_id, quantity, b))
}

proof fn lemma_sum_by_remove(s: Seq<StockBatch>, f: spec_fn(StockBatch) -> nat, k: int)
    requires
        0 <= k < s.len(),
    ensures
        sum_by(s, f) == sum_by(s.remove(k), f) + f(s[k]),
    decreases s.len(),
{
    if k == s.len() - 1 {
        assert(s.remove(k) =~= s.drop_last());
    } else {
        assert(s.remove(k).drop_last() =~= s.drop_last().remove(k));
        assert(s.remove(k).last() == s.last());
        lemma_sum_by_remove(s.drop_last(), f, k);
    }
}

proof fn lemma_sum_by_congruent(s: Seq<StockBatch>, f: spec_fn(StockBatch) -> nat, g: spec_fn(StockBatch) -> nat)
    requires
        forall|i: int| 0 <= i < s.len() ==> f(s[i]) == g(s[i]),
    ensures
        sum_by(s, f) == sum_by(s, g),
    decreases s.len(),
{
    if s.len() > 0 {
        lemma_sum_by_congruent(s.drop_last(), f, g);
    }
}

proof fn lemma_available_sum(s: Seq<StockBatch>, medicine_id: u32, warehouse_id: u32)
    ensures
        available(s, medicine_id, warehouse_id) == sum_by(
            s,
            |b: StockBatch|
                if eligible(b, medicine_id, warehouse_id) {
                    b.quantity as nat
                } else {
                    0
                },
        ),
    decreases s.len(),
{
    if s.len() > 0 {
        lemma_available_sum(s.drop_last(), medicine_id, warehouse_id);
    }
}

proof fn lemma_stock_ahead_sum(s: Seq<StockBatch>, medicine_id: u32, warehouse_id: u32, b: StockBatch)
    ensures
        stock_ahead(s, medicine_id, warehouse_id, b) == sum_by(
            s,
            |c: StockBatch|
                if eligible(c, medicine_id, warehouse_id) && drains_before(c, b) {
                    c.quantity as nat
                } else {
                    0
                },
        ),
    decreases s.len(),
{
    if s.len() > 0 {
        lemma_stock_ahead_sum(s.drop_last(), medicine_id, warehouse_id, b);
    }
}

/// The index of the lot that drains last.
proof fn lemma_last_to_drain(s: Seq<StockBatch>) -> (m: int)
    requires
        s.len() > 0,
        distinct_ids(s),
    ensures
        0 <= m < s.len(),
        forall|j: int| 0 <= j < s.len() && j != m ==> drains_before(s[j], s[m]),
    decreases s.len(),
{
    if s.len() == 1 {
        0
    } else {
        let t = s.drop_last();
        let m0 = lemma_last_to_drain(t);
        let n = s.len() - 1;
        if drains_before(s[m0], s[n]) {
            assert forall|j: int| 0 <= j < s.len() && j != n implies drains_before(s[j], s[n]) by {
                if j != m0 {
                    assert(drains_before(t[j], t[m0]));
                }
            }
            n
        } else {
            assert(s[m0].id != s[n].id);
            assert forall|j: int| 0 <= j < s.len() && j != m0 implies drains_before(s[j], s[m0]) by {
                if j != n {
                    assert(drains_before(t[j], t[m0]));
                }
            }
            m0
        }
    }
}

/// A sale of `quantity` from lots with distinct ids takes `quantity` units
/// in all when there are that many, and everything there is otherwise.
pub proof fn lemma_drawn_total(s: Seq<StockBatch>, medicine_id: u32, warehouse_id: u32, quantity: nat)
    requires
        distinct_ids(s),
    ensures
        drawn_total(s, s, medicine_id, warehouse_id, quantity) == if quantity <= available(
            s,
            medicine_id,
            warehouse_id,
        ) {
            quantity
        } else {
            available(s, medicine_id, warehouse_id)
        },
    decreases s.len(),
{
    let draw_s = |b: StockBatch| fefo_draw(s, medicine_id, warehouse_id, quantity, b);
    let avail_f = |b: StockBatch|
        if eligible(b, medicine_id, warehouse_id) {
            b.quantity as nat
        } else {
            0
        };
    if s.len() > 0 {
        let m = lemma_last_to_drain(s);
        let t = s.remove(m);
        let draw_t = |b: StockBatch| fefo_draw(t, medicine_id, warehouse_id, quantity, b);
        assert(distinct_ids(t)) by {
            assert forall|i: int, j: int|
                0 <= i < t.len() && 0 <= j < t.len() && i != j implies t[i].id != t[j].id by {
                let i0 = if i < m { i } else { i + 1 };
                let j0 = if j < m { j } else { j + 1 };
                assert(t[i] == s[i0] && t[j] == s[j0]);
            }
        }
        lemma_drawn_total(t, medicine_id, warehouse_id, quantity);
        // Lots other than the last to drain see the same stock ahead of them.
        assert forall|i: int| 0 <= i < t.len() implies draw_s(t[i]) == draw_t(t[i]) by {
            let i0 = if i < m { i } else { i + 1 };
            assert(t[i] == s[i0]);
            let b = t[i];
            let ahead_f = |c: StockBatch|
                if eligible(c, medicine_id, warehouse_id) && drains_before(c, b) {
                    c.quantity as nat
                } else {
                    0
                };
            lemma_stock_ahead_sum(s, medicine_id, warehouse_id, b);
            lemma_stock_ahead_sum(t, medicine_id, warehouse_id, b);
            lemma_sum_by_remove(s, ahead_f, m);
            assert(drains_before(s[i0], s[m]));
        }
        lemma_sum_by_remove(s, draw_s, m);
        lemma_sum_by_congruent(t, draw_s, draw_t);
        // Every other lot drains before the last one.
        let last = s[m];
        let ahead_last = |c: StockBatch|
            if eligible(c, medicine_id, warehouse_id) && drains_before(c, last) {
                c.quantity as nat
            } else {
                0
            };
        lemma_stock_ahead_sum(s, medicine_id, warehouse_id, last);
        lemma_sum_by_remove(s, ahead_last, m);
        assert forall|i: int| 0 <= i < t.len() implies ahead_last(t[i]) == avail_f(t[i]) by {
            let i0 = if i < m { i } else { i + 1 };
            assert(t[i] == s[i0]);
        }
        lemma_sum_by_congruent(t, ahead_last, avail_f);
        lemma_available_sum(t, medicine_id, warehouse_id);
        lemma_available_sum(s, medicine_id, warehouse_id);
        lemma_sum_by_remove(s, avail_f, m);
    }
}

proof fn lemma_after_sale_stock(
    all: Seq<StockBatch>,
    medicine_id: u32,
    warehouse_id: u32,
    quantity: nat,
    other: u32,
    n: int,
)
    requires
        0 <= n <= all.len(),
    ensures
        medicine_stock(after_sale(all, medicine_id, warehouse_id, quantity).take(n), other) + (if other
            == medicine_id {
            drawn_total(all.take(n), all, medicine_id, warehouse_id, quantity)
        } else {
            0
        }) == medicine_stock(all.take(n), other),
    decreases n,
{
    if n > 0 {
        let after = after_sale(all, medicine_id, warehouse_id, quantity);
        lemma_after_sale_stock(all, medicine_id, warehouse_id, quantity, other, n - 1);
        assert(after.take(n).drop_last() =~= after.take(n - 1));
        assert(all.take(n).drop_last() =~= all.take(n - 1));
        assert(after.take(n).last() == after[n - 1]);
        assert(all.take(n).last() == all[n - 1]);
    }
}

/// A sale that succeeds takes exactly the units asked for: the medicine's
/// stock over all warehouses drops by `quantity`, and no other medicine's
/// stock changes.
pub proof fn lemma_sale_conserves_stock(
    old: Pharmacy,
    new: Pharmacy,
    medicine_id: u32,
    quantity: u32,
    warehouse_id: u32,
    now: i64,
    other: u32,
)
    requires
        old.wf(),
        old.sale_error(medicine_id, quantity, warehouse_id) is None,
        Pharmacy::sold(old, new, medicine_id, quantity, warehouse_id, now),
    ensures
        medicine_stock(new.batches@, medicine_id) + quantity == medicine_stock(
            old.batches@,
            medicine_id,
        ),
        other != medicine_id ==> medicine_stock(new.batches@, other) == medicine_stock(
            old.batches@,
            other,
        ),
{
    let all = old.batches@;
    let n = all.len() as int;
    lemma_drawn_total(all, medicine_id, warehouse_id, quantity as nat);
    lemma_after_sale_stock(all, medicine_id, warehouse_id, quantity as nat, medicine_id, n);
    lemma_after_sale_stock(all, medicine_id, warehouse_id, quantity as nat, other, n);
    assert(all.take(n) =~= all);
    assert(after_sale(all, medicine_id, warehouse_id, quantity as nat).take(n) =~= new.batches@);
}

} // verus!
