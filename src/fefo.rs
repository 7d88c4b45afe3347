use vstd::prelude::*;
use crate::models::StockBatch;

verus! {

/// A lot that a sale of the medicine in the warehouse may draw from.
pub open spec fn eligible(b: StockBatch, medicine_id: u32, warehouse_id: u32) -> bool {
    b.medicine_id == medicine_id && b.warehouse_id == warehouse_id && b.quantity > 0
}

/// First-expiry-first-out order: the earlier expiry goes first, and of two
/// lots with the same expiry the one with the lower id.
pub open spec fn drains_before(a: StockBatch, b: StockBatch) -> bool {
    a.expiry_date < b.expiry_date || (a.expiry_date == b.expiry_date && a.id < b.id)
}

/// Units of the medicine that the lots hold in the warehouse.
pub open spec fn available(s: Seq<StockBatch>, medicine_id: u32, warehouse_id: u32) -> nat
    decreases s.len(),
{
    if s.len() == 0 {
        0
    } else {
        available(s.drop_last(), medicine_id, warehouse_id) + if eligible(
            s.last(),
            medicine_id,
            warehouse_id,
        ) {
            s.last().quantity as nat
        } else {
            0
        }
    }
}

/// Units of the medicine in the warehouse held by lots that drain before `b`.
pub open spec fn stock_ahead(
    s: Seq<StockBatch>,
    medicine_id: u32,
    warehouse_id: u32,
    b: StockBatch,
) -> nat
    decreases s.len(),
{
    if s.len() == 0 {
        0
    } else {
        stock_ahead(s.drop_last(), medicine_id, warehouse_id, b) + if eligible(
            s.last(),
            medicine_id,
            warehouse_id,
        ) && drains_before(s.last(), b) {
            s.last().quantity as nat
        } else {
            0
        }
    }
}

/// Units that a sale of `quantity` takes from lot `b` of the ledger `all`:
/// what is left of the request once the lots ahead of it are emptied, up to
/// what `b` holds.
pub open spec fn fefo_draw(
    all: Seq<StockBatch>,
    medicine_id: u32,
    warehouse_id: u32,
    quantity: nat,
    b: StockBatch,
) -> nat {
    let ahead = stock_ahead(all, medicine_id, warehouse_id, b);
    if eligible(b, medicine_id, warehouse_id) && ahead < quantity {
        if b.quantity <= quantity - ahead {
            b.quantity as nat
        } else {
            (quantity - ahead) as nat
        }
    } else {
        0
    }
}

/// Sum of unit price times units drawn over the lots of `s`, a prefix of `all`.
pub open spec fn drawn_value(
    s: Seq<StockBatch>,
    all: Seq<StockBatch>,
    medicine_id: u32,
    warehouse_id: u32,
    quantity: nat,
) -> nat
    decreases s.len(),
{
    if s.len() == 0 {
        0
    } else {
        drawn_value(s.drop_last(), all, medicine_id, warehouse_id, quantity) + (s.last().unit_price
            * fefo_draw(all, medicine_id, warehouse_id, quantity, s.last())) as nat
    }
}

/// The lots after a sale of `quantity`: each has lost what it was drawn.
pub open spec fn after_sale(
    all: Seq<StockBatch>,
    medicine_id: u32,
    warehouse_id: u32,
    quantity: nat,
) -> Seq<StockBatch> {
    Seq::new(
        all.len(),
        |i: int|
            StockBatch {
                quantity: (all[i].quantity - fefo_draw(
                    all,
                    medicine_id,
                    warehouse_id,
                    quantity,
                    all[i],
                )) as u32,
                ..all[i]
            },
    )
}

/// The name carried by the last lot, in order of creation, that a sale of the
/// medicine in the warehouse may draw from.
pub open spec fn stock_name(s: Seq<StockBatch>, medicine_id: u32, warehouse_id: u32) -> Seq<char>
    decreases s.len(),
{
    if s.len() == 0 {
        Seq::empty()
    } else if eligible(s.last(), medicine_id, warehouse_id) {
        s.last().medicine_name@
    } else {
        stock_name(s.drop_last(), medicine_id, warehouse_id)
    }
}

} // verus!
