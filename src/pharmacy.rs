use vstd::prelude::*;
use crate::fefo::{after_sale, available, drawn_value, fefo_draw, stock_ahead, stock_name};
use crate::clock::{date_timestamp_of, now_timestamp, parse_date, SECONDS_PER_DAY};
use crate::models::{
    ExportBatch, ImportBatch, LedgerError, Medicine, Pharmacy, StockBatch, TransferRecord, Warehouse,
    WarehouseKind,
};

verus! {

/// Largest value of a `u32`, as a mathematical integer.
pub open spec fn u32_max() -> int {
    0xffff_ffff
}

/// Largest value of a `u64`, as a mathematical integer.
pub open spec fn u64_max() -> int {
    0xffff_ffff_ffff_ffff
}

/// The lots that still hold stock and expire at or before `limit`, in order
/// of creation.
pub open spec fn expiring(s: Seq<StockBatch>, limit: int) -> Seq<StockBatch>
    decreases s.len(),
{
    if s.len() == 0 {
        Seq::empty()
    } else if s.last().quantity > 0 && s.last().expiry_date <= limit {
        expiring(s.drop_last(), limit).push(s.last())
    } else {
        expiring(s.drop_last(), limit)
    }
}

/// Index of the first warehouse that is a point of sale.
pub open spec fn first_point_of_sale(ws: Seq<Warehouse>) -> Option<int>
    decreases ws.len(),
{
    if ws.len() == 0 {
        None
    } else if first_point_of_sale(ws.drop_last()) is Some {
        first_point_of_sale(ws.drop_last())
    } else if ws.last().kind == WarehouseKind::PointOfSale {
        Some(ws.len() - 1)
    } else {
        None
    }
}

proof fn lemma_first_point_of_sale_prefix(ws: Seq<Warehouse>, m: int)
    requires
        0 < m <= ws.len(),
        first_point_of_sale(ws.take(m - 1)) is None,
        ws[m - 1].kind == WarehouseKind::PointOfSale,
    ensures
        first_point_of_sale(ws) == Some(m - 1),
    decreases ws.len(),
{
    assert(ws.take(m).drop_last() =~= ws.take(m - 1));
    if m < ws.len() {
        assert(ws.drop_last().take(m - 1) =~= ws.take(m - 1));
        lemma_first_point_of_sale_prefix(ws.drop_last(), m);
    }
}

impl Pharmacy {
    /// The error a sale of `quantity` units of the medicine from the warehouse
    /// fails with, checked in this order, or `None` when it succeeds.
    pub open spec fn sale_error(&self, medicine_id: u32, quantity: u32, warehouse_id: u32) -> Option<
        LedgerError,
    > {
        if quantity == 0 {
            Some(LedgerError::InvalidQuantity)
        } else if !self.has_warehouse(warehouse_id) {
            Some(LedgerError::WarehouseNotFound)
        } else if self.export_log@.len() >= u32_max() {
            Some(LedgerError::IdsExhausted)
        } else if available(self.batches@, medicine_id, warehouse_id) < quantity {
            Some(
                LedgerError::InsufficientStock {
                    short_by: (quantity - available(self.batches@, medicine_id, warehouse_id)) as u32,
                },
            )
        } else {
            None
        }
    }

    /// `new` is `old` after a successful sale: every lot lost what first-expiry-
    /// first-out draws from it, and one export record was appended.
    pub open spec fn sold(
        old: Pharmacy,
        new: Pharmacy,
        medicine_id: u32,
        quantity: u32,
        warehouse_id: u32,
        now: i64,
    ) -> bool {
        let e = new.export_log@.last();
        &&& new.batches@ == after_sale(old.batches@, medicine_id, warehouse_id, quantity as nat)
        &&& new.export_log@.len() == old.export_log@.len() + 1
        &&& new.export_log@.drop_last() == old.export_log@
        &&& e.id == old.export_log@.len() + 1
        &&& e.medicine_id == medicine_id
        &&& e.medicine_name@ == stock_name(old.batches@, medicine_id, warehouse_id)
        &&& e.warehouse_id == warehouse_id
        &&& e.amount == quantity
        &&& e.total_value == drawn_value(
            old.batches@,
            old.batches@,
            medicine_id,
            warehouse_id,
            quantity as nat,
        )
        &&& e.timestamp == now
        &&& new.inventory == old.inventory
        &&& new.next_medicine_id == old.next_medicine_id
        &&& new.warehouses == old.warehouses
        &&& new.import_log == old.import_log
        &&& new.transfer_log == old.transfer_log
    }

    proof fn lemma_batch_count(&self)
        requires
            self.wf(),
        ensures
            self.batches@.len() <= u32_max(),
    {
        if self.batches@.len() > 0 {
            assert(self.batches@[self.batches@.len() - 1].id == self.batches@.len());
        }
    }

    /// Units of the medicine held in the warehouse.
    pub fn stock_in(&self, medicine_id: u32, warehouse_id: u32) -> (r: u64)
        requires
            self.wf(),
        ensures
            r == available(self.batches@, medicine_id, warehouse_id),
    {
        proof {
            self.lemma_batch_count();
        }
        let n = self.batches.len();
        let mut total: u64 = 0;
        let mut i: usize = 0;
        while i < n
            invariant
                n == self.batches@.len() <= u32_max(),
                i <= n,
                total == available(self.batches@.take(i as int), medicine_id, warehouse_id),
                total <= i * u32_max(),
            decreases n - i,
        {
            let b = &self.batches[i];
            assert(self.batches@.take(i + 1).drop_last() =~= self.batches@.take(i as int));
            if b.medicine_id == medicine_id && b.warehouse_id == warehouse_id && b.quantity > 0 {
                total = total + b.quantity as u64;
            }
            i = i + 1;
        }
        assert(self.batches@.take(n as int) =~= self.batches@);
        total
    }

    /// Units of the medicine in the warehouse held by lots that drain before `b`.
    fn units_ahead(&self, medicine_id: u32, warehouse_id: u32, b: &StockBatch) -> (r: u64)
        requires
            self.wf(),
        ensures
            r == stock_ahead(self.batches@, medicine_id, warehouse_id, *b),
    {
        proof {
            self.lemma_batch_count();
        }
        let n = self.batches.len();
        let mut total: u64 = 0;
        let mut j: usize = 0;
        while j < n
            invariant
                n == self.batches@.len() <= u32_max(),
                j <= n,
                total == stock_ahead(self.batches@.take(j as int), medicine_id, warehouse_id, *b),
                total <= j * u32_max(),
            decreases n - j,
        {
            let c = &self.batches[j];
            assert(self.batches@.take(j + 1).drop_last() =~= self.batches@.take(j as int));
            if c.medicine_id == medicine_id && c.warehouse_id == warehouse_id && c.quantity > 0 && (
            c.expiry_date < b.expiry_date || (c.expiry_date == b.expiry_date && c.id < b.id)) {
                total = total + c.quantity as u64;
            }
            j = j + 1;
        }
        assert(self.batches@.take(n as int) =~= self.batches@);
        total
    }

    /// Sells `quantity` units of the medicine from the warehouse, first
    /// expiry first out: lots are emptied in order of expiry date (ties by
    /// lot id) until the request is met, and one export record is appended
    /// whose `total_value` is the sum of unit price times units taken. The
    /// sale happens whole or not at all: on any error nothing changes.
    pub fn sell(&mut self, medicine_id: u32, quantity: u32, warehouse_id: u32, now: i64) -> (r:
        Result<(), LedgerError>)
        requires
            old(self).wf(),
        ensures
            final(self).wf(),
            match old(self).sale_error(medicine_id, quantity, warehouse_id) {
                Some(e) => r == Err::<(), LedgerError>(e) && *final(self) == *old(self),
                None => r is Ok && Pharmacy::sold(
                    *old(self),
                    *final(self),
                    medicine_id,
                    quantity,
                    warehouse_id,
                    now,
                ),
            },
    {
        if quantity == 0 {
            return Err(LedgerError::InvalidQuantity);
        }
        if warehouse_id == 0 || warehouse_id as usize > self.warehouses.len() {
            return Err(LedgerError::WarehouseNotFound);
        }
        if self.export_log.len() >= 0xffff_ffff {
            return Err(LedgerError::IdsExhausted);
        }
        let avail = self.stock_in(medicine_id, warehouse_id);
        if avail < quantity as u64 {
            return Err(LedgerError::InsufficientStock { short_by: (quantity as u64 - avail) as u32 });
        }
        proof {
            self.lemma_batch_count();
        }
        // Each lot gives what is left of the request once the stock that
        // drains ahead of it is used up. This is the allocation of a walk over
        // the lots in first-expiry-first-out order, computed without sorting.
        let ghost all = self.batches@;
        let ghost q = quantity as nat;
        let n = self.batches.len();
        let mut next: Vec<StockBatch> = Vec::new();
        let mut value: u128 = 0;
        let mut drawn: u64 = 0;
        let mut name = String::new();
        let mut i: usize = 0;
        while i < n
            invariant
                self.wf(),
                all == self.batches@,
                q == quantity as nat,
                n == all.len() <= u32_max(),
                i <= n,
                next@.len() == i,
                forall|k: int| 0 <= k < i ==> next@[k] == after_sale(all, medicine_id, warehouse_id, q)[k],
                value == drawn_value(all.take(i as int), all, medicine_id, warehouse_id, q),
                drawn <= i * u32_max(),
                value <= drawn * u64_max(),
                name@ == stock_name(all.take(i as int), medicine_id, warehouse_id),
            decreases n - i,
        {
            let b = &self.batches[i];
            let ahead = self.units_ahead(medicine_id, warehouse_id, b);
            let eligible_here = b.medicine_id == medicine_id && b.warehouse_id == warehouse_id
                && b.quantity > 0;
            let d: u32 = if eligible_here && ahead < quantity as u64 {
                if (b.quantity as u64) <= quantity as u64 - ahead {
                    b.quantity
                } else {
                    (quantity as u64 - ahead) as u32
                }
            } else {
                0
            };
            assert(d == fefo_draw(all, medicine_id, warehouse_id, q, all[i as int]));
            assert(all.take(i + 1).drop_last() =~= all.take(i as int));
            if eligible_here {
                name = b.medicine_name.clone();
            }
            proof {
                assert(b.unit_price * d <= u64_max() * d) by (nonlinear_arith)
                    requires
                        b.unit_price <= u64_max(),
                        d >= 0,
                ;
            }
            value = value + b.unit_price as u128 * d as u128;
            drawn = drawn + d as u64;
            let mut nb = b.copy();
            nb.quantity = b.quantity - d;
            next.push(nb);
            i = i + 1;
        }
        assert(all.take(n as int) =~= all);
        assert(next@ =~= after_sale(all, medicine_id, warehouse_id, q));
        self.batches = next;
        let id = self.export_log.len() as u32 + 1;
        self.export_log.push(
            ExportBatch {
                id,
                medicine_id,
                medicine_name: name,
                warehouse_id,
                amount: quantity,
                total_value: value,
                timestamp: now,
            },
        );
        assert(self.export_log@.drop_last() =~= old(self).export_log@);
        Ok(())
    }
    /// The error an import fails with, checked in this order, or `None`.
    pub open spec fn import_error(&self, warehouse_id: u32, quantity: u32, unit_price: u64) -> Option<
        LedgerError,
    > {
        if !self.has_warehouse(warehouse_id) {
            Some(LedgerError::WarehouseNotFound)
        } else if quantity == 0 {
            Some(LedgerError::InvalidQuantity)
        } else if unit_price == 0 {
            Some(LedgerError::InvalidPrice)
        } else if self.batches@.len() >= u32_max() || self.import_log@.len() >= u32_max() {
            Some(LedgerError::IdsExhausted)
        } else {
            None
        }
    }

    /// `new` is `old` with one new lot and one import record appended; the
    /// lot takes the next id.
    pub open spec fn imported(
        old: Pharmacy,
        new: Pharmacy,
        medicine_id: u32,
        medicine_name: String,
        warehouse_id: u32,
        quantity: u32,
        unit_price: u64,
        expiry_date: i64,
        now: i64,
    ) -> bool {
        let id = (old.batches@.len() + 1) as u32;
        &&& new.batches@ == old.batches@.push(
            StockBatch {
                id,
                medicine_id,
                medicine_name,
                warehouse_id,
                quantity,
                unit_price,
                expiry_date,
                import_date: now,
            },
        )
        &&& new.import_log@ == old.import_log@.push(
            ImportBatch {
                id: (old.import_log@.len() + 1) as u32,
                batch_id: id,
                medicine_id,
                medicine_name,
                warehouse_id,
                quantity,
                price: unit_price,
                timestamp: now,
            },
        )
        &&& new.inventory == old.inventory
        &&& new.next_medicine_id == old.next_medicine_id
        &&& new.warehouses == old.warehouses
        &&& new.export_log == old.export_log
        &&& new.transfer_log == old.transfer_log
    }

    /// Receives a new lot of `quantity` units of a medicine into a warehouse
    /// and logs the import. Returns the id of the new lot, one more than the
    /// largest lot id so far.
    pub fn import(
        &mut self,
        medicine_id: u32,
        medicine_name: String,
        warehouse_id: u32,
        quantity: u32,
        unit_price: u64,
        expiry_date: i64,
        now: i64,
    ) -> (r: Result<u32, LedgerError>)
        requires
            old(self).wf(),
        ensures
            final(self).wf(),
            match old(self).import_error(warehouse_id, quantity, unit_price) {
                Some(e) => r == Err::<u32, LedgerError>(e) && *final(self) == *old(self),
                None => r == Ok::<u32, LedgerError>((old(self).batches@.len() + 1) as u32)
                    && Pharmacy::imported(
                    *old(self),
                    *final(self),
                    medicine_id,
                    medicine_name,
                    warehouse_id,
                    quantity,
                    unit_price,
                    expiry_date,
                    now,
                ),
            },
    {
        if warehouse_id == 0 || warehouse_id as usize > self.warehouses.len() {
            return Err(LedgerError::WarehouseNotFound);
        }
        if quantity == 0 {
            return Err(LedgerError::InvalidQuantity);
        }
        if unit_price == 0 {
            return Err(LedgerError::InvalidPrice);
        }
        if self.batches.len() >= 0xffff_ffff || self.import_log.len() >= 0xffff_ffff {
            return Err(LedgerError::IdsExhausted);
        }
        let id = self.batches.len() as u32 + 1;
        let log_id = self.import_log.len() as u32 + 1;
        let name = medicine_name.clone();
        self.batches.push(
            StockBatch {
                id,
                medicine_id,
                medicine_name,
                warehouse_id,
                quantity,
                unit_price,
                expiry_date,
                import_date: now,
            },
        );
        self.import_log.push(
            ImportBatch {
                id: log_id,
                batch_id: id,
                medicine_id,
                medicine_name: name,
                warehouse_id,
                quantity,
                price: unit_price,
                timestamp: now,
            },
        );
        assert(forall|i: int|
            0 <= i < self.batches@.len() ==> self.has_warehouse(#[trigger] self.batches@[i].warehouse_id)
        ) by {
            assert forall|i: int| 0 <= i < self.batches@.len() implies self.has_warehouse(
                #[trigger] self.batches@[i].warehouse_id,
            ) by {
                if i < old(self).batches@.len() {
                    assert(self.batches@[i] == old(self).batches@[i]);
                }
            }
        }
        Ok(id)
    }

    /// The error a transfer fails with, checked in this order, or `None`.
    pub open spec fn transfer_error(&self, batch_id: u32, to_warehouse_id: u32, quantity: u32) -> Option<
        LedgerError,
    > {
        if !self.has_batch(batch_id) {
            Some(LedgerError::BatchNotFound)
        } else if !self.has_warehouse(to_warehouse_id) {
            Some(LedgerError::WarehouseNotFound)
        } else if quantity == 0 {
            Some(LedgerError::InvalidQuantity)
        } else if quantity > self.batches@[batch_id - 1].quantity {
            Some(
                LedgerError::InsufficientQuantity {
                    available: self.batches@[batch_id - 1].quantity,
                },
            )
        } else if self.batches@.len() >= u32_max() || self.transfer_log@.len() >= u32_max() {
            Some(LedgerError::IdsExhausted)
        } else {
            None
        }
    }

    /// `new` is `old` after moving `quantity` units of lot `batch_id` to a new
    /// lot in the destination: the source lost exactly `quantity`, the new
    /// lot copies its medicine, price and expiry and holds `quantity`, and
    /// one transfer record names both lots and both warehouses.
    pub open spec fn transferred(
        old: Pharmacy,
        new: Pharmacy,
        batch_id: u32,
        to_warehouse_id: u32,
        quantity: u32,
        now: i64,
    ) -> bool {
        let s = old.batches@[batch_id - 1];
        let id = (old.batches@.len() + 1) as u32;
        &&& new.batches@ == old.batches@.update(
            batch_id - 1,
            StockBatch { quantity: (s.quantity - quantity) as u32, ..s },
        ).push(
            StockBatch { id, warehouse_id: to_warehouse_id, quantity, import_date: now, ..s },
        )
        &&& new.transfer_log@ == old.transfer_log@.push(
            TransferRecord {
                id: (old.transfer_log@.len() + 1) as u32,
                batch_id,
                new_batch_id: id,
                medicine_id: s.medicine_id,
                medicine_name: s.medicine_name,
                from_warehouse_id: s.warehouse_id,
                to_warehouse_id,
                quantity,
                timestamp: now,
            },
        )
        &&& new.inventory == old.inventory
        &&& new.next_medicine_id == old.next_medicine_id
        &&& new.warehouses == old.warehouses
        &&& new.import_log == old.import_log
        &&& new.export_log == old.export_log
    }

    /// Moves `quantity` units of a lot to another warehouse, as a new lot
    /// with the next id, and logs the transfer. The whole amount moves or
    /// nothing does.
    pub fn transfer(&mut self, batch_id: u32, to_warehouse_id: u32, quantity: u32, now: i64) -> (r:
        Result<(), LedgerError>)
        requires
            old(self).wf(),
        ensures
            final(self).wf(),
            match old(self).transfer_error(batch_id, to_warehouse_id, quantity) {
                Some(e) => r == Err::<(), LedgerError>(e) && *final(self) == *old(self),
                None => r is Ok && Pharmacy::transferred(
                    *old(self),
                    *final(self),
                    batch_id,
                    to_warehouse_id,
                    quantity,
                    now,
                ),
            },
    {
        if batch_id == 0 || batch_id as usize > self.batches.len() {
            return Err(LedgerError::BatchNotFound);
        }
        if to_warehouse_id == 0 || to_warehouse_id as usize > self.warehouses.len() {
            return Err(LedgerError::WarehouseNotFound);
        }
        if quantity == 0 {
            return Err(LedgerError::InvalidQuantity);
        }
        let idx = (batch_id - 1) as usize;
        let source = self.batches[idx].copy();
        if quantity > source.quantity {
            return Err(LedgerError::InsufficientQuantity { available: source.quantity });
        }
        if self.batches.len() >= 0xffff_ffff || self.transfer_log.len() >= 0xffff_ffff {
            return Err(LedgerError::IdsExhausted);
        }
        let id = self.batches.len() as u32 + 1;
        let log_id = self.transfer_log.len() as u32 + 1;
        let moved = StockBatch {
            id,
            medicine_id: source.medicine_id,
            medicine_name: source.medicine_name.clone(),
            warehouse_id: to_warehouse_id,
            quantity,
            unit_price: source.unit_price,
            expiry_date: source.expiry_date,
            import_date: now,
        };
        let record = TransferRecord {
            id: log_id,
            batch_id,
            new_batch_id: id,
            medicine_id: source.medicine_id,
            medicine_name: source.medicine_name.clone(),
            from_warehouse_id: source.warehouse_id,
            to_warehouse_id,
            quantity,
            timestamp: now,
        };
        let mut rest = source;
        rest.quantity = rest.quantity - quantity;
        self.batches.set(idx, rest);
        self.batches.push(moved);
        self.transfer_log.push(record);
        assert(forall|i: int|
            0 <= i < self.batches@.len() ==> self.has_warehouse(#[trigger] self.batches@[i].warehouse_id)
        ) by {
            assert forall|i: int| 0 <= i < self.batches@.len() implies self.has_warehouse(
                #[trigger] self.batches@[i].warehouse_id,
            ) by {
                if i < old(self).batches@.len() {
                    assert(self.batches@[i].warehouse_id == old(self).batches@[i].warehouse_id);
                }
            }
        }
        Ok(())
    }

    /// The lots, in any warehouse, that still hold stock and expire within
    /// `days` days of `now`: an expiry exactly `days` days away counts.
    pub fn expiring_within(&self, days: u32, now: i64) -> (r: Vec<StockBatch>)
        ensures
            r@ == expiring(self.batches@, now + days * SECONDS_PER_DAY),
    {
        let day: i128 = SECONDS_PER_DAY as i128;
        assert(day == 86400);
        let limit: i128 = now as i128 + days as i128 * day;
        let n = self.batches.len();
        let mut r: Vec<StockBatch> = Vec::new();
        let mut i: usize = 0;
        while i < n
            invariant
                n == self.batches@.len(),
                i <= n,
                limit == now + days * SECONDS_PER_DAY,
                r@ == expiring(self.batches@.take(i as int), limit as int),
            decreases n - i,
        {
            let b = &self.batches[i];
            assert(self.batches@.take(i + 1).drop_last() =~= self.batches@.take(i as int));
            assert(self.batches@.take(i + 1).last() == *b);
            if b.quantity > 0 && b.expiry_date as i128 <= limit {
                r.push(b.copy());
            }
            i = i + 1;
        }
        assert(self.batches@.take(n as int) =~= self.batches@);
        r
    }
    /// An empty ledger.
    pub fn new() -> (r: Pharmacy)
        ensures
            r.wf(),
            r.inventory@.len() == 0,
            r.next_medicine_id == 1,
            r.warehouses@.len() == 0,
            r.batches@.len() == 0,
            r.import_log@.len() == 0,
            r.export_log@.len() == 0,
            r.transfer_log@.len() == 0,
    {
        Pharmacy {
            inventory: Vec::new(),
            next_medicine_id: 1,
            warehouses: Vec::new(),
            batches: Vec::new(),
            import_log: Vec::new(),
            export_log: Vec::new(),
            transfer_log: Vec::new(),
        }
    }

    /// Adds a warehouse with the next id and returns that id.
    pub fn add_warehouse(&mut self, name: String, kind: WarehouseKind) -> (r: Result<u32, LedgerError>)
        requires
            old(self).wf(),
        ensures
            final(self).wf(),
            old(self).warehouses@.len() >= u32_max() ==> r == Err::<u32, LedgerError>(
                LedgerError::IdsExhausted,
            ) && *final(self) == *old(self),
            old(self).warehouses@.len() < u32_max() ==> {
                &&& r == Ok::<u32, LedgerError>((old(self).warehouses@.len() + 1) as u32)
                &&& final(self).warehouses@ == old(self).warehouses@.push(
                    (Warehouse { id: (old(self).warehouses@.len() + 1) as u32, name, kind }),
                )
                &&& *final(self) == (Pharmacy { warehouses: final(self).warehouses, ..*old(self) })
            },
    {
        if self.warehouses.len() >= 0xffff_ffff {
            return Err(LedgerError::IdsExhausted);
        }
        let id = self.warehouses.len() as u32 + 1;
        self.warehouses.push(Warehouse { id, name, kind });
        assert(forall|i: int|
            0 <= i < self.batches@.len() ==> self.has_warehouse(#[trigger] self.batches@[i].warehouse_id)
        ) by {
            assert forall|i: int| 0 <= i < self.batches@.len() implies self.has_warehouse(
                #[trigger] self.batches@[i].warehouse_id,
            ) by {
                assert(old(self).has_warehouse(old(self).batches@[i].warehouse_id));
            }
        }
        Ok(id)
    }

    /// The id of the first warehouse that is a point of sale, if any.
    pub fn point_of_sale(&self) -> (r: Option<u32>)
        requires
            self.wf(),
        ensures
            match first_point_of_sale(self.warehouses@) {
                Some(k) => r == Some((k + 1) as u32),
                None => r is None,
            },
    {
        let n = self.warehouses.len();
        let mut i: usize = 0;
        while i < n
            invariant
                n == self.warehouses@.len(),
                i <= n,
                first_point_of_sale(self.warehouses@.take(i as int)) is None,
                forall|k: int| 0 <= k < n ==> self.warehouses@[k].id == k + 1,
            decreases n - i,
        {
            assert(self.warehouses@.take(i + 1).drop_last() =~= self.warehouses@.take(i as int));
            if self.warehouses[i].kind == WarehouseKind::PointOfSale {
                proof {
                    lemma_first_point_of_sale_prefix(self.warehouses@, i + 1);
                }
                return Some(self.warehouses[i].id);
            }
            i = i + 1;
        }
        assert(self.warehouses@.take(n as int) =~= self.warehouses@);
        None
    }

    /// Sells `amount` units of the medicine from the first point-of-sale
    /// warehouse, first expiry first out, stamped with the current time.
    pub fn sell_medicine(&mut self, id: u32, amount: u32) -> (r: Result<(), LedgerError>)
        requires
            old(self).wf(),
        ensures
            final(self).wf(),
            match first_point_of_sale(old(self).warehouses@) {
                None => r == Err::<(), LedgerError>(LedgerError::NoPointOfSaleWarehouse)
                    && *final(self) == *old(self),
                Some(k) => match old(self).sale_error(id, amount, (k + 1) as u32) {
                    Some(e) => r == Err::<(), LedgerError>(e) && *final(self) == *old(self),
                    None => r is Ok && Pharmacy::sold(
                        *old(self),
                        *final(self),
                        id,
                        amount,
                        (k + 1) as u32,
                        final(self).export_log@.last().timestamp,
                    ),
                },
            },
    {
        match self.point_of_sale() {
            None => Err(LedgerError::NoPointOfSaleWarehouse),
            Some(warehouse_id) => {
                let now = now_timestamp();
                self.sell(id, amount, warehouse_id, now)
            },
        }
    }

    /// Imports a lot whose expiry date is given as `YYYY-MM-DD` text,
    /// stamped with the current time. Text that is not a date is refused
    /// before anything else is checked.
    pub fn import_dated(
        &mut self,
        medicine_id: u32,
        medicine_name: String,
        warehouse_id: u32,
        quantity: u32,
        unit_price: u64,
        expiry_date: &str,
    ) -> (r: Result<u32, LedgerError>)
        requires
            old(self).wf(),
        ensures
            final(self).wf(),
            match date_timestamp_of(expiry_date@) {
                None => r == Err::<u32, LedgerError>(LedgerError::InvalidTimestamp) && *final(self)
                    == *old(self),
                Some(t) => match old(self).import_error(warehouse_id, quantity, unit_price) {
                    Some(e) => r == Err::<u32, LedgerError>(e) && *final(self) == *old(self),
                    None => r == Ok::<u32, LedgerError>((old(self).batches@.len() + 1) as u32)
                        && Pharmacy::imported(
                        *old(self),
                        *final(self),
                        medicine_id,
                        medicine_name,
                        warehouse_id,
                        quantity,
                        unit_price,
                        t,
                        final(self).batches@.last().import_date,
                    ),
                },
            },
    {
        match parse_date(expiry_date) {
            None => Err(LedgerError::InvalidTimestamp),
            Some(t) => {
                let now = now_timestamp();
                let r = self.import(
                    medicine_id,
                    medicine_name,
                    warehouse_id,
                    quantity,
                    unit_price,
                    t,
                    now,
                );
                r
            },
        }
    }
    /// Registers a medicine in the catalogue under the next medicine id and
    /// imports its first lot, stamped with the current time. Returns the new
    /// medicine's id.
    pub fn add_medicine(
        &mut self,
        name: String,
        price: u64,
        quantity: u32,
        warehouse_id: u32,
        expiry_date: i64,
    ) -> (r: Result<u32, LedgerError>)
        requires
            old(self).wf(),
        ensures
            final(self).wf(),
            match old(self).import_error(warehouse_id, quantity, price) {
                Some(e) => r == Err::<u32, LedgerError>(e) && *final(self) == *old(self),
                None => if old(self).next_medicine_id >= u32_max() {
                    r == Err::<u32, LedgerError>(LedgerError::IdsExhausted) && *final(self)
                        == *old(self)
                } else {
                    let id = old(self).next_medicine_id;
                    &&& r == Ok::<u32, LedgerError>(id)
                    &&& final(self).inventory@ == old(self).inventory@.push(
                        (Medicine { id, name, price }),
                    )
                    &&& final(self).next_medicine_id == id + 1
                    &&& Pharmacy::imported(
                        (Pharmacy {
                            inventory: final(self).inventory,
                            next_medicine_id: final(self).next_medicine_id,
                            ..*old(self)
                        }),
                        *final(self),
                        id,
                        name,
                        warehouse_id,
                        quantity,
                        price,
                        expiry_date,
                        final(self).batches@.last().import_date,
                    )
                },
            },
    {
        if warehouse_id == 0 || warehouse_id as usize > self.warehouses.len() {
            return Err(LedgerError::WarehouseNotFound);
        }
        if quantity == 0 {
            return Err(LedgerError::InvalidQuantity);
        }
        if price == 0 {
            return Err(LedgerError::InvalidPrice);
        }
        if self.batches.len() >= 0xffff_ffff || self.import_log.len() >= 0xffff_ffff {
            return Err(LedgerError::IdsExhausted);
        }
        if self.next_medicine_id >= 0xffff_ffff {
            return Err(LedgerError::IdsExhausted);
        }
        let id = self.next_medicine_id;
        self.inventory.push(Medicine { id, name: name.clone(), price });
        self.next_medicine_id = id + 1;
        let now = now_timestamp();
        let r = self.import(id, name, warehouse_id, quantity, price, expiry_date, now);
        assert(r is Ok);
        Ok(id)
    }

    /// Removes a medicine from the catalogue. Its lots and log entries stay:
    /// they are records of what happened.
    pub fn delete_medicine(&mut self, id: u32) -> (r: Result<(), LedgerError>)
        requires
            old(self).wf(),
        ensures
            final(self).wf(),
            (forall|k: int| 0 <= k < old(self).inventory@.len() ==> old(self).inventory@[k].id != id)
                ==> r == Err::<(), LedgerError>(LedgerError::MedicineNotFound) && *final(self)
                == *old(self),
            (exists|k: int| 0 <= k < old(self).inventory@.len() && old(self).inventory@[k].id == id)
                ==> {
                &&& r is Ok
                &&& exists|k: int|
                    0 <= k < old(self).inventory@.len() && old(self).inventory@[k].id == id
                        && final(self).inventory@ == old(self).inventory@.remove(k)
                &&& *final(self) == (Pharmacy { inventory: final(self).inventory, ..*old(self) })
            },
    {
        let n = self.inventory.len();
        let mut i: usize = 0;
        while i < n
            invariant
                n == self.inventory@.len(),
                i <= n,
                forall|k: int| 0 <= k < i ==> self.inventory@[k].id != id,
                self.wf(),
                *self == *old(self),
            decreases n - i,
        {
            if self.inventory[i].id == id {
                let ghost before = self.inventory@;
                self.inventory.remove(i);
                assert(self.inventory@ == before.remove(i as int));
                assert(forall|a: int, b: int|
                    0 <= a < b < self.inventory@.len() ==> self.inventory@[a].id
                        < self.inventory@[b].id) by {
                    assert forall|a: int, b: int|
                        0 <= a < b < self.inventory@.len() implies self.inventory@[a].id
                        < self.inventory@[b].id by {
                        let a0 = if a < i { a } else { a + 1 };
                        let b0 = if b < i { b } else { b + 1 };
                        assert(self.inventory@[a] == before[a0]);
                        assert(self.inventory@[b] == before[b0]);
                    }
                }
                assert(forall|k: int|
                    0 <= k < self.inventory@.len() ==> #[trigger] self.inventory@[k].id
                        < self.next_medicine_id) by {
                    assert forall|k: int| 0 <= k < self.inventory@.len() implies #[trigger] self.inventory@[k].id
                        < self.next_medicine_id by {
                        let k0 = if k < i { k } else { k + 1 };
                        assert(self.inventory@[k] == before[k0]);
                    }
                }
                return Ok(());
            }
            i = i + 1;
        }
        Err(LedgerError::MedicineNotFound)
    }

    /// A copy of the catalogue, in order of id.
    pub fn list_medicines(&self) -> (r: Vec<Medicine>)
        ensures
            r@ == self.inventory@,
    {
        let n = self.inventory.len();
        let mut r: Vec<Medicine> = Vec::new();
        let mut i: usize = 0;
        while i < n
            invariant
                n == self.inventory@.len(),
                i <= n,
                r@ == self.inventory@.take(i as int),
            decreases n - i,
        {
            r.push(self.inventory[i].copy());
            assert(r@ =~= self.inventory@.take(i + 1));
            i = i + 1;
        }
        assert(self.inventory@.take(n as int) =~= self.inventory@);
        r
    }
    /// Whether the ledger's invariant holds; a state loaded from outside is
    /// checked with this before any operation is run on it.
    pub fn is_well_formed(&self) -> (r: bool)
        ensures
            r == self.wf(),
    {
        if self.next_medicine_id == 0 {
            return false;
        }
        let mut i: usize = 0;
        while i < self.warehouses.len()
            invariant
                i <= self.warehouses@.len(),
                forall|k: int| 0 <= k < i ==> self.warehouses@[k].id == k + 1,
            decreases self.warehouses@.len() - i,
        {
            if self.warehouses[i].id as usize != i + 1 {
                return false;
            }
            i = i + 1;
        }
        let nw = self.warehouses.len();
        let mut i: usize = 0;
        while i < self.batches.len()
            invariant
                i <= self.batches@.len(),
                nw == self.warehouses@.len(),
                forall|k: int| 0 <= k < i ==> self.batches@[k].id == k + 1,
                forall|k: int| 0 <= k < i ==> self.has_warehouse(#[trigger] self.batches@[k].warehouse_id),
            decreases self.batches@.len() - i,
        {
            let b = &self.batches[i];
            if b.id as usize != i + 1 || b.warehouse_id == 0 || b.warehouse_id as usize > nw {
                return false;
            }
            i = i + 1;
        }
        let mut i: usize = 0;
        while i < self.import_log.len()
            invariant
                i <= self.import_log@.len(),
                forall|k: int| 0 <= k < i ==> self.import_log@[k].id == k + 1,
            decreases self.import_log@.len() - i,
        {
            if self.import_log[i].id as usize != i + 1 {
                return false;
            }
            i = i + 1;
        }
        let mut i: usize = 0;
        while i < self.export_log.len()
            invariant
                i <= self.export_log@.len(),
                forall|k: int| 0 <= k < i ==> self.export_log@[k].id == k + 1,
            decreases self.export_log@.len() - i,
        {
            if self.export_log[i].id as usize != i + 1 {
                return false;
            }
            i = i + 1;
        }
        let mut i: usize = 0;
        while i < self.transfer_log.len()
            invariant
                i <= self.transfer_log@.len(),
                forall|k: int| 0 <= k < i ==> self.transfer_log@[k].id == k + 1,
            decreases self.transfer_log@.len() - i,
        {
            if self.transfer_log[i].id as usize != i + 1 {
                return false;
            }
            i = i + 1;
        }
        let mut i: usize = 0;
        while i < self.inventory.len()
            invariant
                i <= self.inventory@.len(),
                forall|a: int, b: int| 0 <= a < b < i ==> self.inventory@[a].id < self.inventory@[b].id,
                forall|k: int| 0 <= k < i ==> #[trigger] self.inventory@[k].id < self.next_medicine_id,
            decreases self.inventory@.len() - i,
        {
            if self.inventory[i].id >= self.next_medicine_id {
                return false;
            }
            if i > 0 && self.inventory[i - 1].id >= self.inventory[i].id {
                return false;
            }
            proof {
                if i > 0 {
                    assert forall|a: int, b: int| 0 <= a < b < i + 1 implies self.inventory@[a].id
                        < self.inventory@[b].id by {
                        if b == i && a < i - 1 {
                            assert(self.inventory@[a].id < self.inventory@[i - 1].id);
                        }
                    }
                }
            }
            i = i + 1;
        }
        true
    }
}

} // verus!
