use vstd::prelude::*;

verus! {

/// What a warehouse is used for.
#[derive(Clone, Copy, Debug, PartialEq, Eq, Structural)]
pub enum WarehouseKind {
    /// A distribution hub: stock is received and moved on from here.
    Hub,
    /// A point of sale: stock is sold from here.
    PointOfSale,
}

/// A named storage location.
#[derive(Clone, Debug)]
pub struct Warehouse {
    pub id: u32,
    pub name: String,
    pub kind: WarehouseKind,
}

/// A catalogue entry. Prices are in the smallest currency unit.
#[derive(Clone, Debug)]
pub struct Medicine {
    pub id: u32,
    pub name: String,
    pub price: u64,
}

/// A lot of one medicine in one warehouse. Everything but `quantity` is fixed
/// when the lot is created; `quantity` only goes down.
#[derive(Clone, Debug)]
pub struct StockBatch {
    pub id: u32,
    pub medicine_id: u32,
    pub medicine_name: String,
    pub warehouse_id: u32,
    pub quantity: u32,
    /// Price of one unit, in the smallest currency unit.
    pub unit_price: u64,
    /// Unix timestamp (seconds) after which the lot must not be sold.
    pub expiry_date: i64,
    /// Unix timestamp (seconds) at which the lot was created.
    pub import_date: i64,
}

/// Log entry of an import: a new lot entering a warehouse.
#[derive(Clone, Debug)]
pub struct ImportBatch {
    pub id: u32,
    /// The lot that the import created.
    pub batch_id: u32,
    pub medicine_id: u32,
    pub medicine_name: String,
    pub warehouse_id: u32,
    pub quantity: u32,
    pub price: u64,
    pub timestamp: i64,
}

/// Log entry of a sale. `total_value` is the sum over the drained lots of unit
/// price times units taken, so `total_value / amount` is the average unit price.
#[derive(Clone, Debug)]
pub struct ExportBatch {
    pub id: u32,
    pub medicine_id: u32,
    pub medicine_name: String,
    pub warehouse_id: u32,
    pub amount: u32,
    pub total_value: u128,
    pub timestamp: i64,
}

/// Log entry of a transfer of part of a lot to another warehouse.
#[derive(Clone, Debug)]
pub struct TransferRecord {
    pub id: u32,
    /// The lot the units were taken from.
    pub batch_id: u32,
    /// The lot created in the destination warehouse.
    pub new_batch_id: u32,
    pub medicine_id: u32,
    pub medicine_name: String,
    pub from_warehouse_id: u32,
    pub to_warehouse_id: u32,
    pub quantity: u32,
    pub timestamp: i64,
}

/// Why a ledger operation was refused. A refused operation changes nothing.
#[derive(Clone, Copy, Debug, PartialEq, Eq, Structural)]
pub enum LedgerError {
    MedicineNotFound,
    WarehouseNotFound,
    BatchNotFound,
    /// A quantity of zero.
    InvalidQuantity,
    /// A price of zero.
    InvalidPrice,
    /// An expiry date that is not a date.
    InvalidTimestamp,
    /// A transfer asked for more than the lot holds.
    InsufficientQuantity { available: u32 },
    /// A sale asked for more than the warehouse holds of the medicine.
    InsufficientStock { short_by: u32 },
    /// No warehouse is a point of sale.
    NoPointOfSaleWarehouse,
    /// Every identifier of the collection is taken.
    IdsExhausted,
}

/// The whole state: the medicine catalogue, the warehouses, the stock lots
/// and the three movement logs.
#[derive(Clone, Debug)]
pub struct Pharmacy {
    /// Catalogue, in increasing order of id.
    pub inventory: Vec<Medicine>,
    /// The id the next catalogue entry gets; ids of removed entries are not reused.
    pub next_medicine_id: u32,
    pub warehouses: Vec<Warehouse>,
    pub batches: Vec<StockBatch>,
    pub import_log: Vec<ImportBatch>,
    pub export_log: Vec<ExportBatch>,
    pub transfer_log: Vec<TransferRecord>,
}

impl StockBatch {
    /// A field-by-field copy.
    pub fn copy(&self) -> (r: StockBatch)
        ensures
            r == *self,
    {
        StockBatch {
            id: self.id,
            medicine_id: self.medicine_id,
            medicine_name: self.medicine_name.clone(),
            warehouse_id: self.warehouse_id,
            quantity: self.quantity,
            unit_price: self.unit_price,
            expiry_date: self.expiry_date,
            import_date: self.import_date,
        }
    }
}

impl Medicine {
    /// A field-by-field copy.
    pub fn copy(&self) -> (r: Medicine)
        ensures
            r == *self,
    {
        Medicine { id: self.id, name: self.name.clone(), price: self.price }
    }
}

impl Pharmacy {
    /// Whether the warehouse id names a warehouse.
    pub open spec fn has_warehouse(&self, warehouse_id: u32) -> bool {
        1 <= warehouse_id <= self.warehouses@.len()
    }

    /// Whether the batch id names a stock lot.
    pub open spec fn has_batch(&self, batch_id: u32) -> bool {
        1 <= batch_id <= self.batches@.len()
    }

    /// The ledger's invariant. Lots, warehouses and log entries are never
    /// removed and are numbered from 1 in order of creation; every lot lies in
    /// a warehouse; the catalogue is ordered by id, below `next_medicine_id`.
    pub open spec fn wf(&self) -> bool {
        &&& forall|i: int| 0 <= i < self.warehouses@.len() ==> self.warehouses@[i].id == i + 1
        &&& forall|i: int| 0 <= i < self.batches@.len() ==> self.batches@[i].id == i + 1
        &&& forall|i: int|
            0 <= i < self.batches@.len() ==> self.has_warehouse(#[trigger] self.batches@[i].warehouse_id)
        &&& forall|i: int| 0 <= i < self.import_log@.len() ==> self.import_log@[i].id == i + 1
        &&& forall|i: int| 0 <= i < self.export_log@.len() ==> self.export_log@[i].id == i + 1
        &&& forall|i: int| 0 <= i < self.transfer_log@.len() ==> self.transfer_log@[i].id == i + 1
        &&& forall|i: int, j: int|
            0 <= i < j < self.inventory@.len() ==> self.inventory@[i].id < self.inventory@[j].id
        &&& forall|i: int|
            0 <= i < self.inventory@.len() ==> #[trigger] self.inventory@[i].id < self.next_medicine_id
        &&& 1 <= self.next_medicine_id
    }
}

} // verus!
