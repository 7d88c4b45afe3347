//! A pharmacy stock ledger: medicines, warehouses, and lot-level stock
//! batches that are imported, transferred between warehouses and sold
//! first-expiry-first-out, with an append-only movement log.
mod clock;
mod config;
mod fefo;
mod models;
mod lemmas;
mod pharmacy;

pub use clock::{date_timestamp_of, parse_expiry, SECONDS_PER_DAY};
pub use config::Config;
pub use fefo::{
    after_sale, available, drains_before, drawn_value, eligible, fefo_draw, stock_ahead,
    stock_name,
};
pub use lemmas::{
    distinct_ids, drawn_total, lemma_drawn_total, lemma_expiry_boundary, lemma_import_fresh_id,
    lemma_no_partial_transfer, lemma_sale_conserves_stock, lemma_sale_deterministic,
    lemma_sale_shortfall, lemma_transfer_conserves_lot, lemma_transfer_conserves_stock,
    lemma_transfer_fresh_id, max_batch_id, medicine_stock, moved_out, sum_by,
};
pub use models::{
    ExportBatch, ImportBatch, LedgerError, Medicine, Pharmacy, StockBatch, TransferRecord,
    Warehouse, WarehouseKind,
};
pub use pharmacy::{expiring, first_point_of_sale, u32_max, u64_max};
