//! card_vault: the verified core of a local trading-card inventory.
//!
//! The library holds the decisions of the inventory server: configuration
//! defaults, CSV import bookkeeping, identifier generation, form handling,
//! label and invoice text, and the HTML fragments of the import page.
//! The server binary around it (HTTP, SQLite, templates) lives in `app/`.
pub mod text;
pub mod clock;
pub mod config;
pub mod errors;
pub mod models;
pub mod db;
pub mod routes;
