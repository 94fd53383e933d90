//! The decisions behind the web pages: what each page computes from the
//! request before and after the database does its part.
pub mod import;
pub mod labels;
pub mod inventory;
pub mod ingest;
pub mod sales;
pub mod individuals;
pub mod ledger;
pub mod locations;
pub mod market;
pub mod sealed;
