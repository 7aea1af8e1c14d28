//! Composable database building blocks: buffer pools, lock managers, logs,
//! filters, partitioners and storage pages, each with a verified contract.
pub mod common;
pub mod categories;
