pub mod filter;
pub mod hash_join;
pub mod index_scan;
pub mod sequential_scan;
pub mod sort;
