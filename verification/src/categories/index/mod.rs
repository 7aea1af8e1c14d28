pub mod bkey;
pub mod hash_index;
pub mod btree;
pub mod covering_index;
