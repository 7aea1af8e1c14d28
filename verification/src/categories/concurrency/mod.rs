pub mod row_lock;
pub mod mvcc;
