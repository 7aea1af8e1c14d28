pub mod wal;
