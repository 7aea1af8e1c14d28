pub mod heap_file;
pub mod lsm_tree;
pub mod clustered;
pub mod columnar;
