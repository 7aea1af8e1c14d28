pub mod hash_partitioner;
