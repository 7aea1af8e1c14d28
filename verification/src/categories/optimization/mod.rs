pub mod bloom_filter;
pub mod statistics_collector;
