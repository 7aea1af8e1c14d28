pub mod clock_buffer;
pub mod lru_buffer;
