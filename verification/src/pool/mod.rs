pub mod async_pool;
