/// The dictionary section.
pub mod dictionary;
/// The order in which paths are stored.
pub mod path_order;
/// Shared parts of the string pool.
pub mod string_pool_common;
/// The string pool: the compressed list of file paths.
pub mod string_pool;
