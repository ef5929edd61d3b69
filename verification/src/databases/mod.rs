//! Sizing the connection pool of a SQL database.
use vstd::prelude::*;

verus! {

/// The least and the most connections of a pool: the configured sizes, or one and
/// two connections per CPU where none is configured. Each is written as a `u32`
/// (keeping its low 32 bits).
pub fn pool_size_bounds(pool_min_size: Option<usize>, pool_max_size: Option<usize>, num_cpus: usize) -> (r: (u32, u32))
    requires
        num_cpus * 2 <= usize::MAX,
    ensures
        r.0 == (match pool_min_size {
            Some(n) => n,
            None => num_cpus,
        }) as u32,
        r.1 == (match pool_max_size {
            Some(n) => n,
            None => (num_cpus * 2) as usize,
        }) as u32,
{
    let min = match pool_min_size {
        Some(n) => n,
        None => num_cpus,
    };
    let doubled = num_cpus * 2;
    let max = match pool_max_size {
        Some(n) => n,
        None => doubled,
    };
    (min as u32, max as u32)
}

} // verus!
