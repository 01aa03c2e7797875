//! Configuration of one extraction, and the sizing of its parallelism.
use vstd::prelude::*;

verus! {

/// Settings of an extraction; read-only once built. The compression flag is
/// accepted but has no effect yet: files are always written uncompressed.
#[derive(Clone, Debug)]
pub struct ExtractorConfig {
    pub host: String,
    pub database_path: String,
    pub out_dir: String,
    pub parallelism: usize,
    pub pool_size: usize,
    pub user: String,
    pub password: String,
    pub use_compression: bool,
}

/// Memory assumed for one worker: a batch of half a million rows of about
/// two kilobytes.
pub const WORKER_MEMORY_BYTES: u64 = 1_024_000_000;

/// Workers allowed per processor core.
pub const WORKERS_PER_CORE: usize = 4;

pub open spec fn safe_workers(available_bytes: int, cpu_cores: int) -> int {
    let by_memory = available_bytes * 4 / 5 / 1_024_000_000;
    let ceiling = if cpu_cores * 4 < 1 {
        1
    } else if cpu_cores * 4 > usize::MAX {
        usize::MAX as int
    } else {
        cpu_cores * 4
    };
    if by_memory < 1 { 1 } else if by_memory > ceiling { ceiling } else { by_memory }
}

/// Workers that fit in memory once a fifth is kept back, between one and
/// four per core (one when no core is reported).
pub fn calculate_safe_parallelism(available_bytes: u64, cpu_cores: usize) -> (r: usize)
    ensures
        r as int == safe_workers(available_bytes as int, cpu_cores as int),
        r >= 1,
{
    let usable: u64 = ((available_bytes as u128) * 4 / 5) as u64;
    let by_memory: u64 = usable / WORKER_MEMORY_BYTES;
    let ceiling: usize = if cpu_cores == 0 {
        1
    } else if cpu_cores > usize::MAX / WORKERS_PER_CORE {
        usize::MAX
    } else {
        cpu_cores * WORKERS_PER_CORE
    };
    assert(cpu_cores > usize::MAX / 4 ==> cpu_cores * 4 > usize::MAX);
    if by_memory < 1 {
        1
    } else if by_memory as u128 > ceiling as u128 {
        ceiling
    } else {
        by_memory as usize
    }
}

/// Relies on num_cpus::get: the number of processor cores this process may
/// use, which depends on the machine and is documented to be at least one.
#[verifier::external_body]
fn cpu_count() -> (r: usize)
    ensures
        r >= 1,
{
    num_cpus::get()
}

/// Parallelism used when none is given: what the memory ceiling allows on
/// this machine's cores, of which there is at least one.
pub fn default_parallelism(available_bytes: u64) -> (r: usize)
    ensures
        r >= 1,
        exists|cores: int| 1 <= cores <= usize::MAX && r as int == safe_workers(available_bytes as int, cores),
{
    calculate_safe_parallelism(available_bytes, cpu_count())
}

/// Connections to open up front: as given, or two per worker.
pub fn pool_size_for(explicit: Option<usize>, parallelism: usize) -> (r: usize)
    ensures
        explicit matches Some(n) ==> r == n,
        explicit is None && parallelism <= usize::MAX / 2 ==> r == parallelism * 2,
        explicit is None && parallelism > usize::MAX / 2 ==> r == usize::MAX,
{
    match explicit {
        Some(n) => n,
        None => if parallelism > usize::MAX / 2 { usize::MAX } else { parallelism * 2 },
    }
}

} // verus!
