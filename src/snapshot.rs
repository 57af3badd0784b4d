//! One sample of the host's CPU and memory use.
use vstd::prelude::*;

verus! {

/// A sample of the host, taken at one moment.
///
/// CPU figures are integers: `total_cpu_capacity` is the sum of the processors'
/// clock speeds in MHz, and `used_cpu` the sum of their usage percentages, in
/// hundredths of a percent (`24350` stands for `243.5`).
#[derive(Clone, Copy, Debug, PartialEq, Eq, Structural)]
pub struct SystemSnapshot {
    pub total_cpu_capacity: u64,
    pub used_cpu: u64,
    pub used_memory: u64,
    pub total_memory: u64,
    /// Seconds since the Unix epoch at which the sample was taken.
    pub timestamp: u64,
}

/// What is read of one processor: its clock speed in MHz and its usage in
/// hundredths of a percent.
#[derive(Clone, Copy, Debug, PartialEq, Eq, Structural)]
pub struct ProcessorReading {
    pub frequency_mhz: u64,
    pub usage_centi: u32,
}

/// Why no snapshot could be made this tick.
#[derive(Clone, Copy, Debug, PartialEq, Eq, Structural)]
pub enum SamplingError {
    /// A processor's usage lies outside 0 to 100 percent.
    UsageOutOfRange,
    /// A sum over the processors does not fit in 64 bits.
    Overflow,
    /// The clock reads a time before the Unix epoch.
    ClockBeforeEpoch,
}

/// The most a processor can be used: 100 percent, in hundredths.
pub const FULL_USAGE_CENTI: u32 = 10000;

pub open spec fn usage_in_range(r: ProcessorReading) -> bool {
    r.usage_centi <= FULL_USAGE_CENTI
}

pub open spec fn all_usages_in_range(rs: Seq<ProcessorReading>) -> bool {
    forall|i: int| 0 <= i < rs.len() ==> usage_in_range(#[trigger] rs[i])
}

/// The sum of the processors' clock speeds.
pub open spec fn sum_frequency(rs: Seq<ProcessorReading>) -> int
    decreases rs.len(),
{
    if rs.len() == 0 {
        0
    } else {
        sum_frequency(rs.drop_last()) + rs.last().frequency_mhz
    }
}

/// The sum of the processors' usages.
pub open spec fn sum_usage(rs: Seq<ProcessorReading>) -> int
    decreases rs.len(),
{
    if rs.len() == 0 {
        0
    } else {
        sum_usage(rs.drop_last()) + rs.last().usage_centi
    }
}

/// Total capacity and usage of the processors, or why they cannot be given.
pub open spec fn cpu_amount(rs: Seq<ProcessorReading>) -> Result<(u64, u64), SamplingError> {
    if !all_usages_in_range(rs) {
        Err(SamplingError::UsageOutOfRange)
    } else if sum_frequency(rs) > u64::MAX || sum_usage(rs) > u64::MAX {
        Err(SamplingError::Overflow)
    } else {
        Ok((sum_frequency(rs) as u64, sum_usage(rs) as u64))
    }
}

/// The snapshot of the given readings at the given time.
pub open spec fn snapshot_of(
    rs: Seq<ProcessorReading>,
    used_memory: u64,
    total_memory: u64,
    unix_time: i64,
) -> Result<SystemSnapshot, SamplingError> {
    match cpu_amount(rs) {
        Err(e) => Err(e),
        Ok((total, used)) => if unix_time < 0 {
            Err(SamplingError::ClockBeforeEpoch)
        } else {
            Ok(
                SystemSnapshot {
                    total_cpu_capacity: total,
                    used_cpu: used,
                    used_memory,
                    total_memory,
                    timestamp: unix_time as u64,
                },
            )
        },
    }
}

/// Sums the processors' clock speeds and usages (each usage is summed, not
/// averaged, so `used_cpu` may exceed one processor's 100 percent).
pub fn calculate_cpu_amount(processors: &Vec<ProcessorReading>) -> (r: Result<(u64, u64), SamplingError>)
    ensures
        r == cpu_amount(processors@),
{
    let n = processors.len();
    let mut i: usize = 0;
    while i < n
        invariant
            n == processors@.len(),
            0 <= i <= n,
            forall|j: int| 0 <= j < i ==> usage_in_range(#[trigger] processors@[j]),
        decreases n - i,
    {
        if processors[i].usage_centi > FULL_USAGE_CENTI {
            return Err(SamplingError::UsageOutOfRange);
        }
        i += 1;
    }
    let mut total: u64 = 0;
    let mut used: u64 = 0;
    let mut overflow = false;
    let mut k: usize = 0;
    while k < n
        invariant
            n == processors@.len(),
            0 <= k <= n,
            !overflow ==> total == sum_frequency(processors@.take(k as int)) && used == sum_usage(
                processors@.take(k as int),
            ),
            overflow ==> sum_frequency(processors@.take(k as int)) > u64::MAX || sum_usage(
                processors@.take(k as int),
            ) > u64::MAX,
        decreases n - k,
    {
        let p = processors[k];
        assert(processors@.take(k + 1).drop_last() =~= processors@.take(k as int));
        if !overflow {
            match (total.checked_add(p.frequency_mhz), used.checked_add(p.usage_centi as u64)) {
                (Some(t), Some(u)) => {
                    total = t;
                    used = u;
                },
                _ => {
                    overflow = true;
                },
            }
        }
        k += 1;
    }
    assert(processors@.take(n as int) =~= processors@);
    if overflow {
        Err(SamplingError::Overflow)
    } else {
        Ok((total, used))
    }
}

/// Makes the snapshot of the given readings, taken at `unix_time` (seconds
/// since the Unix epoch).
pub fn build_snapshot(
    processors: &Vec<ProcessorReading>,
    used_memory: u64,
    total_memory: u64,
    unix_time: i64,
) -> (r: Result<SystemSnapshot, SamplingError>)
    ensures
        r == snapshot_of(processors@, used_memory, total_memory, unix_time),
{
    match calculate_cpu_amount(processors) {
        Err(e) => Err(e),
        Ok((total, used)) => if unix_time < 0 {
            Err(SamplingError::ClockBeforeEpoch)
        } else {
            Ok(
                SystemSnapshot {
                    total_cpu_capacity: total,
                    used_cpu: used,
                    used_memory,
                    total_memory,
                    timestamp: unix_time as u64,
                },
            )
        },
    }
}

/// Relies on `std::time::SystemTime::now`, chrono's `From<SystemTime>` for
/// `DateTime<Utc>` and `DateTime::timestamp`: the current time in whole seconds
/// since the Unix epoch, negative where the clock reads a time before it.
/// Nothing is promised of the value.
#[verifier::external_body]
fn unix_time_now() -> (r: i64) {
    chrono::DateTime::<chrono::Utc>::from(std::time::SystemTime::now()).timestamp()
}

/// Makes the snapshot of the given readings, stamped with the current time.
pub fn get_system_info(
    processors: &Vec<ProcessorReading>,
    used_memory: u64,
    total_memory: u64,
) -> (r: Result<SystemSnapshot, SamplingError>)
    ensures
        exists|t: i64| r == snapshot_of(processors@, used_memory, total_memory, t),
        cpu_amount(processors@) is Err ==> r == Err::<SystemSnapshot, SamplingError>(
            cpu_amount(processors@)->Err_0,
        ),
{
    let now = unix_time_now();
    build_snapshot(processors, used_memory, total_memory, now)
}

/// A snapshot is only made of readings whose every processor usage lies
/// between 0 and 100 percent (their sum, `used_cpu`, may exceed 100 percent).
pub proof fn lemma_snapshot_usages_in_range(
    rs: Seq<ProcessorReading>,
    used_memory: u64,
    total_memory: u64,
    unix_time: i64,
)
    requires
        snapshot_of(rs, used_memory, total_memory, unix_time) is Ok,
    ensures
        forall|i: int| 0 <= i < rs.len() ==> 0 <= #[trigger] rs[i].usage_centi <= FULL_USAGE_CENTI,
{
    assert forall|i: int| 0 <= i < rs.len() implies 0 <= #[trigger] rs[i].usage_centi
        <= FULL_USAGE_CENTI by {
        assert(usage_in_range(rs[i]));
    }
}

} // verus!
