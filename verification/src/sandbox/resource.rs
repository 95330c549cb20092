use vstd::prelude::*;

verus! {

/// Microseconds in one second.
pub const MICROS_PER_SECOND: u64 = 1_000_000;

/// What one process consumed, as the kernel accounts for it.
#[derive(Clone, Copy, Debug, PartialEq, Eq, Hash, Structural)]
pub struct ResourceUsage {
    /// User time (microseconds)
    pub user_time: u64,
    /// System time (microseconds)
    pub sys_time: u64,
    /// Memory usage (bytes)
    pub memory: u64,
}

/// The limits a run is held to, and how far around each limit a kill still
/// counts as a breach of it.
#[derive(Clone, Copy, Debug, PartialEq, Eq, Hash, Structural)]
pub struct ResourceLimits {
    /// CPU time (seconds)
    pub cpu: u64,
    /// CPU time tolerance (microseconds)
    pub cpu_tolerance: u64,
    /// Memory usage (bytes)
    pub memory: u64,
    /// Memory usage tolerance (bytes)
    pub memory_tolerance: u64,
}

/// The distance between two numbers.
pub open spec fn distance(a: int, b: int) -> nat {
    if a >= b {
        (a - b) as nat
    } else {
        (b - a) as nat
    }
}

impl ResourceLimits {
    /// The CPU limit in microseconds.
    pub open spec fn cpu_micros(self) -> nat {
        (self.cpu * MICROS_PER_SECOND) as nat
    }
}

impl ResourceUsage {
    /// Nothing consumed.
    pub open spec fn zero() -> ResourceUsage {
        ResourceUsage { user_time: 0, sys_time: 0, memory: 0 }
    }

    /// User and system time together, in microseconds.
    pub open spec fn spec_total_time(self) -> nat {
        (self.user_time + self.sys_time) as nat
    }

    /// The time consumed lies within the tolerance around the CPU limit.
    pub open spec fn spec_exceeded_time(self, limits: ResourceLimits) -> bool {
        distance(self.spec_total_time() as int, limits.cpu_micros() as int)
            <= limits.cpu_tolerance
    }

    /// The peak memory lies within the tolerance around the memory limit.
    pub open spec fn spec_exceeded_memory(self, limits: ResourceLimits) -> bool {
        distance(self.memory as int, limits.memory as int) <= limits.memory_tolerance
    }

    /// Either limit counts as breached.
    pub open spec fn spec_exceeded(self, limits: ResourceLimits) -> bool {
        self.spec_exceeded_time(limits) || self.spec_exceeded_memory(limits)
    }

    /// User and system time together, in microseconds. The sum of two
    /// 64-bit counters always fits the result.
    pub fn total_time(&self) -> (total: u128)
        ensures
            total == self.spec_total_time(),
    {
        self.user_time as u128 + self.sys_time as u128
    }

    /// Whether a kill of this process counts as a breach of either limit.
    pub fn exceeded(&self, resource_limits: ResourceLimits) -> (r: bool)
        ensures
            r == self.spec_exceeded(resource_limits),
    {
        self.exceeded_time(resource_limits) || self.exceeded_memory(resource_limits)
    }

    /// Whether the time consumed lies within the tolerance around the CPU
    /// limit: `|total_time - cpu| <= cpu_tolerance`.
    pub fn exceeded_time(&self, resource_limits: ResourceLimits) -> (r: bool)
        ensures
            r == self.spec_exceeded_time(resource_limits),
    {
        let total: u128 = self.total_time();
        assert(resource_limits.cpu * MICROS_PER_SECOND <= u64::MAX * 1_000_000);
        let limit: u128 = resource_limits.cpu as u128 * MICROS_PER_SECOND as u128;
        let gap: u128 = if total >= limit {
            total - limit
        } else {
            limit - total
        };
        gap <= resource_limits.cpu_tolerance as u128
    }

    /// Whether the peak memory lies within the tolerance around the memory
    /// limit: `|memory - limit| <= memory_tolerance`.
    pub fn exceeded_memory(&self, resource_limits: ResourceLimits) -> (r: bool)
        ensures
            r == self.spec_exceeded_memory(resource_limits),
    {
        let gap: u64 = if self.memory >= resource_limits.memory {
            self.memory - resource_limits.memory
        } else {
            resource_limits.memory - self.memory
        };
        gap <= resource_limits.memory_tolerance
    }
}

/// A time as the kernel reports it: whole seconds and the microseconds
/// beyond them.
#[derive(Clone, Copy, Debug, PartialEq, Eq, Hash, Structural)]
pub struct TimeVal {
    pub seconds: i64,
    pub micros: i64,
}

/// The usage of a reaped child as the kernel reports it.
#[derive(Clone, Copy, Debug, PartialEq, Eq, Hash, Structural)]
pub struct RawUsage {
    pub user_time: TimeVal,
    pub sys_time: TimeVal,
    /// The peak resident set, in pages.
    pub max_rss: i64,
}

impl TimeVal {
    /// The time in microseconds.
    pub open spec fn spec_micros(self) -> int {
        self.seconds * MICROS_PER_SECOND + self.micros
    }

    /// The time in microseconds; `None` if it is negative or beyond 64
    /// bits.
    pub fn micros(&self) -> (total: Option<u64>)
        ensures
            total is Some <==> 0 <= self.spec_micros() <= u64::MAX,
            total matches Some(n) ==> n == self.spec_micros(),
    {
        assert(MICROS_PER_SECOND == 1_000_000);
        let scaled: i128 = self.seconds as i128 * 1_000_000;
        let total: i128 = scaled + self.micros as i128;
        if 0 <= total && total <= u64::MAX as i128 {
            Some(total as u64)
        } else {
            None
        }
    }
}

impl RawUsage {
    /// The peak resident set in bytes, for pages of the given size.
    pub open spec fn spec_memory(self, page_size: i64) -> int {
        self.max_rss * page_size
    }

    /// Whether the numbers can be a usage: none of them negative, none
    /// beyond 64 bits.
    pub open spec fn representable(self, page_size: i64) -> bool {
        &&& 0 <= self.user_time.spec_micros() <= u64::MAX
        &&& 0 <= self.sys_time.spec_micros() <= u64::MAX
        &&& 0 <= self.spec_memory(page_size) <= u64::MAX
    }

    /// The usage that the numbers stand for.
    pub open spec fn spec_usage(self, page_size: i64) -> ResourceUsage {
        ResourceUsage {
            user_time: self.user_time.spec_micros() as u64,
            sys_time: self.sys_time.spec_micros() as u64,
            memory: self.spec_memory(page_size) as u64,
        }
    }

    /// Reads the kernel's numbers: times become microseconds, and the peak
    /// resident set is multiplied by the page size to give bytes. `None` if
    /// a number is negative or beyond 64 bits.
    pub fn usage(&self, page_size: i64) -> (usage: Option<ResourceUsage>)
        ensures
            usage is Some <==> self.representable(page_size),
            usage matches Some(u) ==> u == self.spec_usage(page_size),
    {
        let user_time: u64 = match self.user_time.micros() {
            Some(micros) => micros,
            None => {
                return None;
            },
        };
        let sys_time: u64 = match self.sys_time.micros() {
            Some(micros) => micros,
            None => {
                return None;
            },
        };
        assert(-0x8000_0000_0000_0000 * 0x8000_0000_0000_0000 <= self.max_rss * page_size
            <= 0x8000_0000_0000_0000 * 0x8000_0000_0000_0000) by (nonlinear_arith)
            requires
                -0x8000_0000_0000_0000 <= self.max_rss < 0x8000_0000_0000_0000,
                -0x8000_0000_0000_0000 <= page_size < 0x8000_0000_0000_0000,
        ;
        let memory: i128 = self.max_rss as i128 * page_size as i128;
        if 0 <= memory && memory <= u64::MAX as i128 {
            Some(ResourceUsage { user_time, sys_time, memory: memory as u64 })
        } else {
            None
        }
    }
}

impl Default for ResourceUsage {
    fn default() -> (r: ResourceUsage)
        ensures
            r == ResourceUsage::zero(),
    {
        ResourceUsage { user_time: 0, sys_time: 0, memory: 0 }
    }
}

} // verus!
