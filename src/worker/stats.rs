use vstd::prelude::*;

verus! {

/// Memory figures of the host, in KiB.
#[derive(Debug, Clone, Copy, PartialEq, Eq, Structural)]
pub struct MemInfo {
    pub mem_total: u64,
    pub mem_free: u64,
}

/// Cumulative CPU time of the host, in clock ticks. Figures that the kernel
/// does not report are `None`.
#[derive(Debug, Clone, Copy, PartialEq, Eq, Structural)]
pub struct CpuTime {
    pub user: u64,
    pub nice: u64,
    pub system: u64,
    pub idle: u64,
    pub iowait: Option<u64>,
    pub irq: Option<u64>,
    pub softirq: Option<u64>,
    pub steal: Option<u64>,
}

/// Size and free space of one mounted disk, in bytes.
#[derive(Debug)]
pub struct DiskStats {
    pub total: u64,
    pub free: u64,
    pub mount_point: String,
    pub file_system: String,
}

/// A snapshot of the host's resources, as a worker publishes it.
#[derive(Debug)]
pub struct Stats {
    pub mem_stats: MemInfo,
    pub disk_stats: Vec<DiskStats>,
    pub cpu_time: CpuTime,
    pub task_count: u64,
}

/// A missing figure counts as zero.
pub open spec fn or_zero(x: Option<u64>) -> int {
    match x {
        Some(v) => v as int,
        None => 0,
    }
}

/// Ticks spent idle: idle plus waiting for I/O.
pub open spec fn idle_ticks(c: CpuTime) -> int {
    c.idle + or_zero(c.iowait)
}

/// Ticks spent working: user, nice, system, interrupts and steal.
pub open spec fn busy_ticks(c: CpuTime) -> int {
    c.user + c.nice + c.system + or_zero(c.irq) + or_zero(c.softirq) + or_zero(c.steal)
}

/// Sum of the sizes of `disks`.
pub open spec fn total_space(disks: Seq<DiskStats>) -> int
    decreases disks.len(),
{
    if disks.len() == 0 {
        0
    } else {
        total_space(disks.drop_last()) + disks.last().total
    }
}

/// Sum of the free space of `disks`.
pub open spec fn free_space(disks: Seq<DiskStats>) -> int
    decreases disks.len(),
{
    if disks.len() == 0 {
        0
    } else {
        free_space(disks.drop_last()) + disks.last().free
    }
}

proof fn lemma_sums_grow(disks: Seq<DiskStats>, i: int)
    requires
        0 <= i <= disks.len(),
    ensures
        0 <= total_space(disks.subrange(0, i)) <= total_space(disks),
        0 <= free_space(disks.subrange(0, i)) <= free_space(disks),
    decreases disks.len(),
{
    if disks.len() > 0 {
        if i == disks.len() {
            assert(disks.subrange(0, i) =~= disks);
            lemma_sums_grow(disks.drop_last(), i - 1);
            assert(disks.drop_last().subrange(0, i - 1) =~= disks.drop_last());
        } else {
            lemma_sums_grow(disks.drop_last(), i);
            assert(disks.drop_last().subrange(0, i) =~= disks.subrange(0, i));
        }
    }
}

fn or_zero_u64(x: Option<u64>) -> (r: u64)
    ensures
        r == or_zero(x),
{
    match x {
        Some(v) => v,
        None => 0,
    }
}

impl CpuTime {
    /// Ticks spent idle; see `idle_ticks`.
    pub fn idle_time(&self) -> (r: u64)
        requires
            idle_ticks(*self) <= u64::MAX,
        ensures
            r == idle_ticks(*self),
    {
        self.idle + or_zero_u64(self.iowait)
    }

    /// Ticks spent working; see `busy_ticks`.
    pub fn busy_time(&self) -> (r: u64)
        requires
            busy_ticks(*self) <= u64::MAX,
        ensures
            r == busy_ticks(*self),
    {
        self.user + self.nice + self.system + or_zero_u64(self.irq) + or_zero_u64(self.softirq)
            + or_zero_u64(self.steal)
    }
}

impl Stats {
    /// Total memory, in KiB.
    pub fn mem_total_kb(&self) -> (r: u64)
        ensures
            r == self.mem_stats.mem_total,
    {
        self.mem_stats.mem_total
    }

    /// Free memory, in KiB.
    pub fn mem_available_kb(&self) -> (r: u64)
        ensures
            r == self.mem_stats.mem_free,
    {
        self.mem_stats.mem_free
    }

    /// Memory in use, in KiB.
    pub fn mem_used_kb(&self) -> (r: u64)
        requires
            self.mem_stats.mem_free <= self.mem_stats.mem_total,
        ensures
            r == self.mem_stats.mem_total - self.mem_stats.mem_free,
    {
        self.mem_total_kb() - self.mem_available_kb()
    }

    /// Size of all disks together, in bytes.
    pub fn disk_total_bytes(&self) -> (r: u64)
        requires
            total_space(self.disk_stats@) <= u64::MAX,
        ensures
            r == total_space(self.disk_stats@),
    {
        let mut sum: u64 = 0;
        let mut i: usize = 0;
        while i < self.disk_stats.len()
            invariant
                0 <= i <= self.disk_stats@.len(),
                total_space(self.disk_stats@) <= u64::MAX,
                sum == total_space(self.disk_stats@.subrange(0, i as int)),
            decreases self.disk_stats@.len() - i,
        {
            proof {
                let s = self.disk_stats@;
                assert(s.subrange(0, i + 1).drop_last() =~= s.subrange(0, i as int));
                lemma_sums_grow(s, i + 1);
            }
            sum = sum + self.disk_stats[i].total;
            i = i + 1;
        }
        proof {
            assert(self.disk_stats@.subrange(0, i as int) =~= self.disk_stats@);
        }
        sum
    }

    /// Free space of all disks together, in bytes.
    pub fn disk_free_bytes(&self) -> (r: u64)
        requires
            free_space(self.disk_stats@) <= u64::MAX,
        ensures
            r == free_space(self.disk_stats@),
    {
        let mut sum: u64 = 0;
        let mut i: usize = 0;
        while i < self.disk_stats.len()
            invariant
                0 <= i <= self.disk_stats@.len(),
                free_space(self.disk_stats@) <= u64::MAX,
                sum == free_space(self.disk_stats@.subrange(0, i as int)),
            decreases self.disk_stats@.len() - i,
        {
            proof {
                let s = self.disk_stats@;
                assert(s.subrange(0, i + 1).drop_last() =~= s.subrange(0, i as int));
                lemma_sums_grow(s, i + 1);
            }
            sum = sum + self.disk_stats[i].free;
            i = i + 1;
        }
        proof {
            assert(self.disk_stats@.subrange(0, i as int) =~= self.disk_stats@);
        }
        sum
    }

    /// Space in use on all disks together, in bytes.
    pub fn disk_used_bytes(&self) -> (r: u64)
        requires
            total_space(self.disk_stats@) <= u64::MAX,
            free_space(self.disk_stats@) <= total_space(self.disk_stats@),
        ensures
            r == total_space(self.disk_stats@) - free_space(self.disk_stats@),
    {
        let total = self.disk_total_bytes();
        let free = self.disk_free_bytes();
        total - free
    }
}

} // verus!
