use vstd::prelude::*;

verus! {

/// Hundredths in one percent; usage thresholds are counted in hundredths of a percent.
pub const PERCENT_HUNDREDTHS: u64 = 100;

/// `a - b`, floored at zero.
pub open spec fn saturating_diff(a: nat, b: nat) -> nat {
    if a >= b {
        (a - b) as nat
    } else {
        0
    }
}

/// The denominator of a usage ratio: the capacity, or one for an empty volume
/// (whose used space is then zero, so the ratio is zero).
pub open spec fn usage_den(total: nat) -> nat {
    if total == 0 {
        1
    } else {
        total
    }
}

/// `n / d` rounded to the nearest integer, an exact half to the even one.
pub open spec fn round_half_even(n: nat, d: nat) -> nat {
    let q = n / d;
    let r = n % d;
    if 2 * r < d {
        q
    } else if 2 * r > d {
        q + 1
    } else if q % 2 == 0 {
        q
    } else {
        q + 1
    }
}

/// `n / d` rounded, an exact half to the even integer.
pub(crate) fn div_round_half_even(n: u128, d: u128) -> (r: u128)
    requires
        d > 0,
        n < 0x1_0000_0000_0000_0000_0000_0000,
        d < 0x1_0000_0000_0000_0000_0000_0000,
    ensures
        r == round_half_even(n as nat, d as nat),
{
    let q = n / d;
    let rem = n % d;
    if 2 * rem < d {
        q
    } else if 2 * rem > d {
        q + 1
    } else if q % 2 == 0 {
        q
    } else {
        q + 1
    }
}

/// Where a rounded value lies: `k == round_half_even(n, d)` means
/// `k - 1/2 <= n / d <= k + 1/2`, with a bound reached only when `k` is even.
pub proof fn lemma_round_half_even_bounds(n: nat, d: nat)
    requires
        d > 0,
    ensures
        2 * n >= (2 * round_half_even(n, d) - 1) * d,
        2 * n <= (2 * round_half_even(n, d) + 1) * d,
        2 * n == (2 * round_half_even(n, d) - 1) * d ==> round_half_even(n, d) % 2 == 0,
        2 * n == (2 * round_half_even(n, d) + 1) * d ==> round_half_even(n, d) % 2 == 0,
{
    let q = (n / d) as int;
    let r = (n % d) as int;
    vstd::arithmetic::div_mod::lemma_fundamental_div_mod(n as int, d as int);
    let k = round_half_even(n, d) as int;
    let di = d as int;
    assert(2 * n == 2 * (q * di) + 2 * r);
    assert((2 * k - 1) * di == 2 * (k * di) - di) by (nonlinear_arith);
    assert((2 * k + 1) * di == 2 * (k * di) + di) by (nonlinear_arith);
    assert((q + 1) * di == q * di + di) by (nonlinear_arith);
}

/// Adding an even number of whole units to the numerator adds them to the
/// rounded result.
pub proof fn lemma_round_half_even_shift(n: nat, m: nat, d: nat)
    requires
        d > 0,
        m % 2 == 0,
    ensures
        round_half_even(n + m * d, d) == round_half_even(n, d) + m,
{
    vstd::arithmetic::div_mod::lemma_fundamental_div_mod(n as int, d as int);
    let q = n / d;
    let r = n % d;
    assert(n + m * d == (q + m) * d + r) by (nonlinear_arith)
        requires
            n == d * q + r,
    ;
    vstd::arithmetic::div_mod::lemma_fundamental_div_mod_converse(
        (n + m * d) as int,
        d as int,
        (q + m) as int,
        r as int,
    );
}

/// `100 * used / total` in tenths of a percent, an exact half rounded to the
/// even tenth; zero when `total == 0`.
pub open spec fn usage_tenths_of(used: nat, total: nat) -> nat {
    if total == 0 {
        0
    } else {
        round_half_even(1000 * used, total)
    }
}

/// A mounted storage volume at snapshot time, with its derived statistics.
pub struct DiskInfo {
    pub name: String,
    /// Where the volume is mounted, as text.
    pub mount_point: String,
    /// Capacity in bytes.
    pub total_space: u64,
    /// Free space in bytes.
    pub available_space: u64,
    /// `total_space - available_space`, floored at zero.
    pub used_space: u64,
    /// Usage in tenths of a percent (0 to 1000), an exact half rounded to the even tenth.
    pub usage_tenths: u64,
    pub filesystem_type: String,
}

impl DiskInfo {
    /// The derived fields agree with the reported ones.
    pub open spec fn wf(&self) -> bool {
        &&& self.used_space as nat == saturating_diff(
            self.total_space as nat,
            self.available_space as nat,
        )
        &&& self.usage_tenths as nat == usage_tenths_of(
            self.used_space as nat,
            self.total_space as nat,
        )
    }

    /// Usage as an exact ratio `used / den`, with `den >= 1`.
    pub open spec fn usage_num(&self) -> nat {
        self.used_space as nat
    }

    pub open spec fn usage_den(&self) -> nat {
        usage_den(self.total_space as nat)
    }

    pub fn new(
        name: String,
        mount_point: String,
        total_space: u64,
        available_space: u64,
        filesystem_type: String,
    ) -> (r: Self)
        ensures
            r.wf(),
            r.name == name,
            r.mount_point == mount_point,
            r.total_space == total_space,
            r.available_space == available_space,
            r.filesystem_type == filesystem_type,
            r.used_space <= r.total_space,
            r.usage_tenths <= 1000,
            total_space == 0 ==> r.usage_tenths == 0,
    {
        let used_space = total_space.saturating_sub(available_space);
        let usage_tenths: u64 = if total_space > 0 {
            proof {
                lemma_tenths_bounded(used_space as nat, total_space as nat);
            }
            div_round_half_even(1000 * (used_space as u128), total_space as u128) as u64
        } else {
            0
        };
        DiskInfo {
            name,
            mount_point,
            total_space,
            available_space,
            used_space,
            usage_tenths,
            filesystem_type,
        }
    }

    /// True when the capacity is at least `min_gb` binary gigabytes.
    pub fn meets_size_threshold(&self, min_gb: u64) -> (r: bool)
        ensures
            r == (self.total_space as int >= min_gb as int * GIB_BYTES as int),
    {
        let g: u128 = min_gb as u128;
        assert(g * 1073741824 < 0x1_0000_0000_0000_0000_0000_0000_0000_0000) by (nonlinear_arith)
            requires
                g < 0x1_0000_0000_0000_0000,
        ;
        (self.total_space as u128) >= g * (GIB_BYTES as u128)
    }
}

/// A binary gigabyte, 2^30 bytes.
pub const GIB_BYTES: u64 = 1073741824;

/// The rounded usage of a volume that is not over-full is at most 100%.
pub proof fn lemma_tenths_bounded(used: nat, total: nat)
    requires
        used <= total,
        total > 0,
    ensures
        usage_tenths_of(used, total) <= 1000,
{
    lemma_round_half_even_bounds(1000 * used, total);
    let k = usage_tenths_of(used, total) as int;
    assert(k <= 1000) by (nonlinear_arith)
        requires
            2 * (1000 * used) >= (2 * k - 1) * total,
            2 * (1000 * used) == (2 * k - 1) * total ==> k % 2 == 0,
            used <= total,
            total > 0,
    {
        if k > 1000 {
            assert((2 * k - 1) * total >= 2001 * total);
        }
    }
}

/// How a list of volumes is ordered.
#[derive(Debug, Clone, Copy, PartialEq, Eq, Structural)]
pub enum SortBy {
    /// Most used first.
    Usage,
    /// Largest first.
    Size,
    /// By mount path, ascending.
    MountPoint,
}

/// The two usage cut-points, in hundredths of a percent (7000 is 70%).
#[derive(Debug, Clone, Copy, PartialEq, Eq, Structural)]
pub struct UsageThresholds {
    pub yellow: u64,
    pub red: u64,
}

impl UsageThresholds {
    /// True when the yellow cut-point is not below the red one.
    pub fn is_inverted(&self) -> (r: bool)
        ensures
            r == (self.yellow >= self.red),
    {
        self.yellow >= self.red
    }
}

impl Default for UsageThresholds {
    fn default() -> (r: Self)
        ensures
            r.yellow == 7000 && r.red == 9000,
    {
        UsageThresholds { yellow: 70 * PERCENT_HUNDREDTHS, red: 90 * PERCENT_HUNDREDTHS }
    }
}

} // verus!
