use vstd::prelude::*;

verus! {

/// Parts per million: the unit of rates and margins.
pub const PPM: u64 = 1_000_000;

/// Milliseconds per hour.
pub const MS_PER_HOUR: u64 = 3_600_000;

/// An exact non-negative fraction `num / den`.
#[derive(Clone, Copy, Debug, PartialEq, Eq, Structural)]
pub struct Ratio {
    pub num: u128,
    pub den: u128,
}

/// Measured throughput and the unit price derived from it.
#[derive(Clone, Copy, Debug, PartialEq, Eq, Structural)]
pub struct CalibratorMetrics {
    /// Proof gas per second.
    pub pgus_per_second: Ratio,
    /// Recommended price per unit of proof gas, in micro-USD.
    pub pgu_price: Ratio,
}

#[derive(Clone, Copy, Debug, PartialEq, Eq, Structural)]
pub enum CalibrationError {
    /// The measured run took no time, so no rate can be derived.
    ZeroDuration,
    /// No work was measured.
    ZeroThroughput,
    /// The utilization rate is zero, so no capacity is sold.
    ZeroCapacity,
    /// An intermediate product does not fit in 128 bits.
    Overflow,
}

/// Pricing model: `pgus_per_hour = throughput * 3600`,
/// `utilized = pgus_per_hour * utilization`, `base = cost_per_hour / utilized`,
/// `price = base * (1 + margin)`. With throughput `work / seconds`, cost in
/// micro-USD per hour and rates in parts per million, the price in micro-USD
/// per unit is `cost * (PPM + margin) * ms / (work * MS_PER_HOUR * utilization)`.
pub open spec fn price_num(cost_per_hour: u64, margin_ppm: u64, elapsed_ms: u64) -> int {
    cost_per_hour * (PPM + margin_ppm) * elapsed_ms
}

pub open spec fn price_den(work: u128, utilization_ppm: u64) -> int {
    work * MS_PER_HOUR * utilization_ppm
}

/// What pricing `work` units done in `elapsed_ms` yields.
pub open spec fn priced(
    work: u128,
    elapsed_ms: u64,
    cost_per_hour: u64,
    utilization_ppm: u64,
    margin_ppm: u64,
    r: Result<CalibratorMetrics, CalibrationError>,
) -> bool {
    if elapsed_ms == 0 {
        r == Err::<CalibratorMetrics, CalibrationError>(CalibrationError::ZeroDuration)
    } else if work == 0 {
        r == Err::<CalibratorMetrics, CalibrationError>(CalibrationError::ZeroThroughput)
    } else if utilization_ppm == 0 {
        r == Err::<CalibratorMetrics, CalibrationError>(CalibrationError::ZeroCapacity)
    } else if work * 1000 > u128::MAX || price_num(cost_per_hour, margin_ppm, elapsed_ms) > u128::MAX
        || price_den(work, utilization_ppm) > u128::MAX {
        r == Err::<CalibratorMetrics, CalibrationError>(CalibrationError::Overflow)
    } else {
        r == Ok::<CalibratorMetrics, CalibrationError>(CalibratorMetrics {
            pgus_per_second: Ratio { num: (work * 1000) as u128, den: elapsed_ms as u128 },
            pgu_price: Ratio {
                num: price_num(cost_per_hour, margin_ppm, elapsed_ms) as u128,
                den: price_den(work, utilization_ppm) as u128,
            },
        })
    }
}

/// Throughput and unit price for `work` units of proof gas proven in
/// `elapsed_ms` milliseconds, at `cost_per_hour` micro-USD per hour, an
/// expected utilization of `utilization_ppm` and a margin of `margin_ppm`.
pub fn price_work(
    work: u128,
    elapsed_ms: u64,
    cost_per_hour: u64,
    utilization_ppm: u64,
    margin_ppm: u64,
) -> (r: Result<CalibratorMetrics, CalibrationError>)
    ensures
        priced(work, elapsed_ms, cost_per_hour, utilization_ppm, margin_ppm, r),
{
    if elapsed_ms == 0 {
        return Err(CalibrationError::ZeroDuration);
    }
    if work == 0 {
        return Err(CalibrationError::ZeroThroughput);
    }
    if utilization_ppm == 0 {
        return Err(CalibrationError::ZeroCapacity);
    }
    let rate_num = match work.checked_mul(1000) {
        Some(v) => v,
        None => return Err(CalibrationError::Overflow),
    };
    let markup = PPM as u128 + margin_ppm as u128;
    let num = match (cost_per_hour as u128).checked_mul(markup) {
        Some(v) => match v.checked_mul(elapsed_ms as u128) {
            Some(x) => x,
            None => return Err(CalibrationError::Overflow),
        },
        None => {
            proof {
                assert(price_num(cost_per_hour, margin_ppm, elapsed_ms) > u128::MAX) by (nonlinear_arith)
                    requires
                        cost_per_hour * markup > u128::MAX,
                        elapsed_ms >= 1,
                        markup == PPM + margin_ppm,
                ;
            }
            return Err(CalibrationError::Overflow);
        },
    };
    let den = match work.checked_mul(MS_PER_HOUR as u128) {
        Some(v) => match v.checked_mul(utilization_ppm as u128) {
            Some(x) => x,
            None => return Err(CalibrationError::Overflow),
        },
        None => {
            proof {
                assert(price_den(work, utilization_ppm) > u128::MAX) by (nonlinear_arith)
                    requires
                        work * MS_PER_HOUR > u128::MAX,
                        utilization_ppm >= 1,
                ;
            }
            return Err(CalibrationError::Overflow);
        },
    };
    Ok(CalibratorMetrics {
        pgus_per_second: Ratio { num: rate_num, den: elapsed_ms as u128 },
        pgu_price: Ratio { num, den },
    })
}

/// Calibrates from one measured proof over an input whose execution takes
/// a known amount of proof gas.
#[derive(Debug)]
pub struct SinglePassCalibrator {
    /// The program to calibrate with.
    pub elf: Vec<u8>,
    /// The input to calibrate with.
    pub stdin: Vec<u8>,
    /// Cost of the instance in micro-USD per hour.
    pub cost_per_hour: u64,
    /// Expected average utilization in parts per million.
    pub utilization_rate: u64,
    /// Target profit margin in parts per million.
    pub profit_margin: u64,
}

/// Calibrates for a pool of devices from `num_gpus` proofs run back to back.
/// The throughput it reports assumes the runs would scale linearly if they
/// ran in parallel: it is an upper-bound estimate, not a measured parallel rate.
#[derive(Debug)]
pub struct ShardedCalibrator {
    pub elf: Vec<u8>,
    pub stdin: Vec<u8>,
    pub cost_per_hour: u64,
    pub utilization_rate: u64,
    pub profit_margin: u64,
    pub num_gpus: usize,
}

impl SinglePassCalibrator {
    pub fn new(elf: Vec<u8>, stdin: Vec<u8>, cost_per_hour: u64, utilization_rate: u64, profit_margin: u64) -> (c: Self)
        ensures
            c.elf == elf,
            c.stdin == stdin,
            c.cost_per_hour == cost_per_hour,
            c.utilization_rate == utilization_rate,
            c.profit_margin == profit_margin,
    {
        SinglePassCalibrator { elf, stdin, cost_per_hour, utilization_rate, profit_margin }
    }

    /// Metrics from one proof of `prover_gas` units that took `elapsed_ms`.
    pub fn metrics(&self, prover_gas: u64, elapsed_ms: u64) -> (r: Result<CalibratorMetrics, CalibrationError>)
        ensures
            priced(prover_gas as u128, elapsed_ms, self.cost_per_hour, self.utilization_rate, self.profit_margin, r),
    {
        price_work(prover_gas as u128, elapsed_ms, self.cost_per_hour, self.utilization_rate, self.profit_margin)
    }
}

/// Work rate of `runs` runs of `gas_per_run` done back to back in some time,
/// as if they had run in parallel: the total work over the time of one run,
/// `(gas_per_run * runs) / (elapsed / runs)`, i.e. `gas_per_run * runs * runs`
/// units over the whole elapsed time.
pub open spec fn fleet_work(gas_per_run: u64, runs: usize) -> int {
    gas_per_run * runs * runs
}

impl ShardedCalibrator {
    pub fn new(
        elf: Vec<u8>,
        stdin: Vec<u8>,
        cost_per_hour: u64,
        utilization_rate: u64,
        profit_margin: u64,
        num_gpus: usize,
    ) -> (c: Self)
        ensures
            c.elf == elf,
            c.stdin == stdin,
            c.cost_per_hour == cost_per_hour,
            c.utilization_rate == utilization_rate,
            c.profit_margin == profit_margin,
            c.num_gpus == num_gpus,
    {
        ShardedCalibrator { elf, stdin, cost_per_hour, utilization_rate, profit_margin, num_gpus }
    }

    /// Metrics from `num_gpus` proofs of `prover_gas` units each, run back to
    /// back in `elapsed_ms` in all.
    pub fn metrics(&self, prover_gas: u64, elapsed_ms: u64) -> (r: Result<CalibratorMetrics, CalibrationError>)
        ensures
            fleet_work(prover_gas, self.num_gpus) <= u128::MAX ==> priced(
                fleet_work(prover_gas, self.num_gpus) as u128,
                elapsed_ms,
                self.cost_per_hour,
                self.utilization_rate,
                self.profit_margin,
                r,
            ),
            fleet_work(prover_gas, self.num_gpus) > u128::MAX ==> r == Err::<CalibratorMetrics, CalibrationError>(
                if elapsed_ms == 0 { CalibrationError::ZeroDuration } else { CalibrationError::Overflow },
            ),
    {
        let runs = self.num_gpus as u128;
        proof {
            assert((prover_gas as int) * (runs as int) <= (u64::MAX as int) * (usize::MAX as int)) by (nonlinear_arith)
                requires
                    prover_gas <= u64::MAX,
                    runs <= usize::MAX,
            ;
        }
        let total = prover_gas as u128 * runs;
        let work = match total.checked_mul(runs) {
            Some(w) => w,
            None => {
                if elapsed_ms == 0 {
                    return Err(CalibrationError::ZeroDuration);
                }
                return Err(CalibrationError::Overflow);
            },
        };
        price_work(work, elapsed_ms, self.cost_per_hour, self.utilization_rate, self.profit_margin)
    }
}

} // verus!
