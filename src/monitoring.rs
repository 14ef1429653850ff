use vstd::prelude::*;

verus! {

#[derive(Clone, Copy, Debug, PartialEq, Eq, Structural)]
pub enum AlertLevel {
    Info,
    Warning,
    Critical,
    Emergency,
}

#[derive(Clone, Copy, Debug, PartialEq, Eq, Structural)]
pub enum AlertCategory {
    Performance,
    Hardware,
    Network,
    Economic,
    Reliability,
}

/// The condition an alert reports, with the reading that raised it.
#[derive(Clone, Copy, Debug, PartialEq, Eq, Structural)]
pub enum AlertKind {
    /// Device temperature above 85 °C, in tenths of a degree.
    TemperatureCritical(u32),
    /// Device temperature above 80 °C, in tenths of a degree.
    TemperatureHigh(u32),
    /// Device utilization below 70 %, in tenths of a percent.
    LowUtilization(u32),
    /// Deadlines missed so far.
    DeadlineMisses(u64),
    /// Success rate below 95 %, in tenths of a percent.
    LowSuccessRate(u32),
}

#[derive(Clone, Copy, Debug, PartialEq, Eq, Structural)]
pub struct Alert {
    /// Seconds since the Unix epoch.
    pub timestamp: u64,
    pub level: AlertLevel,
    pub category: AlertCategory,
    pub kind: AlertKind,
    pub device_id: Option<usize>,
    pub acknowledged: bool,
}

/// One device's sensor readings.
#[derive(Clone, Copy, Debug, PartialEq, Eq, Structural)]
pub struct GpuReading {
    pub device_id: usize,
    /// Tenths of a degree Celsius.
    pub temperature: u32,
    /// Tenths of a percent.
    pub utilization: u32,
}

pub open spec fn level_of(kind: AlertKind) -> AlertLevel {
    match kind {
        AlertKind::TemperatureCritical(_) => AlertLevel::Critical,
        AlertKind::DeadlineMisses(_) => AlertLevel::Critical,
        _ => AlertLevel::Warning,
    }
}

pub open spec fn category_of(kind: AlertKind) -> AlertCategory {
    match kind {
        AlertKind::TemperatureCritical(_) => AlertCategory::Hardware,
        AlertKind::TemperatureHigh(_) => AlertCategory::Hardware,
        AlertKind::LowUtilization(_) => AlertCategory::Performance,
        AlertKind::DeadlineMisses(_) => AlertCategory::Performance,
        AlertKind::LowSuccessRate(_) => AlertCategory::Reliability,
    }
}

/// The conditions one device's readings raise, with the device they concern.
pub open spec fn device_conditions(g: GpuReading) -> Seq<(Option<usize>, AlertKind)> {
    let heat: Seq<(Option<usize>, AlertKind)> = if g.temperature > 850 {
        seq![(Some(g.device_id), AlertKind::TemperatureCritical(g.temperature))]
    } else if g.temperature > 800 {
        seq![(Some(g.device_id), AlertKind::TemperatureHigh(g.temperature))]
    } else {
        Seq::empty()
    };
    if g.utilization < 700 {
        heat.push((Some(g.device_id), AlertKind::LowUtilization(g.utilization)))
    } else {
        heat
    }
}

pub open spec fn devices_conditions(gpus: Seq<GpuReading>) -> Seq<(Option<usize>, AlertKind)>
    decreases gpus.len(),
{
    if gpus.len() == 0 {
        Seq::empty()
    } else {
        devices_conditions(gpus.drop_last()) + device_conditions(gpus.last())
    }
}

/// Every condition the readings raise: per device in order, then missed
/// deadlines, then a low success rate.
pub open spec fn conditions(gpus: Seq<GpuReading>, deadline_misses: u64, success_rate: u32) -> Seq<(Option<usize>, AlertKind)> {
    let misses: Seq<(Option<usize>, AlertKind)> = if deadline_misses > 0 {
        seq![(None, AlertKind::DeadlineMisses(deadline_misses))]
    } else {
        Seq::empty()
    };
    let rate: Seq<(Option<usize>, AlertKind)> = if success_rate < 950 {
        seq![(None, AlertKind::LowSuccessRate(success_rate))]
    } else {
        Seq::empty()
    };
    devices_conditions(gpus) + misses + rate
}

/// `a` is the fresh alert raised at `now` for condition `c`.
pub open spec fn raised(a: Alert, c: (Option<usize>, AlertKind), now: u64) -> bool {
    &&& a.timestamp == now
    &&& a.kind == c.1
    &&& a.device_id == c.0
    &&& a.level == level_of(c.1)
    &&& a.category == category_of(c.1)
    &&& !a.acknowledged
}

impl AlertKind {
    pub fn level(&self) -> (l: AlertLevel)
        ensures
            l == level_of(*self),
    {
        match self {
            AlertKind::TemperatureCritical(_) => AlertLevel::Critical,
            AlertKind::DeadlineMisses(_) => AlertLevel::Critical,
            _ => AlertLevel::Warning,
        }
    }

    pub fn category(&self) -> (c: AlertCategory)
        ensures
            c == category_of(*self),
    {
        match self {
            AlertKind::TemperatureCritical(_) => AlertCategory::Hardware,
            AlertKind::TemperatureHigh(_) => AlertCategory::Hardware,
            AlertKind::LowUtilization(_) => AlertCategory::Performance,
            AlertKind::DeadlineMisses(_) => AlertCategory::Performance,
            AlertKind::LowSuccessRate(_) => AlertCategory::Reliability,
        }
    }
}

fn raise(out: &mut Vec<Alert>, device_id: Option<usize>, kind: AlertKind, now: u64)
    ensures
        final(out)@.len() == old(out)@.len() + 1,
        final(out)@.subrange(0, old(out)@.len() as int) == old(out)@,
        raised(final(out)@.last(), (device_id, kind), now),
{
    out.push(Alert { timestamp: now, level: kind.level(), category: kind.category(), kind, device_id, acknowledged: false });
    assert(out@.subrange(0, old(out)@.len() as int) =~= old(out)@);
}

/// The alerts that the readings raise at time `now`, one per condition, in
/// the order of `conditions`.
pub fn check_alerts(gpus: &Vec<GpuReading>, deadline_misses: u64, success_rate: u32, now: u64) -> (r: Vec<Alert>)
    ensures
        r@.len() == conditions(gpus@, deadline_misses, success_rate).len(),
        forall|i: int| 0 <= i < r@.len() ==> #[trigger] raised(r@[i], conditions(gpus@, deadline_misses, success_rate)[i], now),
{
    let mut out: Vec<Alert> = Vec::new();
    let mut i: usize = 0;
    while i < gpus.len()
        invariant
            i <= gpus@.len(),
            out@.len() == devices_conditions(gpus@.subrange(0, i as int)).len(),
            forall|k: int| 0 <= k < out@.len() ==> #[trigger] raised(out@[k], devices_conditions(gpus@.subrange(0, i as int))[k], now),
        decreases gpus@.len() - i,
    {
        let g = gpus[i];
        let ghost before = out@;
        let ghost prefix = devices_conditions(gpus@.subrange(0, i as int));
        assert(gpus@.subrange(0, i as int + 1).drop_last() =~= gpus@.subrange(0, i as int));
        let ghost next = devices_conditions(gpus@.subrange(0, i as int + 1));
        assert(next == prefix + device_conditions(g));
        if g.temperature > 850 {
            raise(&mut out, Some(g.device_id), AlertKind::TemperatureCritical(g.temperature), now);
        } else if g.temperature > 800 {
            raise(&mut out, Some(g.device_id), AlertKind::TemperatureHigh(g.temperature), now);
        }
        if g.utilization < 700 {
            raise(&mut out, Some(g.device_id), AlertKind::LowUtilization(g.utilization), now);
        }
        proof {
            assert(out@.len() == next.len());
            assert forall|k: int| 0 <= k < out@.len() implies #[trigger] raised(out@[k], next[k], now) by {
                if k < before.len() {
                    assert(out@.subrange(0, before.len() as int)[k] == out@[k]);
                    assert(raised(before[k], prefix[k], now));
                }
            }
        }
        i = i + 1;
    }
    assert(gpus@.subrange(0, gpus@.len() as int) =~= gpus@);
    let ghost devs = out@;
    if deadline_misses > 0 {
        raise(&mut out, None, AlertKind::DeadlineMisses(deadline_misses), now);
    }
    let ghost mid = out@;
    if success_rate < 950 {
        raise(&mut out, None, AlertKind::LowSuccessRate(success_rate), now);
    }
    proof {
        let all = conditions(gpus@, deadline_misses, success_rate);
        assert forall|k: int| 0 <= k < out@.len() implies #[trigger] raised(out@[k], all[k], now) by {
            if k < mid.len() {
                assert(out@.subrange(0, mid.len() as int)[k] == out@[k]);
                if k < devs.len() {
                    assert(mid.subrange(0, devs.len() as int)[k] == mid[k]);
                }
            }
        }
    }
    out
}

/// Outcome counts and timings of finished proofs.
#[derive(Clone, Copy, Debug, PartialEq, Eq, Structural)]
pub struct ProofTimings {
    pub completed: u64,
    pub failed: u64,
    pub total_ms: u64,
    pub average_ms: u64,
    pub fastest_ms: u64,
    pub slowest_ms: u64,
    pub deadline_misses: u64,
}

/// Share of proofs that succeeded, in tenths of a percent; all of them when
/// none finished yet.
pub open spec fn success_permille(completed: u64, failed: u64) -> int {
    if completed + failed == 0 {
        1000
    } else {
        completed * 1000 / (completed + failed)
    }
}

impl ProofTimings {
    /// Nothing recorded yet.
    pub fn new() -> (t: Self)
        ensures
            t == (ProofTimings {
                completed: 0,
                failed: 0,
                total_ms: 0,
                average_ms: 0,
                fastest_ms: 0,
                slowest_ms: 0,
                deadline_misses: 0,
            }),
    {
        ProofTimings { completed: 0, failed: 0, total_ms: 0, average_ms: 0, fastest_ms: 0, slowest_ms: 0, deadline_misses: 0 }
    }

    /// Records a proof that took `duration_ms` and succeeded or failed. When a
    /// count would overflow nothing is recorded and `false` is returned.
    pub fn record_proof_completion(&mut self, duration_ms: u64, success: bool) -> (ok: bool)
        ensures
            success ==> ok == (old(self).completed < u64::MAX && old(self).total_ms + duration_ms <= u64::MAX),
            !success ==> ok == (old(self).failed < u64::MAX),
            !ok ==> *final(self) == *old(self),
            ok && success ==> {
                &&& final(self).completed == old(self).completed + 1
                &&& final(self).total_ms == old(self).total_ms + duration_ms
                &&& final(self).average_ms == final(self).total_ms / final(self).completed
                &&& final(self).fastest_ms == if old(self).completed == 0 || duration_ms < old(self).fastest_ms {
                    duration_ms
                } else {
                    old(self).fastest_ms
                }
                &&& final(self).slowest_ms == if duration_ms > old(self).slowest_ms {
                    duration_ms
                } else {
                    old(self).slowest_ms
                }
                &&& final(self).failed == old(self).failed
                &&& final(self).deadline_misses == old(self).deadline_misses
            },
            ok && !success ==> *final(self) == (ProofTimings { failed: (old(self).failed + 1) as u64, ..*old(self) }),
    {
        if success {
            if self.completed == u64::MAX || duration_ms > u64::MAX - self.total_ms {
                return false;
            }
            if self.completed == 0 || duration_ms < self.fastest_ms {
                self.fastest_ms = duration_ms;
            }
            if duration_ms > self.slowest_ms {
                self.slowest_ms = duration_ms;
            }
            self.completed = self.completed + 1;
            self.total_ms = self.total_ms + duration_ms;
            self.average_ms = self.total_ms / self.completed;
            true
        } else {
            if self.failed == u64::MAX {
                return false;
            }
            self.failed = self.failed + 1;
            true
        }
    }

    /// Records a missed deadline; `false`, with nothing recorded, when the
    /// count would overflow.
    pub fn record_deadline_miss(&mut self) -> (ok: bool)
        ensures
            ok == (old(self).deadline_misses < u64::MAX),
            ok ==> *final(self) == (ProofTimings { deadline_misses: (old(self).deadline_misses + 1) as u64, ..*old(self) }),
            !ok ==> *final(self) == *old(self),
    {
        if self.deadline_misses == u64::MAX {
            return false;
        }
        self.deadline_misses = self.deadline_misses + 1;
        true
    }

    /// Share of proofs that succeeded, in tenths of a percent.
    pub fn success_rate(&self) -> (r: u32)
        ensures
            r == success_permille(self.completed, self.failed),
    {
        let attempts: u128 = self.completed as u128 + self.failed as u128;
        if attempts == 0 {
            return 1000;
        }
        let rate: u128 = self.completed as u128 * 1000 / attempts;
        proof {
            assert(rate <= 1000) by (nonlinear_arith)
                requires
                    rate == self.completed as int * 1000 / attempts as int,
                    self.completed <= attempts,
                    attempts > 0,
            ;
        }
        rate as u32
    }
}

/// The alerts not yet acknowledged, in order.
pub fn unacknowledged(alerts: &Vec<Alert>) -> (r: Vec<Alert>)
    ensures
        r@ == alerts@.filter(|a: Alert| !a.acknowledged),
{
    let mut out: Vec<Alert> = Vec::new();
    let mut i: usize = 0;
    while i < alerts.len()
        invariant
            i <= alerts@.len(),
            out@ == alerts@.subrange(0, i as int).filter(|a: Alert| !a.acknowledged),
        decreases alerts@.len() - i,
    {
        proof {
            assert(alerts@.subrange(0, i as int + 1).drop_last() =~= alerts@.subrange(0, i as int));
            reveal_with_fuel(Seq::filter, 1);
        }
        if !alerts[i].acknowledged {
            out.push(alerts[i]);
        }
        i = i + 1;
    }
    assert(alerts@.subrange(0, alerts@.len() as int) =~= alerts@);
    out
}

} // verus!
