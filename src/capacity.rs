use vstd::prelude::*;

verus! {

#[derive(Clone, Copy, Debug, PartialEq, Eq, Structural)]
pub enum GateError {
    /// The device is not part of the pool.
    UnknownDevice,
    /// Every slot of the device is taken; the caller waits for a release.
    NoFreeSlot,
    /// A release for a device that holds no permit.
    NotHeld,
}

/// Leave to run one shard on one device; handed back on release.
#[derive(Debug)]
pub struct Permit {
    device: usize,
}

impl Permit {
    pub closed spec fn spec_device(&self) -> usize {
        self.device
    }

    /// The device this permit is for.
    pub fn device(&self) -> (d: usize)
        ensures
            d == self.spec_device(),
    {
        self.device
    }
}

/// Per-device admission: at most `limit` shards hold a permit for one device
/// at any time, and devices do not share permits.
///
/// Devices are numbered `0..n`, so the count of permits out for each device
/// is kept in a vector indexed by device id: every id has exactly one slot.
pub struct CapacityGate {
    limit: usize,
    held: Vec<usize>,
}

impl CapacityGate {
    /// No device holds more permits than the limit.
    pub closed spec fn wf(&self) -> bool {
        forall|d: int| 0 <= d < self.held@.len() ==> #[trigger] self.held@[d] <= self.limit
    }

    /// Number of devices in the pool.
    pub closed spec fn devices(&self) -> nat {
        self.held@.len()
    }

    /// Permits that may be out at once for each device.
    pub closed spec fn limit(&self) -> nat {
        self.limit as nat
    }

    /// Permits currently out for device `d`.
    pub closed spec fn held(&self, d: int) -> nat {
        self.held@[d] as nat
    }

    /// A gate for `devices` devices with `limit` slots each, all free.
    pub fn new(devices: usize, limit: usize) -> (g: Self)
        ensures
            g.wf(),
            g.devices() == devices,
            g.limit() == limit,
            forall|d: int| 0 <= d < devices ==> #[trigger] g.held(d) == 0,
    {
        let mut held: Vec<usize> = Vec::new();
        let mut i: usize = 0;
        while i < devices
            invariant
                i <= devices,
                held@.len() == i,
                forall|d: int| 0 <= d < i ==> #[trigger] held@[d] == 0,
            decreases devices - i,
        {
            held.push(0);
            i = i + 1;
        }
        let g = CapacityGate { limit, held };
        assert(g.wf());
        g
    }

    /// Number of devices in the pool.
    pub fn device_count(&self) -> (n: usize)
        ensures
            n == self.devices(),
    {
        self.held.len()
    }

    /// Free slots of device `device`, or none for a device outside the pool.
    pub fn available(&self, device: usize) -> (r: Option<usize>)
        requires
            self.wf(),
        ensures
            match r {
                Some(n) => device < self.devices() && n == self.limit() - self.held(device as int),
                None => device >= self.devices(),
            },
    {
        if device < self.held.len() {
            Some(self.limit - self.held[device])
        } else {
            None
        }
    }

    /// Takes a slot of `device` when one is free.
    pub fn try_acquire(&mut self, device: usize) -> (r: Result<Permit, GateError>)
        requires
            old(self).wf(),
        ensures
            final(self).wf(),
            final(self).devices() == old(self).devices(),
            final(self).limit() == old(self).limit(),
            match r {
                Ok(p) => {
                    &&& device < old(self).devices()
                    &&& old(self).held(device as int) < old(self).limit()
                    &&& p.spec_device() == device
                    &&& final(self).held(device as int) == old(self).held(device as int) + 1
                    &&& forall|d: int| 0 <= d < old(self).devices() && d != device
                        ==> #[trigger] final(self).held(d) == old(self).held(d)
                },
                Err(e) => {
                    &&& e == if device >= old(self).devices() {
                        GateError::UnknownDevice
                    } else {
                        GateError::NoFreeSlot
                    }
                    &&& device < old(self).devices() ==> old(self).held(device as int) == old(self).limit()
                    &&& *final(self) == *old(self)
                },
            },
    {
        if device >= self.held.len() {
            return Err(GateError::UnknownDevice);
        }
        let n = self.held[device];
        if n >= self.limit {
            return Err(GateError::NoFreeSlot);
        }
        self.held.set(device, n + 1);
        Ok(Permit { device })
    }

    /// Gives back a slot of the permit's device.
    pub fn release(&mut self, permit: Permit) -> (r: Result<(), GateError>)
        requires
            old(self).wf(),
        ensures
            final(self).wf(),
            final(self).devices() == old(self).devices(),
            final(self).limit() == old(self).limit(),
            match r {
                Ok(()) => {
                    &&& permit.spec_device() < old(self).devices()
                    &&& old(self).held(permit.spec_device() as int) > 0
                    &&& final(self).held(permit.spec_device() as int) == old(self).held(permit.spec_device() as int) - 1
                    &&& forall|d: int| 0 <= d < old(self).devices() && d != permit.spec_device()
                        ==> #[trigger] final(self).held(d) == old(self).held(d)
                },
                Err(e) => {
                    &&& e == if permit.spec_device() >= old(self).devices() {
                        GateError::UnknownDevice
                    } else {
                        GateError::NotHeld
                    }
                    &&& permit.spec_device() < old(self).devices() ==> old(self).held(permit.spec_device() as int) == 0
                    &&& *final(self) == *old(self)
                },
            },
    {
        let device = permit.device;
        if device >= self.held.len() {
            return Err(GateError::UnknownDevice);
        }
        let n = self.held[device];
        if n == 0 {
            return Err(GateError::NotHeld);
        }
        self.held.set(device, n - 1);
        Ok(())
    }
}

/// Whatever sequence of acquisitions and releases led to it, no device of a
/// gate holds more permits than its limit.
pub proof fn lemma_admission_bounded(g: CapacityGate, d: int)
    requires
        g.wf(),
        0 <= d < g.devices(),
    ensures
        g.held(d) <= g.limit(),
{
}

} // verus!
