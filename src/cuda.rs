use vstd::prelude::*;
use vstd::string::StringSliceAdditionalSpecFns;

verus! {

/// One accelerator as the device table describes it.
#[derive(Debug)]
pub struct CudaDevice {
    pub id: usize,
    pub name: String,
    pub compute_capability: (i32, i32),
    pub memory_total: u64,
    pub memory_free: u64,
    pub multiprocessor_count: i32,
    pub max_threads_per_block: i32,
}

/// The devices of the host and the launch parameters chosen for them.
#[derive(Debug)]
pub struct CudaOptimizer {
    pub device_count: usize,
    pub devices: Vec<CudaDevice>,
}

#[derive(Clone, Copy, Debug, PartialEq, Eq, Structural)]
pub enum CudaError {
    /// The device table has no entry for this device.
    DeviceNotFound(usize),
    /// The device id is not one of the optimizer's devices.
    InvalidDevice(usize),
    /// The operation names no known kernel.
    UnknownKernel,
}

#[derive(Clone, Copy, Debug, PartialEq, Eq, Structural)]
pub enum KernelOp {
    MerkleTree,
    QuotientCalc,
    FieldOps,
    HashOps,
}

/// Where and how to launch one kernel.
#[derive(Clone, Copy, Debug, PartialEq, Eq, Structural)]
pub struct KernelLaunch {
    pub op: KernelOp,
    pub device_id: usize,
    pub grid_size: u32,
    pub block_size: u32,
}

/// How to move `data_size` bytes to a device.
#[derive(Clone, Copy, Debug, PartialEq, Eq, Structural)]
pub struct TransferPlan {
    pub chunk_size: usize,
    pub use_pinned_memory: bool,
}

pub const GIB: u64 = 1024 * 1024 * 1024;

pub const MIB: usize = 1024 * 1024;

/// Devices that the device table knows: the first two.
pub open spec fn known_device(id: usize) -> bool {
    id < 2
}

/// The table entry of a known device: a 10 GB card of compute capability 8.6
/// with 68 multiprocessors.
pub open spec fn is_table_entry(d: CudaDevice, id: usize) -> bool {
    &&& d.id == id
    &&& d.name@ == "NVIDIA GeForce RTX 3080"@
    &&& d.compute_capability == (8i32, 6i32)
    &&& d.memory_total == 10 * GIB
    &&& d.memory_free == 8 * GIB
    &&& d.multiprocessor_count == 68
    &&& d.max_threads_per_block == 1024
}

/// Chunk size for transfers to a device of `memory_total` bytes: 64 MiB per
/// whole GiB of device memory, at most a quarter of the data, at least 1 MiB.
pub open spec fn chunk_size_for(memory_total: u64, data_size: usize) -> int {
    let by_memory = 64 * MIB * (memory_total / GIB);
    let quarter = data_size / 4;
    let capped = if by_memory < quarter { by_memory } else { quarter as int };
    if capped > MIB { capped } else { MIB as int }
}

/// `x` as an unsigned 32-bit word: negative values wrap around.
pub open spec fn as_word(x: i32) -> int {
    if x < 0 { x + 0x1_0000_0000 } else { x as int }
}

/// Threads per block: half the device's maximum, between 32 and 256.
pub open spec fn block_size_for(max_threads: i32) -> int {
    let half = as_word(max_threads) / 2;
    let capped = if half < 256 { half } else { 256 };
    if capped > 32 { capped } else { 32 }
}

/// Blocks per grid: enough blocks for the data (its size taken modulo 2^32),
/// at most four per multiprocessor.
pub open spec fn grid_size_for(multiprocessors: i32, max_threads: i32, data_size: usize) -> int {
    let block = block_size_for(max_threads);
    let needed = ((data_size as int) % 0x1_0000_0000int + block - 1) / block;
    let limit = as_word(multiprocessors) * 4;
    if needed < limit { needed } else { limit }
}

/// Name bytes of each kernel operation.
pub open spec fn op_name(op: KernelOp) -> Seq<u8> {
    match op {
        KernelOp::MerkleTree => seq![109u8, 101, 114, 107, 108, 101, 95, 116, 114, 101, 101],
        KernelOp::QuotientCalc => seq![113u8, 117, 111, 116, 105, 101, 110, 116, 95, 99, 97, 108, 99],
        KernelOp::FieldOps => seq![102u8, 105, 101, 108, 100, 95, 111, 112, 115],
        KernelOp::HashOps => seq![104u8, 97, 115, 104, 95, 111, 112, 115],
    }
}

fn same_bytes(a: &[u8], b: &[u8]) -> (r: bool)
    ensures
        r == (a@ == b@),
{
    if a.len() != b.len() {
        return false;
    }
    let mut i: usize = 0;
    while i < a.len()
        invariant
            i <= a@.len(),
            a@.len() == b@.len(),
            forall|j: int| 0 <= j < i ==> a@[j] == b@[j],
        decreases a@.len() - i,
    {
        if a[i] != b[i] {
            return false;
        }
        i = i + 1;
    }
    assert(a@ =~= b@);
    true
}

impl KernelOp {
    /// The kernel operation named by `name` (`merkle_tree`, `quotient_calc`,
    /// `field_ops` or `hash_ops`), if any.
    pub fn parse(name: &[u8]) -> (r: Option<KernelOp>)
        ensures
            match r {
                Some(op) => name@ == op_name(op),
                None => forall|op: KernelOp| name@ != #[trigger] op_name(op),
            },
    {
        let merkle: [u8; 11] = [109, 101, 114, 107, 108, 101, 95, 116, 114, 101, 101];
        let quotient: [u8; 13] = [113, 117, 111, 116, 105, 101, 110, 116, 95, 99, 97, 108, 99];
        let field: [u8; 9] = [102, 105, 101, 108, 100, 95, 111, 112, 115];
        let hash: [u8; 8] = [104, 97, 115, 104, 95, 111, 112, 115];
        assert(merkle@ =~= op_name(KernelOp::MerkleTree));
        assert(quotient@ =~= op_name(KernelOp::QuotientCalc));
        assert(field@ =~= op_name(KernelOp::FieldOps));
        assert(hash@ =~= op_name(KernelOp::HashOps));
        if same_bytes(name, vstd::array::array_as_slice(&merkle)) {
            Some(KernelOp::MerkleTree)
        } else if same_bytes(name, vstd::array::array_as_slice(&quotient)) {
            Some(KernelOp::QuotientCalc)
        } else if same_bytes(name, vstd::array::array_as_slice(&field)) {
            Some(KernelOp::FieldOps)
        } else if same_bytes(name, vstd::array::array_as_slice(&hash)) {
            Some(KernelOp::HashOps)
        } else {
            assert forall|op: KernelOp| name@ != #[trigger] op_name(op) by {
                match op {
                    KernelOp::MerkleTree => {},
                    KernelOp::QuotientCalc => {},
                    KernelOp::FieldOps => {},
                    KernelOp::HashOps => {},
                }
            }
            None
        }
    }
}

fn word(x: i32) -> (r: u64)
    ensures
        r == as_word(x),
{
    if x < 0 {
        (x as i64 + 0x1_0000_0000i64) as u64
    } else {
        x as u64
    }
}

impl CudaOptimizer {
    /// The table entry of device `device_id`.
    pub fn get_device_info(device_id: usize) -> (r: Result<CudaDevice, CudaError>)
        ensures
            match r {
                Ok(d) => known_device(device_id) && is_table_entry(d, device_id),
                Err(e) => !known_device(device_id) && e == CudaError::DeviceNotFound(device_id),
            },
    {
        if device_id < 2 {
            Ok(CudaDevice {
                id: device_id,
                name: "NVIDIA GeForce RTX 3080".to_owned(),
                compute_capability: (8, 6),
                memory_total: 10 * GIB,
                memory_free: 8 * GIB,
                multiprocessor_count: 68,
                max_threads_per_block: 1024,
            })
        } else {
            Err(CudaError::DeviceNotFound(device_id))
        }
    }

    /// An optimizer for a host that reports `device_count` devices; devices
    /// the table does not know are left out.
    pub fn new(device_count: usize) -> (o: Self)
        ensures
            o.device_count == device_count,
            o.devices@.len() == if device_count < 2 { device_count as int } else { 2 },
            forall|i: int| 0 <= i < o.devices@.len() ==> #[trigger] is_table_entry(o.devices@[i], i as usize),
    {
        let mut devices: Vec<CudaDevice> = Vec::new();
        let mut device_id: usize = 0;
        while device_id < device_count
            invariant
                device_id <= device_count,
                devices@.len() == if device_id < 2 { device_id as int } else { 2 },
                forall|i: int| 0 <= i < devices@.len() ==> #[trigger] is_table_entry(devices@[i], i as usize),
            decreases device_count - device_id,
        {
            match Self::get_device_info(device_id) {
                Ok(device) => {
                    devices.push(device);
                },
                Err(_) => {},
            }
            device_id = device_id + 1;
        }
        CudaOptimizer { device_count, devices }
    }

    /// Chunk size for moving `data_size` bytes to `device`.
    pub fn calculate_optimal_chunk_size(device: &CudaDevice, data_size: usize) -> (r: usize)
        ensures
            r == chunk_size_for(device.memory_total, data_size),
    {
        let gib_count: u128 = (device.memory_total / GIB) as u128;
        assert(gib_count < 0x1_0000_0000_0000_0000);
        let by_memory: u128 = 0x400_0000u128 * gib_count;
        let quarter = data_size / 4;
        let capped: usize = if by_memory < quarter as u128 { by_memory as usize } else { quarter };
        if capped > MIB { capped } else { MIB }
    }

    /// Launch dimensions (grid, block) for `data_size` elements on `device`.
    pub fn calculate_kernel_dimensions(device: &CudaDevice, data_size: usize) -> (r: (u32, u32))
        ensures
            r.1 == block_size_for(device.max_threads_per_block),
            r.0 == grid_size_for(device.multiprocessor_count, device.max_threads_per_block, data_size),
    {
        let max_threads = word(device.max_threads_per_block);
        let multiprocessors = word(device.multiprocessor_count);
        let half = max_threads / 2;
        let capped = if half < 256 { half } else { 256 };
        let block: u64 = if capped > 32 { capped } else { 32 };
        let elements: u64 = data_size as u64 % 0x1_0000_0000;
        let needed: u64 = (elements + block - 1) / block;
        let limit: u64 = multiprocessors * 4;
        let grid: u64 = if needed < limit { needed } else { limit };
        proof {
            assert(needed <= elements + block - 1);
            assert(grid <= u32::MAX) by (nonlinear_arith)
                requires
                    block >= 32,
                    elements < 0x1_0000_0000,
                    needed as int == (elements + block - 1) as int / block as int,
                    grid <= needed,
            ;
        }
        (grid as u32, block as u32)
    }

    /// Plans moving `data_size` bytes to device `device_id`: the chunk size,
    /// and pinned memory for transfers over 1 MiB.
    pub fn optimize_memory_transfer(&self, device_id: usize, data_size: usize) -> (r: Result<TransferPlan, CudaError>)
        ensures
            match r {
                Ok(plan) => {
                    &&& device_id < self.devices@.len()
                    &&& plan.chunk_size == chunk_size_for(self.devices@[device_id as int].memory_total, data_size)
                    &&& plan.use_pinned_memory == (data_size > MIB)
                },
                Err(e) => device_id >= self.devices@.len() && e == CudaError::InvalidDevice(device_id),
            },
    {
        if device_id >= self.devices.len() {
            return Err(CudaError::InvalidDevice(device_id));
        }
        let device = &self.devices[device_id];
        let chunk_size = Self::calculate_optimal_chunk_size(device, data_size);
        Ok(TransferPlan { chunk_size, use_pinned_memory: data_size > MIB })
    }

    /// Plans launching the kernel named `operation` over `data_size` elements
    /// on device `device_id`.
    pub fn launch_parallel_kernel(&self, device_id: usize, operation: &str, data_size: usize) -> (r: Result<KernelLaunch, CudaError>)
        ensures
            match r {
                Ok(k) => {
                    &&& device_id < self.devices@.len()
                    &&& operation.spec_bytes() == op_name(k.op)
                    &&& k.device_id == device_id
                    &&& k.block_size == block_size_for(self.devices@[device_id as int].max_threads_per_block)
                    &&& k.grid_size == grid_size_for(
                        self.devices@[device_id as int].multiprocessor_count,
                        self.devices@[device_id as int].max_threads_per_block,
                        data_size,
                    )
                },
                Err(e) => if device_id >= self.devices@.len() {
                    e == CudaError::InvalidDevice(device_id)
                } else {
                    e == CudaError::UnknownKernel && forall|op: KernelOp| operation.spec_bytes() != #[trigger] op_name(op)
                },
            },
    {
        if device_id >= self.devices.len() {
            return Err(CudaError::InvalidDevice(device_id));
        }
        let device = &self.devices[device_id];
        let (grid_size, block_size) = Self::calculate_kernel_dimensions(device, data_size);
        match KernelOp::parse(operation.as_bytes()) {
            Some(op) => Ok(KernelLaunch { op, device_id, grid_size, block_size }),
            None => Err(CudaError::UnknownKernel),
        }
    }

    /// Waits for every device to finish its queued work. Launch plans carry
    /// no queued work, so every device is idle already.
    pub fn synchronize_all(&self) -> (r: Result<(), CudaError>)
        ensures
            r is Ok,
    {
        Ok(())
    }
}

} // verus!
