use crate::engine::batch::{chunk_bounds, is_chunking};
use vstd::prelude::*;
use vstd::string::StringExecFns;

verus! {

/// Why a GPU operation was refused.
#[derive(Debug, PartialEq, Eq)]
pub enum GpuError {
    /// The allocation would pass the memory limit.
    OutOfMemory { requested: usize, available: usize },
    /// The device failed to run.
    ExecutionFailed(String),
}

/// The most memory, in bytes, that GPU tensors may hold at once: 16 GiB.
pub const MAX_GPU_MEMORY: u64 = 17179869184;

/// Bytes still free when `current` bytes are allocated.
pub open spec fn available_bytes(current: nat) -> nat {
    if current >= MAX_GPU_MEMORY {
        0
    } else {
        (MAX_GPU_MEMORY - current) as nat
    }
}

/// Decides whether `requested` more bytes fit under the limit when `current`
/// bytes are allocated; on success the new total is returned.
pub fn admit_allocation(current: usize, requested: usize) -> (r: Result<usize, GpuError>)
    requires
        current + requested <= usize::MAX,
        available_bytes(current as nat) <= usize::MAX,
    ensures
        current + requested <= MAX_GPU_MEMORY ==> r == Ok::<usize, GpuError>(
            (current + requested) as usize,
        ),
        current + requested > MAX_GPU_MEMORY ==> r == Err::<usize, GpuError>(
            GpuError::OutOfMemory {
                requested,
                available: available_bytes(current as nat) as usize,
            },
        ),
{
    let total: usize = current + requested;
    if total as u64 > MAX_GPU_MEMORY {
        let current64 = current as u64;
        let available: u64 = if current64 >= MAX_GPU_MEMORY {
            0
        } else {
            MAX_GPU_MEMORY - current64
        };
        return Err(GpuError::OutOfMemory { requested, available: available as usize });
    }
    Ok(total)
}

/// Batched inference settings for a device.
pub struct GPUAccelerator {
    device: String,
    batch_size: usize,
}

impl GPUAccelerator {
    pub closed spec fn device_name(&self) -> Seq<char> {
        self.device@
    }

    pub closed spec fn batch(&self) -> nat {
        self.batch_size as nat
    }

    /// Settings for `device` (`cuda:0`) running batches of `batch_size` (32).
    pub fn new(device: Option<String>, batch_size: Option<usize>) -> (g: Self)
        ensures
            g.device_name() == match device {
                Some(d) => d@,
                None => "cuda:0"@,
            },
            g.batch() == match batch_size {
                Some(n) => n as nat,
                None => 32,
            },
    {
        GPUAccelerator {
            device: match device {
                Some(d) => d,
                None => String::from_str("cuda:0"),
            },
            batch_size: match batch_size {
                Some(n) => n,
                None => 32,
            },
        }
    }

    /// The batches `input_count` inputs are run in: runs of `batch_size`
    /// inputs, the last one holding the rest.
    pub fn batch_ranges(&self, input_count: usize) -> (ranges: Vec<(usize, usize)>)
        requires
            self.batch() > 0,
            input_count + self.batch() - 1 <= usize::MAX,
        ensures
            is_chunking(ranges@, input_count as nat, self.batch()),
    {
        chunk_bounds(input_count, self.batch_size)
    }

    /// The device.
    pub fn device(&self) -> (d: &String)
        ensures
            d@ == self.device_name(),
    {
        &self.device
    }

    /// The batch size.
    pub fn batch_size(&self) -> (n: usize)
        ensures
            n == self.batch(),
    {
        self.batch_size
    }
}

/// Conversion settings for tensors.
pub struct TensorConverter {
    dtype: String,
}

impl TensorConverter {
    pub closed spec fn dtype_name(&self) -> Seq<char> {
        self.dtype@
    }

    /// Converts to `dtype` (`float32`).
    pub fn new(dtype: Option<String>) -> (c: Self)
        ensures
            c.dtype_name() == match dtype {
                Some(d) => d@,
                None => "float32"@,
            },
    {
        TensorConverter {
            dtype: match dtype {
                Some(d) => d,
                None => String::from_str("float32"),
            },
        }
    }

    /// The element type tensors are converted to.
    pub fn dtype(&self) -> (d: &String)
        ensures
            d@ == self.dtype_name(),
    {
        &self.dtype
    }
}

} // verus!
