//! Ownership of pooled buffers.
use vstd::prelude::*;

use crate::error::WgpuError;
use crate::pool::{after_release, BufferPool};

verus! {

/// A buffer that belongs to a pool, and the number of handles by which it is shared. It goes back to
/// the pool when the last handle is given up.
pub struct PooledBufferGuard {
    buffer: Option<wgpu::Buffer>,
    handles: usize,
}

impl PooledBufferGuard {
    /// The buffer, until it was given back.
    pub closed spec fn held(self) -> Option<wgpu::Buffer> {
        self.buffer
    }

    /// The number of handles.
    pub closed spec fn handles(self) -> nat {
        self.handles as nat
    }

    /// The buffer is there as long as there is a handle.
    #[verifier::type_invariant]
    closed spec fn shared(self) -> bool {
        self.buffer is Some <==> self.handles > 0
    }

    /// Holds a buffer that belongs to a pool, with one handle.
    pub fn pooled(buffer: wgpu::Buffer) -> (guard: Self)
        ensures
            guard.held() == Some(buffer),
            guard.handles() == 1,
    {
        PooledBufferGuard { buffer: Some(buffer), handles: 1 }
    }

    /// The buffer that is held.
    pub fn buffer(&self) -> (buffer: &wgpu::Buffer)
        requires
            self.handles() > 0,
        ensures
            self.held() == Some(*buffer),
    {
        proof {
            use_type_invariant(self);
        }
        match &self.buffer {
            Some(buffer) => buffer,
            None => vstd::pervasive::unreached(),
        }
    }

    /// One more handle of the same buffer.
    pub fn share(self) -> (guard: Self)
        requires
            0 < self.handles() < usize::MAX,
        ensures
            guard.held() == self.held(),
            guard.handles() == self.handles() + 1,
    {
        proof {
            use_type_invariant(&self);
        }
        PooledBufferGuard { buffer: self.buffer, handles: self.handles + 1 }
    }

    /// Gives one handle up. With the last one the buffer goes back to the pool; before that, and
    /// after it, nothing does.
    pub(crate) fn release(self, pool: &mut BufferPool) -> (guard: Self)
        requires
            old(pool).wf(),
        ensures
            final(pool).wf(),
            final(pool).max_per_class() == old(pool).max_per_class(),
            guard.handles() == if self.handles() > 0 {
                (self.handles() - 1) as nat
            } else {
                0
            },
            self.handles() > 1 ==> guard.held() == self.held(),
            self.handles() <= 1 ==> guard.held() is None,
            final(pool)@ == if self.handles() == 1 {
                after_release(old(pool)@, old(pool).max_per_class(), self.held()->0)
            } else {
                old(pool)@
            },
    {
        proof {
            use_type_invariant(&self);
        }
        let (buffer, handles) = (self.buffer, self.handles);
        if handles > 1 {
            return PooledBufferGuard { buffer, handles: handles - 1 };
        }
        if let Some(buffer) = buffer {
            pool.release(buffer);
        }
        PooledBufferGuard { buffer: None, handles: 0 }
    }
}

/// What a pool keeps once `n` of the handles of a buffer were given up, of which there were
/// `handles`.
pub open spec fn after_handles(
    stock: Map<u64, Seq<wgpu::Buffer>>,
    max_per_class: nat,
    buffer: wgpu::Buffer,
    handles: nat,
    n: nat,
) -> Map<u64, Seq<wgpu::Buffer>>
    decreases n,
{
    if n == 0 {
        stock
    } else {
        let before = after_handles(stock, max_per_class, buffer, handles, (n - 1) as nat);
        if handles - (n - 1) == 1 {
            after_release(before, max_per_class, buffer)
        } else {
            before
        }
    }
}

/// As long as there is a handle of a buffer, nothing is released; the last one releases the buffer,
/// and that happens once.
pub proof fn law_last_handle_releases_once(
    stock: Map<u64, Seq<wgpu::Buffer>>,
    max_per_class: nat,
    buffer: wgpu::Buffer,
    handles: nat,
    n: nat,
)
    requires
        handles > 0,
    ensures
        after_handles(stock, max_per_class, buffer, handles, n) == if n < handles {
            stock
        } else {
            after_release(stock, max_per_class, buffer)
        },
    decreases n,
{
    if n > 0 {
        law_last_handle_releases_once(stock, max_per_class, buffer, handles, (n - 1) as nat);
    }
}

/// The owner of the memory behind a GPU image or tensor.
///
/// There is no memory of the CPU behind it: all data access goes through
/// [`WgpuAllocator::gpu_buffer`] and the transfer functions.
pub struct WgpuAllocator {
    guard: PooledBufferGuard,
}

impl WgpuAllocator {
    /// The buffer that is owned.
    pub closed spec fn memory(self) -> wgpu::Buffer {
        self.guard.held()->0
    }

    #[verifier::type_invariant]
    closed spec fn owning(self) -> bool {
        self.guard.held() is Some && self.guard.handles() == 1
    }

    /// The owner of a buffer that belongs to a pool.
    pub fn pooled(buffer: wgpu::Buffer) -> (alloc: Self)
        ensures
            alloc.memory() == buffer,
    {
        WgpuAllocator { guard: PooledBufferGuard::pooled(buffer) }
    }

    /// Returns a reference to the underlying WGPU buffer.
    pub fn gpu_buffer(&self) -> (buffer: &wgpu::Buffer)
        ensures
            *buffer == self.memory(),
    {
        proof {
            use_type_invariant(self);
        }
        self.guard.buffer()
    }

    /// Gives the owner up for the guard of the buffer, by which it can have several.
    pub fn into_guard(self) -> (guard: PooledBufferGuard)
        ensures
            guard.held() == Some(self.memory()),
            guard.handles() == 1,
    {
        proof {
            use_type_invariant(&self);
        }
        self.guard
    }

    /// Returns the standard error for invalid CPU access to GPU memory.
    pub fn cpu_access_error() -> (error: WgpuError)
        ensures
            error == WgpuError::CpuAccessOnGpuBuffer,
    {
        WgpuError::CpuAccessOnGpuBuffer
    }

    /// Helper to return a CPU access error for a generic type `T`.
    pub fn err_cpu_access<T>() -> (outcome: Result<T, WgpuError>)
        ensures
            outcome == Err::<T, WgpuError>(WgpuError::CpuAccessOnGpuBuffer),
    {
        Err(Self::cpu_access_error())
    }
}

} // verus!
