use vstd::prelude::*;

verus! {

/// A resource that is set up once, later than its owner.
#[derive(Debug)]
pub enum Eventually<T> {
    Uninitialized,
    Initialized(T),
}

/// Reusable allocator for vertex and index data. Clearing it forgets what
/// it holds and keeps the allocation.
#[derive(Debug)]
pub struct BufferPool {
    capacity: usize,
    used: usize,
}

impl BufferPool {
    /// Only the renderer allocates a pool.
    pub(crate) fn new(capacity: usize) -> (r: BufferPool)
        ensures
            r.capacity() == capacity,
            r.used() == 0,
    {
        BufferPool { capacity, used: 0 }
    }

    pub closed spec fn capacity(&self) -> nat {
        self.capacity as nat
    }

    pub closed spec fn used(&self) -> nat {
        self.used as nat
    }

    pub fn get_capacity(&self) -> (r: usize)
        ensures
            r == self.capacity(),
    {
        self.capacity
    }

    pub fn get_used(&self) -> (r: usize)
        ensures
            r == self.used(),
    {
        self.used
    }

    /// Reserves `n` entries; false, and nothing changes, where they do not fit.
    pub fn allocate(&mut self, n: usize) -> (r: bool)
        ensures
            final(self).capacity() == old(self).capacity(),
            r == (old(self).used() + n <= old(self).capacity()),
            r ==> final(self).used() == old(self).used() + n,
            !r ==> final(self).used() == old(self).used(),
    {
        if self.used <= self.capacity && n <= self.capacity - self.used {
            self.used = self.used + n;
            true
        } else {
            false
        }
    }

    /// Empties the pool without releasing its allocation.
    pub fn clear(&mut self)
        ensures
            final(self).capacity() == old(self).capacity(),
            final(self).used() == 0,
    {
        self.used = 0;
    }
}

impl Eventually<BufferPool> {
    /// Whether the renderer has set the pool up; never blocks.
    pub fn is_initialized(&self) -> (r: bool)
        ensures
            r == (self is Initialized),
    {
        match self {
            Eventually::Initialized(_) => true,
            Eventually::Uninitialized => false,
        }
    }

    /// Clears the pool where there is one; does nothing otherwise.
    pub fn clear_if_initialized(&mut self)
        ensures
            *old(self) is Uninitialized ==> *final(self) is Uninitialized,
            *old(self) is Initialized ==> *final(self) is Initialized
                && (*final(self))->Initialized_0.capacity() == (*old(self))->Initialized_0.capacity()
                && (*final(self))->Initialized_0.used() == 0,
    {
        if let Eventually::Initialized(pool) = self {
            pool.clear();
        }
    }
}

/// What a stage of the frame schedule is, as recorded when it runs.
#[derive(Clone, Copy, Debug, PartialEq, Eq, Structural)]
pub enum StageTag {
    Extract,
    Prepare,
    Queue,
    PhaseSort,
    Graph,
    Cleanup,
    WriteSurfaceBuffer,
    Custom(u32),
}

/// Owner of the GPU-side state: the buffer pool, and a record of the stages
/// and render passes it has executed.
#[derive(Debug)]
pub struct Renderer {
    pub buffer_pool: Eventually<BufferPool>,
    pub executed_stages: Vec<StageTag>,
    pub executed_passes: Vec<String>,
}

impl Renderer {
    pub fn new() -> (r: Renderer)
        ensures
            r.buffer_pool is Uninitialized,
            r.executed_stages@.len() == 0,
            r.executed_passes@.len() == 0,
    {
        Renderer {
            buffer_pool: Eventually::Uninitialized,
            executed_stages: Vec::new(),
            executed_passes: Vec::new(),
        }
    }

    /// The renderer's own setup: makes the pool, once. A second call changes
    /// nothing.
    pub fn initialize_buffer_pool(&mut self, capacity: usize)
        ensures
            final(self).executed_passes == old(self).executed_passes,
            final(self).executed_stages == old(self).executed_stages,
            old(self).buffer_pool is Initialized ==> final(self).buffer_pool == old(self).buffer_pool,
            old(self).buffer_pool is Uninitialized ==> final(self).buffer_pool is Initialized
                && final(self).buffer_pool->Initialized_0.capacity() == capacity
                && final(self).buffer_pool->Initialized_0.used() == 0,
    {
        if let Eventually::Uninitialized = self.buffer_pool {
            self.buffer_pool = Eventually::Initialized(BufferPool::new(capacity));
        }
    }
}

} // verus!
