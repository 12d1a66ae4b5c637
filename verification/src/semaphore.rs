use vstd::prelude::*;

verus! {

/// A semaphore bounding concurrent work: permits are taken while requests
/// are in flight and returned as they complete.
#[derive(Debug)]
pub struct Semaphore {
    available: u32,
    limit: u32,
}

/// A held permit of a [`Semaphore`].
#[derive(Debug)]
pub struct SemaphoreGuard {
    granted: bool,
}

impl Semaphore {
    /// Available permits, for use in specifications.
    pub closed spec fn spec_available(&self) -> int {
        self.available as int
    }

    /// Total permits, for use in specifications.
    pub closed spec fn spec_limit(&self) -> int {
        self.limit as int
    }

    /// Well-formedness: no more permits are available than exist.
    pub open spec fn wf(&self) -> bool {
        self.spec_available() <= self.spec_limit()
    }

    /// Creates a semaphore with the given number of permits.
    pub fn new(limit: u32) -> (r: Self)
        ensures
            r.spec_available() == limit,
            r.spec_limit() == limit,
            r.wf(),
    {
        Semaphore { available: limit, limit }
    }

    /// The number of available permits.
    pub fn available(&self) -> (r: u32)
        ensures
            r == self.spec_available(),
    {
        self.available
    }

    /// The total number of permits.
    pub fn limit(&self) -> (r: u32)
        ensures
            r == self.spec_limit(),
    {
        self.limit
    }

    /// Takes a permit if one is available.
    pub fn try_acquire(&mut self) -> (r: Option<SemaphoreGuard>)
        requires
            old(self).wf(),
        ensures
            final(self).wf(),
            final(self).spec_limit() == old(self).spec_limit(),
            r is Some <==> old(self).spec_available() > 0,
            r is Some ==> final(self).spec_available() == old(self).spec_available() - 1,
            r is None ==> final(self).spec_available() == old(self).spec_available(),
    {
        if self.available > 0 {
            self.available = self.available - 1;
            Some(SemaphoreGuard { granted: true })
        } else {
            None
        }
    }

    /// Returns a permit.
    pub fn release(&mut self, guard: SemaphoreGuard)
        requires
            old(self).wf(),
            old(self).spec_available() < old(self).spec_limit(),
        ensures
            final(self).wf(),
            final(self).spec_limit() == old(self).spec_limit(),
            final(self).spec_available() == old(self).spec_available() + 1,
    {
        self.available = self.available + 1;
    }
}

} // verus!
