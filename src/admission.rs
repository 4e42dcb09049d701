//! The write admission controller: a counting bound on writes in flight and a
//! drain barrier for the end of input.
use vstd::prelude::*;

verus! {

/// The default number of writes that may be in flight at once.
pub const DEFAULT_LIMIT: usize = 50;

/// The controller in mathematical form.
pub struct AdmissionView {
    pub limit: nat,
    pub in_flight: nat,
    pub draining: bool,
}

/// Counts the permits that are held, up to a fixed limit.
pub struct AdmissionController {
    limit: usize,
    in_flight: usize,
    draining: bool,
}

impl View for AdmissionController {
    type V = AdmissionView;

    closed spec fn view(&self) -> AdmissionView {
        AdmissionView {
            limit: self.limit as nat,
            in_flight: self.in_flight as nat,
            draining: self.draining,
        }
    }
}

impl AdmissionController {
    /// A positive limit, never more permits held than it allows.
    pub open spec fn wf(&self) -> bool {
        0 < self@.limit && self@.in_flight <= self@.limit
    }

    /// Whether a permit can be had now.
    pub open spec fn can_admit(&self) -> bool {
        !self@.draining && self@.in_flight < self@.limit
    }

    /// A controller with `limit` slots, none taken.
    pub fn new(limit: usize) -> (r: Self)
        requires
            limit > 0,
        ensures
            r@ == (AdmissionView { limit: limit as nat, in_flight: 0, draining: false }),
            r.wf(),
    {
        AdmissionController { limit, in_flight: 0, draining: false }
    }

    /// A controller with the default limit.
    pub fn with_default_limit() -> (r: Self)
        ensures
            r@ == (AdmissionView { limit: DEFAULT_LIMIT as nat, in_flight: 0, draining: false }),
            r.wf(),
    {
        Self::new(DEFAULT_LIMIT)
    }

    /// Takes a permit if one is free and the input has not ended; where it
    /// returns false the caller waits for a release and asks again.
    pub fn try_acquire(&mut self) -> (r: bool)
        requires
            old(self).wf(),
        ensures
            r == old(self).can_admit(),
            r ==> final(self)@ == (AdmissionView { in_flight: old(self)@.in_flight + 1, ..old(self)@ }),
            !r ==> final(self)@ == old(self)@,
            final(self).wf(),
    {
        if !self.draining && self.in_flight < self.limit {
            self.in_flight = self.in_flight + 1;
            true
        } else {
            false
        }
    }

    /// Gives back the permit of a write that has finished.
    pub fn release(&mut self)
        requires
            old(self).wf(),
            old(self)@.in_flight > 0,
        ensures
            final(self)@ == (AdmissionView { in_flight: (old(self)@.in_flight - 1) as nat, ..old(self)@ }),
            final(self).wf(),
    {
        self.in_flight = self.in_flight - 1;
    }

    /// Declares the end of input: no permit is handed out after this, and
    /// the ones already held are waited for.
    pub fn begin_drain(&mut self)
        requires
            old(self).wf(),
        ensures
            final(self)@ == (AdmissionView { draining: true, ..old(self)@ }),
            final(self).wf(),
    {
        self.draining = true;
    }

    /// Whether the drain barrier is passed: input has ended and every permit
    /// has come back.
    pub fn is_drained(&self) -> (r: bool)
        ensures
            r == (self@.draining && self@.in_flight == 0),
    {
        self.draining && self.in_flight == 0
    }

    /// The number of permits held.
    pub fn in_flight(&self) -> (r: usize)
        ensures
            r == self@.in_flight,
    {
        self.in_flight
    }

    /// The limit.
    pub fn limit(&self) -> (r: usize)
        ensures
            r == self@.limit,
    {
        self.limit
    }
}

/// At no point do more writes hold a permit than the limit allows.
pub proof fn lemma_in_flight_within_limit(c: AdmissionController)
    requires
        c.wf(),
    ensures
        c@.in_flight <= c@.limit,
{
}

} // verus!
