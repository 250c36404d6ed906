//! A service instance registered with the registry: a host and a port,
//! with the time at which it was last seen alive.
use vstd::prelude::*;
use crate::external::now_timestamp;

verus! {

/// A service instance.
pub struct Service {
    /// Host of the instance.
    pub host: String,
    /// Port of the instance.
    pub port: u16,
    /// When the instance last registered or refreshed, in seconds since the epoch.
    pub reg_time: i64,
}

/// Two services are the same instance when host and port agree; the
/// registration time plays no part.
pub open spec fn same_service(a: Service, b: Service) -> bool {
    a.host@ == b.host@ && a.port == b.port
}

impl Service {
    /// Creates a service registered now.
    pub fn new(host: String, port: u16) -> (r: Self)
        ensures
            r.host == host,
            r.port == port,
            r.reg_time >= 0,
    {
        Self { host, port, reg_time: now_timestamp() }
    }

    /// Marks the service as alive now: the registration time is set to the
    /// current time (seconds since the epoch, so not negative), host and
    /// port stay.
    pub fn fresh(&mut self)
        ensures
            final(self).host == old(self).host,
            final(self).port == old(self).port,
            final(self).reg_time >= 0,
    {
        let now = now_timestamp();
        self.fresh_at(now);
    }

    /// Marks the service as alive at time `now`: the registration time
    /// becomes `now`, host and port stay.
    pub fn fresh_at(&mut self, now: i64)
        ensures
            final(self).host == old(self).host,
            final(self).port == old(self).port,
            final(self).reg_time == now,
    {
        self.reg_time = now;
    }
}

impl Clone for Service {
    fn clone(&self) -> (r: Self)
        ensures
            r == *self,
    {
        Service { host: self.host.clone(), port: self.port, reg_time: self.reg_time }
    }
}

impl PartialEq for Service {
    fn eq(&self, other: &Self) -> (r: bool) {
        self.host == other.host && self.port == other.port
    }
}

impl vstd::std_specs::cmp::PartialEqSpecImpl for Service {
    open spec fn obeys_eq_spec() -> bool {
        true
    }

    open spec fn eq_spec(&self, other: &Self) -> bool {
        same_service(*self, *other)
    }
}

impl Eq for Service {}

} // verus!
