//! Monitored services: configuration records, creation and update payloads,
//! and an append-only service table with dense, store-assigned identifiers.

use vstd::prelude::*;

use crate::status::{ServiceType, Status};

verus! {

/// A user-configured network service to be monitored.
pub struct Service {
    pub id: u32,
    pub user_id: u32,
    pub active: bool,
    pub name: String,
    pub interval: u32,
    pub url: String,
    pub timeout: u32,
    pub payload: Option<String>,
    pub last_status: Status,
    pub service_type: ServiceType,
    pub retry: u32,
    pub retry_interval: u32,
    pub invert: bool,
    pub expected_code: Option<u16>,
    pub expected_payload: Option<String>,
}

impl Service {
    /// A well-formed service probes on a positive interval, so that
    /// scheduling by `seconds mod interval` is defined.
    pub open spec fn wf(self) -> bool {
        self.interval >= 1
    }
}

impl Clone for Service {
    fn clone(&self) -> (r: Self)
        ensures
            r == *self,
    {
        Service {
            id: self.id,
            user_id: self.user_id,
            active: self.active,
            name: self.name.clone(),
            interval: self.interval,
            url: self.url.clone(),
            timeout: self.timeout,
            payload: self.payload.clone(),
            last_status: self.last_status,
            service_type: self.service_type,
            retry: self.retry,
            retry_interval: self.retry_interval,
            invert: self.invert,
            expected_code: self.expected_code,
            expected_payload: self.expected_payload.clone(),
        }
    }
}

/// Payload for creating a service. Fields the store does not take from
/// the payload start at their defaults: the timeout at one second, and
/// `invert`, `expected_code` and `expected_payload` unset until a later
/// update.
pub struct ServiceForCreate {
    pub user_id: Option<u32>,
    pub active: Option<bool>,
    pub name: String,
    pub interval: u16,
    pub url: String,
    pub payload: Option<String>,
    pub service_type: ServiceType,
    pub retry: u16,
    pub retry_interval: u16,
    pub invert: Option<bool>,
    pub expected_code: Option<u32>,
    pub expected_payload: Option<String>,
}

impl Default for ServiceForCreate {
    fn default() -> (r: Self)
        ensures
            r.user_id is None,
            r.active is None,
            r.name@ == Seq::<char>::empty(),
            r.interval == 0,
            r.url@ == Seq::<char>::empty(),
            r.payload is None,
            r.service_type == ServiceType::Ping,
            r.retry == 0,
            r.retry_interval == 0,
            r.invert is None,
            r.expected_code is None,
            r.expected_payload is None,
    {
        ServiceForCreate {
            user_id: None,
            active: None,
            name: String::new(),
            interval: 0,
            url: String::new(),
            payload: None,
            service_type: ServiceType::Ping,
            retry: 0,
            retry_interval: 0,
            invert: None,
            expected_code: None,
            expected_payload: None,
        }
    }
}

/// Partial update of a service; `None` leaves the field as it is.
/// `last_status` is reserved to the transition engine.
pub struct ServiceForUpdate {
    pub active: Option<bool>,
    pub name: Option<String>,
    pub interval: Option<u16>,
    pub url: Option<String>,
    pub payload: Option<String>,
    pub last_status: Option<Status>,
    pub service_type: Option<ServiceType>,
    pub retry: Option<u16>,
    pub retry_interval: Option<u16>,
    pub invert: Option<bool>,
    pub expected_code: Option<u16>,
    pub expected_payload: Option<String>,
}

impl Default for ServiceForUpdate {
    fn default() -> (r: Self)
        ensures
            r.active is None,
            r.name is None,
            r.interval is None,
            r.url is None,
            r.payload is None,
            r.last_status is None,
            r.service_type is None,
            r.retry is None,
            r.retry_interval is None,
            r.invert is None,
            r.expected_code is None,
            r.expected_payload is None,
    {
        ServiceForUpdate {
            active: None,
            name: None,
            interval: None,
            url: None,
            payload: None,
            last_status: None,
            service_type: None,
            retry: None,
            retry_interval: None,
            invert: None,
            expected_code: None,
            expected_payload: None,
        }
    }
}

impl ServiceForUpdate {
    /// True when no field is set, so that an update is a no-op.
    pub open spec fn is_empty(self) -> bool {
        &&& self.active is None
        &&& self.name is None
        &&& self.interval is None
        &&& self.url is None
        &&& self.payload is None
        &&& self.last_status is None
        &&& self.service_type is None
        &&& self.retry is None
        &&& self.retry_interval is None
        &&& self.invert is None
        &&& self.expected_code is None
        &&& self.expected_payload is None
    }

    /// The service as it stands after this update is applied to `s`.
    pub open spec fn applied_to(self, s: Service) -> Service {
        Service {
            id: s.id,
            user_id: s.user_id,
            active: if self.active is Some { self.active.unwrap() } else { s.active },
            name: if self.name is Some { self.name.unwrap() } else { s.name },
            interval: if self.interval is Some { self.interval.unwrap() as u32 } else { s.interval },
            url: if self.url is Some { self.url.unwrap() } else { s.url },
            timeout: s.timeout,
            payload: if self.payload is Some { self.payload } else { s.payload },
            last_status: if self.last_status is Some { self.last_status.unwrap() } else { s.last_status },
            service_type: if self.service_type is Some { self.service_type.unwrap() } else { s.service_type },
            retry: if self.retry is Some { self.retry.unwrap() as u32 } else { s.retry },
            retry_interval: if self.retry_interval is Some { self.retry_interval.unwrap() as u32 } else { s.retry_interval },
            invert: if self.invert is Some { self.invert.unwrap() } else { s.invert },
            expected_code: if self.expected_code is Some { self.expected_code } else { s.expected_code },
            expected_payload: if self.expected_payload is Some { self.expected_payload } else { s.expected_payload },
        }
    }
}

/// Why a service payload was rejected.
#[derive(Debug, Clone, Copy, PartialEq, Eq, Structural)]
pub enum ServiceError {
    /// `interval` must be at least one second.
    ZeroInterval,
}

/// Counts over the service table: all services, and the active ones by
/// their last status.
#[derive(Debug, Clone, Copy, PartialEq, Eq, Structural)]
pub struct Stats {
    pub count: u32,
    pub active: u32,
    pub up: u32,
    pub down: u32,
    pub failed: u32,
}

impl Default for Stats {
    fn default() -> (r: Self)
        ensures
            r == (Stats { count: 0, active: 0, up: 0, down: 0, failed: 0 }),
    {
        Stats { count: 0, active: 0, up: 0, down: 0, failed: 0 }
    }
}

/// How many services in `s` are active and, when `st` is given, have
/// `st` as their last status.
pub open spec fn count_active(s: Seq<Service>, st: Option<Status>) -> nat
    decreases s.len(),
{
    if s.len() == 0 {
        0
    } else {
        count_active(s.drop_last(), st) + if s.last().active && (st is None
            || s.last().last_status == st.unwrap()) {
            1nat
        } else {
            0nat
        }
    }
}

proof fn lemma_count_active_bound(s: Seq<Service>, st: Option<Status>)
    ensures
        count_active(s, st) <= s.len(),
    decreases s.len(),
{
    if s.len() > 0 {
        lemma_count_active_bound(s.drop_last(), st);
    }
}

/// The service table. Identifiers are store-assigned and dense: the
/// service at index `i` has id `i + 1`, and services are never removed.
pub struct ServiceStore {
    services: Vec<Service>,
}

impl ServiceStore {
    /// The services, in insertion order.
    pub closed spec fn view(&self) -> Seq<Service> {
        self.services@
    }

    /// Dense ids, and every service well-formed.
    pub open spec fn wf(&self) -> bool {
        &&& forall|i: int|
            0 <= i < self@.len() ==> (#[trigger] self@[i]).id == i + 1
        &&& forall|i: int| 0 <= i < self@.len() ==> (#[trigger] self@[i]).wf()
    }

    /// An empty service table.
    pub fn new() -> (r: Self)
        ensures
            r.wf(),
            r@.len() == 0,
    {
        ServiceStore { services: Vec::new() }
    }

    /// Creates a service from the payload. A zero `interval` is rejected;
    /// otherwise the new service is appended with the next dense id,
    /// `active` defaulting to true, `last_status` starting at `Pending`,
    /// and `timeout`, `invert`, `expected_code`, `expected_payload` at
    /// their defaults. Returns the new id.
    pub fn insert(&mut self, service: ServiceForCreate) -> (r: Result<u32, ServiceError>)
        requires
            old(self).wf(),
            old(self)@.len() + 1 < u32::MAX,
        ensures
            final(self).wf(),
            service.interval == 0 ==> r == Err::<u32, ServiceError>(ServiceError::ZeroInterval)
                && final(self)@ == old(self)@,
            service.interval >= 1 ==> {
                &&& r == Ok::<u32, ServiceError>((old(self)@.len() + 1) as u32)
                &&& final(self)@.len() == old(self)@.len() + 1
                &&& final(self)@.subrange(0, old(self)@.len() as int) == old(self)@
                &&& final(self)@.last() == (Service {
                    id: (old(self)@.len() + 1) as u32,
                    user_id: if service.user_id is Some { service.user_id.unwrap() } else { 0 },
                    active: if service.active is Some { service.active.unwrap() } else { true },
                    name: service.name,
                    interval: service.interval as u32,
                    url: service.url,
                    timeout: 1u32,
                    payload: service.payload,
                    last_status: Status::Pending,
                    service_type: service.service_type,
                    retry: service.retry as u32,
                    retry_interval: service.retry_interval as u32,
                    invert: false,
                    expected_code: None,
                    expected_payload: None,
                })
            },
    {
        if service.interval == 0 {
            return Err(ServiceError::ZeroInterval);
        }
        let id = (self.services.len() + 1) as u32;
        let user_id = match service.user_id {
            Some(u) => u,
            None => 0,
        };
        let active = match service.active {
            Some(a) => a,
            None => true,
        };
        let svc = Service {
            id,
            user_id,
            active,
            name: service.name,
            interval: service.interval as u32,
            url: service.url,
            timeout: 1,
            payload: service.payload,
            last_status: Status::Pending,
            service_type: service.service_type,
            retry: service.retry as u32,
            retry_interval: service.retry_interval as u32,
            invert: false,
            expected_code: None,
            expected_payload: None,
        };
        self.services.push(svc);
        assert(self@.drop_last() == old(self)@);
        assert(self@.subrange(0, old(self)@.len() as int) == old(self)@);
        Ok(id)
    }

    /// The service with the given id, if the table holds it.
    pub fn get(&self, service_id: u32) -> (r: Option<Service>)
        requires
            self.wf(),
        ensures
            match r {
                Some(s) => 1 <= service_id <= self@.len() && s == self@[service_id - 1],
                None => service_id == 0 || service_id > self@.len(),
            },
    {
        if service_id == 0 || service_id as usize > self.services.len() {
            None
        } else {
            Some(self.services[service_id as usize - 1].clone())
        }
    }

    /// All services, in insertion order.
    pub fn all(&self) -> (r: Vec<Service>)
        ensures
            r@ == self@,
    {
        let mut out: Vec<Service> = Vec::new();
        let n = self.services.len();
        for i in 0..n
            invariant
                n == self.services@.len(),
                out@ == self@.take(i as int),
        {
            out.push(self.services[i].clone());
            assert(out@ == self@.take(i + 1) ) by {
                assert(self@.take(i + 1).drop_last() == self@.take(i as int));
                assert(out@.drop_last() == self@.take(i as int));
                assert(out@.last() == self@.take(i + 1).last());
                assert(out@ =~= self@.take(i + 1));
            }
        }
        assert(self@.take(n as int) == self@);
        out
    }

    /// The active services, in insertion order.
    pub fn all_active(&self) -> (r: Vec<Service>)
        ensures
            r@ == self@.filter(|s: Service| s.active),
    {
        let mut out: Vec<Service> = Vec::new();
        let n = self.services.len();
        for i in 0..n
            invariant
                n == self.services@.len(),
                out@ == self@.take(i as int).filter(|s: Service| s.active),
        {
            reveal_with_fuel(Seq::filter, 2);
            if self.services[i].active {
                out.push(self.services[i].clone());
            }
            assert(self@.take(i + 1).drop_last() == self@.take(i as int));
        }
        assert(self@.take(n as int) == self@);
        out
    }

    /// Applies the update to the service with the given id. Returns the
    /// number of services changed: zero when the id is unknown or the
    /// update is empty, one otherwise. A zero `interval` is rejected.
    pub fn update(&mut self, service_id: u32, update_data: ServiceForUpdate) -> (r: Result<
        u64,
        ServiceError,
    >)
        requires
            old(self).wf(),
        ensures
            final(self).wf(),
            update_data.interval == Some(0u16) ==> r == Err::<u64, ServiceError>(
                ServiceError::ZeroInterval,
            ) && final(self)@ == old(self)@,
            update_data.interval != Some(0u16) && (service_id == 0 || service_id > old(
                self,
            )@.len() || update_data.is_empty()) ==> r == Ok::<u64, ServiceError>(0u64)
                && final(self)@ == old(self)@,
            update_data.interval != Some(0u16) && 1 <= service_id <= old(self)@.len()
                && !update_data.is_empty() ==> {
                &&& r == Ok::<u64, ServiceError>(1u64)
                &&& final(self)@ == old(self)@.update(
                    service_id - 1,
                    update_data.applied_to(old(self)@[service_id - 1]),
                )
            },
    {
        match update_data.interval {
            Some(0u16) => {
                return Err(ServiceError::ZeroInterval);
            },
            _ => {},
        }
        if service_id == 0 || service_id as usize > self.services.len() {
            return Ok(0);
        }
        let empty = update_data.active.is_none() && update_data.name.is_none()
            && update_data.interval.is_none() && update_data.url.is_none()
            && update_data.payload.is_none() && update_data.last_status.is_none()
            && update_data.service_type.is_none() && update_data.retry.is_none()
            && update_data.retry_interval.is_none() && update_data.invert.is_none()
            && update_data.expected_code.is_none() && update_data.expected_payload.is_none();
        if empty {
            return Ok(0);
        }
        let idx = service_id as usize - 1;
        let old_svc = self.services[idx].clone();
        let updated = Service {
            id: old_svc.id,
            user_id: old_svc.user_id,
            active: match update_data.active {
                Some(v) => v,
                None => old_svc.active,
            },
            name: match update_data.name {
                Some(v) => v,
                None => old_svc.name,
            },
            interval: match update_data.interval {
                Some(v) => v as u32,
                None => old_svc.interval,
            },
            url: match update_data.url {
                Some(v) => v,
                None => old_svc.url,
            },
            timeout: old_svc.timeout,
            payload: match update_data.payload {
                Some(v) => Some(v),
                None => old_svc.payload,
            },
            last_status: match update_data.last_status {
                Some(v) => v,
                None => old_svc.last_status,
            },
            service_type: match update_data.service_type {
                Some(v) => v,
                None => old_svc.service_type,
            },
            retry: match update_data.retry {
                Some(v) => v as u32,
                None => old_svc.retry,
            },
            retry_interval: match update_data.retry_interval {
                Some(v) => v as u32,
                None => old_svc.retry_interval,
            },
            invert: match update_data.invert {
                Some(v) => v,
                None => old_svc.invert,
            },
            expected_code: match update_data.expected_code {
                Some(v) => Some(v),
                None => old_svc.expected_code,
            },
            expected_payload: match update_data.expected_payload {
                Some(v) => Some(v),
                None => old_svc.expected_payload,
            },
        };
        self.services.set(idx, updated);
        Ok(1)
    }

    /// Counts of services: all of them, the active ones, and the active
    /// ones by last status.
    pub fn get_stats(&self) -> (r: Stats)
        requires
            self.wf(),
            self@.len() < u32::MAX,
        ensures
            r.count == self@.len(),
            r.active == count_active(self@, None),
            r.up == count_active(self@, Some(Status::Up)),
            r.down == count_active(self@, Some(Status::Down)),
            r.failed == count_active(self@, Some(Status::Failed)),
    {
        let n = self.services.len();
        let mut active: u32 = 0;
        let mut up: u32 = 0;
        let mut down: u32 = 0;
        let mut failed: u32 = 0;
        for i in 0..n
            invariant
                n == self@.len(),
                n < u32::MAX,
                active == count_active(self@.take(i as int), None),
                up == count_active(self@.take(i as int), Some(Status::Up)),
                down == count_active(self@.take(i as int), Some(Status::Down)),
                failed == count_active(self@.take(i as int), Some(Status::Failed)),
        {
            proof {
                lemma_count_active_bound(self@.take(i as int), None);
                lemma_count_active_bound(self@.take(i as int), Some(Status::Up));
                lemma_count_active_bound(self@.take(i as int), Some(Status::Down));
                lemma_count_active_bound(self@.take(i as int), Some(Status::Failed));
                assert(self@.take(i + 1).drop_last() == self@.take(i as int));
                assert(self@.take(i + 1).last() == self@[i as int]);
            }
            if self.services[i].active {
                active = active + 1;
                match self.services[i].last_status {
                    Status::Up => {
                        up = up + 1;
                    },
                    Status::Down => {
                        down = down + 1;
                    },
                    Status::Failed => {
                        failed = failed + 1;
                    },
                    Status::Pending => {},
                }
            }
        }
        proof {
            assert(self@.take(n as int) == self@);
        }
        Stats { count: n as u32, active, up, down, failed }
    }
}

} // verus!
