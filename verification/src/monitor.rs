//! The monitor protocol: deployment packages, service states, and the
//! server's bookkeeping of the agents that report to it.
use vstd::prelude::*;
use std::collections::HashMap;
use crate::address::IpAddress;

verus! {

broadcast use vstd::std_specs::hash::group_hash_axioms;

/// `std::path::PathBuf`, held opaque.
#[verifier::external_type_specification]
#[verifier::external_body]
pub struct ExPathBuf(std::path::PathBuf);

/// What is shipped to a node: the install script, the name of the service
/// it sets up and where that service logs.
pub struct BinPack {
    pub install_script: String,
    pub service_name: String,
    pub log_dir: std::path::PathBuf,
}

/// State of a deployed service.
#[derive(Debug, PartialEq, Eq)]
pub enum ServiceStatus {
    Running,
    Dead,
}

/// The agent side of the monitor connection.
pub struct Client {}

/// What reading the next frame from an agent's connection gave.
pub enum StreamEvent {
    /// A message arrived.
    Message,
    /// Reading failed.
    ReadFailed,
    /// The agent closed the connection.
    Closed,
}

/// What a worker does next.
#[derive(Debug, PartialEq, Eq)]
pub enum WorkerStep {
    /// Handle the message and read the next one.
    Handle,
    /// Stop serving this agent.
    Stop,
}

/// A worker handles each message and stops at the first failed read or at
/// the end of the stream.
pub fn next_step(event: StreamEvent) -> (res: WorkerStep)
    ensures
        (res is Handle) <==> (event is Message),
{
    match event {
        StreamEvent::Message => WorkerStep::Handle,
        StreamEvent::ReadFailed => WorkerStep::Stop,
        StreamEvent::Closed => WorkerStep::Stop,
    }
}

/// The server's workers, one per agent address: a later connection from an
/// address replaces the worker of an earlier one.
pub struct WorkerRegistry<H> {
    v4: HashMap<u32, H>,
    v6: HashMap<u128, H>,
}

impl<H> View for WorkerRegistry<H> {
    type V = Map<IpAddress, H>;

    closed spec fn view(&self) -> Map<IpAddress, H> {
        Map::new(
            |a: IpAddress|
                match a {
                    IpAddress::V4(x) => self.v4@.contains_key(x),
                    IpAddress::V6(x) => self.v6@.contains_key(x),
                },
            |a: IpAddress|
                match a {
                    IpAddress::V4(x) => self.v4@[x],
                    IpAddress::V6(x) => self.v6@[x],
                },
        )
    }
}

impl<H> WorkerRegistry<H> {
    /// No workers.
    pub fn new() -> (res: Self)
        ensures
            res@ == Map::<IpAddress, H>::empty(),
    {
        let r = WorkerRegistry { v4: HashMap::new(), v6: HashMap::new() };
        assert(r@ =~= Map::<IpAddress, H>::empty());
        r
    }

    /// Registers `handler` as the worker of `addr`, in place of any earlier
    /// one.
    pub fn insert(&mut self, addr: IpAddress, handler: H)
        ensures
            final(self)@ == old(self)@.insert(addr, handler),
    {
        match addr {
            IpAddress::V4(x) => {
                self.v4.insert(x, handler);
            },
            IpAddress::V6(x) => {
                self.v6.insert(x, handler);
            },
        }
        assert(self@ =~= old(self)@.insert(addr, handler));
    }

    /// The worker of `addr`, if one is registered.
    pub fn get(&self, addr: IpAddress) -> (res: Option<&H>)
        ensures
            res matches Some(h) ==> self@.contains_key(addr) && *h == self@[addr],
            res is None ==> !self@.contains_key(addr),
    {
        match addr {
            IpAddress::V4(x) => self.v4.get(&x),
            IpAddress::V6(x) => self.v6.get(&x),
        }
    }
}

/// A later registration for an address replaces the earlier one, and
/// registrations for other addresses are kept.
pub proof fn lemma_registration_replaces<H>(
    m: Map<IpAddress, H>,
    a: IpAddress,
    first: H,
    second: H,
    b: IpAddress,
)
    ensures
        m.insert(a, first).insert(a, second) == m.insert(a, second),
        b != a ==> m.insert(a, second).contains_key(b) == m.contains_key(b),
        b != a && m.contains_key(b) ==> m.insert(a, second)[b] == m[b],
{
    assert(m.insert(a, first).insert(a, second) =~= m.insert(a, second));
}

} // verus!
