//! Messages on the two queues that tie the proxy plane together.

use vstd::prelude::*;

verus! {

/// A task for the worker that owns the tunnels.
#[derive(Debug, PartialEq)]
pub enum ProxyExecutorEvent {
    /// Start pumping the TCP tunnel registered under this proxy key.
    OpenTcp(String),
    /// Start pumping the UDP tunnel registered under this proxy key.
    OpenUdp(String),
    /// Tear down the tunnel registered under this proxy key.
    Close(String),
}

/// What the tunnels report back to the service manager.
#[derive(Debug, PartialEq)]
pub enum ProxyEvent {
    /// The tunnel with this proxy key is gone.
    Closed(String),
    /// A datagram for a service: service id, peer address, payload.
    Message(u64, String, Vec<u8>),
}

impl ProxyExecutorEvent {
    /// The proxy key the task is about.
    pub open spec fn key(self) -> Seq<char> {
        match self {
            ProxyExecutorEvent::OpenTcp(k) => k@,
            ProxyExecutorEvent::OpenUdp(k) => k@,
            ProxyExecutorEvent::Close(k) => k@,
        }
    }

    /// The proxy key the task is about.
    pub fn proxy_key(&self) -> (key: &str)
        ensures
            key@ == self.key(),
    {
        match self {
            ProxyExecutorEvent::OpenTcp(k) => k.as_str(),
            ProxyExecutorEvent::OpenUdp(k) => k.as_str(),
            ProxyExecutorEvent::Close(k) => k.as_str(),
        }
    }
}

/// The proxy keys that a sequence of tasks is about, in order.
pub open spec fn task_keys(tasks: Seq<ProxyExecutorEvent>) -> Seq<Seq<char>> {
    Seq::new(tasks.len(), |i: int| tasks[i].key())
}

/// Whether every task asks for a tunnel to be closed.
pub open spec fn all_close(tasks: Seq<ProxyExecutorEvent>) -> bool {
    forall|i: int| 0 <= i < tasks.len() ==> (#[trigger] tasks[i]) is Close
}

} // verus!
