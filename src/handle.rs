//! A server handle that carries a failure counter shared by all its copies.
use std::sync::atomic::{AtomicU32, Ordering};
use std::sync::Arc;
use vstd::prelude::*;

verus! {

/// A handle on one server together with a counter of the connection failures
/// reported against it.
///
/// Every handle obtained from [`TrackedServer::share`] refers to the same
/// counter as the handle it was made from; the counter starts at zero and is
/// only ever incremented.
#[derive(Debug, Clone)]
pub struct TrackedServer<T: Clone> {
    inner: Arc<T>,
    connection_failures: Arc<AtomicU32>,
}

impl<T: Clone> TrackedServer<T> {
    /// The server this handle refers to.
    pub closed spec fn spec_server(&self) -> T {
        *self.inner
    }

    /// Whether two handles refer to one and the same failure counter.
    pub closed spec fn shares_counter(&self, other: &Self) -> bool {
        self.connection_failures == other.connection_failures
    }

    /// Wraps a server in a handle with a fresh failure counter.
    pub fn new(server: T) -> (r: Self)
        ensures
            r.spec_server() == server,
    {
        TrackedServer { inner: Arc::new(server), connection_failures: Arc::new(AtomicU32::new(0)) }
    }

    /// Another handle on the same server and the same failure counter.
    pub fn share(&self) -> (r: Self)
        ensures
            r.spec_server() == self.spec_server(),
            r.shares_counter(self),
    {
        TrackedServer {
            inner: Arc::clone(&self.inner),
            connection_failures: Arc::clone(&self.connection_failures),
        }
    }

    /// The server this handle refers to.
    pub fn server(&self) -> (r: &T)
        ensures
            *r == self.spec_server(),
    {
        &*self.inner
    }

    /// Records one connection failure and returns the count before it.
    ///
    /// The counter is shared with other handles, possibly on other threads, so
    /// the value returned is whatever the counter held at the moment of the
    /// atomic increment.
    pub fn track_connection_failure(&self) -> u32 {
        self.connection_failures.fetch_add(1, Ordering::Relaxed)
    }

    /// The number of connection failures recorded so far, through any handle
    /// on this counter.
    pub fn connection_failures(&self) -> u32 {
        self.connection_failures.load(Ordering::Relaxed)
    }
}

} // verus!
