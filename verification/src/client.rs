use vstd::prelude::*;

use crate::binding::PoolBinding;

verus! {

/// The wire to a server that a client holds.
#[derive(Debug, PartialEq, Eq, Structural)]
pub struct Transport {
    /// Key under which the open stream is kept.
    pub stream: u64,
    /// Whether the transport lies in the pool, rather than in the hands of a user.
    pub inside: bool,
}

/// A client connection.
#[derive(Debug, PartialEq, Eq, Structural)]
pub struct ClientHandle {
    /// The wire, until the client is dropped.
    pub inner: Option<Transport>,
    /// Key of the session settings that travel with the client.
    pub context: u64,
    /// The pool that the client is tied to.
    pub pool: PoolBinding,
    /// Whether the client was ever taken from a pool.
    pub used: bool,
}

/// What is to be done with a client that goes out of scope.
#[must_use]
#[derive(Debug, PartialEq, Eq, Structural)]
pub enum HandleDrop {
    /// Nothing: it has no transport.
    Nothing,
    /// Close the transport, which belongs to no pool.
    Close(Transport),
    /// Close the transport: it belongs to a pool, but was never taken from it.
    CloseUnused(Transport),
    /// Give the client back to the pool that it is bound to.
    GiveBack(ClientHandle),
}

impl ClientHandle {
    /// What is to be done with the client when it goes out of scope.
    pub open spec fn drop_action(self) -> HandleDrop {
        match self.inner {
            None => HandleDrop::Nothing,
            Some(transport) => if self.pool is Unbound {
                HandleDrop::Close(transport)
            } else if !self.used {
                HandleDrop::CloseUnused(transport)
            } else {
                HandleDrop::GiveBack(ClientHandle { used: false, ..self })
            },
        }
    }

    /// Takes the transport and the binding out of a client that goes out of scope, and
    /// says what is to be done with them.
    pub fn on_drop(&mut self) -> (action: HandleDrop)
        ensures
            action == old(self).drop_action(),
            *final(self) == (ClientHandle {
                inner: None,
                pool: PoolBinding::Unbound,
                ..*old(self)
            }),
    {
        let pool = self.pool.take();
        match self.inner.take() {
            Some(inner) => {
                if !pool.is_some() {
                    return HandleDrop::Close(inner);
                }
                if !self.has_been_used() {
                    // A client that was never taken from the pool need not go back to it.
                    return HandleDrop::CloseUnused(inner);
                }
                HandleDrop::GiveBack(
                    ClientHandle { inner: Some(inner), pool, context: self.context, used: false },
                )
            },
            None => HandleDrop::Nothing,
        }
    }

    /// The client with the mark on its transport, if it has one, set to `value`.
    pub open spec fn with_inside(self, value: bool) -> ClientHandle {
        ClientHandle {
            inner: match self.inner {
                Some(transport) => Some(Transport { inside: value, ..transport }),
                None => None,
            },
            ..self
        }
    }

    /// Marks the transport, if there is one, as lying in the pool or outside of it.
    pub fn set_inside(&mut self, value: bool)
        ensures
            *final(self) == old(self).with_inside(value),
    {
        if let Some(transport) = self.inner.take() {
            self.inner = Some(Transport { stream: transport.stream, inside: value });
        }
    }

    /// Marks the client as taken from a pool.
    pub fn set_used(&mut self)
        ensures
            *final(self) == (ClientHandle { used: true, ..*old(self) }),
    {
        self.used = true;
    }

    /// Whether the client was ever taken from a pool.
    pub fn has_been_used(&self) -> (used: bool)
        ensures
            used == self.used,
    {
        self.used
    }
}

} // verus!
