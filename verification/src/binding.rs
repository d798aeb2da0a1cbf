use vstd::prelude::*;

verus! {

/// Which pool a connection belongs to.
#[derive(Clone, Copy, Debug, PartialEq, Eq, Structural)]
pub struct PoolId(pub u64);

/// How a connection is tied to the pool that it was taken from.
#[derive(Debug, PartialEq, Eq, Structural)]
pub enum PoolBinding {
    /// The connection belongs to no pool.
    Unbound,
    /// The connection may go back to the idle connections of its pool.
    Attached(PoolId),
    /// The connection is counted by its pool, and is closed when it is given back.
    Detached(PoolId),
}

impl PoolBinding {
    /// The pool that the binding names, attached or detached.
    pub open spec fn pool(self) -> Option<PoolId> {
        match self {
            PoolBinding::Unbound => None,
            PoolBinding::Attached(pool) => Some(pool),
            PoolBinding::Detached(pool) => Some(pool),
        }
    }

    /// The binding, with a detached one made attached.
    pub open spec fn attached(self) -> PoolBinding {
        match self {
            PoolBinding::Detached(pool) => PoolBinding::Attached(pool),
            other => other,
        }
    }

    /// The binding, with an attached one made detached.
    pub open spec fn detached(self) -> PoolBinding {
        match self {
            PoolBinding::Attached(pool) => PoolBinding::Detached(pool),
            other => other,
        }
    }

    /// Takes the binding out and leaves `Unbound` in its place.
    pub fn take(&mut self) -> (taken: Self)
        ensures
            taken == *old(self),
            *final(self) == PoolBinding::Unbound,
    {
        let mut taken = PoolBinding::Unbound;
        core::mem::swap(self, &mut taken);
        taken
    }

    /// Whether the connection may go back to the idle connections of its pool.
    pub fn is_attached(&self) -> (attached: bool)
        ensures
            attached == (self is Attached),
    {
        matches!(self, PoolBinding::Attached(_))
    }

    /// Whether the connection belongs to a pool.
    pub fn is_some(&self) -> (some: bool)
        ensures
            some == self.pool().is_some(),
            some == (self !is Unbound),
    {
        !matches!(self, PoolBinding::Unbound)
    }

    /// Turns a detached binding into an attached one, to the same pool.
    pub fn attach(&mut self)
        requires
            *old(self) is Detached,
        ensures
            *final(self) == old(self).attached(),
            *final(self) is Attached,
    {
        if let PoolBinding::Detached(pool) = self.take() {
            *self = PoolBinding::Attached(pool);
        }
    }

    /// Turns an attached binding into a detached one, to the same pool.
    pub fn detach(&mut self)
        requires
            *old(self) is Attached,
        ensures
            *final(self) == old(self).detached(),
            *final(self) is Detached,
    {
        if let PoolBinding::Attached(pool) = self.take() {
            *self = PoolBinding::Detached(pool);
        }
    }
}

impl Clone for PoolBinding {
    fn clone(&self) -> (copy: Self)
        ensures
            copy == *self,
    {
        match self {
            PoolBinding::Unbound => PoolBinding::Unbound,
            PoolBinding::Attached(pool) => PoolBinding::Attached(*pool),
            PoolBinding::Detached(pool) => PoolBinding::Detached(*pool),
        }
    }
}

impl From<PoolBinding> for Option<PoolId> {
    fn from(binding: PoolBinding) -> (pool: Self) {
        match binding {
            PoolBinding::Unbound => None,
            PoolBinding::Attached(pool) => Some(pool),
            PoolBinding::Detached(pool) => Some(pool),
        }
    }
}

impl vstd::std_specs::convert::FromSpecImpl<PoolBinding> for Option<PoolId> {
    open spec fn obeys_from_spec() -> bool {
        true
    }

    open spec fn from_spec(binding: PoolBinding) -> Option<PoolId> {
        binding.pool()
    }
}

} // verus!
