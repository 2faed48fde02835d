//! Dependency slots: deferred-binding holders that make two-phase
//! construction possible. A component is constructed with unbound slots,
//! registered, and only then wired: the registry's initialization pass calls
//! the component's injection hook, which binds each slot to another
//! registered component or service.

use crate::agent::Agent;
use crate::agent::Dup;
use crate::context::AxorContext;
use vstd::prelude::*;

verus! {

/// A deferred-binding holder for a dependency of type `T`: unbound at
/// construction, bound during the owning component's injection hook, and
/// read-only thereafter. Resolving an unbound slot is a wiring defect, not a
/// runtime condition, and is therefore ruled out by precondition: it can only
/// happen when a component is used before initialization completed.
pub struct Inject<T> {
    pub(crate) inner: Option<T>,
}

impl<T> View for Inject<T> {
    type V = Option<T>;

    closed spec fn view(&self) -> Option<T> {
        self.inner
    }
}

pub(crate) proof fn lemma_inject_view<T>(s: Inject<T>)
    ensures
        s@ == s.inner,
{
}

impl<T> Inject<T> {
    /// Whether the slot has been bound.
    pub fn is_bound(&self) -> (b: bool)
        ensures
            b == (self@ is Some),
    {
        self.inner.is_some()
    }

    /// The bound dependency. Reading an unbound slot is a wiring defect and
    /// is excluded by precondition; an unverified caller that ignores it
    /// halts here.
    pub fn resolve(&self) -> (r: &T)
        requires
            self@ is Some,
        ensures
            Some(*r) == self@,
    {
        match &self.inner {
            Some(v) => v,
            None => vstd::pervasive::unreached(),
        }
    }

    /// Framework usage only: binds the slot. Invoked from the owning
    /// component's injection hook during initialization.
    pub fn inject(&mut self, value: T)
        ensures
            final(self)@ == Some(value),
    {
        self.inner = Some(value);
    }
}

impl<A: Agent> Inject<A> {
    /// Framework usage only: resolves the service under `key` from the
    /// registry and binds the slot to it. A missing service is a wiring
    /// defect, excluded by precondition and surfaced at initialization.
    pub fn resolve_service(&mut self, context: &AxorContext<A>, key: u64)
        requires
            context.stores_unique(),
            context.services_map().contains_key(key),
        ensures
            final(self)@ == Some(context.services_map()[key]),
    {
        let v = context.resolve(key).dup();
        self.inner = Some(v);
    }
}

impl<T> Default for Inject<T> {
    /// An unbound slot.
    fn default() -> (r: Self)
        ensures
            r@ is None,
    {
        Inject { inner: None }
    }
}

impl<T: Dup> Dup for Inject<T> {
    fn dup(&self) -> (r: Self) {
        match &self.inner {
            Some(v) => Inject { inner: Some(v.dup()) },
            None => Inject { inner: None },
        }
    }
}

} // verus!
