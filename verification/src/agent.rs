//! The component capability: what every registrable, invokable unit provides.
//!
//! The registry is generic over one component universe type. A host gathers
//! its agents and services into such a type (typically an enum with one
//! variant per component type) and implements [`Agent`] for it; the registry
//! then stores, wires and routes values of that type. Each variant carries a
//! distinct type key, playing the role a runtime type tag plays in an
//! untyped registry, and extraction of a variant is the checked cast at the
//! boundary.

use crate::codec::string_content;
use crate::context::AxorContext;
use crate::payload::has_dot;
use crate::payload::op_part;
use crate::payload::Payload;
use serde_json::Value;
use vstd::prelude::*;

verus! {

/// A value that can produce an equal duplicate of itself. Duplicates stand in
/// for shared handles: resolving a component from the registry hands out a
/// duplicate, so replacing a registration later never rewrites handles that
/// were resolved earlier (snapshot semantics).
pub trait Dup: Sized {
    fn dup(&self) -> (r: Self)
        ensures
            r == *self,
    ;
}

/// A static declaration of an operation a component exposes, for
/// introspection and manifest generation; dispatch itself is name-matched in
/// `call_operation`.
#[derive(Debug, Clone)]
pub struct OperationDescriptor {
    pub name: String,
}

/// The result envelope: the echoed request name, whether the operation was
/// accepted, and the operation's encoded return value if it produced one.
#[derive(Debug, Clone)]
pub struct InvokeResult {
    pub operation: String,
    pub success: bool,
    pub data: Option<Value>,
}

/// The component capability set: identity, display name, declared operations,
/// the dependency-injection hook, and the operation dispatcher.
pub trait Agent: Dup {
    /// The component's type identity key: the key it is stored under.
    spec fn key_spec(&self) -> u64;

    /// The component's display name, used only by name-based routing.
    spec fn name_spec(&self) -> Seq<char>;

    /// The names of the operations the component declares.
    spec fn ops_spec(&self) -> Seq<Seq<char>>;

    /// The service keys the component's injection hook resolves.
    spec fn deps_spec(&self) -> Set<u64>;

    /// The component as its injection hook leaves it, given the service map
    /// it was wired from.
    spec fn wired_spec(&self, services: Map<u64, Self>) -> Self;

    /// Whether every dependency slot the component's operations read is bound.
    spec fn ready(&self) -> bool;

    /// Whether the component accepts the operation named in the request.
    spec fn dispatch_success(&self, name: Seq<char>, data: Option<Value>) -> bool;

    /// The string content of the operation's return value, or nothing when
    /// the operation returns no value or is rejected.
    spec fn dispatch_data(&self, name: Seq<char>, data: Option<Value>) -> Option<Seq<char>>;

    /// The component's type identity key.
    fn type_key(&self) -> (k: u64)
        ensures
            k == self.key_spec(),
    ;

    /// The component's display name, constant for the component's lifetime.
    fn name(&self) -> (r: &'static str)
        ensures
            r@ == self.name_spec(),
    ;

    /// The operations the component declares, for manifest generation.
    fn operations(&self) -> (r: Vec<OperationDescriptor>)
        ensures
            r@.map_values(|d: OperationDescriptor| d.name@) == self.ops_spec(),
    ;

    /// Whether the component's dependency slots are all bound.
    fn is_ready(&self) -> (b: bool)
        ensures
            b == self.ready(),
    ;

    /// Binds the component's dependency slots by resolving other components
    /// and services from the registry. Called once per component during the
    /// registry's initialization pass; every resolved key must already be
    /// registered.
    fn inject_dependencies(&mut self, context: &AxorContext<Self>)
        requires
            context.stores_unique(),
            forall|k: u64|
                context.services_map().contains_key(k) ==> (#[trigger] context.services_map()[k]).key_spec() == k,
            forall|k: u64|
                old(self).deps_spec().contains(k) ==> context.services_map().contains_key(k),
        ensures
            *final(self) == old(self).wired_spec(context.services_map()),
    ;

    /// Matches the request's operation part against the component's
    /// operations and invokes the matching one. The router has already
    /// validated that the name splits and that the operation part is
    /// non-empty.
    fn call_operation(&self, payload: &Payload) -> (r: InvokeResult)
        requires
            self.ready(),
            has_dot(payload.name@),
            op_part(payload.name@).len() > 0,
        ensures
            r.operation@ == payload.name@,
            r.success == self.dispatch_success(payload.name@, payload.data),
            match self.dispatch_data(payload.name@, payload.data) {
                Some(s) => r.data matches Some(v) && string_content(v) == Some(s),
                None => r.data is None,
            },
    ;

    /// Wiring binds dependency slots and changes nothing else: identity,
    /// name, declared operations and dependency keys survive, and a
    /// component wired from a map that covers its dependencies is ready.
    proof fn lemma_wired(&self, services: Map<u64, Self>)
        requires
            forall|k: u64| self.deps_spec().contains(k) ==> services.contains_key(k),
            forall|k: u64|
                services.contains_key(k) ==> (#[trigger] services[k]).key_spec() == k,
        ensures
            self.wired_spec(services).key_spec() == self.key_spec(),
            self.wired_spec(services).name_spec() == self.name_spec(),
            self.wired_spec(services).ops_spec() == self.ops_spec(),
            self.wired_spec(services).deps_spec() == self.deps_spec(),
            self.wired_spec(services).ready(),
    ;

    /// Re-wiring overwrites every dependency slot: wiring twice equals wiring
    /// once against the later map.
    proof fn lemma_rewire(&self, m1: Map<u64, Self>, m2: Map<u64, Self>)
        requires
            forall|k: u64| self.deps_spec().contains(k) ==> m1.contains_key(k),
            forall|k: u64| m1.contains_key(k) ==> (#[trigger] m1[k]).key_spec() == k,
            forall|k: u64| self.deps_spec().contains(k) ==> m2.contains_key(k),
            forall|k: u64| m2.contains_key(k) ==> (#[trigger] m2[k]).key_spec() == k,
        ensures
            self.wired_spec(m1).wired_spec(m2) == self.wired_spec(m2),
    ;
}

} // verus!
