//! The registry: a type-keyed store of components and services, the
//! dependency-injection driver, and the name-based request router.
//!
//! Both stores are association lists keyed by `u64` type keys, abstracted as
//! a sequence (the agent store, whose order fixes routing's scan order) and a
//! map (the service store). Registration is last-write-wins per key; the
//! stores keep at most one entry per key by construction.

use crate::agent::Agent;
use crate::agent::Dup;
use crate::agent::InvokeResult;
use crate::agent::OperationDescriptor;
use crate::codec::string_content;
use crate::payload::comp_part;
use crate::payload::find_dot;
use crate::payload::first_dot;
use crate::payload::has_dot;
use crate::payload::op_part;
use crate::payload::str_eq;
use crate::payload::Payload;
use vstd::prelude::*;
use vstd::string::StrSliceExecFns;

verus! {

/// Mathematical view of a registry: the agent entries in registration order,
/// and the service store as a map.
pub struct ContextView<A> {
    pub agents: Seq<(u64, A)>,
    pub services: Map<u64, A>,
}

/// The map an association list denotes; a later entry overwrites an earlier
/// one with the same key.
pub open spec fn entries_map<A>(s: Seq<(u64, A)>) -> Map<u64, A>
    decreases s.len(),
{
    if s.len() == 0 {
        Map::empty()
    } else {
        entries_map(s.drop_last()).insert(s.last().0, s.last().1)
    }
}

/// Whether an association list holds at most one entry per key.
pub open spec fn unique_keys<A>(s: Seq<(u64, A)>) -> bool {
    forall|i: int, j: int| 0 <= i < j < s.len() ==> s[i].0 != s[j].0
}

pub proof fn lemma_entries_map_contains<A>(s: Seq<(u64, A)>, k: u64)
    ensures
        entries_map(s).contains_key(k) <==> exists|i: int| 0 <= i < s.len() && s[i].0 == k,
    decreases s.len(),
{
    if s.len() > 0 {
        lemma_entries_map_contains(s.drop_last(), k);
        if s.last().0 == k {
            assert(s[s.len() - 1].0 == k);
        } else {
            if exists|i: int| 0 <= i < s.len() && s[i].0 == k {
                let i = choose|i: int| 0 <= i < s.len() && s[i].0 == k;
                assert(s.drop_last()[i] == s[i]);
            }
        }
    }
}

pub proof fn lemma_entries_map_value<A>(s: Seq<(u64, A)>, k: u64, i: int)
    requires
        0 <= i < s.len(),
        s[i].0 == k,
        forall|j: int| i < j < s.len() ==> s[j].0 != k,
    ensures
        entries_map(s).contains_key(k),
        entries_map(s)[k] == s[i].1,
    decreases s.len(),
{
    if i == s.len() - 1 {
    } else {
        assert(s.last().0 != k);
        assert(s.drop_last()[i] == s[i]);
        lemma_entries_map_value(s.drop_last(), k, i);
    }
}

/// First position of a key in an association list.
pub open spec fn key_idx<A>(s: Seq<(u64, A)>, k: u64) -> Option<int>
    decreases s.len(),
{
    if s.len() == 0 {
        None
    } else if s[0].0 == k {
        Some(0)
    } else {
        match key_idx(s.subrange(1, s.len() as int), k) {
            Some(i) => Some(i + 1),
            None => None,
        }
    }
}

pub proof fn lemma_key_idx_witness<A>(s: Seq<(u64, A)>, k: u64, i: int)
    requires
        0 <= i < s.len(),
        s[i].0 == k,
        forall|j: int| 0 <= j < i ==> s[j].0 != k,
    ensures
        key_idx(s, k) == Some(i),
    decreases s.len(),
{
    if i > 0 {
        let t = s.subrange(1, s.len() as int);
        assert(forall|j: int| 0 <= j < i - 1 ==> t[j] == s[j + 1]);
        lemma_key_idx_witness(t, k, i - 1);
    }
}

pub proof fn lemma_key_idx_none<A>(s: Seq<(u64, A)>, k: u64)
    requires
        forall|j: int| 0 <= j < s.len() ==> s[j].0 != k,
    ensures
        key_idx(s, k) is None,
    decreases s.len(),
{
    if s.len() > 0 {
        let t = s.subrange(1, s.len() as int);
        assert(forall|j: int| 0 <= j < t.len() ==> t[j] == s[j + 1]);
        lemma_key_idx_none(t, k);
    }
}

/// The association list after storing `a` under `k`: the first entry with
/// key `k` is replaced, or a new entry is appended when the key is new.
pub open spec fn upsert_seq<A>(s: Seq<(u64, A)>, k: u64, a: A) -> Seq<(u64, A)> {
    match key_idx(s, k) {
        Some(i) => s.update(i, (k, a)),
        None => s.push((k, a)),
    }
}

pub proof fn lemma_upsert_entries<A>(s: Seq<(u64, A)>, k: u64, a: A)
    requires
        unique_keys(s),
    ensures
        unique_keys(upsert_seq(s, k, a)),
        entries_map(upsert_seq(s, k, a)) == entries_map(s).insert(k, a),
        forall|j: int|
            0 <= j < upsert_seq(s, k, a).len() ==> (#[trigger] upsert_seq(s, k, a)[j]) == (k, a)
                || (0 <= j < s.len() && upsert_seq(s, k, a)[j] == s[j]),
{
    let u = upsert_seq(s, k, a);
    match key_idx(s, k) {
        Some(i) => {
            lemma_key_idx_bounds(s, k, i);
            assert forall|k2: u64| #[trigger]
                entries_map(u).contains_key(k2) == entries_map(s).insert(k, a).contains_key(
                    k2,
                ) by {
                lemma_entries_map_contains(u, k2);
                lemma_entries_map_contains(s, k2);
                if k2 == k {
                    assert(u[i].0 == k);
                } else {
                    if exists|j: int| 0 <= j < u.len() && u[j].0 == k2 {
                        let j = choose|j: int| 0 <= j < u.len() && u[j].0 == k2;
                        assert(s[j].0 == k2);
                    }
                    if exists|j: int| 0 <= j < s.len() && s[j].0 == k2 {
                        let j = choose|j: int| 0 <= j < s.len() && s[j].0 == k2;
                        assert(u[j].0 == k2);
                    }
                }
            }
            assert forall|k2: u64|
                entries_map(u).contains_key(k2) implies #[trigger] entries_map(u)[k2]
                == entries_map(s).insert(k, a)[k2] by {
                lemma_entries_map_contains(u, k2);
                let j = choose|j: int| 0 <= j < u.len() && u[j].0 == k2;
                assert(forall|t: int| j < t < u.len() ==> u[t].0 != k2);
                lemma_entries_map_value(u, k2, j);
                if k2 == k {
                    assert(j == i);
                } else {
                    assert(s[j].0 == k2);
                    assert(forall|t: int| j < t < s.len() ==> s[t].0 != k2);
                    lemma_entries_map_value(s, k2, j);
                }
            }
            assert(entries_map(u) =~= entries_map(s).insert(k, a));
        },
        None => {
            assert(forall|j: int| 0 <= j < s.len() ==> s[j].0 != k) by {
                if exists|j: int| 0 <= j < s.len() && s[j].0 == k {
                    let j = choose|j: int| 0 <= j < s.len() && s[j].0 == k;
                    assert(forall|t: int| 0 <= t < j ==> s[t].0 != k || !(forall|t2: int|
                        0 <= t2 < j ==> s[t2].0 != k));
                    lemma_key_idx_first(s, k, j);
                }
            }
            assert(u.drop_last() =~= s);
            assert(entries_map(u) == entries_map(s).insert(k, a));
        },
    }
}

pub proof fn lemma_key_idx_bounds<A>(s: Seq<(u64, A)>, k: u64, i: int)
    requires
        key_idx(s, k) == Some(i),
    ensures
        0 <= i < s.len(),
        s[i].0 == k,
        forall|j: int| 0 <= j < i ==> s[j].0 != k,
    decreases s.len(),
{
    if s.len() > 0 && s[0].0 != k {
        let t = s.subrange(1, s.len() as int);
        lemma_key_idx_bounds(t, k, i - 1);
        assert(t[i - 1] == s[i]);
        assert forall|j: int| 0 <= j < i implies s[j].0 != k by {
            if j > 0 {
                assert(t[j - 1] == s[j]);
            }
        }
    }
}

pub proof fn lemma_key_idx_first<A>(s: Seq<(u64, A)>, k: u64, j: int)
    requires
        0 <= j < s.len(),
        s[j].0 == k,
    ensures
        key_idx(s, k) is Some,
    decreases s.len(),
{
    if s[0].0 != k {
        let t = s.subrange(1, s.len() as int);
        assert(t[j - 1] == s[j]);
        lemma_key_idx_first(t, k, j - 1);
    }
}

/// The registry: the type-keyed component and service stores, the
/// initialization driver, and the request router.
pub struct AxorContext<A> {
    agents: Vec<(u64, A)>,
    services: Vec<(u64, A)>,
}

impl<A> View for AxorContext<A> {
    type V = ContextView<A>;

    closed spec fn view(&self) -> ContextView<A> {
        ContextView { agents: self.agents@, services: entries_map(self.services@) }
    }
}

impl<A> ContextView<A> {
    /// Well-formed view: agent keys are unique, and every stored component
    /// carries the key it is stored under.
    pub open spec fn wf(self) -> bool
        where A: Agent
    {
        &&& unique_keys(self.agents)
        &&& forall|i: int|
            0 <= i < self.agents.len() ==> (#[trigger] self.agents[i]).1.key_spec()
                == self.agents[i].0
        &&& forall|k: u64|
            self.services.contains_key(k) ==> (#[trigger] self.services[k]).key_spec() == k
    }
}

impl<A: Agent> ContextView<A> {
    /// Registration: the component is stored under its key in both stores.
    pub open spec fn register_t(self, c: A) -> ContextView<A> {
        ContextView {
            agents: upsert_seq(self.agents, c.key_spec(), c),
            services: self.services.insert(c.key_spec(), c),
        }
    }

    /// Service registration: the value is stored under its key in the
    /// service store only.
    pub open spec fn register_service_t(self, c: A) -> ContextView<A> {
        ContextView { agents: self.agents, services: self.services.insert(c.key_spec(), c) }
    }

    /// The initialization pass: every agent is wired against the
    /// pre-initialization service map, and the service store is updated with
    /// the wired agents.
    pub open spec fn init_t(self) -> ContextView<A> {
        let m = self.services;
        let wired = self.agents.map_values(|p: (u64, A)| (p.0, p.1.wired_spec(m)));
        ContextView { agents: wired, services: self.services.union_prefer_right(entries_map(wired)) }
    }
}

/// Finds the first entry stored under `k`.
fn find_key<A>(v: &Vec<(u64, A)>, k: u64) -> (r: Option<usize>)
    ensures
        match r {
            Some(i) => i < v@.len() && v@[i as int].0 == k && (forall|j: int|
                0 <= j < i ==> v@[j].0 != k),
            None => forall|j: int| 0 <= j < v@.len() ==> v@[j].0 != k,
        },
{
    let n = v.len();
    let mut i: usize = 0;
    while i < n
        invariant
            i <= n,
            n == v@.len(),
            forall|j: int| 0 <= j < i ==> v@[j].0 != k,
        decreases n - i,
    {
        if v[i].0 == k {
            return Some(i);
        }
        i += 1;
    }
    None
}

/// Stores `a` under `k`, replacing the entry already under `k` if any.
fn upsert<A>(v: &mut Vec<(u64, A)>, k: u64, a: A)
    ensures
        final(v)@ == upsert_seq(old(v)@, k, a),
{
    match find_key(v, k) {
        Some(i) => {
            proof {
                lemma_key_idx_witness(v@, k, i as int);
            }
            v[i] = (k, a);
        },
        None => {
            proof {
                lemma_key_idx_none(v@, k);
            }
            v.push((k, a));
        },
    }
}

impl<A> AxorContext<A> {
    /// Both stores keep at most one entry per key. This much holds of every
    /// registry and is what the key-based lookups rely on.
    pub closed spec fn stores_unique(&self) -> bool {
        &&& unique_keys(self.agents@)
        &&& unique_keys(self.services@)
    }

    /// The service store, as a map from type key to stored value.
    pub open spec fn services_map(&self) -> Map<u64, A> {
        self@.services
    }

    /// The agent store, as a map from type key to stored component.
    pub open spec fn agents_map(&self) -> Map<u64, A> {
        entries_map(self@.agents)
    }

    /// Looks a component up by type key in the agent store.
    pub fn get(&self, key: u64) -> (r: Option<&A>)
        requires
            self.stores_unique(),
        ensures
            match r {
                Some(a) => self.agents_map().contains_key(key) && *a == self.agents_map()[key],
                None => !self.agents_map().contains_key(key),
            },
    {
        match find_key(&self.agents, key) {
            Some(i) => {
                proof {
                    lemma_entries_map_value(self@.agents, key, i as int);
                }
                Some(&self.agents[i].1)
            },
            None => {
                proof {
                    lemma_entries_map_contains(self@.agents, key);
                }
                None
            },
        }
    }

    /// Looks a service up by type key in the service store.
    pub fn get_service(&self, key: u64) -> (r: Option<&A>)
        requires
            self.stores_unique(),
        ensures
            match r {
                Some(a) => self.services_map().contains_key(key) && *a
                    == self.services_map()[key],
                None => !self.services_map().contains_key(key),
            },
    {
        match find_key(&self.services, key) {
            Some(i) => {
                proof {
                    lemma_entries_map_value(self.services@, key, i as int);
                }
                Some(&self.services[i].1)
            },
            None => {
                proof {
                    lemma_entries_map_contains(self.services@, key);
                }
                None
            },
        }
    }

    /// Resolves a service by type key. A missing service is a wiring defect,
    /// excluded by precondition; an unverified caller that ignores it halts
    /// here.
    pub fn resolve(&self, key: u64) -> (r: &A)
        requires
            self.stores_unique(),
            self.services_map().contains_key(key),
        ensures
            *r == self.services_map()[key],
    {
        match self.get_service(key) {
            Some(a) => a,
            None => vstd::pervasive::unreached(),
        }
    }
}

impl<A: Agent> AxorContext<A> {
    /// Well-formedness: the stores keep one entry per key, the view is well
    /// formed, and every stored service carries the key it is stored under.
    pub closed spec fn wf(&self) -> bool {
        &&& self.stores_unique()
        &&& self@.wf()
        &&& forall|i: int|
            0 <= i < self.services@.len() ==> (#[trigger] self.services@[i]).1.key_spec()
                == self.services@[i].0
    }

    /// What well-formedness guarantees to callers outside this module: the
    /// stores keep one entry per key and the view is well formed, so the
    /// key-based lookups and the view-level laws apply.
    pub proof fn lemma_wf_view(&self)
        requires
            self.wf(),
        ensures
            self.stores_unique(),
            self@.wf(),
    {
    }

    /// An empty registry.
    pub fn new() -> (r: AxorContext<A>)
        ensures
            r.wf(),
            r@.agents == Seq::<(u64, A)>::empty(),
            r@.services == Map::<u64, A>::empty(),
    {
        AxorContext { agents: Vec::new(), services: Vec::new() }
    }

    /// Registers a component: it becomes routable under its display name and
    /// resolvable as a service under its type key. Re-registering a key
    /// silently replaces the previous entry (last write wins); handles
    /// resolved before the replacement keep the old value.
    pub fn register(&mut self, component: A)
        requires
            old(self).wf(),
        ensures
            final(self).wf(),
            final(self)@ == old(self)@.register_t(component),
    {
        let key = component.type_key();
        let copy = component.dup();
        upsert(&mut self.services, key, copy);
        upsert(&mut self.agents, key, component);
        proof {
            lemma_upsert_entries(old(self).services@, key, component);
            lemma_upsert_entries(old(self).agents@, key, component);
            assert(self@.agents =~= old(self)@.register_t(component).agents);
            assert(self@.services =~= old(self)@.register_t(component).services);
        }
    }

    /// Registers a plain service: resolvable by type key only, never routed
    /// by name. Last write wins per key.
    pub fn register_service(&mut self, service: A)
        requires
            old(self).wf(),
        ensures
            final(self).wf(),
            final(self)@ == old(self)@.register_service_t(service),
    {
        let key = service.type_key();
        upsert(&mut self.services, key, service);
        proof {
            lemma_upsert_entries(old(self).services@, key, service);
            assert(self@.services =~= old(self)@.register_service_t(service).services);
        }
    }

    /// The initialization pass: wires every registered component exactly
    /// once, in store order, each against the pre-initialization snapshot of
    /// the registry, and stores the wired components in both stores. Every
    /// service key any component's injection hook reads must already be
    /// registered: a missing one is a wiring defect surfaced at startup, not
    /// on first use. Running the pass again re-wires idempotently.
    pub fn init(&mut self)
        requires
            old(self).wf(),
            forall|i: int, k: u64|
                0 <= i < old(self)@.agents.len() && #[trigger] old(self)@.agents[i].1.deps_spec().contains(k)
                    ==> old(self)@.services.contains_key(k),
        ensures
            final(self).wf(),
            final(self)@ == old(self)@.init_t(),
    {
        let snapshot = AxorContext {
            agents: dup_entries(&self.agents),
            services: dup_entries(&self.services),
        };
        let ghost m = old(self)@.services;
        let n = self.agents.len();
        let mut idx: usize = 0;
        while idx < n
            invariant
                idx <= n,
                n == self@.agents.len(),
                n == old(self)@.agents.len(),
                snapshot@ == old(self)@,
                snapshot.wf(),
                old(self).wf(),
                m == old(self)@.services,
                forall|i: int, k: u64|
                    0 <= i < old(self)@.agents.len() && #[trigger] old(self)@.agents[i].1.deps_spec().contains(k)
                        ==> old(self)@.services.contains_key(k),
                forall|j: int| idx <= j < n ==> self@.agents[j] == old(self)@.agents[j],
                forall|j: int|
                    0 <= j < idx ==> self@.agents[j] == (old(self)@.agents[j].0, old(
                        self,
                    )@.agents[j].1.wired_spec(m)),
                unique_keys(self.services@),
                forall|i2: int|
                    0 <= i2 < self.services@.len() ==> (#[trigger] self.services@[i2]).1.key_spec()
                        == self.services@[i2].0,
                self@.services == m.union_prefer_right(entries_map(self@.agents.take(idx as int))),
            decreases n - idx,
        {
            let key = self.agents[idx].0;
            let ghost head_agents = self@.agents;
            let ghost prev_services = self.services@;
            let mut comp = self.agents[idx].1.dup();
            proof {
                assert forall|k: u64| comp.deps_spec().contains(k) implies snapshot.services_map().contains_key(k) by {
                    assert(old(self)@.agents[idx as int].1.deps_spec().contains(k));
                }
            }
            comp.inject_dependencies(&snapshot);
            proof {
                assert forall|k: u64| old(self)@.agents[idx as int].1.deps_spec().contains(k) implies m.contains_key(k) by {
                    assert(0 <= idx < old(self)@.agents.len());
                }
                old(self)@.agents[idx as int].1.lemma_wired(m);
            }
            let copy = comp.dup();
            self.agents[idx] = (key, comp);
            upsert(&mut self.services, key, copy);
            proof {
                lemma_upsert_entries(prev_services, key, copy);
                assert(head_agents.take(idx as int) =~= self@.agents.take(idx as int));
                assert(self@.agents.take(idx + 1 as int).drop_last() =~= self@.agents.take(
                    idx as int,
                ));
                assert(self@.agents.take(idx + 1 as int).last() == (key, comp));
                assert(entries_map(self@.agents.take(idx + 1 as int)) == entries_map(
                    self@.agents.take(idx as int),
                ).insert(key, copy));
                assert(m.union_prefer_right(entries_map(self@.agents.take(idx as int))).insert(
                    key,
                    copy,
                ) =~= m.union_prefer_right(
                    entries_map(self@.agents.take(idx as int)).insert(key, copy),
                ));
                assert(self@.services =~= m.union_prefer_right(
                    entries_map(self@.agents.take(idx + 1 as int)),
                ));
            }
            idx += 1;
        }
        proof {
            let wired = old(self)@.agents.map_values(
                |p: (u64, A)| (p.0, p.1.wired_spec(m)),
            );
            assert(self@.agents =~= wired);
            assert(self@.agents.take(n as int) =~= self@.agents);
            assert(final(self)@ == old(self)@.init_t());
            assert forall|j: int| 0 <= j < n implies (#[trigger] self@.agents[j]).1.key_spec()
                == self@.agents[j].0 by {
                old(self)@.agents[j].1.lemma_wired(m);
            }
            lemma_entries_map_consistent(self.services@);
            assert(final(self).wf());
        }
    }

    /// Routes a request: splits the name at its first separator, scans the
    /// agent store in order for a component whose display name equals the
    /// component part, and dispatches to the first match. A name with no
    /// separator, an empty operation part or an unknown component yields a
    /// failure envelope echoing the raw name; those requests come from
    /// untrusted callers and never panic.
    pub fn invoke(&self, payload: Payload) -> (r: InvokeResult)
        requires
            self.wf(),
            route_ok(self@, payload.name@),
        ensures
            ({
                let nm = payload.name@;
                if has_dot(nm) && op_part(nm).len() > 0 {
                    match route_idx(self@.agents, comp_part(nm)) {
                        Some(i) => {
                            &&& r.operation@ == nm
                            &&& r.success == self@.agents[i].1.dispatch_success(nm, payload.data)
                            &&& match self@.agents[i].1.dispatch_data(nm, payload.data) {
                                Some(s) => r.data matches Some(v) && string_content(v) == Some(s),
                                None => r.data is None,
                            }
                        },
                        None => r.operation@ == nm && !r.success && r.data is None,
                    }
                } else {
                    r.operation@ == nm && !r.success && r.data is None
                }
            }),
    {
        let sep = match find_dot(payload.name.as_str()) {
            Some(i) => i,
            None => {
                return InvokeResult { operation: payload.name, success: false, data: None };
            },
        };
        let n = payload.name.as_str().unicode_len();
        if sep + 1 == n {
            return InvokeResult { operation: payload.name, success: false, data: None };
        }
        let comp = payload.name.as_str().substring_char(0, sep);
        let m = self.agents.len();
        let mut j: usize = 0;
        while j < m
            invariant
                j <= m,
                m == self@.agents.len(),
                self.wf(),
                route_ok(self@, payload.name@),
                has_dot(payload.name@),
                first_dot(payload.name@) == sep as int,
                sep < payload.name@.len(),
                sep + 1 < payload.name@.len(),
                op_part(payload.name@).len() > 0,
                comp@ == comp_part(payload.name@),
                forall|t: int| 0 <= t < j ==> (#[trigger] self@.agents[t]).1.name_spec() != comp@,
            decreases m - j,
        {
            let aname = self.agents[j].1.name();
            if str_eq(aname, comp) {
                proof {
                    lemma_route_idx_witness(self@.agents, comp@, j as int);
                }
                return self.agents[j].1.call_operation(&payload);
            }
            j += 1;
        }
        proof {
            lemma_route_idx_none(self@.agents, comp@);
        }
        InvokeResult { operation: payload.name, success: false, data: None }
    }

    /// A serializable listing of every registered component's display name
    /// and declared operations, reflecting registration state at call time.
    pub fn manifest(&self) -> (r: Vec<ManifestEntry>)
        ensures
            r@.len() == self@.agents.len(),
            forall|i: int|
                0 <= i < r@.len() ==> (#[trigger] r@[i]).name@ == self@.agents[i].1.name_spec()
                    && r@[i].operations@.map_values(|d: OperationDescriptor| d.name@)
                    == self@.agents[i].1.ops_spec(),
    {
        let mut r: Vec<ManifestEntry> = Vec::new();
        let n = self.agents.len();
        let mut i: usize = 0;
        while i < n
            invariant
                i <= n,
                n == self@.agents.len(),
                r@.len() == i,
                forall|t: int|
                    0 <= t < i ==> (#[trigger] r@[t]).name@ == self@.agents[t].1.name_spec()
                        && r@[t].operations@.map_values(|d: OperationDescriptor| d.name@)
                        == self@.agents[t].1.ops_spec(),
            decreases n - i,
        {
            let name = self.agents[i].1.name().to_owned();
            let operations = self.agents[i].1.operations();
            r.push(ManifestEntry { name, operations });
            i += 1;
        }
        r
    }
}

/// One entry of the registry's introspection manifest.
#[derive(Debug, Clone)]
pub struct ManifestEntry {
    pub name: String,
    pub operations: Vec<OperationDescriptor>,
}

/// First agent in store order whose display name equals the component part
/// of a request.
pub open spec fn route_idx<A: Agent>(s: Seq<(u64, A)>, comp: Seq<char>) -> Option<int>
    decreases s.len(),
{
    if s.len() == 0 {
        None
    } else if s[0].1.name_spec() == comp {
        Some(0)
    } else {
        match route_idx(s.subrange(1, s.len() as int), comp) {
            Some(i) => Some(i + 1),
            None => None,
        }
    }
}

pub proof fn lemma_route_idx_witness<A: Agent>(s: Seq<(u64, A)>, comp: Seq<char>, i: int)
    requires
        0 <= i < s.len(),
        s[i].1.name_spec() == comp,
        forall|j: int| 0 <= j < i ==> (#[trigger] s[j]).1.name_spec() != comp,
    ensures
        route_idx(s, comp) == Some(i),
    decreases s.len(),
{
    if i > 0 {
        let t = s.subrange(1, s.len() as int);
        assert(t[i - 1] == s[i]);
        assert forall|j: int| 0 <= j < i - 1 implies (#[trigger] t[j]).1.name_spec() != comp by {
            assert(t[j] == s[j + 1]);
        }
        lemma_route_idx_witness(t, comp, i - 1);
    }
}

pub proof fn lemma_route_idx_none<A: Agent>(s: Seq<(u64, A)>, comp: Seq<char>)
    requires
        forall|j: int| 0 <= j < s.len() ==> (#[trigger] s[j]).1.name_spec() != comp,
    ensures
        route_idx(s, comp) is None,
    decreases s.len(),
{
    if s.len() > 0 {
        let t = s.subrange(1, s.len() as int);
        assert forall|j: int| 0 <= j < t.len() implies (#[trigger] t[j]).1.name_spec() != comp by {
            assert(t[j] == s[j + 1]);
        }
        lemma_route_idx_none(t, comp);
    }
}

/// Whatever component the request would route to is ready. Invoking an
/// operation whose component still has unbound slots is a latent wiring
/// defect, excluded by this precondition of `invoke`.
pub open spec fn route_ok<A: Agent>(v: ContextView<A>, name: Seq<char>) -> bool {
    has_dot(name) && op_part(name).len() > 0 ==> match route_idx(v.agents, comp_part(name)) {
        Some(i) => v.agents[i].1.ready(),
        None => true,
    }
}

pub proof fn lemma_route_idx_bounds<A: Agent>(s: Seq<(u64, A)>, comp: Seq<char>, i: int)
    requires
        route_idx(s, comp) == Some(i),
    ensures
        0 <= i < s.len(),
        s[i].1.name_spec() == comp,
    decreases s.len(),
{
    if s.len() > 0 && s[0].1.name_spec() != comp {
        let t = s.subrange(1, s.len() as int);
        lemma_route_idx_bounds(t, comp, i - 1);
        assert(t[i - 1] == s[i]);
    }
}

/// When every registered component is ready — as the initialization pass
/// leaves them — routing any request at all is safe.
pub proof fn lemma_all_ready_route_ok<A: Agent>(v: ContextView<A>, name: Seq<char>)
    requires
        forall|i: int| 0 <= i < v.agents.len() ==> (#[trigger] v.agents[i]).1.ready(),
    ensures
        route_ok(v, name),
{
    if has_dot(name) && op_part(name).len() > 0 {
        match route_idx(v.agents, comp_part(name)) {
            Some(i) => {
                lemma_route_idx_bounds(v.agents, comp_part(name), i);
            },
            None => {},
        }
    }
}

pub proof fn lemma_entries_map_consistent<A: Agent>(s: Seq<(u64, A)>)
    requires
        unique_keys(s),
        forall|i: int| 0 <= i < s.len() ==> (#[trigger] s[i]).1.key_spec() == s[i].0,
    ensures
        forall|k: u64|
            entries_map(s).contains_key(k) ==> (#[trigger] entries_map(s)[k]).key_spec() == k,
{
    assert forall|k: u64| entries_map(s).contains_key(k) implies (#[trigger] entries_map(s)[k]).key_spec()
        == k by {
        lemma_entries_map_contains(s, k);
        let j = choose|j: int| 0 <= j < s.len() && s[j].0 == k;
        lemma_entries_map_value(s, k, j);
    }
}

/// Registration stores the component under its key in both stores, keeps the
/// registry well formed, and leaves every other key's entry unchanged.
pub proof fn lemma_register_props<A: Agent>(v: ContextView<A>, c: A)
    requires
        v.wf(),
    ensures
        v.register_t(c).wf(),
        entries_map(v.register_t(c).agents) == entries_map(v.agents).insert(c.key_spec(), c),
        v.register_t(c).services == v.services.insert(c.key_spec(), c),
{
    lemma_upsert_entries(v.agents, c.key_spec(), c);
}

/// Uniqueness: registrations under one key are last-write-wins. After
/// registering `c1` and then `c2` under the same key, both lookups yield
/// `c2`; repeated registration never duplicates an entry.
pub proof fn lemma_register_last_wins<A: Agent>(v: ContextView<A>, c1: A, c2: A)
    requires
        v.wf(),
        c1.key_spec() == c2.key_spec(),
    ensures
        v.register_t(c1).register_t(c2).wf(),
        entries_map(v.register_t(c1).register_t(c2).agents).contains_key(c2.key_spec()),
        entries_map(v.register_t(c1).register_t(c2).agents)[c2.key_spec()] == c2,
        v.register_t(c1).register_t(c2).services.contains_key(c2.key_spec()),
        v.register_t(c1).register_t(c2).services[c2.key_spec()] == c2,
        v.register_t(c1).register_t(c2).agents.len() == v.register_t(c1).agents.len(),
{
    lemma_register_props(v, c1);
    lemma_register_props(v.register_t(c1), c2);
    lemma_upsert_entries(v.register_t(c1).agents, c2.key_spec(), c2);
    lemma_entries_map_contains(v.register_t(c1).register_t(c2).agents, c2.key_spec());
    let u1 = v.register_t(c1).agents;
    lemma_entries_map_contains(u1, c2.key_spec());
    assert(entries_map(u1).contains_key(c2.key_spec()));
    assert(exists|j: int| 0 <= j < u1.len() && u1[j].0 == c2.key_spec());
    let j = choose|j: int| 0 <= j < u1.len() && u1[j].0 == c2.key_spec();
    lemma_key_idx_first(u1, c2.key_spec(), j);
    assert(key_idx(u1, c2.key_spec()) is Some);
    let ii = key_idx(u1, c2.key_spec())->0;
    lemma_key_idx_bounds(u1, c2.key_spec(), ii);
    assert(upsert_seq(u1, c2.key_spec(), c2) == u1.update(ii, (c2.key_spec(), c2)));
    assert(v.register_t(c1).register_t(c2).agents == upsert_seq(u1, c2.key_spec(), c2));
}

/// Two-phase safety: after the initialization pass every registered
/// component is wired against the pre-initialization service map — in
/// particular every dependency slot its operations read is bound — and the
/// registry is still well formed, with the same keys and display names.
pub proof fn lemma_init_ready<A: Agent>(v: ContextView<A>)
    requires
        v.wf(),
        forall|i: int, k: u64|
            0 <= i < v.agents.len() && #[trigger] v.agents[i].1.deps_spec().contains(k)
                ==> v.services.contains_key(k),
    ensures
        v.init_t().wf(),
        v.init_t().agents.len() == v.agents.len(),
        forall|i: int|
            0 <= i < v.agents.len() ==> (#[trigger] v.init_t().agents[i]) == (
                v.agents[i].0,
                v.agents[i].1.wired_spec(v.services),
            ),
        forall|i: int| 0 <= i < v.agents.len() ==> (#[trigger] v.init_t().agents[i]).1.ready(),
        forall|i: int|
            0 <= i < v.agents.len() ==> (#[trigger] v.init_t().agents[i]).1.name_spec()
                == v.agents[i].1.name_spec(),
        forall|k: u64| v.services.contains_key(k) ==> v.init_t().services.contains_key(k),
{
    let m = v.services;
    let w = v.init_t();
    assert forall|i: int| 0 <= i < v.agents.len() implies ((#[trigger] w.agents[i]) == (
        v.agents[i].0,
        v.agents[i].1.wired_spec(m),
    ) && w.agents[i].1.ready() && w.agents[i].1.name_spec() == v.agents[i].1.name_spec()
        && w.agents[i].1.key_spec() == v.agents[i].0) by {
        assert forall|k: u64| v.agents[i].1.deps_spec().contains(k) implies m.contains_key(k) by {}
        v.agents[i].1.lemma_wired(m);
    }
    lemma_entries_map_consistent(w.agents);
    assert forall|k: u64| w.services.contains_key(k) implies (#[trigger] w.services[k]).key_spec()
        == k by {
        if entries_map(w.agents).contains_key(k) {
        } else {
        }
    }
}

/// Idempotent re-initialization: a second initialization pass leaves every
/// component wired — each dependency slot bound to the service now stored
/// under its key — with the same keys and entry count as one pass; nothing
/// is duplicated or corrupted.
pub proof fn lemma_init_idempotent<A: Agent>(v: ContextView<A>)
    requires
        v.wf(),
        forall|i: int, k: u64|
            0 <= i < v.agents.len() && #[trigger] v.agents[i].1.deps_spec().contains(k)
                ==> v.services.contains_key(k),
    ensures
        v.init_t().init_t().agents.len() == v.agents.len(),
        forall|i: int|
            0 <= i < v.agents.len() ==> (#[trigger] v.init_t().init_t().agents[i]) == (
                v.agents[i].0,
                v.agents[i].1.wired_spec(v.init_t().services),
            ),
        forall|i: int|
            0 <= i < v.agents.len() ==> (#[trigger] v.init_t().init_t().agents[i]).1.ready(),
{
    lemma_init_ready(v);
    let v1 = v.init_t();
    assert forall|i: int, k: u64|
        0 <= i < v1.agents.len() && #[trigger] v1.agents[i].1.deps_spec().contains(k) implies
        v1.services.contains_key(k) by {
        assert forall|k2: u64| v.agents[i].1.deps_spec().contains(k2) implies v.services.contains_key(
            k2,
        ) by {}
        v.agents[i].1.lemma_wired(v.services);
    }
    lemma_init_ready(v1);
    assert forall|i: int| 0 <= i < v.agents.len() implies (#[trigger] v.init_t().init_t().agents[i])
        == (v.agents[i].0, v.agents[i].1.wired_spec(v1.services)) by {
        assert forall|k: u64| v.agents[i].1.deps_spec().contains(k) implies v.services.contains_key(
            k,
        ) by {}
        v.agents[i].1.lemma_wired(v.services);
        v.agents[i].1.lemma_rewire(v.services, v1.services);
        assert(v1.agents[i].1 == v.agents[i].1.wired_spec(v.services));
    }
}

/// Duplicates an association list entry-wise.
fn dup_entries<A: Dup>(v: &Vec<(u64, A)>) -> (r: Vec<(u64, A)>)
    ensures
        r@ == v@,
{
    let mut r: Vec<(u64, A)> = Vec::new();
    let n = v.len();
    let mut i: usize = 0;
    while i < n
        invariant
            i <= n,
            n == v@.len(),
            r@.len() == i,
            forall|j: int| 0 <= j < i ==> r@[j] == v@[j],
        decreases n - i,
    {
        let key = v[i].0;
        let a = v[i].1.dup();
        r.push((key, a));
        i += 1;
    }
    proof {
        assert(r@ =~= v@);
    }
    r
}

} // verus!
