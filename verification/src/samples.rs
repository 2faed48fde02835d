//! Sample components: a greeting agent, a message sink, and a workflow agent
//! that depends on both through dependency slots. They exercise the whole
//! registration/initialization/dispatch protocol and give the component
//! capability its reference implementation.

use crate::agent::Agent;
use crate::agent::Dup;
use crate::agent::InvokeResult;
use crate::agent::OperationDescriptor;
use crate::codec::encode_str;
use crate::codec::string_content;
use crate::context::AxorContext;
use crate::inject::lemma_inject_view;
use crate::inject::Inject;
use crate::payload::op_part;
use crate::payload::str_eq;
use crate::payload::Payload;
use serde_json::Value;
use vstd::prelude::*;

verus! {

/// Type key of `HelloAgent`.
pub const HELLO_AGENT_KEY: u64 = 1;

/// Type key of `PrintAgent`.
pub const PRINT_AGENT_KEY: u64 = 2;

/// Type key of `WorkflowAgent`.
pub const WORKFLOW_AGENT_KEY: u64 = 3;

/// A component with one operation, `hello`, returning a fixed greeting.
pub struct HelloAgent {}

impl HelloAgent {
    /// The greeting operation.
    pub fn hello(&self) -> (r: &'static str)
        ensures
            r@ == "Hello, world!"@,
    {
        "Hello, world!"
    }
}

impl Dup for HelloAgent {
    fn dup(&self) -> (r: Self) {
        HelloAgent {  }
    }
}

/// A component with one operation, `print_message`, taking a string and
/// returning nothing. Delivering the message to an output device is the
/// host's concern, outside this library; the component validates and
/// accepts it.
pub struct PrintAgent {}

impl PrintAgent {
    /// The message sink operation.
    pub fn print_message(&self, message: &str) {
        let _ = message.len();
    }
}

impl Dup for PrintAgent {
    fn dup(&self) -> (r: Self) {
        PrintAgent {  }
    }
}

/// A component that depends on the other two through dependency slots: its
/// `run` operation resolves both, obtains the greeting and hands it to the
/// message sink.
pub struct WorkflowAgent {
    pub hello: Inject<HelloAgent>,
    pub print: Inject<PrintAgent>,
}

impl WorkflowAgent {
    /// Whether both dependency slots are bound.
    pub open spec fn wired(&self) -> bool {
        self.hello@ is Some && self.print@ is Some
    }

    /// Resolves both dependencies, obtains the greeting, hands it to the
    /// message sink and returns it. Running an unwired workflow is a
    /// two-phase protocol violation, excluded by precondition.
    pub fn run(&self) -> (r: &'static str)
        requires
            self.wired(),
        ensures
            r@ == "Hello, world!"@,
    {
        let hello = self.hello.resolve();
        let print_agent = self.print.resolve();
        let message = hello.hello();
        print_agent.print_message(message);
        message
    }
}

impl Default for WorkflowAgent {
    /// A workflow with both slots unbound; they are bound during the
    /// registry's initialization pass.
    fn default() -> (r: Self)
        ensures
            r.hello@ is None,
            r.print@ is None,
    {
        WorkflowAgent { hello: Inject::default(), print: Inject::default() }
    }
}

impl Dup for WorkflowAgent {
    fn dup(&self) -> (r: Self) {
        WorkflowAgent { hello: self.hello.dup(), print: self.print.dup() }
    }
}

/// The sample component universe: one variant per component type, each
/// under its own type key. Extracting a variant after a key-checked lookup
/// is the checked cast at the store's boundary; the registry's
/// well-formedness ties every key to the variant stored under it.
pub enum SampleAgent {
    Hello(HelloAgent),
    Print(PrintAgent),
    Workflow(WorkflowAgent),
}

impl Dup for SampleAgent {
    fn dup(&self) -> (r: Self) {
        match self {
            SampleAgent::Hello(h) => SampleAgent::Hello(h.dup()),
            SampleAgent::Print(p) => SampleAgent::Print(p.dup()),
            SampleAgent::Workflow(w) => SampleAgent::Workflow(w.dup()),
        }
    }
}

impl Agent for SampleAgent {
    open spec fn key_spec(&self) -> u64 {
        match self {
            SampleAgent::Hello(_) => HELLO_AGENT_KEY,
            SampleAgent::Print(_) => PRINT_AGENT_KEY,
            SampleAgent::Workflow(_) => WORKFLOW_AGENT_KEY,
        }
    }

    open spec fn name_spec(&self) -> Seq<char> {
        match self {
            SampleAgent::Hello(_) => "HelloAgent"@,
            SampleAgent::Print(_) => "PrintAgent"@,
            SampleAgent::Workflow(_) => "WorkflowAgent"@,
        }
    }

    open spec fn ops_spec(&self) -> Seq<Seq<char>> {
        match self {
            SampleAgent::Hello(_) => seq!["hello"@],
            SampleAgent::Print(_) => seq!["print_message"@],
            SampleAgent::Workflow(_) => seq!["run"@],
        }
    }

    open spec fn deps_spec(&self) -> Set<u64> {
        match self {
            SampleAgent::Workflow(_) => set![HELLO_AGENT_KEY, PRINT_AGENT_KEY],
            _ => Set::empty(),
        }
    }

    closed spec fn wired_spec(&self, services: Map<u64, Self>) -> Self {
        match self {
            SampleAgent::Workflow(_) => {
                if services.contains_key(HELLO_AGENT_KEY) && services.contains_key(
                    PRINT_AGENT_KEY,
                ) {
                    match (services[HELLO_AGENT_KEY], services[PRINT_AGENT_KEY]) {
                        (SampleAgent::Hello(h), SampleAgent::Print(p)) => SampleAgent::Workflow(
                            (WorkflowAgent {
                                hello: Inject { inner: Some(h) },
                                print: Inject { inner: Some(p) },
                            }),
                        ),
                        _ => *self,
                    }
                } else {
                    *self
                }
            },
            _ => *self,
        }
    }

    open spec fn ready(&self) -> bool {
        match self {
            SampleAgent::Workflow(w) => w.wired(),
            _ => true,
        }
    }

    open spec fn dispatch_success(&self, name: Seq<char>, data: Option<Value>) -> bool {
        match self {
            SampleAgent::Hello(_) => op_part(name) == "hello"@,
            SampleAgent::Print(_) => op_part(name) == "print_message"@ && (data matches Some(v)
                && string_content(v) is Some),
            SampleAgent::Workflow(_) => op_part(name) == "run"@,
        }
    }

    open spec fn dispatch_data(&self, name: Seq<char>, data: Option<Value>) -> Option<Seq<char>> {
        match self {
            SampleAgent::Hello(_) => if op_part(name) == "hello"@ {
                Some("Hello, world!"@)
            } else {
                None
            },
            SampleAgent::Print(_) => None,
            SampleAgent::Workflow(_) => if op_part(name) == "run"@ {
                Some("Hello, world!"@)
            } else {
                None
            },
        }
    }

    fn type_key(&self) -> u64 {
        match self {
            SampleAgent::Hello(_) => HELLO_AGENT_KEY,
            SampleAgent::Print(_) => PRINT_AGENT_KEY,
            SampleAgent::Workflow(_) => WORKFLOW_AGENT_KEY,
        }
    }

    fn name(&self) -> &'static str {
        match self {
            SampleAgent::Hello(_) => "HelloAgent",
            SampleAgent::Print(_) => "PrintAgent",
            SampleAgent::Workflow(_) => "WorkflowAgent",
        }
    }

    fn operations(&self) -> Vec<OperationDescriptor> {
        match self {
            SampleAgent::Hello(_) => {
                let r = vec![OperationDescriptor { name: "hello".to_owned() }];
                proof {
                    assert(r@.map_values(|d: OperationDescriptor| d.name@) =~= self.ops_spec());
                }
                r
            },
            SampleAgent::Print(_) => {
                let r = vec![OperationDescriptor { name: "print_message".to_owned() }];
                proof {
                    assert(r@.map_values(|d: OperationDescriptor| d.name@) =~= self.ops_spec());
                }
                r
            },
            SampleAgent::Workflow(_) => {
                let r = vec![OperationDescriptor { name: "run".to_owned() }];
                proof {
                    assert(r@.map_values(|d: OperationDescriptor| d.name@) =~= self.ops_spec());
                }
                r
            },
        }
    }

    fn is_ready(&self) -> bool {
        match self {
            SampleAgent::Workflow(w) => w.hello.is_bound() && w.print.is_bound(),
            _ => true,
        }
    }

    fn inject_dependencies(&mut self, context: &AxorContext<SampleAgent>) {
        let is_workflow = match &*self {
            SampleAgent::Workflow(_) => true,
            _ => false,
        };
        if is_workflow {
            let h = match context.resolve(HELLO_AGENT_KEY) {
                SampleAgent::Hello(h) => h.dup(),
                _ => vstd::pervasive::unreached(),
            };
            let p = match context.resolve(PRINT_AGENT_KEY) {
                SampleAgent::Print(p) => p.dup(),
                _ => vstd::pervasive::unreached(),
            };
            *self = SampleAgent::Workflow(
                WorkflowAgent { hello: Inject { inner: Some(h) }, print: Inject { inner: Some(p) } },
            );
            proof {
                lemma_inject_view(Inject { inner: Some(h) });
                lemma_inject_view(Inject { inner: Some(p) });
            }
        }
    }

    fn call_operation(&self, payload: &Payload) -> InvokeResult {
        match self {
            SampleAgent::Hello(agent) => {
                let op = payload.op_name_unchecked();
                if str_eq(op, "hello") {
                    let value = encode_str(agent.hello());
                    InvokeResult { operation: payload.name.clone(), success: true, data: Some(value) }
                } else {
                    InvokeResult { operation: payload.name.clone(), success: false, data: None }
                }
            },
            SampleAgent::Print(agent) => {
                let op = payload.op_name_unchecked();
                if str_eq(op, "print_message") {
                    match payload.input_string() {
                        Some(message) => {
                            agent.print_message(message.as_str());
                            InvokeResult {
                                operation: payload.name.clone(),
                                success: true,
                                data: None,
                            }
                        },
                        None => InvokeResult {
                            operation: payload.name.clone(),
                            success: false,
                            data: None,
                        },
                    }
                } else {
                    InvokeResult { operation: payload.name.clone(), success: false, data: None }
                }
            },
            SampleAgent::Workflow(agent) => {
                let op = payload.op_name_unchecked();
                if str_eq(op, "run") {
                    let message = agent.run();
                    let value = encode_str(message);
                    InvokeResult { operation: payload.name.clone(), success: true, data: Some(value) }
                } else {
                    InvokeResult { operation: payload.name.clone(), success: false, data: None }
                }
            },
        }
    }

    proof fn lemma_wired(&self, services: Map<u64, Self>) {
        match self {
            SampleAgent::Workflow(_) => {
                assert(self.deps_spec().contains(HELLO_AGENT_KEY));
                assert(self.deps_spec().contains(PRINT_AGENT_KEY));
                assert(services[HELLO_AGENT_KEY].key_spec() == HELLO_AGENT_KEY);
                assert(services[PRINT_AGENT_KEY].key_spec() == PRINT_AGENT_KEY);
                match (services[HELLO_AGENT_KEY], services[PRINT_AGENT_KEY]) {
                    (SampleAgent::Hello(h), SampleAgent::Print(p)) => {
                        lemma_inject_view(Inject { inner: Some(h) });
                        lemma_inject_view(Inject { inner: Some(p) });
                    },
                    _ => {
                        assert(false);
                    },
                }
            },
            _ => {},
        }
    }

    proof fn lemma_rewire(&self, m1: Map<u64, Self>, m2: Map<u64, Self>) {
        match self {
            SampleAgent::Workflow(_) => {
                assert(self.deps_spec().contains(HELLO_AGENT_KEY));
                assert(self.deps_spec().contains(PRINT_AGENT_KEY));
            },
            _ => {},
        }
    }
}

/// Declared and dispatchable operations agree: a sample component accepts a
/// request only when the request's operation part is among the operations
/// the component declares.
pub proof fn lemma_dispatch_declared(a: SampleAgent, name: Seq<char>, data: Option<Value>)
    requires
        a.dispatch_success(name, data),
    ensures
        a.ops_spec().contains(op_part(name)),
{
    assert(a.ops_spec()[0] == op_part(name));
}

} // verus!
