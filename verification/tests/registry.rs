use axor::samples::HELLO_AGENT_KEY;
use axor::samples::PRINT_AGENT_KEY;
use axor::samples::WORKFLOW_AGENT_KEY;
use axor::Agent;
use axor::AxorContext;
use axor::HelloAgent;
use axor::Payload;
use axor::PrintAgent;
use axor::SampleAgent;
use axor::WorkflowAgent;
use serde_json::Value;

#[test]
fn hello_world_no_macros() {
    let mut context = AxorContext::new();

    context.register(SampleAgent::Hello(HelloAgent {}));
    context.register(SampleAgent::Print(PrintAgent {}));
    context.register(SampleAgent::Workflow(WorkflowAgent::default()));

    context.init();

    // Direct invocation with type safety
    let result = match context.resolve(WORKFLOW_AGENT_KEY) {
        SampleAgent::Workflow(w) => w.run(),
        _ => panic!("wrong component under the workflow key"),
    };

    assert_eq!(result, "Hello, world!");

    println!();
    // Payload invoke from runtimes web, wasm, cli...
    let payload = Payload::with_data(
        "PrintAgent.print_message",
        Value::String("test".to_string()),
    );
    let response = context.invoke(payload);
    println!("Response : {:?}", response);
    assert!(response.success);

    let payload = Payload::new("HelloAgent.hello");
    let response = context.invoke(payload);
    println!("Response : {:?}", response);
    assert!(response.success);
}

#[test]
fn register_twice_last_wins() {
    // The second registration under a key replaces the first.
    let mut context = AxorContext::new();
    let mut wired = WorkflowAgent::default();
    wired.hello.inject(HelloAgent {});
    wired.print.inject(PrintAgent {});
    context.register(SampleAgent::Workflow(wired));
    context.register(SampleAgent::Workflow(WorkflowAgent::default()));
    match context.get(WORKFLOW_AGENT_KEY) {
        Some(SampleAgent::Workflow(w)) => {
            assert!(!w.hello.is_bound());
            assert!(!w.print.is_bound());
        },
        _ => panic!("workflow not registered"),
    }

    let mut context = AxorContext::new();
    context.register(SampleAgent::Workflow(WorkflowAgent::default()));
    let mut wired = WorkflowAgent::default();
    wired.hello.inject(HelloAgent {});
    wired.print.inject(PrintAgent {});
    context.register(SampleAgent::Workflow(wired));
    match context.get(WORKFLOW_AGENT_KEY) {
        Some(SampleAgent::Workflow(w)) => {
            assert!(w.hello.is_bound());
            assert!(w.print.is_bound());
        },
        _ => panic!("workflow not registered"),
    }
}

#[test]
fn initialize_binds_slots() {
    let mut context = AxorContext::new();
    context.register(SampleAgent::Hello(HelloAgent {}));
    context.register(SampleAgent::Print(PrintAgent {}));
    context.register(SampleAgent::Workflow(WorkflowAgent::default()));

    // Before the initialization pass the workflow's slots are unbound.
    match context.get(WORKFLOW_AGENT_KEY) {
        Some(agent) => {
            assert!(!agent.is_ready());
            match agent {
                SampleAgent::Workflow(w) => {
                    assert!(!w.hello.is_bound());
                    assert!(!w.print.is_bound());
                },
                _ => panic!("wrong component under the workflow key"),
            }
        },
        _ => panic!("workflow not registered"),
    }

    context.init();

    // Afterwards they are bound, and the dependent operation succeeds.
    let agent = context.resolve(WORKFLOW_AGENT_KEY);
    assert!(agent.is_ready());
    match agent {
        SampleAgent::Workflow(w) => {
            assert!(w.hello.is_bound());
            assert!(w.print.is_bound());
            assert_eq!(w.run(), "Hello, world!");
        },
        _ => panic!("wrong component under the workflow key"),
    }

    let response = context.invoke(Payload::new("WorkflowAgent.run"));
    assert!(response.success);
    assert_eq!(response.data, Some(Value::String("Hello, world!".to_string())));
}

#[test]
fn reinitialize_is_idempotent() {
    let mut context = AxorContext::new();
    context.register(SampleAgent::Hello(HelloAgent {}));
    context.register(SampleAgent::Print(PrintAgent {}));
    context.register(SampleAgent::Workflow(WorkflowAgent::default()));

    context.init();
    context.init();

    assert_eq!(context.manifest().len(), 3);
    match context.resolve(WORKFLOW_AGENT_KEY) {
        SampleAgent::Workflow(w) => {
            assert!(w.hello.is_bound());
            assert!(w.print.is_bound());
            assert_eq!(w.run(), "Hello, world!");
        },
        _ => panic!("wrong component under the workflow key"),
    }
    let response = context.invoke(Payload::new("HelloAgent.hello"));
    assert!(response.success);
}

#[test]
fn invoke_routes_to_component() {
    let mut context = AxorContext::new();
    context.register(SampleAgent::Hello(HelloAgent {}));
    context.register(SampleAgent::Print(PrintAgent {}));
    context.init();

    let response = context.invoke(Payload::new("HelloAgent.hello"));
    assert_eq!(response.operation, "HelloAgent.hello");
    assert!(response.success);
    assert_eq!(response.data, Some(Value::String("Hello, world!".to_string())));

    let response = context.invoke(Payload::with_data(
        "PrintAgent.print_message",
        Value::String("test".to_string()),
    ));
    assert_eq!(response.operation, "PrintAgent.print_message");
    assert!(response.success);
    assert_eq!(response.data, None);
}

#[test]
fn invoke_without_separator_fails() {
    let mut context = AxorContext::new();
    context.register(SampleAgent::Hello(HelloAgent {}));
    context.init();

    let response = context.invoke(Payload::new("NoSeparator"));
    assert_eq!(response.operation, "NoSeparator");
    assert!(!response.success);
    assert!(response.data.is_none());
}

#[test]
fn invoke_unknown_component_fails() {
    let mut context = AxorContext::new();
    context.register(SampleAgent::Hello(HelloAgent {}));
    context.init();

    let response = context.invoke(Payload::new("Missing.hello"));
    assert_eq!(response.operation, "Missing.hello");
    assert!(!response.success);
    assert!(response.data.is_none());
}

#[test]
fn invoke_empty_operation_fails() {
    let mut context = AxorContext::new();
    context.register(SampleAgent::Hello(HelloAgent {}));
    context.init();

    let response = context.invoke(Payload::new("HelloAgent."));
    assert_eq!(response.operation, "HelloAgent.");
    assert!(!response.success);
    assert!(response.data.is_none());
}

#[test]
fn invoke_unknown_operation_fails() {
    let mut context = AxorContext::new();
    context.register(SampleAgent::Hello(HelloAgent {}));
    context.init();

    let response = context.invoke(Payload::new("HelloAgent.wave"));
    assert_eq!(response.operation, "HelloAgent.wave");
    assert!(!response.success);
    assert!(response.data.is_none());
}

#[test]
fn invoke_rejects_bad_operation_input() {
    let mut context = AxorContext::new();
    context.register(SampleAgent::Print(PrintAgent {}));
    context.init();

    // The operation expects a string argument: no argument fails...
    let response = context.invoke(Payload::new("PrintAgent.print_message"));
    assert!(!response.success);
    assert!(response.data.is_none());

    // ... and so does an argument of another kind.
    let response = context.invoke(Payload::with_data(
        "PrintAgent.print_message",
        Value::Bool(true),
    ));
    assert!(!response.success);
    assert!(response.data.is_none());
}

#[test]
fn operation_round_trip_matches_direct_call() {
    let mut context = AxorContext::new();
    context.register(SampleAgent::Hello(HelloAgent {}));
    context.init();

    let response = context.invoke(Payload::new("HelloAgent.hello"));
    assert!(response.success);
    let via_dispatch: String = serde_json::from_value(response.data.unwrap()).unwrap();
    let direct = HelloAgent {}.hello();
    assert_eq!(via_dispatch, direct);
}

#[test]
fn services_are_not_routed() {
    // A plain service is resolvable by key but invisible to name routing.
    let mut context = AxorContext::new();
    context.register_service(SampleAgent::Print(PrintAgent {}));
    context.init();

    assert!(context.get_service(PRINT_AGENT_KEY).is_some());
    assert!(context.get(PRINT_AGENT_KEY).is_none());

    let response = context.invoke(Payload::with_data(
        "PrintAgent.print_message",
        Value::String("test".to_string()),
    ));
    assert!(!response.success);
}

#[test]
fn get_distinguishes_registered_keys() {
    let mut context = AxorContext::new();
    context.register(SampleAgent::Hello(HelloAgent {}));

    assert!(context.get(HELLO_AGENT_KEY).is_some());
    assert!(context.get(WORKFLOW_AGENT_KEY).is_none());
    assert!(context.get_service(HELLO_AGENT_KEY).is_some());
    assert!(context.get_service(PRINT_AGENT_KEY).is_none());
}

#[test]
fn manifest_lists_components() {
    let mut context = AxorContext::new();
    context.register(SampleAgent::Hello(HelloAgent {}));
    context.register(SampleAgent::Print(PrintAgent {}));
    context.register(SampleAgent::Workflow(WorkflowAgent::default()));

    let manifest = context.manifest();
    assert_eq!(manifest.len(), 3);
    assert_eq!(manifest[0].name, "HelloAgent");
    assert_eq!(manifest[0].operations.len(), 1);
    assert_eq!(manifest[0].operations[0].name, "hello");
    assert_eq!(manifest[1].name, "PrintAgent");
    assert_eq!(manifest[1].operations[0].name, "print_message");
    assert_eq!(manifest[2].name, "WorkflowAgent");
    assert_eq!(manifest[2].operations[0].name, "run");
}

#[test]
fn resolve_service_binds_a_slot() {
    let mut context = AxorContext::new();
    context.register(SampleAgent::Hello(HelloAgent {}));

    let mut slot: axor::Inject<SampleAgent> = axor::Inject::default();
    assert!(!slot.is_bound());
    slot.resolve_service(&context, HELLO_AGENT_KEY);
    assert!(slot.is_bound());
    match slot.resolve() {
        SampleAgent::Hello(h) => assert_eq!(h.hello(), "Hello, world!"),
        _ => panic!("wrong service under the greeting key"),
    }
}
