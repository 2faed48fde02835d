//! A lightweight in-process component registry and dynamic-invocation runtime.
//!
//! The registry stores application components under integer type keys, drives a
//! two-phase registration/initialization protocol that binds each component's
//! dependency slots, and routes string-named requests of the form
//! `"Component.operation"` to the matching component's operation dispatcher.

pub mod agent;
pub mod codec;
pub mod context;
pub mod inject;
pub mod payload;
pub mod samples;

pub use agent::Agent;
pub use agent::Dup;
pub use agent::InvokeResult;
pub use agent::OperationDescriptor;
pub use codec::decode_str;
pub use codec::encode_str;
pub use context::AxorContext;
pub use context::ContextView;
pub use context::ManifestEntry;
pub use inject::Inject;
pub use payload::Payload;
pub use samples::HelloAgent;
pub use samples::PrintAgent;
pub use samples::SampleAgent;
pub use samples::WorkflowAgent;
