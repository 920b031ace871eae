//! Request dispatch: typed errors for the two request-facing operations, the
//! mapping of a sandbox call's outcome to a typed result, and the trivial
//! protocol-lifecycle replies. Dispatch errors are contained to the single
//! request: the server keeps running.

use vstd::prelude::*;
use vstd::string::StringExecFns;

verus! {

/// Why a tool invocation failed. Carried back to the caller as a typed
/// error, never a crash.
#[derive(Debug)]
pub enum DispatchError {
    /// No loaded plugin routes a tool of the requested name.
    ToolNotFound,
    /// The owning plugin's call entry point reported a failure; carries the
    /// plugin's name and the underlying message for diagnosability.
    ExecutionFailed { plugin: String, message: String },
    /// The plugin replied, but its response did not deserialize into the
    /// expected result shape.
    MalformedResponse { message: String },
}

impl DispatchError {
    /// A human-readable description of the failure carried back to the
    /// caller.
    pub fn message(&self) -> (r: String)
        ensures
            (match self {
                DispatchError::ToolNotFound => r@ == "tool not found"@,
                DispatchError::ExecutionFailed { plugin, message } => r@
                    == "Failed to execute plugin "@ + plugin@ + ": "@ + message@,
                DispatchError::MalformedResponse { message } => r@
                    == "Failed to deserialize data: "@ + message@,
            }),
    {
        match self {
            DispatchError::ToolNotFound => String::from_str("tool not found"),
            DispatchError::ExecutionFailed { plugin, message } => {
                let mut out = String::from_str("Failed to execute plugin ");
                out.append(plugin.as_str());
                out.append(": ");
                out.append(message.as_str());
                out
            },
            DispatchError::MalformedResponse { message } => {
                let mut out = String::from_str("Failed to deserialize data: ");
                out.append(message.as_str());
                out
            },
        }
    }
}

/// What one sandbox call produced, as reported by the surrounding program:
/// a well-formed raw reply, a reply that failed to deserialize, or an
/// execution failure from the sandbox.
#[derive(Debug)]
pub enum CallOutcome {
    Reply { raw: String },
    Malformed { message: String },
    Failed { message: String },
}

/// Maps the outcome of one sandbox call on the owning plugin to the
/// invocation's result: a well-formed reply passes through unchanged, an
/// execution failure becomes a typed error naming the plugin, and a
/// malformed reply becomes a typed deserialization error. Nothing is
/// retried.
pub fn dispatch_outcome(plugin: &String, outcome: CallOutcome) -> (r: Result<String, DispatchError>)
    ensures
        (match outcome {
            CallOutcome::Reply { raw } => r == Ok::<String, DispatchError>(raw),
            CallOutcome::Malformed { message } => r == Err::<String, DispatchError>(
                DispatchError::MalformedResponse { message },
            ),
            CallOutcome::Failed { message } => r == Err::<String, DispatchError>(
                DispatchError::ExecutionFailed { plugin: *plugin, message },
            ),
        }),
{
    match outcome {
        CallOutcome::Reply { raw } => Ok(raw),
        CallOutcome::Malformed { message } => Err(DispatchError::MalformedResponse { message }),
        CallOutcome::Failed { message } => Err(
            DispatchError::ExecutionFailed { plugin: plugin.clone(), message },
        ),
    }
}

/// A protocol-lifecycle request, delivered by the transport layer beside the
/// two real operations.
#[derive(Debug, Clone, Copy, PartialEq, Eq, Structural)]
pub enum LifecycleRequest {
    Initialize,
    Ping,
    Initialized,
    Cancelled,
    Progress,
    Complete,
}

/// The trivial answer to a lifecycle request.
#[derive(Debug, Clone, Copy, PartialEq, Eq, Structural)]
pub enum LifecycleReply {
    /// Answer with the server's identity and capabilities.
    ServerInfo,
    /// Acknowledge with an empty success.
    Ack,
    /// A notification: nothing is sent back.
    NoReply,
    /// The method is not supported.
    MethodNotFound,
}

/// Lifecycle requests are answered trivially and touch no core state:
/// initialization is answered with the server info, a ping with an empty
/// acknowledgment, notifications get no reply, and completion requests are
/// not supported.
pub fn lifecycle_reply(request: &LifecycleRequest) -> (r: LifecycleReply)
    ensures
        r == (match request {
            LifecycleRequest::Initialize => LifecycleReply::ServerInfo,
            LifecycleRequest::Ping => LifecycleReply::Ack,
            LifecycleRequest::Initialized => LifecycleReply::NoReply,
            LifecycleRequest::Cancelled => LifecycleReply::NoReply,
            LifecycleRequest::Progress => LifecycleReply::NoReply,
            LifecycleRequest::Complete => LifecycleReply::MethodNotFound,
        }),
{
    match request {
        LifecycleRequest::Initialize => LifecycleReply::ServerInfo,
        LifecycleRequest::Ping => LifecycleReply::Ack,
        LifecycleRequest::Initialized => LifecycleReply::NoReply,
        LifecycleRequest::Cancelled => LifecycleReply::NoReply,
        LifecycleRequest::Progress => LifecycleReply::NoReply,
        LifecycleRequest::Complete => LifecycleReply::MethodNotFound,
    }
}

} // verus!
