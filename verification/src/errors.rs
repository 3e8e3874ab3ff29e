use vstd::prelude::*;

verus! {

/// Errors surfaced by the sidecar bridge to its callers.
#[derive(Debug, Clone, PartialEq, Eq)]
pub enum BridgeError {
    /// The sidecar is not in a state that can accept requests.
    NotReady(String),
    /// The sidecar process died or a channel to it closed.
    Crashed(String),
    /// No response arrived within the given number of milliseconds.
    Timeout(u64),
    /// The sidecar answered with a JSON-RPC error object.
    MalformedResponse(String),
    /// The sidecar process could not be spawned.
    SpawnFailed(String),
}

/// Errors of the framed JSON-RPC wire protocol.
#[derive(Debug, Clone, PartialEq, Eq)]
pub enum ProtocolError {
    /// A structurally invalid JSON-RPC message or header value.
    InvalidJsonRpc(String),
    /// The header block ended without a Content-Length header.
    MissingContentLength,
    /// The body was shorter or longer than the announced length.
    ContentLengthMismatch { expected: usize, actual: usize },
    /// The body was not valid JSON; carries the parser's message.
    JsonParse(String),
}

/// Errors of project-model resolution.
#[derive(Debug, Clone, PartialEq, Eq)]
pub enum ProjectError {
    /// The build tool exited with a failure; carries a description.
    GradleFailed(String),
    /// No build system marker was found under the given root.
    NoBuildSystem(String),
    /// Classpath extraction from the build tool failed.
    ClasspathExtraction(String),
    /// No usable JVM could be discovered.
    JvmNotFound(String),
}

/// Top-level error: one constructor per domain.
#[derive(Debug, Clone, PartialEq, Eq)]
pub enum Error {
    Bridge(BridgeError),
    Protocol(ProtocolError),
    Project(ProjectError),
    /// An operating-system I/O error, carried as its message.
    Io(String),
}

} // verus!
