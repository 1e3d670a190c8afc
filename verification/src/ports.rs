//! Interfaces to models, tools, storage and approval: their errors, events
//! and stream items.
use vstd::prelude::*;
use crate::domain::{ApprovalStatus, TokenUsage, TurnItem};
use crate::text::{append_str, string_from_chars};

verus! {

/// Failure of a model call.
#[derive(Debug, Clone)]
pub enum ModelError {
    ApiError(String),
    NetworkError(String),
    InvalidResponse(String),
    RateLimitExceeded,
    StreamError(String),
}

/// Failure of a tool run.
#[derive(Debug, Clone)]
pub enum ToolError {
    NotFound(String),
    InvalidArguments(String),
    ExecutionFailed(String),
    Timeout,
    PermissionDenied(String),
}

/// Failure of the thread store.
#[derive(Debug, Clone)]
pub enum StoreError {
    NotFound(String),
    DatabaseError(String),
    SerializationError(String),
    Conflict(String),
}

/// How risky a tool call is.
#[derive(Debug, Clone, Copy, PartialEq, Eq, Structural)]
pub enum RiskLevel {
    Low,
    Medium,
    High,
}

/// When tool calls need approval.
#[derive(Debug, Clone, Copy, PartialEq, Eq, Structural)]
pub enum ApprovalPolicy {
    Always,
    Dangerous,
    Never,
}

/// An item of a model's response stream.
#[derive(Debug, Clone)]
pub enum StreamChunk {
    TextDelta { text: String },
    ReasoningDelta { text: String },
    ToolCallStart { id: String, name: String },
    ToolCallArgsDelta { id: String, args_json: String },
    ToolCallComplete { id: String },
    Done { usage: TokenUsage },
}

/// An event of a running turn, published to the thread's subscribers.
#[derive(Debug, Clone)]
pub enum StreamEvent {
    TurnStarted { turn_id: String, model: String },
    TextDelta { text: String },
    ReasoningDelta { text: String },
    ToolCallStarted { id: String, name: String },
    ToolCallArgsDelta { id: String, args_json: String },
    ToolCallComplete { id: String },
    ToolResultReceived { call_id: String, result: String, error: Option<String> },
    ItemAdded { item: TurnItem },
    TurnCompleted { usage: TokenUsage },
    TurnInterrupted,
    Error { code: String, message: String },
    ApprovalRequested { id: String, tool_name: String, prompt: String },
    ApprovalResolved { id: String, status: ApprovalStatus },
}

fn prefixed(prefix: &str, s: &str) -> (r: String)
    ensures
        r@ == prefix@ + s@,
{
    let mut out: Vec<char> = Vec::new();
    append_str(&mut out, prefix);
    append_str(&mut out, s);
    string_from_chars(&out)
}

/// Text of a model error.
pub open spec fn model_error_text(e: ModelError) -> Seq<char> {
    match e {
        ModelError::ApiError(s) => "API error: "@ + s@,
        ModelError::NetworkError(s) => "Network error: "@ + s@,
        ModelError::InvalidResponse(s) => "Invalid response: "@ + s@,
        ModelError::RateLimitExceeded => "Rate limit exceeded"@,
        ModelError::StreamError(s) => "Stream error: "@ + s@,
    }
}

/// Text of a tool error.
pub open spec fn tool_error_text(e: ToolError) -> Seq<char> {
    match e {
        ToolError::NotFound(s) => "Tool not found: "@ + s@,
        ToolError::InvalidArguments(s) => "Invalid arguments: "@ + s@,
        ToolError::ExecutionFailed(s) => "Execution failed: "@ + s@,
        ToolError::Timeout => "Timeout"@,
        ToolError::PermissionDenied(s) => "Permission denied: "@ + s@,
    }
}

/// Text of a store error.
pub open spec fn store_error_text(e: StoreError) -> Seq<char> {
    match e {
        StoreError::NotFound(s) => "Not found: "@ + s@,
        StoreError::DatabaseError(s) => "Database error: "@ + s@,
        StoreError::SerializationError(s) => "Serialization error: "@ + s@,
        StoreError::Conflict(s) => "Conflict: "@ + s@,
    }
}

impl ModelError {
    /// The error's message.
    pub fn to_text(&self) -> (r: String)
        ensures
            r@ == model_error_text(*self),
    {
        match self {
            ModelError::ApiError(s) => prefixed("API error: ", s.as_str()),
            ModelError::NetworkError(s) => prefixed("Network error: ", s.as_str()),
            ModelError::InvalidResponse(s) => prefixed("Invalid response: ", s.as_str()),
            ModelError::RateLimitExceeded => "Rate limit exceeded".to_owned(),
            ModelError::StreamError(s) => prefixed("Stream error: ", s.as_str()),
        }
    }
}

impl ToolError {
    /// The error's message.
    pub fn to_text(&self) -> (r: String)
        ensures
            r@ == tool_error_text(*self),
    {
        match self {
            ToolError::NotFound(s) => prefixed("Tool not found: ", s.as_str()),
            ToolError::InvalidArguments(s) => prefixed("Invalid arguments: ", s.as_str()),
            ToolError::ExecutionFailed(s) => prefixed("Execution failed: ", s.as_str()),
            ToolError::Timeout => "Timeout".to_owned(),
            ToolError::PermissionDenied(s) => prefixed("Permission denied: ", s.as_str()),
        }
    }
}

impl StoreError {
    /// The error's message.
    pub fn to_text(&self) -> (r: String)
        ensures
            r@ == store_error_text(*self),
    {
        match self {
            StoreError::NotFound(s) => prefixed("Not found: ", s.as_str()),
            StoreError::DatabaseError(s) => prefixed("Database error: ", s.as_str()),
            StoreError::SerializationError(s) => prefixed("Serialization error: ", s.as_str()),
            StoreError::Conflict(s) => prefixed("Conflict: ", s.as_str()),
        }
    }
}

} // verus!
