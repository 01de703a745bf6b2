//! A verified core for a streaming LLM chat client.
//!
//! The library holds the logic of the client: the conversation log and its
//! message types, the persona registry, the request-body serializer, the
//! SSE frame decoder that turns arbitrarily chunked response bytes into
//! ordered text deltas, and the turn orchestrator that keeps the
//! conversation consistent across successful and failed turns. I/O (the
//! terminal loop and the HTTP transport) lives outside the library and
//! hands it plain values.

pub mod agent;
pub mod chat;
pub mod cli;
pub mod client;
pub mod data;
pub mod error;
pub mod request;
pub mod sse;
pub mod text;
pub mod turn;

pub use agent::Agent;
pub use agent::AgentManager;
pub use chat::ChatSession;
pub use cli::Cli;
pub use cli::Commands;
pub use client::LlmClient;
pub use data::ChatConversation;
pub use data::ChatMessage;
pub use data::MessageRole;
pub use error::AppError;
pub use sse::SseDecoder;
pub use turn::Turn;
