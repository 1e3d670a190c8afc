//! LLM providers: the provider-neutral types and error classification.
pub mod types;
pub mod openai_compat;
pub mod anthropic;
