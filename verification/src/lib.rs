pub mod text;
pub mod json;
pub mod tools;
pub mod memory;
pub mod domain;
pub mod ports;
pub mod application;
pub mod paths;
pub mod local_tool_host;
pub mod commands;
pub mod mcp;
pub mod services;
pub mod adapters;
pub mod providers;
pub mod agent;
