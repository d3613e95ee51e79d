//! Verified core of the CodeI coding agent.
pub mod text;
pub mod json;
pub mod commands;
pub mod i18n;
pub mod llm;
pub mod provider;
pub mod mcp;
pub mod tool_args;
pub mod skills;
pub mod config;
pub mod agent;
pub mod paths;
pub mod mcp_config;
pub mod plugins;
pub mod completions;
pub mod cli;
pub mod sdk;
pub mod factory;
pub mod server;
pub mod skill_index;
pub mod session_list;
