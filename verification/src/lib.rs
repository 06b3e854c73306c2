//! OAuth 2.0 authorization server logic, bearer-token checks, configuration
//! rules and git/MCP bookkeeping for a remote Firm workspace server.
pub mod auth;
pub mod config;
pub mod git;
pub mod server;
pub mod text;
