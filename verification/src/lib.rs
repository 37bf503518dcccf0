//! Verified core of the NEXUS agent: the graph agent's step rule, the ReAct
//! loop's decisions, the access-token checks, the session state, the tool
//! registry and dispatch plans, and the text handling they rest on.
pub mod text;
pub mod json;
pub mod memory;
pub mod agent;
pub mod quantum;
pub mod mcp;
pub mod state;
pub mod react;
pub mod auth;
pub mod tools;
pub mod rpc;
pub mod invoke;
