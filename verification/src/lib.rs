//! The decisions of an HTTP client that passes for a browser: what it asks
//! for, whom it shows a response to, which redirects it follows, and what it
//! counts as received. Nothing here touches the network; whoever drives the
//! client carries out what each state asks for and reports what happened.

pub mod address;
pub mod body;
pub mod chain;
pub mod client;
pub mod cors;
pub mod error;
pub mod fetch;
pub mod fields;
pub mod identity;
pub mod laws;
pub mod message;
pub mod models;
pub mod reader;
pub mod request;
pub mod retry;
pub mod single;
pub mod steps;
pub mod table;
pub mod text;
pub mod traffic;
