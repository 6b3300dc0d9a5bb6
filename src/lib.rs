//! Request routing: route patterns compiled into anchored matchers with named
//! parameters, a route table that picks the first route that fits a request,
//! the per-request context, and a registry of shared services.
mod text;
pub mod pattern;
pub mod matcher;
pub mod registry;
pub mod context;
pub mod router;
