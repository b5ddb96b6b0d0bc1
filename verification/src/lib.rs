//! Core logic of the Virust web framework: route discovery for static
//! generation, the component registry used for server-side rendering, the
//! in-memory persistence store, routing metadata and the decisions taken by
//! the command-line tool.

pub mod cli;
pub mod clock;
pub mod component;
pub mod http;
pub mod json;
pub mod keyed;
pub mod persistence;
pub mod routes;
pub mod ssg;
pub mod templates;
pub mod text;
