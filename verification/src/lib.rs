//! Core logic of an open.mp / SA-MP launcher backend: server-list
//! normalisation, query-reply assembly, launch planning, the injector's
//! command-line handling and the JSON answers of the C boundary.

pub mod decimal;
pub mod injector;
pub mod launcher;
pub mod query;
pub mod response;
pub mod rules;
pub mod servers;
pub mod text;
