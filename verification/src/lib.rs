//! A small user-lookup service core: user records held in an in-memory
//! store with unique identifiers, lookup by identifier, a filtered listing
//! by name substring and grade with optional exact criteria, the parsing of
//! path parameters, the plain-text responses the routes answer with, and a
//! visitor counter. Every route's decision is specified and verified; the
//! web framework, the database driver and all other I/O stay outside.

pub mod counter;
pub mod ids;
pub mod response;
pub mod routes;
pub mod store;
pub mod text;
pub mod user;
