//! Content ingestion and retrieval engine: URL canonicalization, the
//! idempotent-or-conflicting create protocol, filtered and paginated listing,
//! and the request lifecycle coordinator used for graceful shutdown.

pub mod errors;
pub mod ingest;
pub mod listing;
pub mod models;
pub mod query;
pub mod repositories;
pub mod routes;
pub mod shutdown;
pub mod text;
pub mod validation;
