//! The decisions of the read-only HTTP API: query helpers, error rendering, ETags and the list
//! endpoints' filters. Serving, routing and database access are the application's part.

pub mod db;
pub mod error;
pub mod etag;
pub mod routes;
