//! A tile-map server library.
//!
//! Map tiles are PNG files stored under a configured root directory, laid out
//! as `{root}/{z}/{x}/{y}.png` in the slippy-map addressing scheme. This
//! crate holds the request-handling core: parsing a request's coordinate
//! segments, resolving a coordinate to its file path, and mapping the result
//! of the file read to the HTTP response owed to the client. The surrounding
//! process — argument handling, the HTTP transport, the file read itself, and
//! logging — lives outside and hands this crate plain values.

mod config;
mod digits;
mod laws;
mod response;
mod route;
mod tiles;

pub use config::{AppState, Args};
pub use digits::{
    all_dec_digits, dec_digits, dec_value, is_dec_digit, is_u32_decimal, parse_decimal_u32,
    u32_to_decimal,
};
pub use laws::{lemma_tile_paths_distinct, lemma_tile_service_deterministic};
pub use response::{serve_root, tile_outcome, FileRead, LogLevel, ResponseOutcome};
pub use route::{dispatch, is_tile_route, is_tile_route_with, lemma_tile_route_unique, Route};
pub use tiles::{resolve_tile_path, tile_path_spec, TileCoordinate};
