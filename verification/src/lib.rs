use vstd::prelude::*;

pub mod asserts;
pub mod data_pool;
pub mod http_run;
pub mod http_stats;
pub mod json;
pub mod pending;
pub mod prebuilt;
pub mod request_fields;
pub mod setup;
pub mod text;
pub mod url_parts;
pub mod ws_connection;
pub mod ws_error_stats;
pub mod ws_logic;
pub mod ws_model;
pub mod ws_stats;

verus! {

} // verus!
