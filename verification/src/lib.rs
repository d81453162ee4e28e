pub mod cc;
pub mod config;
pub mod errors;
pub mod fingerprint;
pub mod float;
pub mod handlers;
pub mod http_util;
pub mod json;
pub mod laws;
pub mod logging;
pub mod startup;
pub mod state;
pub mod table;
pub mod text;
pub mod translate;
pub mod util;
