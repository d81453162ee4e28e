//! Translations: requests of the three client protocols into chat requests, and upstream events
//! into what the clients of each protocol read.

pub mod anthropic_request;
pub mod responses_request;
pub mod events;
pub mod chat;
pub mod anthropic;
pub mod responses;
