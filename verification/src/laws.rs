//! What the library promises as a whole: relations between what goes in and what comes out, read
//! member by member.

pub mod members;
pub mod events;
pub mod chat_stream;
pub mod anthropic_stream;
pub mod texts;
pub mod upstream_request;
pub mod numbers;
pub mod upstream_params;
pub mod message_request;
pub mod response_request;
pub mod response_stream;
pub mod answers;
pub mod failures;
pub mod delivery;
pub mod ends;
pub mod settings;
pub mod accepted;
pub mod codes;
pub mod service;
