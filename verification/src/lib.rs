//! The verified core of a bridge between a wearable assistant and the Rabbit
//! OS3 service: login steps, the chat exchange, provider selection and the
//! text handling they share.

pub mod clock;
pub mod cookies;
pub mod json;
pub mod llm;
pub mod os3_auth;
pub mod os3_http;
pub mod text;
pub mod util;
