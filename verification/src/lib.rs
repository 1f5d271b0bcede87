//! Client-side library for "send mode" resources: enum and entity codecs
//! across JSON, relational-row and cache representations, a resilient
//! request-execution core (timeout, fixed-interval retry, failure
//! classification), and the request-building / response-interpretation
//! halves of the send-mode API clients.

pub mod cache;
pub mod json;
pub mod row;
pub mod send_modes;
pub mod strutil;
pub mod tools;
pub mod trusted;
