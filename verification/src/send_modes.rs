pub mod client;
pub mod error;
pub mod event;
pub mod notification_types;
pub mod send_mode;
