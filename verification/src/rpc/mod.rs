pub mod dispatch;
pub mod service;
pub mod types;
