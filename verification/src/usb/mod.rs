pub mod context;
pub mod device;
pub mod error;
pub mod event;
pub mod listener;
