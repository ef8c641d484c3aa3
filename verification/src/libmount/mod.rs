pub mod error;
pub mod event;
pub mod fs;
pub mod iter;
pub mod monitor;
pub mod parse;
pub mod serve;
pub mod table;
pub mod util;
